//! Checks a language model's task breakdown (a JSON array of subtasks)
//! against a strict schema, checks that the declared prerequisites form no
//! cycle, and decodes the subtasks into typed records.

mod decode;
mod fence;
mod graph;
mod json;
mod laws;
mod reply;
mod schema;
mod subtask;

pub use decode::{decode, decode_subtask, DecodeError, Dependencies, Resources, SubTask};
pub use fence::payload_range;
pub use graph::{build_graph, check_acyclic, collect_ids, has_cycle, DependencyGraph, GraphError};
pub use json::{find_member, Json};
pub use laws::{
    lemma_count_out_of_range,
    lemma_dangling_prerequisite,
    lemma_energy_forms_agree,
    lemma_missing_field,
    lemma_mutual_prerequisites,
    lemma_time_out_of_range,
    lemma_valid_batch,
};
pub use reply::{completion_content, subtasks_from_reply, ReplyError};
pub use schema::{check_element, read_energy, validate, ValidationError};
pub use subtask::{Field, MentalEnergy, TaskType};
