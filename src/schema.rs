use vstd::prelude::*;

use crate::graph::{acyclic_result, check_acyclic, GraphError};
use crate::json::{get, int_in, Json};
use crate::subtask::{energy_of, task_type_of, Field, MentalEnergy, TaskType};

verus! {

/// Why a reply does not hold a well-formed batch of subtasks. The `usize`
/// is the position of the offending subtask.
#[derive(Debug, Clone, Copy, PartialEq, Eq, Structural)]
pub enum ValidationError {
    NotAnArray,
    /// The batch holds this many subtasks, not 2 to 6.
    CountOutOfRange(usize),
    NotAnObject(usize),
    /// `time_estimate_minutes` is not an integer from 15 to 240.
    TimeEstimateOutOfRange(usize),
    MissingField(usize, Field),
    InvalidMentalEnergy(usize),
    InvalidTaskType(usize),
    Dependency(GraphError),
}

pub open spec fn min_subtasks() -> int {
    2
}

pub open spec fn max_subtasks() -> int {
    6
}

/// The mental energy that a member gives: one of the three names, alone or
/// as the only entry of an array.
pub open spec fn energy_value(v: Json) -> Option<MentalEnergy> {
    match v {
        Json::Str(s) => energy_of(s@),
        Json::Array(a) => if a@.len() == 1 {
            match a@[0] {
                Json::Str(s) => energy_of(s@),
                _ => None,
            }
        } else {
            None
        },
        _ => None,
    }
}

/// A task type member is one valid name, or an array of valid names.
pub open spec fn task_types_valid(v: Json) -> bool {
    match v {
        Json::Str(s) => task_type_of(s@) is Some,
        Json::Array(a) => forall|i: int|
            0 <= i < a@.len() ==> match #[trigger] a@[i] {
                Json::Str(s) => task_type_of(s@) is Some,
                _ => false,
            },
        _ => false,
    }
}

pub open spec fn has_member(v: Json, f: Field) -> bool {
    get(v, f.key()) is Some
}

/// The first of the six required members, in order, that `v` lacks.
pub open spec fn first_missing(v: Json) -> Option<Field> {
    if !has_member(v, Field::Description) {
        Some(Field::Description)
    } else if !has_member(v, Field::TimeEstimateMinutes) {
        Some(Field::TimeEstimateMinutes)
    } else if !has_member(v, Field::MentalEnergy) {
        Some(Field::MentalEnergy)
    } else if !has_member(v, Field::TaskType) {
        Some(Field::TaskType)
    } else if !has_member(v, Field::Dependencies) {
        Some(Field::Dependencies)
    } else if !has_member(v, Field::Resources) {
        Some(Field::Resources)
    } else {
        None
    }
}

/// What is wrong with the subtask `v` at position `i`, checked in this
/// order: its shape, its time estimate, its required members, its mental
/// energy, its task type.
pub open spec fn element_error(i: usize, v: Json) -> Option<ValidationError> {
    match v {
        Json::Object(_) => {
            let time = get(v, "time_estimate_minutes"@);
            if time is Some && int_in(time->Some_0, 15, 240) is None {
                Some(ValidationError::TimeEstimateOutOfRange(i))
            } else if first_missing(v) is Some {
                Some(ValidationError::MissingField(i, first_missing(v)->Some_0))
            } else if energy_value(get(v, "mental_energy"@)->Some_0) is None {
                Some(ValidationError::InvalidMentalEnergy(i))
            } else if !task_types_valid(get(v, "task_type"@)->Some_0) {
                Some(ValidationError::InvalidTaskType(i))
            } else {
                None
            }
        },
        _ => Some(ValidationError::NotAnObject(i)),
    }
}

/// The first error among the first `n` subtasks.
pub open spec fn first_error(items: Seq<Json>, n: nat) -> Option<ValidationError>
    decreases n,
{
    if n == 0 {
        None
    } else {
        match first_error(items, (n - 1) as nat) {
            Some(e) => Some(e),
            None => element_error((n - 1) as usize, items[n - 1]),
        }
    }
}

/// What validating a reply gives.
pub open spec fn validation_result(v: Json) -> Result<(), ValidationError> {
    match v {
        Json::Array(a) => {
            let items = a@;
            if items.len() < min_subtasks() || items.len() > max_subtasks() {
                Err(ValidationError::CountOutOfRange(items.len() as usize))
            } else if first_error(items, items.len()) is Some {
                Err(first_error(items, items.len())->Some_0)
            } else {
                match acyclic_result(items) {
                    Ok(_) => Ok(()),
                    Err(e) => Err(ValidationError::Dependency(e)),
                }
            }
        },
        _ => Err(ValidationError::NotAnArray),
    }
}

/// Reads a mental energy member.
pub fn read_energy(v: &Json) -> (r: Option<MentalEnergy>)
    ensures
        r == energy_value(*v),
{
    match v {
        Json::Str(s) => MentalEnergy::from_text(s),
        Json::Array(a) => if a.len() == 1 {
            match &a[0] {
                Json::Str(s) => MentalEnergy::from_text(s),
                _ => None,
            }
        } else {
            None
        },
        _ => None,
    }
}

fn check_task_types(v: &Json) -> (r: bool)
    ensures
        r == task_types_valid(*v),
{
    match v {
        Json::Str(s) => TaskType::from_text(s).is_some(),
        Json::Array(a) => {
            let mut i: usize = 0;
            while i < a.len()
                invariant
                    0 <= i <= a.len(),
                    *v == Json::Array(*a),
                    forall|j: int|
                        0 <= j < i ==> match #[trigger] a@[j] {
                            Json::Str(s) => task_type_of(s@) is Some,
                            _ => false,
                        },
                decreases a.len() - i,
            {
                match &a[i] {
                    Json::Str(s) => {
                        if TaskType::from_text(s).is_none() {
                            assert(!task_types_valid(*v)) by {
                                assert(a@[i as int] == Json::Str(*s));
                            }
                            return false;
                        }
                    },
                    _ => {
                        assert(!task_types_valid(*v)) by {
                            assert(a@[i as int] is Str == false);
                        }
                        return false;
                    },
                }
                i = i + 1;
            }
            true
        },
        _ => false,
    }
}

fn missing_field(v: &Json) -> (r: Option<Field>)
    ensures
        r == first_missing(*v),
{
    let fields = [
        Field::Description,
        Field::TimeEstimateMinutes,
        Field::MentalEnergy,
        Field::TaskType,
        Field::Dependencies,
        Field::Resources,
    ];
    if v.get_member(fields[0].name()).is_none() {
        return Some(fields[0]);
    }
    if v.get_member(fields[1].name()).is_none() {
        return Some(fields[1]);
    }
    if v.get_member(fields[2].name()).is_none() {
        return Some(fields[2]);
    }
    if v.get_member(fields[3].name()).is_none() {
        return Some(fields[3]);
    }
    if v.get_member(fields[4].name()).is_none() {
        return Some(fields[4]);
    }
    if v.get_member(fields[5].name()).is_none() {
        return Some(fields[5]);
    }
    None
}

/// Checks one subtask, at position `i`.
pub fn check_element(i: usize, v: &Json) -> (r: Option<ValidationError>)
    ensures
        r == element_error(i, *v),
{
    match v {
        Json::Object(_) => {
            match v.get_member("time_estimate_minutes") {
                Some(Json::Int(n)) => {
                    if *n < 15 || *n > 240 {
                        return Some(ValidationError::TimeEstimateOutOfRange(i));
                    }
                },
                Some(_) => {
                    return Some(ValidationError::TimeEstimateOutOfRange(i));
                },
                None => {},
            }
            match missing_field(v) {
                Some(f) => {
                    return Some(ValidationError::MissingField(i, f));
                },
                None => {},
            }
            match v.get_member("mental_energy") {
                Some(e) => if read_energy(e).is_none() {
                    return Some(ValidationError::InvalidMentalEnergy(i));
                },
                None => {},
            }
            match v.get_member("task_type") {
                Some(t) => if !check_task_types(t) {
                    return Some(ValidationError::InvalidTaskType(i));
                },
                None => {},
            }
            None
        },
        _ => Some(ValidationError::NotAnObject(i)),
    }
}

/// Checks that a reply is an array of 2 to 6 well-formed subtasks whose
/// prerequisites form no cycle.
pub fn validate(json: &Json) -> (r: Result<(), ValidationError>)
    ensures
        r == validation_result(*json),
{
    match json {
        Json::Array(items) => {
            let n = items.len();
            if n < 2 || n > 6 {
                return Err(ValidationError::CountOutOfRange(n));
            }
            let mut i: usize = 0;
            while i < n
                invariant
                    n == items@.len(),
                    *json == Json::Array(*items),
                    2 <= n <= 6,
                    0 <= i <= n,
                    first_error(items@, i as nat) is None,
                decreases n - i,
            {
                match check_element(i, &items[i]) {
                    Some(e) => {
                        proof {
                            assert(first_error(items@, (i + 1) as nat) == Some(e));
                            lemma_first_error_stays(items@, (i + 1) as nat, n as nat);
                        }
                        return Err(e);
                    },
                    None => {},
                }
                i = i + 1;
            }
            match check_acyclic(items) {
                Ok(_) => Ok(()),
                Err(e) => Err(ValidationError::Dependency(e)),
            }
        },
        _ => Err(ValidationError::NotAnArray),
    }
}

pub proof fn lemma_first_error_stays(items: Seq<Json>, i: nat, n: nat)
    requires
        i <= n,
        first_error(items, i) is Some,
    ensures
        first_error(items, n) == first_error(items, i),
    decreases n - i,
{
    if i < n {
        lemma_first_error_stays(items, i, (n - 1) as nat);
    }
}

} // verus!
