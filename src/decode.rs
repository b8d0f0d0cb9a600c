use vstd::prelude::*;

use crate::json::{get, Json};
use crate::schema::{energy_value, read_energy};
use crate::subtask::{task_type_of, MentalEnergy, TaskType};

verus! {

/// What a subtask depends on and what it enables.
pub struct Dependencies {
    pub prerequisite_tasks: Vec<u32>,
    pub unlocks: Vec<u32>,
    pub critical_path: bool,
}

/// Tools and reading material that a subtask needs.
pub struct Resources {
    pub tools: Vec<String>,
    pub references: Vec<String>,
}

/// One unit of work in a task breakdown.
pub struct SubTask {
    pub id: u32,
    pub description: String,
    pub time_estimate_minutes: u32,
    pub mental_energy: MentalEnergy,
    pub task_type: TaskType,
    pub dependencies: Dependencies,
    pub resources: Resources,
}

/// A subtask as plain values.
pub struct SubTaskView {
    pub id: u32,
    pub description: Seq<char>,
    pub time_estimate_minutes: u32,
    pub mental_energy: MentalEnergy,
    pub task_type: TaskType,
    pub prerequisite_tasks: Seq<u32>,
    pub unlocks: Seq<u32>,
    pub critical_path: bool,
    pub tools: Seq<Seq<char>>,
    pub references: Seq<Seq<char>>,
}

pub open spec fn texts(v: Seq<String>) -> Seq<Seq<char>> {
    v.map_values(|t: String| t@)
}

impl View for SubTask {
    type V = SubTaskView;

    open spec fn view(&self) -> SubTaskView {
        SubTaskView {
            id: self.id,
            description: self.description@,
            time_estimate_minutes: self.time_estimate_minutes,
            mental_energy: self.mental_energy,
            task_type: self.task_type,
            prerequisite_tasks: self.dependencies.prerequisite_tasks@,
            unlocks: self.dependencies.unlocks@,
            critical_path: self.dependencies.critical_path,
            tools: texts(self.resources.tools@),
            references: texts(self.resources.references@),
        }
    }
}

/// Why validated JSON still does not map onto subtask records.
#[derive(Debug, Clone, Copy, PartialEq, Eq, Structural)]
pub enum DecodeError {
    NotAnArray,
    /// The subtask at this position has a member of the wrong shape.
    StructuralMismatch(usize),
}

pub open spec fn as_u32(v: Json) -> Option<u32> {
    match v {
        Json::Int(n) => if 0 <= n <= u32::MAX { Some(n as u32) } else { None },
        _ => None,
    }
}

pub open spec fn u32_value(v: Json) -> u32 {
    as_u32(v)->Some_0
}

pub open spec fn text_value(v: Json) -> Seq<char> {
    v->Str_0@
}

/// An array of integers that fit in `u32`, as those integers.
pub open spec fn u32_array(v: Json) -> Option<Seq<u32>> {
    match v {
        Json::Array(a) => if forall|i: int| 0 <= i < a@.len() ==> as_u32(#[trigger] a@[i]) is Some {
            Some(a@.map_values(|j: Json| u32_value(j)))
        } else {
            None
        },
        _ => None,
    }
}

/// An array of strings, as those strings.
pub open spec fn text_array(v: Json) -> Option<Seq<Seq<char>>> {
    match v {
        Json::Array(a) => if forall|i: int| 0 <= i < a@.len() ==> (#[trigger] a@[i]) is Str {
            Some(a@.map_values(|j: Json| text_value(j)))
        } else {
            None
        },
        _ => None,
    }
}

/// A task type: one name, alone or as the only entry of an array.
pub open spec fn task_type_value(v: Json) -> Option<TaskType> {
    match v {
        Json::Str(s) => task_type_of(s@),
        Json::Array(a) => if a@.len() == 1 {
            match a@[0] {
                Json::Str(s) => task_type_of(s@),
                _ => None,
            }
        } else {
            None
        },
        _ => None,
    }
}

pub open spec fn member_is<T>(v: Json, key: Seq<char>, f: spec_fn(Json) -> Option<T>) -> bool {
    get(v, key) is Some && f(get(v, key)->Some_0) is Some
}

pub open spec fn member_value<T>(v: Json, key: Seq<char>, f: spec_fn(Json) -> Option<T>) -> T {
    f(get(v, key)->Some_0)->Some_0
}

pub open spec fn str_value(v: Json) -> Option<Seq<char>> {
    match v {
        Json::Str(s) => Some(s@),
        _ => None,
    }
}

pub open spec fn bool_value(v: Json) -> Option<bool> {
    match v {
        Json::Bool(b) => Some(b),
        _ => None,
    }
}

/// The subtask record that `v` holds, if each member it needs has the
/// right shape. Other members are ignored.
pub open spec fn decode_item(v: Json) -> Option<SubTaskView> {
    let deps = get(v, "dependencies"@);
    let res = get(v, "resources"@);
    if member_is(v, "id"@, |j| as_u32(j)) && member_is(v, "description"@, |j| str_value(j))
        && member_is(v, "time_estimate_minutes"@, |j| as_u32(j)) && member_is(
        v,
        "mental_energy"@,
        |j| energy_value(j),
    ) && member_is(v, "task_type"@, |j| task_type_value(j)) && deps is Some && member_is(
        deps->Some_0,
        "prerequisite_tasks"@,
        |j| u32_array(j),
    ) && member_is(deps->Some_0, "unlocks"@, |j| u32_array(j)) && member_is(
        deps->Some_0,
        "critical_path"@,
        |j| bool_value(j),
    ) && res is Some && member_is(res->Some_0, "tools"@, |j| text_array(j)) && member_is(
        res->Some_0,
        "references"@,
        |j| text_array(j),
    ) {
        Some(
            SubTaskView {
                id: member_value(v, "id"@, |j| as_u32(j)),
                description: member_value(v, "description"@, |j| str_value(j)),
                time_estimate_minutes: member_value(v, "time_estimate_minutes"@, |j| as_u32(j)),
                mental_energy: member_value(v, "mental_energy"@, |j| energy_value(j)),
                task_type: member_value(v, "task_type"@, |j| task_type_value(j)),
                prerequisite_tasks: member_value(deps->Some_0, "prerequisite_tasks"@, |j| u32_array(j)),
                unlocks: member_value(deps->Some_0, "unlocks"@, |j| u32_array(j)),
                critical_path: member_value(deps->Some_0, "critical_path"@, |j| bool_value(j)),
                tools: member_value(res->Some_0, "tools"@, |j| text_array(j)),
                references: member_value(res->Some_0, "references"@, |j| text_array(j)),
            },
        )
    } else {
        None
    }
}

fn read_u32(v: &Json) -> (r: Option<u32>)
    ensures
        r == as_u32(*v),
{
    match v {
        Json::Int(n) => if 0 <= *n && *n <= u32::MAX as i128 { Some(*n as u32) } else { None },
        _ => None,
    }
}

fn read_u32_array(v: &Json) -> (r: Option<Vec<u32>>)
    ensures
        match r {
            Some(x) => u32_array(*v) == Some(x@),
            None => u32_array(*v) is None,
        },
{
    match v {
        Json::Array(a) => {
            let mut out: Vec<u32> = Vec::new();
            let mut i: usize = 0;
            while i < a.len()
                invariant
                    0 <= i <= a.len(),
                    *v == Json::Array(*a),
                    forall|k: int| 0 <= k < i ==> as_u32(#[trigger] a@[k]) is Some,
                    out@ == a@.subrange(0, i as int).map_values(|j: Json| u32_value(j)),
                decreases a.len() - i,
            {
                match read_u32(&a[i]) {
                    Some(x) => out.push(x),
                    None => {
                        assert(as_u32(a@[i as int]) is None);
                        return None;
                    },
                }
                proof {
                    assert(a@.subrange(0, i + 1).map_values(|j: Json| u32_value(j)) =~= a@.subrange(
                        0,
                        i as int,
                    ).map_values(|j: Json| u32_value(j)).push(u32_value(a@[i as int])));
                }
                i = i + 1;
            }
            assert(a@.subrange(0, a@.len() as int) =~= a@);
            Some(out)
        },
        _ => None,
    }
}

fn read_text_array(v: &Json) -> (r: Option<Vec<String>>)
    ensures
        match r {
            Some(x) => text_array(*v) == Some(texts(x@)),
            None => text_array(*v) is None,
        },
{
    match v {
        Json::Array(a) => {
            let mut out: Vec<String> = Vec::new();
            let mut i: usize = 0;
            while i < a.len()
                invariant
                    0 <= i <= a.len(),
                    *v == Json::Array(*a),
                    forall|k: int| 0 <= k < i ==> (#[trigger] a@[k]) is Str,
                    texts(out@) == a@.subrange(0, i as int).map_values(|j: Json| text_value(j)),
                decreases a.len() - i,
            {
                match &a[i] {
                    Json::Str(s) => out.push(s.clone()),
                    _ => {
                        assert(!(a@[i as int] is Str));
                        return None;
                    },
                }
                proof {
                    assert(a@.subrange(0, i + 1).map_values(|j: Json| text_value(j)) =~= a@.subrange(
                        0,
                        i as int,
                    ).map_values(|j: Json| text_value(j)).push(text_value(a@[i as int])));
                    assert(texts(out@) =~= a@.subrange(0, i + 1).map_values(|j: Json| text_value(j)));
                }
                i = i + 1;
            }
            assert(a@.subrange(0, a@.len() as int) =~= a@);
            Some(out)
        },
        _ => None,
    }
}

fn read_task_type(v: &Json) -> (r: Option<TaskType>)
    ensures
        r == task_type_value(*v),
{
    match v {
        Json::Str(s) => TaskType::from_text(s),
        Json::Array(a) => if a.len() == 1 {
            match &a[0] {
                Json::Str(s) => TaskType::from_text(s),
                _ => None,
            }
        } else {
            None
        },
        _ => None,
    }
}

fn read_text(v: &Json) -> (r: Option<String>)
    ensures
        match r {
            Some(t) => str_value(*v) == Some(t@),
            None => str_value(*v) is None,
        },
{
    match v {
        Json::Str(s) => Some(s.clone()),
        _ => None,
    }
}

fn read_bool(v: &Json) -> (r: Option<bool>)
    ensures
        r == bool_value(*v),
{
    match v {
        Json::Bool(b) => Some(*b),
        _ => None,
    }
}

/// Maps one subtask object onto a record.
pub fn decode_subtask(v: &Json) -> (r: Option<SubTask>)
    ensures
        match r {
            Some(t) => decode_item(*v) == Some(t@),
            None => decode_item(*v) is None,
        },
{
    let id = match v.get_member("id") {
        Some(j) => read_u32(j),
        None => None,
    };
    let description = match v.get_member("description") {
        Some(j) => read_text(j),
        None => None,
    };
    let time = match v.get_member("time_estimate_minutes") {
        Some(j) => read_u32(j),
        None => None,
    };
    let energy = match v.get_member("mental_energy") {
        Some(j) => read_energy(j),
        None => None,
    };
    let task_type = match v.get_member("task_type") {
        Some(j) => read_task_type(j),
        None => None,
    };
    let (prerequisites, unlocks, critical) = match v.get_member("dependencies") {
        Some(d) => (
            match d.get_member("prerequisite_tasks") {
                Some(j) => read_u32_array(j),
                None => None,
            },
            match d.get_member("unlocks") {
                Some(j) => read_u32_array(j),
                None => None,
            },
            match d.get_member("critical_path") {
                Some(j) => read_bool(j),
                None => None,
            },
        ),
        None => (None, None, None),
    };
    let (tools, references) = match v.get_member("resources") {
        Some(d) => (
            match d.get_member("tools") {
                Some(j) => read_text_array(j),
                None => None,
            },
            match d.get_member("references") {
                Some(j) => read_text_array(j),
                None => None,
            },
        ),
        None => (None, None),
    };
    match (id, description, time, energy, task_type, prerequisites, unlocks, critical, tools, references) {
        (
            Some(id),
            Some(description),
            Some(time_estimate_minutes),
            Some(mental_energy),
            Some(task_type),
            Some(prerequisite_tasks),
            Some(unlocks),
            Some(critical_path),
            Some(tools),
            Some(references),
        ) => {
            let t = SubTask {
                id,
                description,
                time_estimate_minutes,
                mental_energy,
                task_type,
                dependencies: Dependencies { prerequisite_tasks, unlocks, critical_path },
                resources: Resources { tools, references },
            };
            assert(decode_item(*v) == Some(t@));
            Some(t)
        },
        _ => None,
    }
}

/// What decoding a validated reply gives: the records in order, or the
/// position of the first subtask that does not map.
pub open spec fn decode_result(v: Json) -> Result<Seq<SubTaskView>, DecodeError> {
    match v {
        Json::Array(a) => if forall|i: int| 0 <= i < a@.len() ==> decode_item(#[trigger] a@[i]) is Some {
            Ok(a@.map_values(|j: Json| decode_item(j)->Some_0))
        } else {
            let i = choose|i: int|
                0 <= i < a@.len() && decode_item(#[trigger] a@[i]) is None && forall|k: int|
                    0 <= k < i ==> decode_item(#[trigger] a@[k]) is Some;
            Err(DecodeError::StructuralMismatch(i as usize))
        },
        _ => Err(DecodeError::NotAnArray),
    }
}

pub open spec fn views(ts: Seq<SubTask>) -> Seq<SubTaskView> {
    ts.map_values(|t: SubTask| t@)
}

/// Maps an array of subtask objects onto records.
pub fn decode(json: &Json) -> (r: Result<Vec<SubTask>, DecodeError>)
    ensures
        match r {
            Ok(ts) => decode_result(*json) == Ok::<Seq<SubTaskView>, DecodeError>(views(ts@)),
            Err(e) => decode_result(*json) == Err::<Seq<SubTaskView>, DecodeError>(e),
        },
{
    match json {
        Json::Array(a) => {
            let mut out: Vec<SubTask> = Vec::new();
            let mut i: usize = 0;
            while i < a.len()
                invariant
                    0 <= i <= a.len(),
                    *json == Json::Array(*a),
                    forall|k: int| 0 <= k < i ==> decode_item(#[trigger] a@[k]) is Some,
                    views(out@) == a@.subrange(0, i as int).map_values(|j: Json| decode_item(j)->Some_0),
                decreases a.len() - i,
            {
                match decode_subtask(&a[i]) {
                    Some(t) => out.push(t),
                    None => {
                        proof {
                            let ii = i as int;
                            assert(0 <= ii < a@.len() && decode_item(a@[ii]) is None && forall|k: int|
                                0 <= k < ii ==> decode_item(#[trigger] a@[k]) is Some);
                            let c = choose|c: int|
                                0 <= c < a@.len() && decode_item(#[trigger] a@[c]) is None && forall|k: int|
                                    0 <= k < c ==> decode_item(#[trigger] a@[k]) is Some;
                            if c < i {
                                assert(decode_item(a@[c]) is Some);
                            }
                            if c > i {
                                assert(decode_item(a@[i as int]) is Some);
                            }
                        }
                        return Err(DecodeError::StructuralMismatch(i));
                    },
                }
                proof {
                    assert(a@.subrange(0, i + 1).map_values(|j: Json| decode_item(j)->Some_0) =~= a@.subrange(
                        0,
                        i as int,
                    ).map_values(|j: Json| decode_item(j)->Some_0).push(decode_item(a@[i as int])->Some_0));
                    assert(views(out@) =~= a@.subrange(0, i + 1).map_values(|j: Json| decode_item(j)->Some_0));
                }
                i = i + 1;
            }
            assert(a@.subrange(0, a@.len() as int) =~= a@);
            Ok(out)
        },
        _ => Err(DecodeError::NotAnArray),
    }
}

} // verus!
