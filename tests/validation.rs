use task_breakdown::{
    check_acyclic, completion_content, decode, has_cycle, subtasks_from_reply, validate, DecodeError,
    DependencyGraph, Field, GraphError, Json, MentalEnergy, ReplyError, TaskType, ValidationError,
};

fn text(s: &str) -> Json {
    Json::Str(s.to_string())
}

fn ints(v: &[i128]) -> Json {
    Json::Array(v.iter().map(|n| Json::Int(*n)).collect())
}

fn texts(v: &[&str]) -> Json {
    Json::Array(v.iter().map(|s| text(s)).collect())
}

fn object(members: Vec<(&str, Json)>) -> Json {
    Json::Object(members.into_iter().map(|(k, v)| (k.to_string(), v)).collect())
}

fn subtask_with(id: i128, minutes: Json, energy: Json, task_type: Json, prereqs: &[i128]) -> Json {
    object(vec![
        ("id", Json::Int(id)),
        ("description", text(&format!("Step {}", id))),
        ("time_estimate_minutes", minutes),
        ("mental_energy", energy),
        ("task_type", task_type),
        (
            "dependencies",
            object(vec![
                ("prerequisite_tasks", ints(prereqs)),
                ("unlocks", ints(&[])),
                ("critical_path", Json::Bool(true)),
            ]),
        ),
        (
            "resources",
            object(vec![("tools", texts(&["Spreadsheet"])), ("references", texts(&["Guide"]))]),
        ),
    ])
}

fn subtask(id: i128, prereqs: &[i128]) -> Json {
    subtask_with(id, Json::Int(60), text("medium"), text("execution"), prereqs)
}

fn without(v: Json, field: &str) -> Json {
    match v {
        Json::Object(members) => Json::Object(members.into_iter().filter(|(k, _)| k != field).collect()),
        other => other,
    }
}

fn batch(n: i128) -> Json {
    Json::Array((1..=n).map(|i| subtask(i, &[])).collect())
}

#[test]
fn valid_batch_validates_and_decodes_every_field() {
    let v = Json::Array(vec![
        subtask_with(1, Json::Int(15), text("high"), text("creative"), &[]),
        subtask_with(2, Json::Int(240), text("low"), text("decision_making"), &[1]),
    ]);
    assert_eq!(validate(&v), Ok(()));
    let ts = decode(&v).unwrap();
    assert_eq!(ts.len(), 2);
    assert_eq!(ts[0].id, 1);
    assert_eq!(ts[0].description, "Step 1");
    assert_eq!(ts[0].time_estimate_minutes, 15);
    assert_eq!(ts[0].mental_energy, MentalEnergy::High);
    assert_eq!(ts[0].task_type, TaskType::Creative);
    assert_eq!(ts[1].id, 2);
    assert_eq!(ts[1].time_estimate_minutes, 240);
    assert_eq!(ts[1].mental_energy, MentalEnergy::Low);
    assert_eq!(ts[1].task_type, TaskType::DecisionMaking);
    assert_eq!(ts[1].dependencies.prerequisite_tasks, vec![1]);
    assert!(ts[1].dependencies.unlocks.is_empty());
    assert!(ts[1].dependencies.critical_path);
    assert_eq!(ts[1].resources.tools, vec!["Spreadsheet".to_string()]);
    assert_eq!(ts[1].resources.references, vec!["Guide".to_string()]);
}

#[test]
fn sizes_two_to_six_are_accepted() {
    for n in 2..=6 {
        assert_eq!(validate(&batch(n)), Ok(()));
    }
}

#[test]
fn sizes_zero_one_and_seven_are_refused() {
    assert_eq!(validate(&batch(0)), Err(ValidationError::CountOutOfRange(0)));
    assert_eq!(validate(&batch(1)), Err(ValidationError::CountOutOfRange(1)));
    assert_eq!(validate(&batch(7)), Err(ValidationError::CountOutOfRange(7)));
}

#[test]
fn not_an_array_is_refused() {
    assert_eq!(validate(&object(vec![])), Err(ValidationError::NotAnArray));
    assert_eq!(validate(&text("[]")), Err(ValidationError::NotAnArray));
}

#[test]
fn not_an_object_is_refused_with_its_position() {
    let v = Json::Array(vec![subtask(1, &[]), Json::Int(3)]);
    assert_eq!(validate(&v), Err(ValidationError::NotAnObject(1)));
}

#[test]
fn each_missing_field_is_named() {
    let cases = [
        ("description", Field::Description),
        ("time_estimate_minutes", Field::TimeEstimateMinutes),
        ("mental_energy", Field::MentalEnergy),
        ("task_type", Field::TaskType),
        ("dependencies", Field::Dependencies),
        ("resources", Field::Resources),
    ];
    for (name, field) in cases {
        let v = Json::Array(vec![subtask(1, &[]), without(subtask(2, &[]), name)]);
        assert_eq!(validate(&v), Err(ValidationError::MissingField(1, field)));
        assert_eq!(field.name(), name);
    }
}

#[test]
fn time_estimates_outside_range_are_refused() {
    for minutes in [10, 14, 241, -5] {
        let v = Json::Array(vec![
            subtask(1, &[]),
            subtask_with(2, Json::Int(minutes), text("low"), text("learning"), &[]),
        ]);
        assert_eq!(validate(&v), Err(ValidationError::TimeEstimateOutOfRange(1)));
    }
    for bad in [Json::Fractional, text("60"), Json::Null] {
        let v = Json::Array(vec![subtask_with(1, bad, text("low"), text("learning"), &[]), subtask(2, &[])]);
        assert_eq!(validate(&v), Err(ValidationError::TimeEstimateOutOfRange(0)));
    }
}

#[test]
fn time_estimate_is_checked_before_missing_fields() {
    let v = Json::Array(vec![
        without(subtask_with(1, Json::Int(500), text("low"), text("learning"), &[]), "description"),
        subtask(2, &[]),
    ]);
    assert_eq!(validate(&v), Err(ValidationError::TimeEstimateOutOfRange(0)));
}

#[test]
fn mental_energy_as_string_or_single_list_reads_the_same() {
    let plain = Json::Array(vec![
        subtask_with(1, Json::Int(30), text("high"), text("analytical"), &[]),
        subtask(2, &[]),
    ]);
    let listed = Json::Array(vec![
        subtask_with(1, Json::Int(30), texts(&["high"]), text("analytical"), &[]),
        subtask(2, &[]),
    ]);
    assert_eq!(validate(&plain), Ok(()));
    assert_eq!(validate(&listed), Ok(()));
    let a = decode(&plain).unwrap();
    let b = decode(&listed).unwrap();
    assert_eq!(a[0].mental_energy, MentalEnergy::High);
    assert_eq!(b[0].mental_energy, MentalEnergy::High);
}

#[test]
fn unknown_or_malformed_mental_energy_is_refused() {
    for energy in [text("urgent"), texts(&["high", "low"]), texts(&[]), Json::Int(1), ints(&[1])] {
        let v = Json::Array(vec![subtask(1, &[]), subtask_with(2, Json::Int(30), energy, text("learning"), &[])]);
        assert_eq!(validate(&v), Err(ValidationError::InvalidMentalEnergy(1)));
    }
}

#[test]
fn task_type_lists_are_checked_entry_by_entry() {
    let ok = Json::Array(vec![
        subtask_with(1, Json::Int(30), text("low"), texts(&["creative", "learning"]), &[]),
        subtask(2, &[]),
    ]);
    assert_eq!(validate(&ok), Ok(()));
    for task_type in [text("planning"), texts(&["creative", "dreaming"]), Json::Bool(true), ints(&[2])] {
        let v = Json::Array(vec![subtask_with(1, Json::Int(30), text("low"), task_type, &[]), subtask(2, &[])]);
        assert_eq!(validate(&v), Err(ValidationError::InvalidTaskType(0)));
    }
}

#[test]
fn two_task_types_pass_validation_but_do_not_decode() {
    let v = Json::Array(vec![
        subtask(1, &[]),
        subtask_with(2, Json::Int(30), text("low"), texts(&["creative", "learning"]), &[]),
    ]);
    assert_eq!(validate(&v), Ok(()));
    assert!(matches!(decode(&v), Err(DecodeError::StructuralMismatch(1))));
}

#[test]
fn decode_refuses_ids_that_do_not_fit() {
    let v = Json::Array(vec![subtask(1, &[]), subtask(5_000_000_000, &[])]);
    assert_eq!(validate(&v), Ok(()));
    assert!(matches!(decode(&v), Err(DecodeError::StructuralMismatch(1))));
    assert!(matches!(decode(&text("x")), Err(DecodeError::NotAnArray)));
}

#[test]
fn two_cycle_is_detected() {
    let v = Json::Array(vec![subtask(1, &[2]), subtask(2, &[1])]);
    assert_eq!(validate(&v), Err(ValidationError::Dependency(GraphError::CycleDetected)));
}

#[test]
fn self_loop_is_detected() {
    let items = vec![subtask(1, &[1]), subtask(2, &[])];
    assert_eq!(check_acyclic(&items), Err(GraphError::CycleDetected));
}

#[test]
fn diamond_is_acyclic() {
    let items = vec![subtask(1, &[2, 3]), subtask(2, &[4]), subtask(3, &[4]), subtask(4, &[])];
    assert_eq!(check_acyclic(&items), Ok(()));
    assert_eq!(validate(&Json::Array(items)), Ok(()));
}

#[test]
fn cycle_apart_from_the_first_subtasks_is_detected() {
    let items = vec![subtask(1, &[2]), subtask(2, &[]), subtask(3, &[5]), subtask(4, &[3]), subtask(5, &[4])];
    assert_eq!(check_acyclic(&items), Err(GraphError::CycleDetected));
}

#[test]
fn dangling_prerequisite_is_not_an_error() {
    let v = Json::Array(vec![subtask(1, &[99]), subtask(2, &[1])]);
    assert_eq!(validate(&v), Ok(()));
}

#[test]
fn invalid_id_is_refused() {
    let mut bad = subtask(1, &[]);
    if let Json::Object(members) = &mut bad {
        members[0].1 = text("one");
    }
    let items = vec![bad, subtask(2, &[])];
    assert_eq!(check_acyclic(&items), Err(GraphError::InvalidId));
    let mut negative = subtask(1, &[]);
    if let Json::Object(members) = &mut negative {
        members[0].1 = Json::Int(-1);
    }
    assert_eq!(check_acyclic(&vec![negative, subtask(2, &[])]), Err(GraphError::InvalidId));
}

#[test]
fn id_without_prerequisite_array_is_not_checked() {
    let mut no_list = without(subtask(1, &[]), "dependencies");
    if let Json::Object(members) = &mut no_list {
        members[0].1 = text("one");
    }
    assert_eq!(check_acyclic(&vec![no_list, subtask(2, &[])]), Ok(()));
}

#[test]
fn graph_cycle_search_on_plain_ids() {
    let chain = DependencyGraph { ids: vec![1, 2, 3], prerequisites: vec![vec![], vec![1], vec![2, 7]] };
    assert!(!has_cycle(&chain));
    let looped = DependencyGraph { ids: vec![1, 2, 3], prerequisites: vec![vec![3], vec![1], vec![2]] };
    assert!(has_cycle(&looped));
    let empty = DependencyGraph { ids: vec![], prerequisites: vec![] };
    assert!(!has_cycle(&empty));
}

#[test]
fn plan_a_small_conference_end_to_end() {
    let tasks = vec![subtask(1, &[]), subtask(2, &[1]), subtask(3, &[2]), subtask(4, &[3])];
    let reply = object(vec![("subtasks", Json::Array(tasks))]);
    let ts = subtasks_from_reply(&reply).unwrap();
    assert_eq!(ts.len(), 4);
    for (i, t) in ts.iter().enumerate() {
        assert_eq!(t.id as usize, i + 1);
    }
    assert_eq!(ts[3].dependencies.prerequisite_tasks, vec![3]);
}

#[test]
fn reply_without_subtasks_is_refused() {
    assert_eq!(subtasks_from_reply(&object(vec![])).err(), Some(ReplyError::MissingSubtasks));
    let reply = object(vec![("subtasks", batch(1))]);
    assert_eq!(
        subtasks_from_reply(&reply).err(),
        Some(ReplyError::Invalid(ValidationError::CountOutOfRange(1)))
    );
}

#[test]
fn completion_content_reads_the_first_choice() {
    let envelope = object(vec![(
        "choices",
        Json::Array(vec![object(vec![("message", object(vec![("content", text("{\"subtasks\": []}"))]))])]),
    )]);
    assert_eq!(completion_content(&envelope).map(|s| s.as_str()), Some("{\"subtasks\": []}"));
    assert_eq!(completion_content(&object(vec![("choices", Json::Array(vec![]))])), None);
    assert_eq!(completion_content(&object(vec![])), None);
}
