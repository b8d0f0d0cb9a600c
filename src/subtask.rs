use vstd::prelude::*;

verus! {

/// How much concentration a subtask asks for.
#[derive(Debug, Clone, Copy, PartialEq, Eq, Structural)]
pub enum MentalEnergy {
    High,
    Medium,
    Low,
}

/// The kind of thinking a subtask calls for.
#[derive(Debug, Clone, Copy, PartialEq, Eq, Structural)]
pub enum TaskType {
    Creative,
    Analytical,
    DecisionMaking,
    Execution,
    Learning,
}

pub open spec fn energy_of(t: Seq<char>) -> Option<MentalEnergy> {
    if t == "high"@ {
        Some(MentalEnergy::High)
    } else if t == "medium"@ {
        Some(MentalEnergy::Medium)
    } else if t == "low"@ {
        Some(MentalEnergy::Low)
    } else {
        None
    }
}

pub open spec fn task_type_of(t: Seq<char>) -> Option<TaskType> {
    if t == "creative"@ {
        Some(TaskType::Creative)
    } else if t == "analytical"@ {
        Some(TaskType::Analytical)
    } else if t == "decision_making"@ {
        Some(TaskType::DecisionMaking)
    } else if t == "execution"@ {
        Some(TaskType::Execution)
    } else if t == "learning"@ {
        Some(TaskType::Learning)
    } else {
        None
    }
}

impl MentalEnergy {
    /// Reads one of `high`, `medium`, `low`.
    pub fn from_text(t: &String) -> (r: Option<MentalEnergy>)
        ensures
            r == energy_of(t@),
    {
        if *t == "high".to_owned() {
            Some(MentalEnergy::High)
        } else if *t == "medium".to_owned() {
            Some(MentalEnergy::Medium)
        } else if *t == "low".to_owned() {
            Some(MentalEnergy::Low)
        } else {
            None
        }
    }
}

impl TaskType {
    /// Reads one of `creative`, `analytical`, `decision_making`,
    /// `execution`, `learning`.
    pub fn from_text(t: &String) -> (r: Option<TaskType>)
        ensures
            r == task_type_of(t@),
    {
        if *t == "creative".to_owned() {
            Some(TaskType::Creative)
        } else if *t == "analytical".to_owned() {
            Some(TaskType::Analytical)
        } else if *t == "decision_making".to_owned() {
            Some(TaskType::DecisionMaking)
        } else if *t == "execution".to_owned() {
            Some(TaskType::Execution)
        } else if *t == "learning".to_owned() {
            Some(TaskType::Learning)
        } else {
            None
        }
    }
}

/// The six members that every subtask must carry.
#[derive(Debug, Clone, Copy, PartialEq, Eq, Structural)]
pub enum Field {
    Description,
    TimeEstimateMinutes,
    MentalEnergy,
    TaskType,
    Dependencies,
    Resources,
}

impl Field {
    pub open spec fn key(self) -> Seq<char> {
        match self {
            Field::Description => "description"@,
            Field::TimeEstimateMinutes => "time_estimate_minutes"@,
            Field::MentalEnergy => "mental_energy"@,
            Field::TaskType => "task_type"@,
            Field::Dependencies => "dependencies"@,
            Field::Resources => "resources"@,
        }
    }

    /// The member's name in the JSON object.
    pub fn name(&self) -> (r: &'static str)
        ensures
            r@ == self.key(),
    {
        match self {
            Field::Description => "description",
            Field::TimeEstimateMinutes => "time_estimate_minutes",
            Field::MentalEnergy => "mental_energy",
            Field::TaskType => "task_type",
            Field::Dependencies => "dependencies",
            Field::Resources => "resources",
        }
    }
}

} // verus!
