use vstd::prelude::*;

verus! {

broadcast use vstd::string::to_string_from_display_ensures_for_str;

/// The priority class of a task; a higher class preempts a lower one.
#[derive(Debug, Clone, Copy, PartialEq, Eq, Structural, PartialOrd, Ord)]
pub enum Priority {
    Low,
    Medium,
    High,
}

/// The numeric level of each class: 1, 2 and 3.
pub open spec fn priority_level(p: Priority) -> u8 {
    match p {
        Priority::Low => 1,
        Priority::Medium => 2,
        Priority::High => 3,
    }
}

impl Priority {
    /// The numeric level of this class.
    pub fn level(&self) -> (l: u8)
        ensures
            l == priority_level(*self),
    {
        match self {
            Priority::Low => 1,
            Priority::Medium => 2,
            Priority::High => 3,
        }
    }
}

/// A named task with a fixed priority.
pub struct Task {
    pub name: String,
    pub priority: Priority,
}

impl Task {
    /// A task called `name` with the given priority.
    pub fn new(name: &str, priority: Priority) -> (t: Self)
        ensures
            t.name@ == name@,
            t.priority == priority,
    {
        Self { name: name.to_string(), priority }
    }
}

} // verus!
