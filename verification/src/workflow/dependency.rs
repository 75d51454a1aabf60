use crate::ids::{id_text, uuid_hyphenated};
use crate::task::Task;
use crate::trigger::Trigger;
use vstd::prelude::*;

verus! {

/// Reference to either a Task or a Trigger within the Workflow, by its identifier.
#[derive(Debug, Clone, Copy, PartialEq, Eq, Hash, Structural)]
pub enum DependencyRef {
    Task(u128),
    Trigger(u128),
}

/// The identifier that a reference carries.
pub open spec fn ref_id(r: DependencyRef) -> u128 {
    match r {
        DependencyRef::Task(id) => id,
        DependencyRef::Trigger(id) => id,
    }
}

/// The text of a reference: `Task(<uuid>)` or `Trigger(<uuid>)`.
pub open spec fn dependency_text(r: DependencyRef) -> Seq<char> {
    match r {
        DependencyRef::Task(id) => "Task("@ + uuid_hyphenated(id) + ")"@,
        DependencyRef::Trigger(id) => "Trigger("@ + uuid_hyphenated(id) + ")"@,
    }
}

impl DependencyRef {
    /// Get the identifier of the referenced entity.
    pub fn id(&self) -> (id: u128)
        ensures
            id == ref_id(*self),
    {
        match self {
            DependencyRef::Task(id) => *id,
            DependencyRef::Trigger(id) => *id,
        }
    }

    /// A reference to a task.
    pub fn from_task(task: &Task) -> (r: Self)
        ensures
            r == DependencyRef::Task(task.id()),
    {
        DependencyRef::Task(task.id())
    }

    /// A reference to a trigger.
    pub fn from_trigger(trigger: &Trigger) -> (r: Self)
        ensures
            r == DependencyRef::Trigger(trigger.id()),
    {
        DependencyRef::Trigger(trigger.id())
    }

    /// The text of the reference, as its `Display` form: `Task(<uuid>)` or `Trigger(<uuid>)`.
    pub fn to_text(&self) -> (s: String)
        ensures
            s@ == dependency_text(*self),
    {
        match self {
            DependencyRef::Task(id) => {
                let s = String::from_str("Task(");
                let t = id_text(*id);
                let s = s.concat(t.as_str());
                s.concat(")")
            },
            DependencyRef::Trigger(id) => {
                let s = String::from_str("Trigger(");
                let t = id_text(*id);
                let s = s.concat(t.as_str());
                s.concat(")")
            },
        }
    }
}

} // verus!
