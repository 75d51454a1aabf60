use vstd::prelude::*;

verus! {

/// Errors in the definition or validation of a workflow.
#[derive(Debug, Clone, Copy, PartialEq, Eq, Structural)]
pub enum WorkflowError {
    /// A task with this identifier is already in the workflow.
    DuplicateTask { id: u128 },
    /// A trigger with this identifier is already in the workflow.
    DuplicateTrigger { id: u128 },
}

} // verus!
