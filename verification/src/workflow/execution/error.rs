use crate::workflow::DependencyRef;
use vstd::prelude::*;

verus! {

/// Why the execution of a workflow stopped.
#[derive(Debug, Clone, PartialEq, Eq)]
pub enum ExecutionError {
    /// The execution graph has a cycle in its dependencies.
    DependencyCycle,
    /// A dependency ran but did not produce the output that an input refers to.
    MissingDependencyOutput { dependency: DependencyRef, output: String },
    /// A dependency that an input refers to produced no outputs (it did not run).
    FailedDependencyOutput { dependency: DependencyRef },
    /// The trigger is not in the workflow.
    TriggerNotFound { id: u128 },
    /// The task is not in the workflow.
    TaskNotFound { id: u128 },
    /// The context of a task could not be built.
    FailedToBuildTaskContext,
}

/// An execution error, its texts taken by their characters.
pub enum ExecutionFault {
    DependencyCycle,
    MissingDependencyOutput { dependency: DependencyRef, output: Seq<char> },
    FailedDependencyOutput { dependency: DependencyRef },
    TriggerNotFound { id: u128 },
    TaskNotFound { id: u128 },
    FailedToBuildTaskContext,
}

impl View for ExecutionError {
    type V = ExecutionFault;

    open spec fn view(&self) -> ExecutionFault {
        match self {
            ExecutionError::DependencyCycle => ExecutionFault::DependencyCycle,
            ExecutionError::MissingDependencyOutput { dependency, output } => {
                ExecutionFault::MissingDependencyOutput { dependency: *dependency, output: output@ }
            },
            ExecutionError::FailedDependencyOutput { dependency } => {
                ExecutionFault::FailedDependencyOutput { dependency: *dependency }
            },
            ExecutionError::TriggerNotFound { id } => ExecutionFault::TriggerNotFound { id: *id },
            ExecutionError::TaskNotFound { id } => ExecutionFault::TaskNotFound { id: *id },
            ExecutionError::FailedToBuildTaskContext => ExecutionFault::FailedToBuildTaskContext,
        }
    }
}

} // verus!
