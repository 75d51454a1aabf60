//! The errors of the library, gathered in one type.
use crate::compiler::CompileError;
use crate::task::TaskError;
use crate::workflow::execution::ExecutionError;
use crate::workflow::WorkflowError;
use vstd::prelude::*;
use vstd::std_specs::convert::FromSpecImpl;

verus! {

/// Errors that can occur anywhere in the library: in a workflow, in its execution, in its
/// compilation, or in a task.
#[derive(Debug)]
pub enum CoreError {
    Workflow(WorkflowError),
    Execution(ExecutionError),
    Compilation(CompileError),
    Task(TaskError),
}

impl From<WorkflowError> for CoreError {
    fn from(e: WorkflowError) -> (r: Self) {
        CoreError::Workflow(e)
    }
}

impl FromSpecImpl<WorkflowError> for CoreError {
    open spec fn obeys_from_spec() -> bool {
        true
    }

    open spec fn from_spec(v: WorkflowError) -> Self {
        CoreError::Workflow(v)
    }
}

impl From<ExecutionError> for CoreError {
    fn from(e: ExecutionError) -> (r: Self) {
        CoreError::Execution(e)
    }
}

impl FromSpecImpl<ExecutionError> for CoreError {
    open spec fn obeys_from_spec() -> bool {
        true
    }

    open spec fn from_spec(v: ExecutionError) -> Self {
        CoreError::Execution(v)
    }
}

impl From<CompileError> for CoreError {
    fn from(e: CompileError) -> (r: Self) {
        CoreError::Compilation(e)
    }
}

impl FromSpecImpl<CompileError> for CoreError {
    open spec fn obeys_from_spec() -> bool {
        true
    }

    open spec fn from_spec(v: CompileError) -> Self {
        CoreError::Compilation(v)
    }
}

impl From<TaskError> for CoreError {
    fn from(e: TaskError) -> (r: Self) {
        CoreError::Task(e)
    }
}

impl FromSpecImpl<TaskError> for CoreError {
    open spec fn obeys_from_spec() -> bool {
        true
    }

    open spec fn from_spec(v: TaskError) -> Self {
        CoreError::Task(v)
    }
}

} // verus!
