use crate::task::DataType;
use crate::workflow::DependencyRef;
use vstd::prelude::*;

verus! {

/// Why a workflow does not compile.
#[derive(Debug, Clone, PartialEq, Eq)]
pub enum CompileError {
    /// An explicit dependency names no task or trigger of the workflow.
    MissingDependency { id: u128 },
    /// An input refers to a task that is not in the workflow.
    MissingTaskDependency { input: String, id: u128 },
    /// An input refers to an output that the referenced task's schema does not declare.
    MissingTaskOutput { input: String, output: String, id: u128 },
    /// An input refers to a trigger that is not in the workflow.
    MissingTriggerDependency { input: String, id: u128 },
    /// An input refers to an output that the referenced trigger's schema does not declare.
    MissingTriggerOutput { input: String, output: String, id: u128 },
    /// A reference input that the task's schema does not declare.
    InputNotInSchema { task_id: u128, input: String },
    /// A reference input whose type differs from the type of the output it refers to.
    InputTypeMismatch {
        task_id: u128,
        input: String,
        expected: DataType,
        found: DataType,
        reference: DependencyRef,
        output: String,
    },
    /// The dependencies form a cycle through the task `from` (`to` is the same task).
    CyclicDependency { from: u128, to: u128 },
}

/// A compile error, its texts taken by their characters.
pub enum CompileFault {
    MissingDependency { id: u128 },
    MissingTaskDependency { input: Seq<char>, id: u128 },
    MissingTaskOutput { input: Seq<char>, output: Seq<char>, id: u128 },
    MissingTriggerDependency { input: Seq<char>, id: u128 },
    MissingTriggerOutput { input: Seq<char>, output: Seq<char>, id: u128 },
    InputNotInSchema { task_id: u128, input: Seq<char> },
    InputTypeMismatch {
        task_id: u128,
        input: Seq<char>,
        expected: DataType,
        found: DataType,
        reference: DependencyRef,
        output: Seq<char>,
    },
    CyclicDependency { from: u128, to: u128 },
}

impl View for CompileError {
    type V = CompileFault;

    open spec fn view(&self) -> CompileFault {
        match self {
            CompileError::MissingDependency { id } => CompileFault::MissingDependency { id: *id },
            CompileError::MissingTaskDependency { input, id } => CompileFault::MissingTaskDependency {
                input: input@,
                id: *id,
            },
            CompileError::MissingTaskOutput { input, output, id } => CompileFault::MissingTaskOutput {
                input: input@,
                output: output@,
                id: *id,
            },
            CompileError::MissingTriggerDependency { input, id } => CompileFault::MissingTriggerDependency {
                input: input@,
                id: *id,
            },
            CompileError::MissingTriggerOutput { input, output, id } => CompileFault::MissingTriggerOutput {
                input: input@,
                output: output@,
                id: *id,
            },
            CompileError::InputNotInSchema { task_id, input } => CompileFault::InputNotInSchema {
                task_id: *task_id,
                input: input@,
            },
            CompileError::InputTypeMismatch { task_id, input, expected, found, reference, output } => {
                CompileFault::InputTypeMismatch {
                    task_id: *task_id,
                    input: input@,
                    expected: *expected,
                    found: *found,
                    reference: *reference,
                    output: output@,
                }
            },
            CompileError::CyclicDependency { from, to } => CompileFault::CyclicDependency {
                from: *from,
                to: *to,
            },
        }
    }
}

} // verus!
