use vstd::prelude::*;

verus! {

/// Errors in the definition of a task.
#[derive(Debug, Clone, PartialEq, Eq)]
pub enum TaskError {
    /// A literal input's type differs from the one its schema expects.
    InputTypeMismatch { input: String, expected: String, found: String },
    /// A literal input that the schema does not define.
    InputNotInSchema { input: String },
    /// No task definition was given.
    MissingTaskDefinition,
}

/// The message of a task error.
pub open spec fn task_error_text(e: TaskError) -> Seq<char> {
    match e {
        TaskError::InputTypeMismatch { input, expected, found } => "input '"@ + input@
            + "' has incompatible type. expected '"@ + expected@ + "' but found '"@ + found@
            + "'"@,
        TaskError::InputNotInSchema { input } => "input '"@ + input@ + "' not defined in schema"@,
        TaskError::MissingTaskDefinition => "task definition is required"@,
    }
}

impl TaskError {
    /// The message of the error.
    pub fn message(&self) -> (s: String)
        ensures
            s@ == task_error_text(*self),
    {
        match self {
            TaskError::InputTypeMismatch { input, expected, found } => {
                let s = String::from_str("input '");
                let s = s.concat(input.as_str());
                let s = s.concat("' has incompatible type. expected '");
                let s = s.concat(expected.as_str());
                let s = s.concat("' but found '");
                let s = s.concat(found.as_str());
                s.concat("'")
            },
            TaskError::InputNotInSchema { input } => {
                let s = String::from_str("input '");
                let s = s.concat(input.as_str());
                s.concat("' not defined in schema")
            },
            TaskError::MissingTaskDefinition => String::from_str("task definition is required"),
        }
    }
}

} // verus!
