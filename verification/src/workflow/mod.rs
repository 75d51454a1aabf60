mod context;
mod dependency;
mod error;
pub mod execution;
mod workflow;

pub use dependency::{dependency_text, ref_id, DependencyRef};
pub use error::WorkflowError;
pub use workflow::{dependents_of, keyed_by_id, tasks_keyed_by_id, Workflow, WorkflowBuilder};
pub use context::{WorkflowExecutionContext, WorkflowExecutionContextBuilder};
pub use crate::compiler::{CompiledWorkflow, WorkflowCompiler};
