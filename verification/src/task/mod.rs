mod binding;
mod context;
mod datatype;
mod definition;
mod error;
mod handler;
mod result;
mod schema;
mod status;
mod task;

pub use context::{TaskContext, TaskContextBuilder};
pub use datatype::{data_type_name, DataType};
pub use definition::{handled, Handler, TaskDefinition, TaskDefinitionBuilder};
pub use error::{task_error_text, TaskError};
pub use handler::{NoOpTaskHandler, TaskHandler};
pub use result::{TaskResult, TaskResultBuilder};
pub use schema::{InputSpec, OutputSpec, TaskSchema, TaskSchemaBuilder};
pub use status::TaskStatus;
pub use binding::{binding_refs, lemma_binding_ref, lemma_binding_ref_source, InputBinding};
pub use task::{all_dependencies, first_fault_at, fault_message, literal_fault, literal_text, literals_accepted, validation_builder_error, validation_error, Task, TaskBuilder};
