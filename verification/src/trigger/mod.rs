mod definition;
mod result;
mod schema;
mod trigger;

pub use definition::{TriggerDefinition, TriggerDefinitionBuilder};
pub use result::{TriggerResult, TriggerResultBuilder};
pub use schema::{TriggerSchema, TriggerSchemaBuilder};
pub use trigger::{Trigger, TriggerBuilder};
