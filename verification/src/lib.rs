//! Workflow definitions, their compilation into dependency graphs, and their execution.
pub mod builder;
pub mod compiler;
pub mod digraph;
mod error;
pub mod executor;
pub mod laws;
pub mod ids;
pub mod logger;
pub mod name_map;
pub mod plugin;
pub mod ref_map;
mod outside;
pub mod task;
pub mod trigger;
pub mod workflow;
pub mod value;

pub use error::CoreError;
pub use value::{type_of, Value};
