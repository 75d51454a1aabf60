mod plugin;
mod registry;

pub use plugin::{Plugin, PluginBuilder};
pub use registry::Registry;
