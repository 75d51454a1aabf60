//! Logging of messages at various levels.
use vstd::prelude::*;

verus! {

/// The levels at which a message can be logged.
#[derive(Debug, Clone, Copy, PartialEq, Eq, Structural)]
pub enum LogLevel {
    Debug,
    Info,
    Warn,
    Error,
}

/// Logs messages at various levels; implementers decide where they go (console, file, ...).
pub trait Logger {
    fn log(&self, level: LogLevel, message: &str);

    fn debug(&self, message: &str) {
        self.log(LogLevel::Debug, message);
    }

    fn info(&self, message: &str) {
        self.log(LogLevel::Info, message);
    }

    fn warn(&self, message: &str) {
        self.log(LogLevel::Warn, message);
    }

    fn error(&self, message: &str) {
        self.log(LogLevel::Error, message);
    }
}

} // verus!
