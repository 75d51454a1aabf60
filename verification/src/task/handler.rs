use crate::task::{TaskContext, TaskResult};
use vstd::prelude::*;

verus! {

/// The behavior of a task: what it does when it runs.
pub trait TaskHandler {
    /// Execute the task with the given context.
    fn execute<'a>(&self, ctx: &TaskContext<'a>) -> TaskResult<'a>;
}

/// A handler that does nothing and returns the default (completed, empty) result.
pub struct NoOpTaskHandler;

impl TaskHandler for NoOpTaskHandler {
    fn execute<'a>(&self, _ctx: &TaskContext<'a>) -> (r: TaskResult<'a>)
        ensures
            r.status() == crate::task::TaskStatus::Completed,
            r.outputs()@ == Map::<Seq<char>, crate::Value<'a>>::empty(),
    {
        TaskResult::default()
    }
}

} // verus!
