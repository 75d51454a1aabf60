mod error;
mod executor;
mod model;

pub use crate::executor::{sorted_refs, ExecutionGraph};
pub use error::{ExecutionError, ExecutionFault};
pub use executor::{WorkflowExecutor, WorkflowExecutorBuilder};
pub use model::{
    cycle_after, dependent_path, dependents_keyed, depends_transitively, lemma_closed_holds, lemma_depends_extend,
    lemma_depends_reachable, lemma_depends_step, lemma_reachable_concat,
};
