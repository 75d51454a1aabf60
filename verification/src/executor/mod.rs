mod executor;
mod graph;
mod model;
mod resolve;
mod run;

pub use crate::workflow::execution::ExecutionError;
pub use executor::{entries_or_empty, start_of, WorkflowExecutor, WorkflowExecutorBuilder};
pub use run::{
    build_task_context, copy_outputs, execute_node, execute_task, handled_task, lemma_handled_task_agrees, ran_task,
    record_task_result, resolves_in, run_sorted,
    starts_task, task_context_for,
};
pub use graph::{sorted_refs, weights_of, ExecutionGraph};
pub use resolve::{
    binding_value, lemma_all_resolve, lemma_binding_value_insert, lemma_fault_found,
    lemma_resolution_agrees, lemma_resolved_each, outputs_view, resolution_fault_from, resolve_task_inputs,
    resolved_pairs, resolved_value,
};
pub use model::{
    lemma_cycle_in_subgraph, lemma_reachable_exists, lemma_reachable_reaches, lemma_reachable_source_exists, lemma_reachable_trigger, lemma_reaches_reachable,
    lemma_reference_depends, lemma_sorted_subgraph, reachable_from, reachable_graph, subgraph_of, run_outputs, run_succeeds, task_resolves,
};
