mod compiler;
mod error;
mod model;

pub use compiler::{compiled, indexed, lemma_index_push, CompiledWorkflow, WorkflowCompiler};
pub use error::{CompileError, CompileFault};
pub use model::{
    binding_source_fault, binding_source_faults, binding_type_fault, binding_type_faults,
    dependency_fault, dependency_faults, dependency_path, depends_edge, edges_depend, fault_free,
    first_fault_from, graph_matches, lemma_all_pass_no_fault, lemma_no_fault_from, has_dependency_cycle, lemma_graph_cycle_is_dependency_cycle,
    on_dependency_cycle, ref_exists,
    reference_type_fault, source_fault, source_output_type, task_dependency_fault, task_fault,
    task_type_fault,
};
