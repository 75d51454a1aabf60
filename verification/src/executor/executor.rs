//! Running a compiled workflow from one of its triggers.
use crate::builder::{builder_error_text, BuilderError};
use crate::compiler::{
    depends_edge, edges_depend, graph_matches, has_dependency_cycle, indexed, lemma_graph_cycle_is_dependency_cycle,
    lemma_index_push, ref_exists, CompiledWorkflow,
};
use crate::digraph::{
    graph_add_edge, graph_add_node, graph_bfs, graph_edges, graph_neighbors, graph_new,
    graph_node_weight, graph_nodes, ints, is_topological_order, lemma_out_targets, lemma_reverse_index,
    is_path, on_cycle, out_targets,
};
use crate::executor::run_sorted;
use crate::executor::{
    lemma_reachable_exists, lemma_reachable_reaches, lemma_reachable_source_exists, lemma_reaches_reachable,
    lemma_sorted_subgraph,
    handled_task, reachable_from, reachable_graph, resolution_fault_from, run_outputs, run_succeeds, weights_of,
    ExecutionError, ExecutionGraph,
};
use crate::ids::new_id;
use crate::plugin::Registry;
use crate::ref_map::{RefMap, RefSet};
use crate::task::{TaskResult, TaskStatus};
use crate::trigger::{Trigger, TriggerResult};
use crate::workflow::{DependencyRef, Workflow, WorkflowExecutionContext};
use std::collections::HashMap;
use vstd::prelude::*;

verus! {

/// The identifier that trigger `tid` of the workflow carries: a run from that trigger
/// sets off the tasks that depend on the trigger with this identifier.
pub open spec fn start_of<'a>(w: Workflow<'a>, tid: u128) -> u128 {
    w.triggers()@[tid].id()
}

/// Executor for managing the execution of a workflow.
pub struct WorkflowExecutor<'a> {
    workflow: &'a CompiledWorkflow<'a>,
    plugins: &'a Registry<'a>,
    task_states: HashMap<u128, TaskStatus>,
    task_results: HashMap<u128, TaskResult<'a>>,
    trigger_results: HashMap<u128, TriggerResult<'a>>,
    context: Option<WorkflowExecutionContext<'a>>,
    max_parallelism: usize,
}

impl<'a> WorkflowExecutor<'a> {
    /// The workflow that the executor runs.
    pub open spec fn spec_flow(&self) -> Workflow<'a> {
        *self.workflow().workflow()
    }

    /// A new builder, with nothing set.
    pub fn builder() -> (b: WorkflowExecutorBuilder<'a>)
        ensures
            b == WorkflowExecutorBuilder::<'a>::empty(),
    {
        WorkflowExecutorBuilder {
            workflow: None,
            plugins: None,
            task_states: None,
            task_results: None,
            trigger_results: None,
            context: None,
            max_parallelism: None,
        }
    }

    pub closed spec fn spec_workflow(&self) -> &'a CompiledWorkflow<'a> {
        self.workflow
    }

    pub closed spec fn spec_plugins(&self) -> &'a Registry<'a> {
        self.plugins
    }

    pub closed spec fn spec_task_states(&self) -> &HashMap<u128, TaskStatus> {
        &self.task_states
    }

    pub closed spec fn spec_task_results(&self) -> &HashMap<u128, TaskResult<'a>> {
        &self.task_results
    }

    pub closed spec fn spec_trigger_results(&self) -> &HashMap<u128, TriggerResult<'a>> {
        &self.trigger_results
    }

    pub closed spec fn spec_context(&self) -> &Option<WorkflowExecutionContext<'a>> {
        &self.context
    }

    pub closed spec fn spec_max_parallelism(&self) -> usize {
        self.max_parallelism
    }

    /// The compiled workflow to be executed.
    #[verifier::when_used_as_spec(spec_workflow)]
    pub fn workflow(&self) -> (r: &'a CompiledWorkflow<'a>)
        returns
            self.spec_workflow(),
    {
        self.workflow
    }

    /// The plugin registry used during execution.
    #[verifier::when_used_as_spec(spec_plugins)]
    pub fn plugins(&self) -> (r: &'a Registry<'a>)
        returns
            self.spec_plugins(),
    {
        self.plugins
    }

    /// States of tasks in the workflow.
    #[verifier::when_used_as_spec(spec_task_states)]
    pub fn task_states(&self) -> (r: &HashMap<u128, TaskStatus>)
        returns
            self.spec_task_states(),
    {
        &self.task_states
    }

    /// Results of tasks in the workflow.
    #[verifier::when_used_as_spec(spec_task_results)]
    pub fn task_results(&self) -> (r: &HashMap<u128, TaskResult<'a>>)
        returns
            self.spec_task_results(),
    {
        &self.task_results
    }

    /// Results of triggers in the workflow.
    #[verifier::when_used_as_spec(spec_trigger_results)]
    pub fn trigger_results(&self) -> (r: &HashMap<u128, TriggerResult<'a>>)
        returns
            self.spec_trigger_results(),
    {
        &self.trigger_results
    }

    /// Execution context of the workflow.
    #[verifier::when_used_as_spec(spec_context)]
    pub fn context(&self) -> (r: &Option<WorkflowExecutionContext<'a>>)
        returns
            self.spec_context(),
    {
        &self.context
    }

    /// Maximum parallelism for task execution.
    #[verifier::when_used_as_spec(spec_max_parallelism)]
    pub fn max_parallelism(&self) -> (r: usize)
        returns
            self.spec_max_parallelism(),
    {
        self.max_parallelism
    }

    /// Runs the workflow from trigger `trigger_id`, whose outputs are those of `result`:
    /// every task that depends on the trigger, directly or through other tasks, runs once,
    /// after the tasks and the trigger it depends on, with its inputs resolved from
    /// literals and from their outputs, and its result is recorded. A task whose input
    /// cannot be resolved stops the run with that fault. The graph of a compiled workflow
    /// has no cycle, so the run never reports one.
    ///
    /// The tasks that run are found from the identifier that the trigger carries
    /// (`start_of`), while its outputs are offered under `trigger_id`; the two agree when
    /// the trigger is stored under its own identifier, as `Workflow::add_trigger` does.
    pub fn trigger(&mut self, trigger_id: u128, result: TriggerResult<'a>) -> (r: Result<(), ExecutionError>)
        ensures
            final(self).workflow() == old(self).workflow(),
            final(self).plugins() == old(self).plugins(),
            final(self).task_states() == old(self).task_states(),
            final(self).trigger_results() == old(self).trigger_results(),
            final(self).context() == old(self).context(),
            final(self).max_parallelism() == old(self).max_parallelism(),
            !old(self).spec_flow().triggers()@.contains_key(trigger_id) ==> r == Err::<(), ExecutionError>(
                ExecutionError::TriggerNotFound { id: trigger_id },
            ) && final(self).task_results() == old(self).task_results(),
            r is Ok <==> old(self).spec_flow().triggers()@.contains_key(trigger_id) && run_succeeds(
                old(self).spec_flow(),
                start_of(old(self).spec_flow(), trigger_id),
                trigger_id,
                result.outputs@,
                final(self).task_results()@,
            ),
            r is Ok ==> forall|k: u128|
                #![trigger final(self).task_results()@.contains_key(k)]
                old(self).spec_flow().tasks()@.contains_key(k) && reachable_from(
                    old(self).spec_flow(),
                    DependencyRef::Trigger(start_of(old(self).spec_flow(), trigger_id)),
                    DependencyRef::Task(k),
                ) ==> final(self).task_results()@.contains_key(k),
            r is Ok ==> forall|k: u128|
                #![trigger final(self).task_results()@.contains_key(k)]
                old(self).spec_flow().tasks()@.contains_key(k) && reachable_from(
                    old(self).spec_flow(),
                    DependencyRef::Trigger(start_of(old(self).spec_flow(), trigger_id)),
                    DependencyRef::Task(k),
                ) ==> handled_task(
                    old(self).spec_flow(),
                    k,
                    run_outputs(
                        old(self).spec_flow(),
                        start_of(old(self).spec_flow(), trigger_id),
                        trigger_id,
                        result.outputs@,
                        final(self).task_results()@,
                    ),
                    final(self).task_results()@[k],
                ),
            r matches Err(e) ==> old(self).spec_flow().triggers()@.contains_key(trigger_id) ==> exists|k: u128|
                #![trigger old(self).spec_flow().tasks()@[k]]
                old(self).spec_flow().tasks()@.contains_key(k) && reachable_from(
                    old(self).spec_flow(),
                    DependencyRef::Trigger(start_of(old(self).spec_flow(), trigger_id)),
                    DependencyRef::Task(k),
                ) && resolution_fault_from(
                    old(self).spec_flow().tasks()@[k].inputs().pairs(),
                    run_outputs(
                        old(self).spec_flow(),
                        start_of(old(self).spec_flow(), trigger_id),
                        trigger_id,
                        result.outputs@,
                        final(self).task_results()@,
                    ),
                    0,
                ) == Some(e@),
            forall|k: u128|
                #![trigger final(self).task_results()@.contains_key(k)]
                !(old(self).spec_flow().tasks()@.contains_key(k) && reachable_from(
                    old(self).spec_flow(),
                    DependencyRef::Trigger(start_of(old(self).spec_flow(), trigger_id)),
                    DependencyRef::Task(k),
                )) ==> (final(self).task_results()@.contains_key(k) == old(self).task_results()@.contains_key(k)
                    && (old(self).task_results()@.contains_key(k) ==> final(self).task_results()@[k]
                    == old(self).task_results()@[k])),
    {
        let workflow = self.workflow;
        proof {
            use_type_invariant(workflow);
        }
        let ghost w = *workflow.workflow();
        let ghost tout = result.outputs@;
        let ghost old_results = self.task_results@;
        let trigger = match self.get_trigger(trigger_id) {
            Ok(t) => t,
            Err(e) => return Err(e),
        };
        let ghost start = DependencyRef::Trigger(trigger.id());
        let graph = match self.build_execution_graph(trigger) {
            Ok(g) => g,
            Err(e) => return Err(e),
        };
        let ghost g = *graph.graph();
        let ghost gidx = *graph.index_map();
        let sorted_nodes = match graph.topological_sort() {
            Ok(s) => s,
            Err(e) => {
                proof {
                    let c = choose|c: int| 0 <= c < graph_nodes(g).len() && #[trigger] on_cycle(graph_edges(g), c);
                    if ref_exists(w, start) {
                        lemma_graph_cycle_is_dependency_cycle(w, g, c);
                        assert(has_dependency_cycle(w));
                    } else {
                        let p = choose|p: Seq<int>| p.len() >= 2 && p[0] == c && p.last() == c && #[trigger] is_path(graph_edges(g), p);
                        assert(graph_edges(g).contains((p[0], p[1])));
                    }
                }
                return Err(e);
            },
        };
        let ghost refs = sorted_nodes@;
        let ghost order = choose|order: Seq<int>|
            #[trigger] is_topological_order(graph_nodes(g).len() as int, graph_edges(g), order) && refs
                == weights_of(g, order);
        proof {
            if ref_exists(w, start) {
                let members = |r: DependencyRef| reachable_from(w, start, r);
                lemma_sorted_subgraph(w, members, g, gidx, order, refs);
                assert forall|j: int| 0 <= j < refs.len() implies reachable_from(w, start, #[trigger] refs[j]) by {
                    assert(members(refs[j]));
                }
                assert forall|k: u128|
                    #![trigger reachable_from(w, start, DependencyRef::Task(k))]
                    w.tasks()@.contains_key(k) && reachable_from(w, start, DependencyRef::Task(k)) implies exists|j: int|
                        0 <= j < refs.len() && #[trigger] refs[j] == DependencyRef::Task(k) by {
                    assert(members(DependencyRef::Task(k)));
                }
            } else {
                assert(refs.len() == 0);
                assert forall|k: u128|
                    #![trigger reachable_from(w, start, DependencyRef::Task(k))]
                    w.tasks()@.contains_key(k) && reachable_from(w, start, DependencyRef::Task(k)) implies exists|j: int|
                        0 <= j < refs.len() && #[trigger] refs[j] == DependencyRef::Task(k) by {
                    lemma_reachable_source_exists(w, start, DependencyRef::Task(k));
                }
            }
        }
        run_sorted(workflow.workflow(), trigger.id(), trigger_id, result.outputs, &sorted_nodes, &mut self.task_results)
    }

    /// The trigger of the workflow with the given identifier.
    fn get_trigger(&self, trigger_id: u128) -> (r: Result<&'a Trigger<'a>, ExecutionError>)
        ensures
            match r {
                Ok(t) => self.workflow.workflow().triggers()@.contains_key(trigger_id) && *t
                    == self.workflow.workflow().triggers()@[trigger_id],
                Err(e) => !self.workflow.workflow().triggers()@.contains_key(trigger_id) && e
                    == ExecutionError::TriggerNotFound { id: trigger_id },
            },
    {
        let workflow = self.workflow;
        match workflow.workflow().triggers().get(&trigger_id) {
            Some(t) => Ok(t),
            None => Err(ExecutionError::TriggerNotFound { id: trigger_id }),
        }
    }

    /// The execution graph of a run started by `trigger`: the part of the compiled
    /// dependency graph that a breadth-first search from the trigger reaches, with the
    /// edges among those references.
    fn build_execution_graph(&self, trigger: &Trigger<'a>) -> (r: Result<ExecutionGraph, ExecutionError>)
        ensures
            r matches Ok(g) && (ref_exists(*self.workflow.workflow(), DependencyRef::Trigger(trigger.id()))
                ==> reachable_graph(
                *self.workflow.workflow(),
                DependencyRef::Trigger(trigger.id()),
                *g.graph(),
                *g.index_map(),
            )) && (!ref_exists(*self.workflow.workflow(), DependencyRef::Trigger(trigger.id()))
                ==> graph_nodes(*g.graph()).len() == 0 && graph_edges(*g.graph()) == Seq::<(int, int)>::empty()
                && g.index_map()@ == Map::<DependencyRef, usize>::empty()),
    {
        proof {
            use_type_invariant(self.workflow);
        }
        let ghost w = *self.workflow.workflow();
        let compiled_graph = self.workflow.dependency_graph();
        let compiled_index_map = self.workflow.index_map();
        let ghost cnodes = graph_nodes(*compiled_graph);
        let ghost cedges = graph_edges(*compiled_graph);
        let ghost cidx = compiled_index_map@;
        let trigger_ref = DependencyRef::Trigger(trigger.id());
        assert(graph_matches(w, *compiled_graph, *compiled_index_map));
        // A trigger without a node in the compiled graph reaches nothing.
        let start_index = match compiled_index_map.get(&trigger_ref) {
            Some(i) => *i,
            None => return Ok(ExecutionGraph::new(graph_new(), RefMap::new())),
        };
        assert(ref_exists(w, trigger_ref));

        // The references reachable from the trigger.
        let visited = graph_bfs(compiled_graph, start_index);
        let mut reachable = RefSet::new();
        let mut q: usize = 0;
        while q < visited.len()
            invariant
                q <= visited@.len(),
                cnodes == graph_nodes(*compiled_graph),
                forall|p: int| 0 <= p < visited@.len() ==> #[trigger] visited@[p] < cnodes.len(),
                forall|r: DependencyRef|
                    reachable@.contains(r) <==> exists|p: int| 0 <= p < q && #[trigger] cnodes[visited@[p] as int] == r,
            decreases visited@.len() - q,
        {
            let node_ref = graph_node_weight(compiled_graph, visited[q]).unwrap();
            let _ = reachable.insert(node_ref);
            proof {
                assert forall|r: DependencyRef|
                    reachable@.contains(r) <==> exists|p: int| 0 <= p < q + 1 && #[trigger] cnodes[visited@[p] as int] == r by {
                    if r == node_ref {
                        assert(cnodes[visited@[q as int] as int] == r);
                    }
                }
            }
            q = q + 1;
        }
        proof {
            assert forall|r: DependencyRef| reachable@.contains(r) <==> reachable_from(w, trigger_ref, r) by {
                if reachable@.contains(r) {
                    let p = choose|p: int| 0 <= p < visited@.len() && #[trigger] cnodes[visited@[p] as int] == r;
                    assert(ints(visited@)[p] == visited@[p] as int);
                    assert(ints(visited@).contains(visited@[p] as int));
                    lemma_reaches_reachable(w, *compiled_graph, *compiled_index_map, trigger_ref, visited@[p] as int);
                }
                if reachable_from(w, trigger_ref, r) {
                    lemma_reachable_reaches(w, *compiled_graph, *compiled_index_map, trigger_ref, r);
                    let j = cidx[r] as int;
                    assert(ints(visited@).contains(j));
                    let p = choose|p: int| 0 <= p < ints(visited@).len() && ints(visited@)[p] == j;
                    assert(cnodes[visited@[p] as int] == r);
                }
            }
        }

        // One node for each reachable reference.
        let elems = reachable.to_vec();
        let mut graph = graph_new();
        let mut index_map: RefMap<usize> = RefMap::new();
        let mut k: usize = 0;
        while k < elems.len()
            invariant
                k <= elems@.len(),
                elems@.no_duplicates(),
                indexed(graph_nodes(graph), index_map@),
                graph_edges(graph) == Seq::<(int, int)>::empty(),
                graph_nodes(graph).len() == k,
                forall|r: DependencyRef|
                    index_map@.contains_key(r) <==> exists|p: int| 0 <= p < k && #[trigger] elems@[p] == r,
            decreases elems@.len() - k,
        {
            let node_ref = elems[k];
            proof {
                if index_map@.contains_key(node_ref) {
                    let p = choose|p: int| 0 <= p < k && #[trigger] elems@[p] == node_ref;
                    assert(elems@[p] == elems@[k as int]);
                }
            }
            let ghost old_nodes = graph_nodes(graph);
            let ghost old_map = index_map@;
            let node_index = graph_add_node(&mut graph, node_ref);
            index_map.insert(node_ref, node_index);
            proof {
                lemma_index_push(old_nodes, old_map, node_ref, node_index);
                assert forall|r: DependencyRef|
                    index_map@.contains_key(r) <==> exists|p: int| 0 <= p < k + 1 && #[trigger] elems@[p] == r by {
                    if r == node_ref {
                        assert(elems@[k as int] == r);
                    }
                }
            }
            k = k + 1;
        }
        let ghost nodes = graph_nodes(graph);
        let ghost idx = index_map@;
        proof {
            assert forall|r: DependencyRef| #[trigger] idx.contains_key(r) <==> reachable_from(w, trigger_ref, r) by {
                if idx.contains_key(r) {
                    let p = choose|p: int| 0 <= p < elems@.len() && #[trigger] elems@[p] == r;
                    assert(elems@.to_set().contains(r));
                }
                if reachable_from(w, trigger_ref, r) {
                    assert(elems@.to_set().contains(r));
                    let p = choose|p: int| 0 <= p < elems@.len() && elems@[p] == r;
                    assert(elems@[p] == r);
                }
            }
        }

        // The edges among them.
        let mut k: usize = 0;
        while k < elems.len()
            invariant
                k <= elems@.len(),
                cnodes == graph_nodes(*compiled_graph),
                cedges == graph_edges(*compiled_graph),
                cidx == compiled_index_map@,
                graph_matches(w, *compiled_graph, *compiled_index_map),
                nodes == graph_nodes(graph),
                idx == index_map@,
                indexed(nodes, idx),
                forall|r: DependencyRef| #[trigger] idx.contains_key(r) <==> reachable_from(w, trigger_ref, r),
                forall|r: DependencyRef| reachable@.contains(r) <==> reachable_from(w, trigger_ref, r),
                forall|r: DependencyRef| #[trigger] elems@.contains(r) <==> reachable@.contains(r),
                ref_exists(w, trigger_ref),
                edges_depend(w, graph),
                forall|p: int, b: DependencyRef|
                    0 <= p < k && idx.contains_key(b) && #[trigger] cedges.contains((cidx[#[trigger] elems@[p]] as int, cidx[b] as int))
                        ==> graph_edges(graph).contains((idx[elems@[p]] as int, idx[b] as int)),
            decreases elems@.len() - k,
        {
            let node_ref = elems[k];
            let ghost edges_before = graph_edges(graph);
            proof {
                assert(elems@.contains(node_ref));
                lemma_reachable_exists(w, trigger_ref, node_ref);
            }
            let compiled_idx = *compiled_index_map.get(&node_ref).unwrap();
            let targets = graph_neighbors(compiled_graph, compiled_idx);
            let ghost outs = out_targets(cedges, compiled_idx as int);
            let mut q: usize = 0;
            while q < targets.len()
                invariant
                    q <= targets@.len(),
                    ints(targets@) == outs.reverse(),
                    outs == out_targets(cedges, compiled_idx as int),
                    cnodes == graph_nodes(*compiled_graph),
                    cedges == graph_edges(*compiled_graph),
                    cidx == compiled_index_map@,
                    graph_matches(w, *compiled_graph, *compiled_index_map),
                    cidx.contains_key(node_ref),
                    compiled_idx == cidx[node_ref],
                    nodes == graph_nodes(graph),
                    idx == index_map@,
                    indexed(nodes, idx),
                    idx.contains_key(node_ref),
                    forall|r: DependencyRef| #[trigger] idx.contains_key(r) <==> reachable_from(w, trigger_ref, r),
                    forall|r: DependencyRef| reachable@.contains(r) <==> reachable_from(w, trigger_ref, r),
                    edges_depend(w, graph),
                    forall|e: (int, int)| #[trigger] edges_before.contains(e) ==> graph_edges(graph).contains(e),
                    forall|p: int|
                        0 <= p < q && idx.contains_key(cnodes[#[trigger] targets@[p] as int])
                            ==> graph_edges(graph).contains(
                            (idx[node_ref] as int, idx[cnodes[targets@[p] as int]] as int),
                        ),
                decreases targets@.len() - q,
            {
                let ghost t = targets@[q as int] as int;
                proof {
                    assert(ints(targets@)[q as int] == t);
                    lemma_reverse_index(outs, q as int);
                    assert(outs[outs.len() - 1 - q] == t);
                    assert(outs.contains(t));
                    lemma_out_targets(cedges, compiled_idx as int, t);
                    assert(cedges.contains((compiled_idx as int, t)));
                }
                let target_ref = graph_node_weight(compiled_graph, targets[q]).unwrap();
                let ghost edges_now = graph_edges(graph);
                if reachable.contains(&target_ref) {
                    let source_idx = *index_map.get(&node_ref).unwrap();
                    let target_idx = *index_map.get(&target_ref).unwrap();
                    graph_add_edge(&mut graph, source_idx, target_idx);
                    proof {
                        assert(graph_edges(graph).last() == (source_idx as int, target_idx as int));
                        assert(depends_edge(w, cnodes[compiled_idx as int], cnodes[t]));
                        assert forall|e: (int, int)| #[trigger] edges_now.contains(e) implies graph_edges(graph).contains(e) by {
                            let i = choose|i: int| 0 <= i < edges_now.len() && edges_now[i] == e;
                            assert(graph_edges(graph)[i] == e);
                        }
                        assert forall|e: (int, int)| #[trigger] graph_edges(graph).contains(e) implies 0 <= e.0
                            < nodes.len() && 0 <= e.1 < nodes.len() && depends_edge(w, nodes[e.0], nodes[e.1]) by {
                            if e != (source_idx as int, target_idx as int) {
                                let i = choose|i: int| 0 <= i < graph_edges(graph).len() && graph_edges(graph)[i] == e;
                                assert(edges_now[i] == e);
                                assert(edges_now.contains(e));
                            }
                        }
                    }
                }
                q = q + 1;
            }
            proof {
                assert forall|p: int, b: DependencyRef|
                    0 <= p < k + 1 && idx.contains_key(b) && #[trigger] cedges.contains(
                        (cidx[#[trigger] elems@[p]] as int, cidx[b] as int),
                    ) implies graph_edges(graph).contains((idx[elems@[p]] as int, idx[b] as int)) by {
                    if p == k {
                        lemma_reachable_exists(w, trigger_ref, b);
                        let t = cidx[b] as int;
                        lemma_out_targets(cedges, compiled_idx as int, t);
                        let i = choose|i: int| 0 <= i < outs.len() && outs[i] == t;
                        let j = outs.len() - 1 - i;
                        lemma_reverse_index(outs, j);
                        assert(outs.reverse()[j] == t);
                        assert(ints(targets@)[j] == t);
                        assert(ints(targets@)[j] == targets@[j] as int);
                        assert(cidx.contains_key(b));
                        assert(cnodes[targets@[j] as int] == b);
                    } else {
                        assert(edges_before.contains((idx[elems@[p]] as int, idx[b] as int)));
                    }
                }
            }
            k = k + 1;
        }
        proof {
            assert forall|a: DependencyRef, b: DependencyRef|
                #[trigger] depends_edge(w, a, b) && idx.contains_key(a) && idx.contains_key(b)
                    implies graph_edges(graph).contains((idx[a] as int, idx[b] as int)) by {
                assert(cedges.contains((cidx[a] as int, cidx[b] as int)));
                assert(elems@.contains(a));
                let p = choose|p: int| 0 <= p < elems@.len() && elems@[p] == a;
                assert(cedges.contains((cidx[elems@[p]] as int, cidx[b] as int)));
            }
        }
        Ok(ExecutionGraph::new(graph, index_map))
    }

    /// Records the result of a task.
    #[allow(dead_code)]
    fn add_task_result(&mut self, task_id: u128, result: TaskResult<'a>)
        ensures
            final(self).task_results@ == old(self).task_results@.insert(task_id, result),
            final(self).task_states == old(self).task_states,
            final(self).trigger_results == old(self).trigger_results,
    {
        let _ = self.task_results.insert(task_id, result);
    }

    /// Records the result of a trigger.
    #[allow(dead_code)]
    fn add_trigger_result(&mut self, trigger_id: u128, result: TriggerResult<'a>)
        ensures
            final(self).trigger_results@ == old(self).trigger_results@.insert(trigger_id, result),
            final(self).task_states == old(self).task_states,
            final(self).task_results == old(self).task_results,
    {
        let _ = self.trigger_results.insert(trigger_id, result);
    }

    /// Records the state of a task.
    #[allow(dead_code)]
    fn add_task_state(&mut self, task_id: u128, status: TaskStatus)
        ensures
            final(self).task_states@ == old(self).task_states@.insert(task_id, status),
            final(self).task_results == old(self).task_results,
            final(self).trigger_results == old(self).trigger_results,
    {
        let _ = self.task_states.insert(task_id, status);
    }

    /// The result of a task, if it has one.
    pub fn get_task_result(&self, task_id: &u128) -> (r: Option<&TaskResult<'a>>)
        ensures
            match r {
                Some(v) => self.task_results()@.contains_key(*task_id) && *v
                    == self.task_results()@[*task_id],
                None => !self.task_results()@.contains_key(*task_id),
            },
    {
        self.task_results.get(task_id)
    }

    /// The result of a trigger, if it has one.
    pub fn get_trigger_result(&'a self, trigger_id: &u128) -> (r: Option<&'a TriggerResult<'a>>)
        ensures
            match r {
                Some(v) => self.trigger_results()@.contains_key(*trigger_id) && *v
                    == self.trigger_results()@[*trigger_id],
                None => !self.trigger_results()@.contains_key(*trigger_id),
            },
    {
        self.trigger_results.get(trigger_id)
    }

    /// The state of a task, if it has one.
    pub fn get_task_state(&self, task_id: &u128) -> (r: Option<&TaskStatus>)
        ensures
            match r {
                Some(v) => self.task_states()@.contains_key(*task_id) && *v
                    == self.task_states()@[*task_id],
                None => !self.task_states()@.contains_key(*task_id),
            },
    {
        self.task_states.get(task_id)
    }

    /// Replaces the state of a task that has one; a task without a state keeps none.
    pub fn update_task_state(&mut self, task_id: &u128, status: TaskStatus)
        ensures
            final(self).task_states()@ == if old(self).task_states()@.contains_key(*task_id) {
                old(self).task_states()@.insert(*task_id, status)
            } else {
                old(self).task_states()@
            },
            final(self).workflow() == old(self).workflow(),
            final(self).plugins() == old(self).plugins(),
            final(self).task_results() == old(self).task_results(),
            final(self).trigger_results() == old(self).trigger_results(),
            final(self).context() == old(self).context(),
            final(self).max_parallelism() == old(self).max_parallelism(),
    {
        if self.task_states.contains_key(task_id) {
            let _ = self.task_states.insert(*task_id, status);
        }
    }
}

/// Builder of a `WorkflowExecutor`; the workflow and the plugins are required.
pub struct WorkflowExecutorBuilder<'a> {
    pub workflow: Option<&'a CompiledWorkflow<'a>>,
    pub plugins: Option<&'a Registry<'a>>,
    pub task_states: Option<HashMap<u128, TaskStatus>>,
    pub task_results: Option<HashMap<u128, TaskResult<'a>>>,
    pub trigger_results: Option<HashMap<u128, TriggerResult<'a>>>,
    pub context: Option<Option<WorkflowExecutionContext<'a>>>,
    pub max_parallelism: Option<usize>,
}

/// The entries of an optional map, an absent map being empty.
pub open spec fn entries_or_empty<V>(m: Option<HashMap<u128, V>>) -> Map<u128, V> {
    match m {
        Some(m) => m@,
        None => Map::empty(),
    }
}

impl<'a> WorkflowExecutorBuilder<'a> {
    /// The builder with nothing set.
    pub open spec fn empty() -> Self {
        WorkflowExecutorBuilder {
            workflow: None,
            plugins: None,
            task_states: None,
            task_results: None,
            trigger_results: None,
            context: None,
            max_parallelism: None,
        }
    }

    /// Sets the workflow.
    pub fn workflow(self, workflow: &'a CompiledWorkflow<'a>) -> (b: Self)
        ensures
            b == (WorkflowExecutorBuilder { workflow: Some(workflow), ..self }),
    {
        WorkflowExecutorBuilder { workflow: Some(workflow), ..self }
    }

    /// Sets the plugin registry.
    pub fn plugins(self, plugins: &'a Registry<'a>) -> (b: Self)
        ensures
            b == (WorkflowExecutorBuilder { plugins: Some(plugins), ..self }),
    {
        WorkflowExecutorBuilder { plugins: Some(plugins), ..self }
    }

    /// Sets all task states.
    pub fn task_states(self, task_states: HashMap<u128, TaskStatus>) -> (b: Self)
        ensures
            b == (WorkflowExecutorBuilder { task_states: Some(task_states), ..self }),
    {
        WorkflowExecutorBuilder { task_states: Some(task_states), ..self }
    }

    /// Adds one task state.
    pub fn task_state(self, entry: (u128, TaskStatus)) -> (b: Self)
        ensures
            b.task_states is Some,
            entries_or_empty(b.task_states) == entries_or_empty(self.task_states).insert(entry.0, entry.1),
            b == (WorkflowExecutorBuilder { task_states: b.task_states, ..self }),
    {
        let mut m = match self.task_states {
            Some(m) => m,
            None => HashMap::new(),
        };
        let _ = m.insert(entry.0, entry.1);
        WorkflowExecutorBuilder { task_states: Some(m), ..self }
    }

    /// Sets all task results.
    pub fn task_results(self, task_results: HashMap<u128, TaskResult<'a>>) -> (b: Self)
        ensures
            b == (WorkflowExecutorBuilder { task_results: Some(task_results), ..self }),
    {
        WorkflowExecutorBuilder { task_results: Some(task_results), ..self }
    }

    /// Adds one task result.
    pub fn task_result(self, entry: (u128, TaskResult<'a>)) -> (b: Self)
        ensures
            b.task_results is Some,
            entries_or_empty(b.task_results) == entries_or_empty(self.task_results).insert(entry.0, entry.1),
            b == (WorkflowExecutorBuilder { task_results: b.task_results, ..self }),
    {
        let mut m = match self.task_results {
            Some(m) => m,
            None => HashMap::new(),
        };
        let _ = m.insert(entry.0, entry.1);
        WorkflowExecutorBuilder { task_results: Some(m), ..self }
    }

    /// Sets all trigger results.
    pub fn trigger_results(self, trigger_results: HashMap<u128, TriggerResult<'a>>) -> (b: Self)
        ensures
            b == (WorkflowExecutorBuilder { trigger_results: Some(trigger_results), ..self }),
    {
        WorkflowExecutorBuilder { trigger_results: Some(trigger_results), ..self }
    }

    /// Adds one trigger result.
    pub fn trigger_result(self, entry: (u128, TriggerResult<'a>)) -> (b: Self)
        ensures
            b.trigger_results is Some,
            entries_or_empty(b.trigger_results) == entries_or_empty(self.trigger_results).insert(
                entry.0,
                entry.1,
            ),
            b == (WorkflowExecutorBuilder { trigger_results: b.trigger_results, ..self }),
    {
        let mut m = match self.trigger_results {
            Some(m) => m,
            None => HashMap::new(),
        };
        let _ = m.insert(entry.0, entry.1);
        WorkflowExecutorBuilder { trigger_results: Some(m), ..self }
    }

    /// Sets the execution context; `build` replaces it with a fresh one.
    pub fn context(self, context: Option<WorkflowExecutionContext<'a>>) -> (b: Self)
        ensures
            b == (WorkflowExecutorBuilder { context: Some(context), ..self }),
    {
        WorkflowExecutorBuilder { context: Some(context), ..self }
    }

    /// Sets the maximum parallelism.
    pub fn max_parallelism(self, max_parallelism: usize) -> (b: Self)
        ensures
            b == (WorkflowExecutorBuilder { max_parallelism: Some(max_parallelism), ..self }),
    {
        WorkflowExecutorBuilder { max_parallelism: Some(max_parallelism), ..self }
    }

    /// The executor, which takes what was set and leaves the builder empty. The workflow
    /// and then the plugins are required; a missing one is reported by its message. The
    /// maps default to empty, the parallelism to one, and the context is a new one for
    /// the workflow, with a fresh run identifier.
    pub fn build(&mut self) -> (r: Result<WorkflowExecutor<'a>, String>)
        ensures
            *final(self) == WorkflowExecutorBuilder::<'a>::empty(),
            match r {
                Ok(e) => {
                    &&& old(self).workflow == Some(e.workflow())
                    &&& old(self).plugins == Some(e.plugins())
                    &&& e.task_states()@ == entries_or_empty(old(self).task_states)
                    &&& e.task_results()@ == entries_or_empty(old(self).task_results)
                    &&& e.trigger_results()@ == entries_or_empty(old(self).trigger_results)
                    &&& e.max_parallelism() == match old(self).max_parallelism {
                        Some(p) => p,
                        None => 1,
                    }
                    &&& e.context() matches Some(c) && c.workflow_id() == e.workflow().workflow().id()
                },
                Err(s) => {
                    ||| old(self).workflow is None && s@ == builder_error_text(
                        BuilderError::UninitializedField("workflow"),
                    )
                    ||| old(self).workflow is Some && old(self).plugins is None && s@
                        == builder_error_text(BuilderError::UninitializedField("plugins"))
                },
            },
    {
        let mut builder = WorkflowExecutor::builder();
        std::mem::swap(&mut builder, self);
        let workflow = match builder.workflow {
            Some(w) => w,
            None => return Err(BuilderError::UninitializedField("workflow").message()),
        };
        let plugins = match builder.plugins {
            Some(p) => p,
            None => return Err(BuilderError::UninitializedField("plugins").message()),
        };
        let task_states = match builder.task_states {
            Some(m) => m,
            None => HashMap::new(),
        };
        let task_results = match builder.task_results {
            Some(m) => m,
            None => HashMap::new(),
        };
        let trigger_results = match builder.trigger_results {
            Some(m) => m,
            None => HashMap::new(),
        };
        let max_parallelism = match builder.max_parallelism {
            Some(p) => p,
            None => 1,
        };
        let context = match WorkflowExecutionContext::builder().run_id(new_id()).workflow_id(
            workflow.workflow().id(),
        ).build() {
            Ok(c) => c,
            Err(e) => return Err(e.message()),
        };
        Ok(
            WorkflowExecutor {
                workflow,
                plugins,
                task_states,
                task_results,
                trigger_results,
                context: Some(context),
                max_parallelism,
            },
        )
    }
}

} // verus!
