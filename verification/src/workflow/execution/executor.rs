//! Running a workflow, as it stands, from one of its triggers: the tasks that depend on
//! the trigger are found by following dependents, and a cycle among them is reported.
use crate::builder::{builder_error_text, BuilderError};
use crate::compiler::{
    depends_edge, edges_depend, indexed, lemma_graph_cycle_is_dependency_cycle, lemma_index_push,
    on_dependency_cycle, ref_exists,
};
use crate::digraph::{graph_add_edge, graph_add_node, graph_edges, graph_new, graph_nodes, is_topological_order, on_cycle};
use crate::executor::{
    entries_or_empty, lemma_cycle_in_subgraph, lemma_reachable_exists, lemma_reachable_source_exists,
    lemma_sorted_subgraph, start_of,
    handled_task, reachable_from, resolution_fault_from, run_outputs, run_sorted, run_succeeds, subgraph_of, weights_of,
    ExecutionGraph,
};
use crate::ids::new_id;
use crate::plugin::Registry;
use crate::ref_map::{RefMap, RefSet};
use crate::task::{all_dependencies, lemma_binding_ref, lemma_binding_ref_source, InputBinding, TaskResult, TaskStatus};
use crate::trigger::{Trigger, TriggerResult};
use crate::workflow::execution::{
    cycle_after, dependent_path, dependents_keyed, depends_transitively, lemma_closed_holds, lemma_depends_extend, lemma_depends_reachable,
    lemma_depends_step, lemma_reachable_concat, ExecutionError,
};
use crate::workflow::{dependents_of, ref_id, DependencyRef, Workflow, WorkflowExecutionContext};
use std::collections::HashMap;
use vstd::prelude::*;

verus! {

/// Executor for managing the execution of a workflow.
pub struct WorkflowExecutor<'a> {
    workflow: &'a Workflow<'a>,
    plugins: &'a Registry<'a>,
    task_states: HashMap<u128, TaskStatus>,
    task_results: HashMap<u128, TaskResult<'a>>,
    trigger_results: HashMap<u128, TriggerResult<'a>>,
    context: Option<WorkflowExecutionContext<'a>>,
    max_parallelism: usize,
}

impl<'a> WorkflowExecutor<'a> {
    /// A new builder, with nothing set.
    pub fn builder() -> (b: WorkflowExecutorBuilder<'a>)
        ensures
            b == WorkflowExecutorBuilder::<'a>::empty(),
    {
        WorkflowExecutorBuilder {
            workflow: None,
            plugins: None,
            task_states: None,
            task_results: None,
            trigger_results: None,
            context: None,
            max_parallelism: None,
        }
    }

    pub closed spec fn spec_workflow(&self) -> &'a Workflow<'a> {
        self.workflow
    }

    pub closed spec fn spec_plugins(&self) -> &'a Registry<'a> {
        self.plugins
    }

    pub closed spec fn spec_task_states(&self) -> &HashMap<u128, TaskStatus> {
        &self.task_states
    }

    pub closed spec fn spec_task_results(&self) -> &HashMap<u128, TaskResult<'a>> {
        &self.task_results
    }

    pub closed spec fn spec_trigger_results(&self) -> &HashMap<u128, TriggerResult<'a>> {
        &self.trigger_results
    }

    pub closed spec fn spec_context(&self) -> &Option<WorkflowExecutionContext<'a>> {
        &self.context
    }

    pub closed spec fn spec_max_parallelism(&self) -> usize {
        self.max_parallelism
    }

    /// The workflow to be executed.
    #[verifier::when_used_as_spec(spec_workflow)]
    pub fn workflow(&self) -> (r: &'a Workflow<'a>)
        returns
            self.spec_workflow(),
    {
        self.workflow
    }

    /// The plugin registry used during execution.
    #[verifier::when_used_as_spec(spec_plugins)]
    pub fn plugins(&self) -> (r: &'a Registry<'a>)
        returns
            self.spec_plugins(),
    {
        self.plugins
    }

    /// States of tasks in the workflow.
    #[verifier::when_used_as_spec(spec_task_states)]
    pub fn task_states(&self) -> (r: &HashMap<u128, TaskStatus>)
        returns
            self.spec_task_states(),
    {
        &self.task_states
    }

    /// Results of tasks in the workflow.
    #[verifier::when_used_as_spec(spec_task_results)]
    pub fn task_results(&self) -> (r: &HashMap<u128, TaskResult<'a>>)
        returns
            self.spec_task_results(),
    {
        &self.task_results
    }

    /// Results of triggers in the workflow.
    #[verifier::when_used_as_spec(spec_trigger_results)]
    pub fn trigger_results(&self) -> (r: &HashMap<u128, TriggerResult<'a>>)
        returns
            self.spec_trigger_results(),
    {
        &self.trigger_results
    }

    /// Execution context of the workflow.
    #[verifier::when_used_as_spec(spec_context)]
    pub fn context(&self) -> (r: &Option<WorkflowExecutionContext<'a>>)
        returns
            self.spec_context(),
    {
        &self.context
    }

    /// Maximum parallelism for task execution.
    #[verifier::when_used_as_spec(spec_max_parallelism)]
    pub fn max_parallelism(&self) -> (r: usize)
        returns
            self.spec_max_parallelism(),
    {
        self.max_parallelism
    }

    /// Runs the workflow from trigger `trigger_id`, whose outputs are those of `result`.
    /// The tasks that depend on the trigger, directly or through other tasks, are found;
    /// a dependency cycle among them is reported before any of them runs. Otherwise each
    /// runs once, after the tasks it depends on, with its inputs resolved from literals
    /// and from the outputs of the trigger and of those tasks, and its result is recorded;
    /// a task whose input cannot be resolved stops the run with that fault.
    ///
    /// The tasks are found from the identifier that the trigger carries (`start_of`),
    /// while its outputs are offered under `trigger_id`; the two agree when the trigger is
    /// stored under its own identifier.
    pub fn execute_from_trigger(&mut self, trigger_id: u128, result: TriggerResult<'a>) -> (r: Result<(), ExecutionError>)
        requires
            old(self).workflow().triggers()@.contains_key(trigger_id),
            dependents_keyed(*old(self).workflow(), DependencyRef::Trigger(start_of(*old(self).workflow(), trigger_id))),
            old(self).workflow().triggers()@.contains_key(start_of(*old(self).workflow(), trigger_id)) || dependents_of(
                *old(self).workflow(),
                DependencyRef::Trigger(start_of(*old(self).workflow(), trigger_id)),
            ).is_empty(),
        ensures
            final(self).workflow() == old(self).workflow(),
            final(self).plugins() == old(self).plugins(),
            final(self).task_states() == old(self).task_states(),
            final(self).trigger_results() == old(self).trigger_results(),
            final(self).context() == old(self).context(),
            final(self).max_parallelism() == old(self).max_parallelism(),
            cycle_after(*old(self).workflow(), start_of(*old(self).workflow(), trigger_id)) ==> r == Err::<(), ExecutionError>(
                ExecutionError::DependencyCycle,
            ) && final(self).task_results() == old(self).task_results(),
            !cycle_after(*old(self).workflow(), start_of(*old(self).workflow(), trigger_id)) ==> (r is Ok <==> run_succeeds(
                *old(self).workflow(),
                start_of(*old(self).workflow(), trigger_id),
                trigger_id,
                result.outputs@,
                final(self).task_results()@,
            )),
            r is Ok ==> forall|k: u128|
                #![trigger final(self).task_results()@.contains_key(k)]
                old(self).workflow().tasks()@.contains_key(k) && reachable_from(
                    *old(self).workflow(),
                    DependencyRef::Trigger(start_of(*old(self).workflow(), trigger_id)),
                    DependencyRef::Task(k),
                ) ==> final(self).task_results()@.contains_key(k),
            r is Ok ==> forall|k: u128|
                #![trigger final(self).task_results()@.contains_key(k)]
                old(self).workflow().tasks()@.contains_key(k) && reachable_from(
                    *old(self).workflow(),
                    DependencyRef::Trigger(start_of(*old(self).workflow(), trigger_id)),
                    DependencyRef::Task(k),
                ) ==> handled_task(
                    *old(self).workflow(),
                    k,
                    run_outputs(*old(self).workflow(), start_of(*old(self).workflow(), trigger_id), trigger_id, result.outputs@, final(self).task_results()@),
                    final(self).task_results()@[k],
                ),
            r matches Err(e) ==> !cycle_after(*old(self).workflow(), start_of(*old(self).workflow(), trigger_id)) ==> exists|k: u128|
                #![trigger old(self).workflow().tasks()@[k]]
                old(self).workflow().tasks()@.contains_key(k) && reachable_from(
                    *old(self).workflow(),
                    DependencyRef::Trigger(start_of(*old(self).workflow(), trigger_id)),
                    DependencyRef::Task(k),
                ) && resolution_fault_from(
                    old(self).workflow().tasks()@[k].inputs().pairs(),
                    run_outputs(*old(self).workflow(), start_of(*old(self).workflow(), trigger_id), trigger_id, result.outputs@, final(self).task_results()@),
                    0,
                ) == Some(e@),
            forall|k: u128|
                #![trigger final(self).task_results()@.contains_key(k)]
                !(old(self).workflow().tasks()@.contains_key(k) && reachable_from(
                    *old(self).workflow(),
                    DependencyRef::Trigger(start_of(*old(self).workflow(), trigger_id)),
                    DependencyRef::Task(k),
                )) ==> (final(self).task_results()@.contains_key(k) == old(self).task_results()@.contains_key(k)
                    && (old(self).task_results()@.contains_key(k) ==> final(self).task_results()@[k]
                    == old(self).task_results()@[k])),
    {
        let workflow = self.workflow;
        let ghost w = *workflow;
        let trigger = workflow.triggers().get(&trigger_id).unwrap();
        let ghost start = DependencyRef::Trigger(trigger.id());
        assert(trigger.id() == start_of(w, trigger_id));
        let graph = match self.build_execution_graph(trigger) {
            Ok(g) => g,
            Err(e) => return Err(e),
        };
        let ghost g = *graph.graph();
        let ghost gidx = *graph.index_map();
        let ghost members = |d: DependencyRef| d is Task && reachable_from(w, start, d);
        let sorted = match graph.topological_sort() {
            Ok(s) => s,
            Err(e) => {
                proof {
                    let c = choose|c: int| 0 <= c < graph_nodes(g).len() && #[trigger] on_cycle(graph_edges(g), c);
                    lemma_graph_cycle_is_dependency_cycle(w, g, c);
                    let node = graph_nodes(g)[c];
                    assert(gidx@.contains_key(node));
                    assert(members(node));
                    lemma_reachable_source_exists(w, start, node);
                    lemma_reachable_exists(w, start, node);
                    assert(on_dependency_cycle(w, DependencyRef::Task(ref_id(node))));
                }
                return Err(e);
            },
        };
        proof {
            if cycle_after(w, trigger.id()) {
                let k = choose|k: u128|
                    #![trigger on_dependency_cycle(w, DependencyRef::Task(k))]
                    w.tasks()@.contains_key(k) && reachable_from(w, start, DependencyRef::Task(k))
                        && on_dependency_cycle(w, DependencyRef::Task(k));
                let t = DependencyRef::Task(k);
                assert forall|d: DependencyRef| reachable_from(w, t, d) implies #[trigger] gidx@.contains_key(d) by {
                    lemma_reachable_concat(w, start, t, d);
                    let p = choose|p: Seq<DependencyRef>| p.len() >= 1 && p[0] == t && p.last() == d
                        && #[trigger] crate::compiler::dependency_path(w, p);
                    if p.len() > 1 {
                        let l = p.len() - 2;
                        assert(depends_edge(w, p[l], p[l + 1]));
                    }
                    assert(members(d));
                }
                assert(members(t));
                lemma_cycle_in_subgraph(w, members, g, gidx, t);
            }
        }
        let ghost refs = sorted@;
        let ghost order = choose|order: Seq<int>|
            #[trigger] is_topological_order(graph_nodes(g).len() as int, graph_edges(g), order) && refs
                == weights_of(g, order);
        proof {
            lemma_sorted_subgraph(w, members, g, gidx, order, refs);
            assert forall|j: int| 0 <= j < refs.len() implies reachable_from(w, start, #[trigger] refs[j]) by {
                assert(members(refs[j]));
            }
            assert forall|k: u128|
                #![trigger reachable_from(w, start, DependencyRef::Task(k))]
                w.tasks()@.contains_key(k) && reachable_from(w, start, DependencyRef::Task(k)) implies exists|j: int|
                    0 <= j < refs.len() && #[trigger] refs[j] == DependencyRef::Task(k) by {
                assert(members(DependencyRef::Task(k)));
            }
            if refs.len() > 0 {
                assert(members(refs[0]));
                lemma_reachable_source_exists(w, start, refs[0]);
            }
        }
        run_sorted(workflow, trigger.id(), trigger_id, result.outputs, &sorted, &mut self.task_results)
    }

    /// The tasks that depend on the trigger, directly or through other tasks, found by
    /// following the tasks that depend on each one found.
    pub fn reachable_tasks(&self, trigger: &Trigger<'a>) -> (r: RefSet)
        ensures
            forall|d: DependencyRef|
                #[trigger] r@.contains(d) <==> depends_transitively(
                    *self.workflow(),
                    DependencyRef::Trigger(trigger.id()),
                    d,
                ),
    {
        let ghost w = *self.workflow;
        let start = DependencyRef::from_trigger(trigger);
        let ghost dom = w.tasks()@.dom();
        let ghost tasks_of = |k: u128| DependencyRef::Task(w.tasks()@[k].id());
        let ghost all = dom.map(tasks_of);
        proof {
            vstd::set_lib::lemma_map_size_bound(dom, all, tasks_of);
        }
        let mut visited = RefSet::new();
        let mut stack: Vec<DependencyRef> = Vec::new();
        stack.push(start);
        assert(stack@[0] == start);
        while stack.len() > 0
            invariant
                w == *self.workflow,
                start == DependencyRef::Trigger(trigger.id()),
                dom == w.tasks()@.dom(),
                all == dom.map(tasks_of),
                forall|k: u128| #[trigger] tasks_of(k) == DependencyRef::Task(w.tasks()@[k].id()),
                all.finite(),
                all.len() <= dom.len(),
                visited@.subset_of(all),
                forall|d: DependencyRef| #[trigger] visited@.contains(d) ==> depends_transitively(w, start, d),
                stack@.no_duplicates(),
                forall|j: int|
                    0 <= j < stack@.len() ==> #[trigger] stack@[j] == start || visited@.contains(stack@[j]),
                !stack@.contains(start) ==> forall|d: DependencyRef|
                    #[trigger] dependents_of(w, start).contains(d) ==> visited@.contains(d),
                forall|v: DependencyRef, d: DependencyRef|
                    visited@.contains(v) && !stack@.contains(v) && #[trigger] dependents_of(w, v).contains(d)
                        ==> visited@.contains(d),
                visited.elements().len() <= dom.len(),
            decreases 2 * (dom.len() - visited.elements().len()) + stack@.len(),
        {
            let ghost v0 = visited.elements().len();
            let ghost s0 = stack@.len();
            let ghost stack0 = stack@;
            let curr_ref = stack.pop().unwrap();
            proof {
                assert(stack0 == stack@.push(curr_ref));
                assert(!stack@.contains(curr_ref)) by {
                    if stack@.contains(curr_ref) {
                        let j = choose|j: int| 0 <= j < stack@.len() && stack@[j] == curr_ref;
                        assert(stack0[j] == stack0[stack0.len() - 1]);
                    }
                }
                assert(curr_ref == start || visited@.contains(curr_ref)) by {
                    assert(stack0[stack0.len() - 1] == curr_ref);
                }
            }
            let deps = self.workflow.find_tasks_depending_on(&curr_ref);
            let mut q: usize = 0;
            while q < deps.len()
                invariant
                    w == *self.workflow,
                    start == DependencyRef::Trigger(trigger.id()),
                    dom == w.tasks()@.dom(),
                    all == dom.map(tasks_of),
                    forall|k: u128| #[trigger] tasks_of(k) == DependencyRef::Task(w.tasks()@[k].id()),
                    all.finite(),
                    all.len() <= dom.len(),
                    deps@.to_set() == dependents_of(w, curr_ref),
                    q <= deps@.len(),
                    curr_ref == start || visited@.contains(curr_ref),
                    !stack@.contains(curr_ref),
                    visited@.subset_of(all),
                    forall|d: DependencyRef| #[trigger] visited@.contains(d) ==> depends_transitively(w, start, d),
                    stack@.no_duplicates(),
                    forall|j: int|
                        0 <= j < stack@.len() ==> #[trigger] stack@[j] == start || visited@.contains(stack@[j]),
                    curr_ref != start ==> !stack@.contains(start) ==> forall|d: DependencyRef|
                        #[trigger] dependents_of(w, start).contains(d) ==> visited@.contains(d),
                    forall|v: DependencyRef, d: DependencyRef|
                        visited@.contains(v) && !stack@.contains(v) && v != curr_ref && #[trigger] dependents_of(w, v).contains(d)
                            ==> visited@.contains(d),
                    forall|j: int| 0 <= j < q ==> visited@.contains(#[trigger] deps@[j]),
                    stack@.len() + v0 + 1 == s0 + visited.elements().len(),
                    v0 <= visited.elements().len(),
                decreases deps@.len() - q,
            {
                let task_ref = deps[q];
                proof {
                    assert(deps@.to_set().contains(task_ref));
                    assert(dependents_of(w, curr_ref).contains(task_ref));
                    let k = choose|k: u128|
                        #![trigger w.tasks()@[k]]
                        w.tasks()@.contains_key(k) && task_ref == DependencyRef::Task(w.tasks()@[k].id())
                            && all_dependencies(w.tasks()@[k]).contains(curr_ref);
                    assert(dom.contains(k));
                    assert(all.contains(tasks_of(k)));
                    assert(task_ref == tasks_of(k));
                    if curr_ref == start {
                        lemma_depends_step(w, start, task_ref);
                    } else {
                        lemma_depends_extend(w, start, curr_ref, task_ref);
                    }
                }
                let ghost stack_before = stack@;
                let ghost visited_before = visited@;
                if visited.insert(task_ref) {
                    proof {
                        assert(!stack_before.contains(task_ref));
                    }
                    stack.push(task_ref);
                    proof {
                        assert forall|a: int, b: int| 0 <= a < b < stack@.len() implies stack@[a] != stack@[b] by {
                            if b == stack_before.len() {
                                assert(stack_before.contains(stack_before[a]));
                            }
                        }
                        assert forall|v: DependencyRef| #[trigger] stack@.contains(v) implies stack_before.contains(v)
                            || v == task_ref by {
                            let j = choose|j: int| 0 <= j < stack@.len() && stack@[j] == v;
                            if j < stack_before.len() {
                                assert(stack_before[j] == v);
                            }
                        }
                        assert forall|v: DependencyRef| #[trigger] stack_before.contains(v) implies stack@.contains(v) by {
                            let j = choose|j: int| 0 <= j < stack_before.len() && stack_before[j] == v;
                            assert(stack@[j] == v);
                        }
                        assert(stack@[stack_before.len() as int] == task_ref);
                    }
                }
                proof {
                    assert forall|v: DependencyRef, d: DependencyRef|
                        visited@.contains(v) && !stack@.contains(v) && v != curr_ref && #[trigger] dependents_of(w, v).contains(d)
                            implies visited@.contains(d) by {
                        if v != task_ref {
                            assert(visited_before.contains(v));
                            assert(!stack_before.contains(v));
                        } else {
                            assert(visited_before.contains(v));
                            assert(!stack_before.contains(v));
                        }
                    }
                }
                q = q + 1;
            }
            let _ = visited.len();
            proof {
                assert forall|d: DependencyRef| #[trigger] dependents_of(w, curr_ref).contains(d) implies visited@.contains(d) by {
                    assert(deps@.to_set().contains(d));
                    let j = choose|j: int| 0 <= j < deps@.len() && deps@[j] == d;
                }
                visited.elements().unique_seq_to_set();
                vstd::set_lib::lemma_len_subset(visited@, all);
            }
        }
        proof {
            assert forall|d: DependencyRef| #[trigger] visited@.contains(d) <==> depends_transitively(w, start, d) by {
                if depends_transitively(w, start, d) {
                    lemma_closed_holds(w, start, visited@, d);
                }
            }
        }
        visited
    }

    /// The execution graph of a run started by `trigger`: a node for each task that
    /// depends on the trigger, and an edge from each of their dependencies (explicit, or
    /// the source of an input) that is among them to the task.
    fn build_execution_graph(&self, trigger: &Trigger<'a>) -> (r: Result<ExecutionGraph, ExecutionError>)
        requires
            dependents_keyed(*self.workflow, DependencyRef::Trigger(trigger.id())),
            self.workflow.triggers()@.contains_key(trigger.id()) || dependents_of(
                *self.workflow,
                DependencyRef::Trigger(trigger.id()),
            ).is_empty(),
        ensures
            r matches Ok(g) && subgraph_of(
                *self.workflow,
                |d: DependencyRef| d is Task && reachable_from(*self.workflow, DependencyRef::Trigger(trigger.id()), d),
                *g.graph(),
                *g.index_map(),
            ),
    {
        let ghost w = *self.workflow;
        let ghost start = DependencyRef::Trigger(trigger.id());
        let reachable_tasks = self.reachable_tasks(trigger);
        proof {
            assert forall|d: DependencyRef| #[trigger] reachable_tasks@.contains(d) <==> (d is Task && reachable_from(w, start, d)) by {
                if w.triggers()@.contains_key(trigger.id()) {
                    lemma_depends_reachable(w, trigger.id(), d);
                } else {
                    if reachable_tasks@.contains(d) {
                        let p = choose|p: Seq<DependencyRef>|
                            p.len() >= 2 && p[0] == start && p.last() == d && #[trigger] dependent_path(w, p);
                        let i = 0int;
                        assert(dependents_of(w, p[i]).contains(p[i + 1]));
                    }
                    if d is Task && reachable_from(w, start, d) {
                        lemma_reachable_source_exists(w, start, d);
                    }
                }
            }
        }

        // A node for each task that depends on the trigger.
        let elems = reachable_tasks.to_vec();
        let mut graph = graph_new();
        let mut index_map: RefMap<usize> = RefMap::new();
        let mut k: usize = 0;
        while k < elems.len()
            invariant
                k <= elems@.len(),
                elems@.no_duplicates(),
                indexed(graph_nodes(graph), index_map@),
                graph_edges(graph) == Seq::<(int, int)>::empty(),
                graph_nodes(graph).len() == k,
                forall|r: DependencyRef|
                    index_map@.contains_key(r) <==> exists|p: int| 0 <= p < k && #[trigger] elems@[p] == r,
            decreases elems@.len() - k,
        {
            let task_node = elems[k];
            proof {
                if index_map@.contains_key(task_node) {
                    let p = choose|p: int| 0 <= p < k && #[trigger] elems@[p] == task_node;
                    assert(elems@[p] == elems@[k as int]);
                }
            }
            let ghost old_nodes = graph_nodes(graph);
            let ghost old_map = index_map@;
            let node_index = graph_add_node(&mut graph, task_node);
            index_map.insert(task_node, node_index);
            proof {
                lemma_index_push(old_nodes, old_map, task_node, node_index);
                assert forall|r: DependencyRef|
                    index_map@.contains_key(r) <==> exists|p: int| 0 <= p < k + 1 && #[trigger] elems@[p] == r by {
                    if r == task_node {
                        assert(elems@[k as int] == r);
                    }
                }
            }
            k = k + 1;
        }
        let ghost nodes = graph_nodes(graph);
        let ghost idx = index_map@;
        proof {
            assert forall|r: DependencyRef| #[trigger] idx.contains_key(r) <==> (r is Task && reachable_from(w, start, r)) by {
                if idx.contains_key(r) {
                    let p = choose|p: int| 0 <= p < elems@.len() && #[trigger] elems@[p] == r;
                    assert(elems@.to_set().contains(r));
                }
                if r is Task && reachable_from(w, start, r) {
                    assert(elems@.to_set().contains(r));
                    let p = choose|p: int| 0 <= p < elems@.len() && elems@[p] == r;
                    assert(elems@[p] == r);
                }
            }
        }

        proof {
            if elems@.len() > 0 {
                assert(elems@.contains(elems@[0]));
                assert(idx.contains_key(elems@[0]));
                lemma_reachable_source_exists(w, start, elems@[0]);
            }
        }

        // An edge from each dependency among them to the task that depends on it.
        let mut k: usize = 0;
        while k < elems.len()
            invariant
                k <= elems@.len(),
                w == *self.workflow,
                dependents_keyed(w, start),
                elems@.len() > 0 ==> w.triggers()@.contains_key(ref_id(start)),
                start is Trigger,
                nodes == graph_nodes(graph),
                idx == index_map@,
                indexed(nodes, idx),
                forall|r: DependencyRef| #[trigger] idx.contains_key(r) <==> (r is Task && reachable_from(w, start, r)),
                forall|r: DependencyRef| #[trigger] elems@.contains(r) <==> idx.contains_key(r),
                edges_depend(w, graph),
                forall|p: int, a: DependencyRef|
                    0 <= p < k && idx.contains_key(a) && #[trigger] depends_edge(w, a, #[trigger] elems@[p])
                        ==> graph_edges(graph).contains((idx[a] as int, idx[elems@[p]] as int)),
            decreases elems@.len() - k,
        {
            let task_node = elems[k];
            let ghost edges_before = graph_edges(graph);
            proof {
                assert(elems@.contains(task_node));
                lemma_reachable_exists(w, start, task_node);
            }
            let task_index = *index_map.get(&task_node).unwrap();
            let task = match task_node {
                DependencyRef::Task(id) => self.workflow.tasks().get(&id),
                _ => None,
            };
            if let Some(task) = task {
                let ghost id = ref_id(task_node);
                assert(*task == w.tasks()@[id]);
                let deps = task.dependencies();
                let mut j: usize = 0;
                while j < deps.len()
                    invariant
                        j <= deps@.len(),
                        deps@ == w.tasks()@[id].dependencies()@,
                        w.tasks()@.contains_key(id),
                        task_node == DependencyRef::Task(id),
                        idx.contains_key(task_node),
                        task_index == idx[task_node],
                        nodes == graph_nodes(graph),
                        idx == index_map@,
                        indexed(nodes, idx),
                        forall|r: DependencyRef| #[trigger] idx.contains_key(r) <==> (r is Task && reachable_from(w, start, r)),
                        w.triggers()@.contains_key(ref_id(start)),
                        start is Trigger,
                        edges_depend(w, graph),
                        forall|e: (int, int)| #[trigger] edges_before.contains(e) ==> graph_edges(graph).contains(e),
                        forall|i: int|
                            0 <= i < j && idx.contains_key(#[trigger] deps@[i]) ==> graph_edges(graph).contains(
                                (idx[deps@[i]] as int, task_index as int),
                            ),
                    decreases deps@.len() - j,
                {
                    let ghost edges_now = graph_edges(graph);
                    if let Some(dep_index) = index_map.get(&deps[j]) {
                        proof {
                            lemma_reachable_exists(w, start, deps@[j as int]);
                            assert(all_dependencies(w.tasks()@[id])[j as int] == deps@[j as int]);
                            assert(depends_edge(w, deps@[j as int], task_node));
                        }
                        graph_add_edge(&mut graph, *dep_index, task_index);
                        proof {
                            assert(graph_edges(graph).last() == (*dep_index as int, task_index as int));
                            assert forall|e: (int, int)| #[trigger] edges_now.contains(e) implies graph_edges(graph).contains(e) by {
                                let i = choose|i: int| 0 <= i < edges_now.len() && edges_now[i] == e;
                                assert(graph_edges(graph)[i] == e);
                            }
                            assert forall|e: (int, int)| #[trigger] graph_edges(graph).contains(e) implies 0 <= e.0
                                < nodes.len() && 0 <= e.1 < nodes.len() && depends_edge(w, nodes[e.0], nodes[e.1]) by {
                                if e != (*dep_index as int, task_index as int) {
                                    let i = choose|i: int| 0 <= i < graph_edges(graph).len() && graph_edges(graph)[i] == e;
                                    assert(edges_now[i] == e);
                                    assert(edges_now.contains(e));
                                }
                            }
                        }
                    }
                    j = j + 1;
                }
                let inputs = task.inputs();
                let ghost pairs = inputs.pairs();
                let n = inputs.len();
                let mut j: usize = 0;
                while j < n
                    invariant
                        j <= n,
                        n == pairs.len(),
                        pairs == inputs.pairs(),
                        pairs == w.tasks()@[id].inputs().pairs(),
                        deps@ == w.tasks()@[id].dependencies()@,
                        w.tasks()@.contains_key(id),
                        task_node == DependencyRef::Task(id),
                        idx.contains_key(task_node),
                        task_index == idx[task_node],
                        nodes == graph_nodes(graph),
                        idx == index_map@,
                        indexed(nodes, idx),
                        forall|r: DependencyRef| #[trigger] idx.contains_key(r) <==> (r is Task && reachable_from(w, start, r)),
                        w.triggers()@.contains_key(ref_id(start)),
                        start is Trigger,
                        edges_depend(w, graph),
                        forall|e: (int, int)| #[trigger] edges_before.contains(e) ==> graph_edges(graph).contains(e),
                        forall|i: int|
                            0 <= i < deps@.len() && idx.contains_key(#[trigger] deps@[i]) ==> graph_edges(graph).contains(
                                (idx[deps@[i]] as int, task_index as int),
                            ),
                        forall|i: int|
                            0 <= i < j && (#[trigger] pairs[i]).1 is Reference && idx.contains_key(pairs[i].1->ref_from)
                                ==> graph_edges(graph).contains((idx[pairs[i].1->ref_from] as int, task_index as int)),
                    decreases n - j,
                {
                    let ghost edges_now = graph_edges(graph);
                    if let InputBinding::Reference { ref_from, .. } = inputs.value_at(j) {
                        if let Some(dep_index) = index_map.get(ref_from) {
                            proof {
                                lemma_reachable_exists(w, start, *ref_from);
                                lemma_binding_ref(pairs, j as int);
                                let refs = crate::task::binding_refs(pairs);
                                let q = choose|q: int| 0 <= q < refs.len() && refs[q] == *ref_from;
                                assert(all_dependencies(w.tasks()@[id])[deps@.len() + q] == *ref_from);
                                assert(depends_edge(w, *ref_from, task_node));
                            }
                            graph_add_edge(&mut graph, *dep_index, task_index);
                            proof {
                                assert(graph_edges(graph).last() == (*dep_index as int, task_index as int));
                                assert forall|e: (int, int)| #[trigger] edges_now.contains(e) implies graph_edges(graph).contains(e) by {
                                    let i = choose|i: int| 0 <= i < edges_now.len() && edges_now[i] == e;
                                    assert(graph_edges(graph)[i] == e);
                                }
                                assert forall|e: (int, int)| #[trigger] graph_edges(graph).contains(e) implies 0 <= e.0
                                    < nodes.len() && 0 <= e.1 < nodes.len() && depends_edge(w, nodes[e.0], nodes[e.1]) by {
                                    if e != (*dep_index as int, task_index as int) {
                                        let i = choose|i: int| 0 <= i < graph_edges(graph).len() && graph_edges(graph)[i] == e;
                                        assert(edges_now[i] == e);
                                        assert(edges_now.contains(e));
                                    }
                                }
                            }
                        }
                    }
                    j = j + 1;
                }
                proof {
                    assert forall|a: DependencyRef|
                        idx.contains_key(a) && #[trigger] depends_edge(w, a, task_node) implies graph_edges(graph).contains(
                        (idx[a] as int, idx[task_node] as int),
                    ) by {
                        let all = all_dependencies(w.tasks()@[id]);
                        let i = choose|i: int| 0 <= i < all.len() && all[i] == a;
                        if i < deps@.len() {
                            assert(deps@[i] == a);
                        } else {
                            let refs = crate::task::binding_refs(pairs);
                            assert(refs[i - deps@.len()] == a);
                            lemma_binding_ref_source(pairs, a);
                            let q = choose|q: int| 0 <= q < pairs.len() && (#[trigger] pairs[q]).1 is Reference
                                && pairs[q].1->ref_from == a;
                        }
                    }
                }
            }
            proof {
                assert forall|p: int, a: DependencyRef|
                    0 <= p < k + 1 && idx.contains_key(a) && #[trigger] depends_edge(w, a, #[trigger] elems@[p])
                        implies graph_edges(graph).contains((idx[a] as int, idx[elems@[p]] as int)) by {
                    if p < k {
                        assert(edges_before.contains((idx[a] as int, idx[elems@[p]] as int)));
                    }
                }
            }
            k = k + 1;
        }
        proof {
            assert forall|a: DependencyRef, b: DependencyRef|
                #[trigger] depends_edge(w, a, b) && idx.contains_key(a) && idx.contains_key(b)
                    implies graph_edges(graph).contains((idx[a] as int, idx[b] as int)) by {
                assert(elems@.contains(b));
                let p = choose|p: int| 0 <= p < elems@.len() && elems@[p] == b;
                assert(depends_edge(w, a, elems@[p]));
            }
        }
        Ok(ExecutionGraph::new(graph, index_map))
    }

    /// Records the result of a task.
    #[allow(dead_code)]
    fn add_task_result(&mut self, task_id: u128, result: TaskResult<'a>)
        ensures
            final(self).task_results@ == old(self).task_results@.insert(task_id, result),
            final(self).task_states == old(self).task_states,
            final(self).trigger_results == old(self).trigger_results,
    {
        let _ = self.task_results.insert(task_id, result);
    }

    /// Records the result of a trigger.
    #[allow(dead_code)]
    fn add_trigger_result(&mut self, trigger_id: u128, result: TriggerResult<'a>)
        ensures
            final(self).trigger_results@ == old(self).trigger_results@.insert(trigger_id, result),
            final(self).task_states == old(self).task_states,
            final(self).task_results == old(self).task_results,
    {
        let _ = self.trigger_results.insert(trigger_id, result);
    }

    /// Records the state of a task.
    #[allow(dead_code)]
    fn add_task_state(&mut self, task_id: u128, status: TaskStatus)
        ensures
            final(self).task_states@ == old(self).task_states@.insert(task_id, status),
            final(self).task_results == old(self).task_results,
            final(self).trigger_results == old(self).trigger_results,
    {
        let _ = self.task_states.insert(task_id, status);
    }

    /// The result of a task, if it has one.
    pub fn get_task_result(&self, task_id: &u128) -> (r: Option<&TaskResult<'a>>)
        ensures
            match r {
                Some(v) => self.task_results()@.contains_key(*task_id) && *v
                    == self.task_results()@[*task_id],
                None => !self.task_results()@.contains_key(*task_id),
            },
    {
        self.task_results.get(task_id)
    }

    /// The result of a trigger, if it has one.
    pub fn get_trigger_result(&'a self, trigger_id: &u128) -> (r: Option<&'a TriggerResult<'a>>)
        ensures
            match r {
                Some(v) => self.trigger_results()@.contains_key(*trigger_id) && *v
                    == self.trigger_results()@[*trigger_id],
                None => !self.trigger_results()@.contains_key(*trigger_id),
            },
    {
        self.trigger_results.get(trigger_id)
    }

    /// The state of a task, if it has one.
    pub fn get_task_state(&self, task_id: &u128) -> (r: Option<&TaskStatus>)
        ensures
            match r {
                Some(v) => self.task_states()@.contains_key(*task_id) && *v
                    == self.task_states()@[*task_id],
                None => !self.task_states()@.contains_key(*task_id),
            },
    {
        self.task_states.get(task_id)
    }

    /// Replaces the state of a task that has one; a task without a state keeps none.
    pub fn update_task_state(&mut self, task_id: &u128, status: TaskStatus)
        ensures
            final(self).task_states()@ == if old(self).task_states()@.contains_key(*task_id) {
                old(self).task_states()@.insert(*task_id, status)
            } else {
                old(self).task_states()@
            },
            final(self).workflow() == old(self).workflow(),
            final(self).plugins() == old(self).plugins(),
            final(self).task_results() == old(self).task_results(),
            final(self).trigger_results() == old(self).trigger_results(),
            final(self).context() == old(self).context(),
            final(self).max_parallelism() == old(self).max_parallelism(),
    {
        if self.task_states.contains_key(task_id) {
            let _ = self.task_states.insert(*task_id, status);
        }
    }
}

/// Builder of a `WorkflowExecutor`; the workflow and the plugins are required.
pub struct WorkflowExecutorBuilder<'a> {
    pub workflow: Option<&'a Workflow<'a>>,
    pub plugins: Option<&'a Registry<'a>>,
    pub task_states: Option<HashMap<u128, TaskStatus>>,
    pub task_results: Option<HashMap<u128, TaskResult<'a>>>,
    pub trigger_results: Option<HashMap<u128, TriggerResult<'a>>>,
    pub context: Option<Option<WorkflowExecutionContext<'a>>>,
    pub max_parallelism: Option<usize>,
}

impl<'a> WorkflowExecutorBuilder<'a> {
    /// The builder with nothing set.
    pub open spec fn empty() -> Self {
        WorkflowExecutorBuilder {
            workflow: None,
            plugins: None,
            task_states: None,
            task_results: None,
            trigger_results: None,
            context: None,
            max_parallelism: None,
        }
    }

    /// Sets the workflow.
    pub fn workflow(self, workflow: &'a Workflow<'a>) -> (b: Self)
        ensures
            b == (WorkflowExecutorBuilder { workflow: Some(workflow), ..self }),
    {
        WorkflowExecutorBuilder { workflow: Some(workflow), ..self }
    }

    /// Sets the plugin registry.
    pub fn plugins(self, plugins: &'a Registry<'a>) -> (b: Self)
        ensures
            b == (WorkflowExecutorBuilder { plugins: Some(plugins), ..self }),
    {
        WorkflowExecutorBuilder { plugins: Some(plugins), ..self }
    }

    /// Sets all task states.
    pub fn task_states(self, task_states: HashMap<u128, TaskStatus>) -> (b: Self)
        ensures
            b == (WorkflowExecutorBuilder { task_states: Some(task_states), ..self }),
    {
        WorkflowExecutorBuilder { task_states: Some(task_states), ..self }
    }

    /// Adds one task state.
    pub fn task_state(self, entry: (u128, TaskStatus)) -> (b: Self)
        ensures
            b.task_states is Some,
            entries_or_empty(b.task_states) == entries_or_empty(self.task_states).insert(entry.0, entry.1),
            b == (WorkflowExecutorBuilder { task_states: b.task_states, ..self }),
    {
        let mut m = match self.task_states {
            Some(m) => m,
            None => HashMap::new(),
        };
        let _ = m.insert(entry.0, entry.1);
        WorkflowExecutorBuilder { task_states: Some(m), ..self }
    }

    /// Sets all task results.
    pub fn task_results(self, task_results: HashMap<u128, TaskResult<'a>>) -> (b: Self)
        ensures
            b == (WorkflowExecutorBuilder { task_results: Some(task_results), ..self }),
    {
        WorkflowExecutorBuilder { task_results: Some(task_results), ..self }
    }

    /// Adds one task result.
    pub fn task_result(self, entry: (u128, TaskResult<'a>)) -> (b: Self)
        ensures
            b.task_results is Some,
            entries_or_empty(b.task_results) == entries_or_empty(self.task_results).insert(entry.0, entry.1),
            b == (WorkflowExecutorBuilder { task_results: b.task_results, ..self }),
    {
        let mut m = match self.task_results {
            Some(m) => m,
            None => HashMap::new(),
        };
        let _ = m.insert(entry.0, entry.1);
        WorkflowExecutorBuilder { task_results: Some(m), ..self }
    }

    /// Sets all trigger results.
    pub fn trigger_results(self, trigger_results: HashMap<u128, TriggerResult<'a>>) -> (b: Self)
        ensures
            b == (WorkflowExecutorBuilder { trigger_results: Some(trigger_results), ..self }),
    {
        WorkflowExecutorBuilder { trigger_results: Some(trigger_results), ..self }
    }

    /// Adds one trigger result.
    pub fn trigger_result(self, entry: (u128, TriggerResult<'a>)) -> (b: Self)
        ensures
            b.trigger_results is Some,
            entries_or_empty(b.trigger_results) == entries_or_empty(self.trigger_results).insert(
                entry.0,
                entry.1,
            ),
            b == (WorkflowExecutorBuilder { trigger_results: b.trigger_results, ..self }),
    {
        let mut m = match self.trigger_results {
            Some(m) => m,
            None => HashMap::new(),
        };
        let _ = m.insert(entry.0, entry.1);
        WorkflowExecutorBuilder { trigger_results: Some(m), ..self }
    }

    /// Sets the execution context; `build` replaces it with a fresh one.
    pub fn context(self, context: Option<WorkflowExecutionContext<'a>>) -> (b: Self)
        ensures
            b == (WorkflowExecutorBuilder { context: Some(context), ..self }),
    {
        WorkflowExecutorBuilder { context: Some(context), ..self }
    }

    /// Sets the maximum parallelism.
    pub fn max_parallelism(self, max_parallelism: usize) -> (b: Self)
        ensures
            b == (WorkflowExecutorBuilder { max_parallelism: Some(max_parallelism), ..self }),
    {
        WorkflowExecutorBuilder { max_parallelism: Some(max_parallelism), ..self }
    }

    /// The executor, which takes what was set and leaves the builder empty. The workflow
    /// and then the plugins are required; a missing one is reported by its message. The
    /// maps default to empty, the parallelism to one, and the context is a new one for
    /// the workflow, with a fresh run identifier.
    pub fn build(&mut self) -> (r: Result<WorkflowExecutor<'a>, String>)
        ensures
            *final(self) == WorkflowExecutorBuilder::<'a>::empty(),
            match r {
                Ok(e) => {
                    &&& old(self).workflow == Some(e.workflow())
                    &&& old(self).plugins == Some(e.plugins())
                    &&& e.task_states()@ == entries_or_empty(old(self).task_states)
                    &&& e.task_results()@ == entries_or_empty(old(self).task_results)
                    &&& e.trigger_results()@ == entries_or_empty(old(self).trigger_results)
                    &&& e.max_parallelism() == match old(self).max_parallelism {
                        Some(p) => p,
                        None => 1,
                    }
                    &&& e.context() matches Some(c) && c.workflow_id() == e.workflow().id()
                },
                Err(s) => {
                    ||| old(self).workflow is None && s@ == builder_error_text(
                        BuilderError::UninitializedField("workflow"),
                    )
                    ||| old(self).workflow is Some && old(self).plugins is None && s@
                        == builder_error_text(BuilderError::UninitializedField("plugins"))
                },
            },
    {
        let mut builder = WorkflowExecutor::builder();
        std::mem::swap(&mut builder, self);
        let workflow = match builder.workflow {
            Some(w) => w,
            None => return Err(BuilderError::UninitializedField("workflow").message()),
        };
        let plugins = match builder.plugins {
            Some(p) => p,
            None => return Err(BuilderError::UninitializedField("plugins").message()),
        };
        let task_states = match builder.task_states {
            Some(m) => m,
            None => HashMap::new(),
        };
        let task_results = match builder.task_results {
            Some(m) => m,
            None => HashMap::new(),
        };
        let trigger_results = match builder.trigger_results {
            Some(m) => m,
            None => HashMap::new(),
        };
        let max_parallelism = match builder.max_parallelism {
            Some(p) => p,
            None => 1,
        };
        let context = match WorkflowExecutionContext::builder().run_id(new_id()).workflow_id(
            workflow.id(),
        ).build() {
            Ok(c) => c,
            Err(e) => return Err(e.message()),
        };
        Ok(
            WorkflowExecutor {
                workflow,
                plugins,
                task_states,
                task_results,
                trigger_results,
                context: Some(context),
                max_parallelism,
            },
        )
    }
}

} // verus!
