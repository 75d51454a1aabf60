use crate::compiler::model::{
    binding_source_faults, binding_type_faults, dependency_faults, dependency_path,
    depends_edge, edges_depend, fault_free, lemma_graph_cycle_is_dependency_cycle, first_fault_from, graph_matches, has_dependency_cycle,
    on_dependency_cycle, ref_exists, reference_type_fault, task_dependency_fault, task_fault,
    task_type_fault,
};
use crate::compiler::{CompileError, CompileFault};
use crate::digraph::{
    graph_add_edge, graph_add_node, graph_edges, graph_new, graph_node_weight, graph_nodes,
    graph_toposort, ints, is_path, is_topological_order, lemma_positions_grow, on_cycle,
    DependencyGraph,
};
use crate::ref_map::RefMap;
use crate::task::{all_dependencies, DataType, InputBinding, Task};
use crate::laws::{
    declared_output_type, declares_output, law_dependency_check_exactly_when_sources_exist,
    law_dependency_check_needs_existing_sources, law_type_check_exactly_when_types_match,
    law_type_check_needs_equal_types, reference_types_match, sources_exist,
};
use crate::workflow::{ref_id, tasks_keyed_by_id, DependencyRef, Workflow};
use vstd::prelude::*;
use vstd::std_specs::hash::{spec_keys_iter, spec_values_iter};
use vstd::std_specs::iter::IteratorSpec;

verus! {

/// The workflow has been validated and its graph is its dependency graph: every task
/// is keyed by its identifier, no task has a fault, the dependencies form
/// no cycle, and the graph and the index map describe the dependencies exactly.
pub open spec fn compiled<'a>(w: Workflow<'a>, g: DependencyGraph, idx: RefMap<usize>) -> bool {
    &&& tasks_keyed_by_id(w)
    &&& fault_free(w)
    &&& !has_dependency_cycle(w)
    &&& graph_matches(w, g, idx)
}

/// A compiled and validated workflow, ready for execution.
pub struct CompiledWorkflow<'a> {
    workflow: &'a Workflow<'a>,
    dependency_graph: DependencyGraph,
    index_map: RefMap<usize>,
}

impl<'a> CompiledWorkflow<'a> {
    #[verifier::type_invariant]
    pub open spec fn is_compiled(self) -> bool {
        compiled(*self.workflow(), *self.dependency_graph(), *self.index_map())
    }

    pub closed spec fn spec_workflow(&self) -> &'a Workflow<'a> {
        self.workflow
    }

    pub closed spec fn spec_dependency_graph(&self) -> &DependencyGraph {
        &self.dependency_graph
    }

    pub closed spec fn spec_index_map(&self) -> &RefMap<usize> {
        &self.index_map
    }

    /// The underlying workflow.
    #[verifier::when_used_as_spec(spec_workflow)]
    pub fn workflow(&self) -> (r: &'a Workflow<'a>)
        returns
            self.spec_workflow(),
    {
        self.workflow
    }

    /// The dependency graph: an edge from each dependency to the task that depends on it.
    #[verifier::when_used_as_spec(spec_dependency_graph)]
    pub fn dependency_graph(&self) -> (r: &DependencyGraph)
        returns
            self.spec_dependency_graph(),
    {
        &self.dependency_graph
    }

    /// The node of each task and trigger in the dependency graph.
    #[verifier::when_used_as_spec(spec_index_map)]
    pub fn index_map(&self) -> (r: &RefMap<usize>)
        returns
            self.spec_index_map(),
    {
        &self.index_map
    }
}

/// A topological order of the dependency graph rules out a dependency cycle.
proof fn lemma_order_excludes_cycle<'a>(
    w: Workflow<'a>,
    g: DependencyGraph,
    idx: RefMap<usize>,
    order: Seq<int>,
)
    requires
        graph_matches(w, g, idx),
        is_topological_order(graph_nodes(g).len() as int, graph_edges(g), order),
    ensures
        !has_dependency_cycle(w),
{
    let nodes = graph_nodes(g);
    let edges = graph_edges(g);
    if has_dependency_cycle(w) {
        let r = choose|r: DependencyRef| #[trigger] on_dependency_cycle(w, r);
        let p = choose|p: Seq<DependencyRef>|
            p.len() >= 2 && p[0] == r && p.last() == r && #[trigger] dependency_path(w, p);
        assert forall|i: int| 0 <= i < p.len() implies #[trigger] idx@.contains_key(p[i]) by {
            if i < p.len() - 1 {
                assert(depends_edge(w, p[i], p[i + 1]));
            } else {
                let j = i - 1;
                assert(depends_edge(w, p[j], p[j + 1]));
                assert(ref_exists(w, p[i]));
            }
        }
        let q = Seq::new(p.len(), |i: int| idx@[p[i]] as int);
        assert forall|i: int| 0 <= i < q.len() - 1 implies #[trigger] edges.contains((q[i], q[i + 1])) by {
            assert(depends_edge(w, p[i], p[i + 1]));
        }
        assert forall|i: int| 0 <= i < q.len() implies 0 <= #[trigger] q[i] < nodes.len() by {
            assert(idx@.contains_key(p[i]));
        }
        assert(is_path(edges, q));
        lemma_positions_grow(nodes.len() as int, edges, order, q, q.len() - 1);
        assert(q[0] == q[q.len() - 1]);
    }
}

/// The index map gives each node of `nodes` its position, and nothing else.
pub open spec fn indexed(nodes: Seq<DependencyRef>, idx: Map<DependencyRef, usize>) -> bool {
    &&& forall|r: DependencyRef|
        #[trigger] idx.contains_key(r) ==> idx[r] < nodes.len() && nodes[idx[r] as int] == r
    &&& forall|i: int| 0 <= i < nodes.len() ==> idx.contains_key(#[trigger] nodes[i]) && idx[nodes[i]] == i
}

/// Adding a node that the index map lacks, at the end, keeps the map exact.
pub proof fn lemma_index_push(
    nodes: Seq<DependencyRef>,
    idx: Map<DependencyRef, usize>,
    r: DependencyRef,
    n: usize,
)
    requires
        indexed(nodes, idx),
        !idx.contains_key(r),
        n == nodes.len(),
    ensures
        indexed(nodes.push(r), idx.insert(r, n)),
{
    let nodes2 = nodes.push(r);
    let idx2 = idx.insert(r, n);
    assert forall|i: int| 0 <= i < nodes2.len() implies idx2.contains_key(#[trigger] nodes2[i])
        && idx2[nodes2[i]] == i by {
        if i < nodes.len() {
            assert(idx.contains_key(nodes[i]));
            assert(nodes[i] != r);
        }
    }
}

/// The workflow compiler: validation, type checking and cycle detection.
pub struct WorkflowCompiler;

impl WorkflowCompiler {
    /// Compiles and validates a workflow: checks that every dependency exists, that every
    /// reference input's source declares the output and that the types agree, and builds
    /// the dependency graph, which must have no cycle.
    ///
    /// The tasks are checked in the order in which the task map yields them, so when
    /// several tasks have faults, the one reported is that of one of them. The graph is
    /// built only once every task passes the checks, and it takes each task to be stored
    /// under its own identifier.
    pub fn compile<'a>(workflow: &'a Workflow<'a>) -> (r: Result<CompiledWorkflow<'a>, CompileError>)
        requires
            fault_free(*workflow) ==> tasks_keyed_by_id(*workflow),
        ensures
            r is Ok <==> fault_free(*workflow) && !has_dependency_cycle(*workflow),
            r matches Ok(c) ==> c.workflow() == workflow,
            r matches Err(e) ==> {
                ||| exists|k: u128|
                    #[trigger] workflow.tasks()@.contains_key(k) && task_fault(
                        *workflow,
                        workflow.tasks()@[k],
                    ) == Some(e@)
                ||| fault_free(*workflow) && (e matches CompileError::CyclicDependency { from, to }
                    && from == to && on_dependency_cycle(*workflow, DependencyRef::Task(from)))
            },
            r is Ok <==> (forall|k: u128|
                #[trigger] workflow.tasks()@.contains_key(k) ==> sources_exist(*workflow, workflow.tasks()@[k])
                    && reference_types_match(*workflow, workflow.tasks()@[k])) && !has_dependency_cycle(*workflow),
            r is Ok ==> forall|k: u128, j: int|
                #![trigger workflow.tasks()@[k].dependencies()@[j]]
                workflow.tasks()@.contains_key(k) && 0 <= j < workflow.tasks()@[k].dependencies()@.len()
                    ==> ref_exists(*workflow, workflow.tasks()@[k].dependencies()@[j]),
            r is Ok ==> forall|k: u128, q: int|
                #![trigger workflow.tasks()@[k].inputs().pairs()[q]]
                workflow.tasks()@.contains_key(k) && 0 <= q < workflow.tasks()@[k].inputs().pairs().len()
                    && workflow.tasks()@[k].inputs().pairs()[q].1 is Reference ==> {
                    let t = workflow.tasks()@[k];
                    let name = t.inputs().pairs()[q].0;
                    let src = t.inputs().pairs()[q].1->ref_from;
                    let o = t.inputs().pairs()[q].1->output@;
                    &&& t.definition().schema().inputs()@.contains_key(name)
                    &&& declares_output(*workflow, src, o)
                    &&& t.definition().schema().inputs()@[name].data_type() == declared_output_type(*workflow, src, o)
                },
    {
        proof {
            assert(fault_free(*workflow) <==> forall|k: u128|
                #[trigger] workflow.tasks()@.contains_key(k) ==> sources_exist(*workflow, workflow.tasks()@[k])
                    && reference_types_match(*workflow, workflow.tasks()@[k])) by {
                assert forall|k: u128| #[trigger] workflow.tasks()@.contains_key(k) implies (task_fault(
                    *workflow,
                    workflow.tasks()@[k],
                ) is None <==> sources_exist(*workflow, workflow.tasks()@[k]) && reference_types_match(
                    *workflow,
                    workflow.tasks()@[k],
                )) by {
                    law_dependency_check_exactly_when_sources_exist(*workflow, workflow.tasks()@[k]);
                    law_type_check_exactly_when_types_match(*workflow, workflow.tasks()@[k]);
                }
            }
        }
        let compiler = WorkflowCompiler;
        let ghost m = workflow.tasks()@;
        let ghost v = spec_values_iter(workflow.tasks()).remaining();
        for task in it: workflow.tasks().values()
            invariant
                it.seq() == v,
                m == workflow.tasks()@,
                fault_free(*workflow) ==> tasks_keyed_by_id(*workflow),
                forall|j: int| 0 <= j < it.index() ==> task_fault(*workflow, *#[trigger] v[j]) is None,
        {
            proof {
                assert(v.unref().to_set().contains(*v[it.index()]));
            }
            match compiler.verify_task_dependencies(workflow, task) {
                Ok(()) => {},
                Err(e) => {
                    proof {
                        let k = choose|k: u128| m.contains_key(k) && m[k] == *task;
                    }
                    return Err(e);
                },
            }
            match compiler.validate_task_input_types(workflow, task) {
                Ok(()) => {},
                Err(e) => {
                    proof {
                        let k = choose|k: u128| m.contains_key(k) && m[k] == *task;
                    }
                    return Err(e);
                },
            }
        }
        proof {
            assert forall|k: u128| #[trigger] m.contains_key(k) implies task_fault(*workflow, m[k]) is None by {
                assert(m.values().contains(m[k]));
                assert(v.unref().to_set().contains(m[k]));
                let j = choose|j: int| 0 <= j < v.unref().len() && v.unref()[j] == m[k];
                assert(*v[j] == m[k]);
            }
        }
        proof {
            assert forall|k: u128| #[trigger] m.contains_key(k) implies {
                &&& forall|j: int|
                    0 <= j < m[k].dependencies()@.len() ==> ref_exists(*workflow, #[trigger] m[k].dependencies()@[j])
                &&& forall|q: int|
                    0 <= q < m[k].inputs().pairs().len() && (#[trigger] m[k].inputs().pairs()[q]).1 is Reference ==> {
                        let name = m[k].inputs().pairs()[q].0;
                        let src = m[k].inputs().pairs()[q].1->ref_from;
                        let o = m[k].inputs().pairs()[q].1->output@;
                        &&& m[k].definition().schema().inputs()@.contains_key(name)
                        &&& declares_output(*workflow, src, o)
                        &&& m[k].definition().schema().inputs()@[name].data_type() == declared_output_type(
                            *workflow,
                            src,
                            o,
                        )
                    }
            } by {
                law_dependency_check_needs_existing_sources(*workflow, m[k]);
                law_type_check_needs_equal_types(*workflow, m[k]);
            }
        }
        match compiler.build_dependency_graph(workflow) {
            Ok((dependency_graph, index_map)) => Ok(
                CompiledWorkflow { workflow, dependency_graph, index_map },
            ),
            Err(e) => Err(e),
        }
    }

    /// Checks that every explicit dependency of the task names a task or trigger of the
    /// workflow, and that every reference input names one whose schema declares the output.
    pub fn verify_task_dependencies(&self, workflow: &Workflow, task: &Task) -> (r: Result<
        (),
        CompileError,
    >)
        ensures
            match r {
                Ok(()) => task_dependency_fault(*workflow, *task) is None,
                Err(e) => task_dependency_fault(*workflow, *task) == Some(e@),
            },
            r is Ok <==> sources_exist(*workflow, *task),
            r is Ok ==> forall|j: int|
                0 <= j < task.dependencies()@.len() ==> ref_exists(*workflow, #[trigger] task.dependencies()@[j]),
            r is Ok ==> forall|q: int|
                0 <= q < task.inputs().pairs().len() && (#[trigger] task.inputs().pairs()[q]).1 is Reference
                    ==> declares_output(*workflow, task.inputs().pairs()[q].1->ref_from, task.inputs().pairs()[q].1->output@),
    {
        proof {
            law_dependency_check_exactly_when_sources_exist(*workflow, *task);
        }
        let deps = task.dependencies();
        let ghost f = dependency_faults(*workflow);
        let n = deps.len();
        let mut i: usize = 0;
        while i < n
            invariant
                n == deps@.len(),
                i <= n,
                first_fault_from(deps@, f, 0) == first_fault_from(deps@, f, i as int),
                f == dependency_faults(*workflow),
                deps == task.dependencies(),
            decreases n - i,
        {
            match deps[i] {
                DependencyRef::Task(id) => {
                    if !workflow.tasks().contains_key(&id) {
                        assert(f(deps@[i as int]) == Some(CompileFault::MissingDependency { id }));
                        return Err(CompileError::MissingDependency { id });
                    }
                },
                DependencyRef::Trigger(id) => {
                    if !workflow.triggers().contains_key(&id) {
                        assert(f(deps@[i as int]) == Some(CompileFault::MissingDependency { id }));
                        return Err(CompileError::MissingDependency { id });
                    }
                },
            }
            i = i + 1;
        }
        let inputs = task.inputs();
        let ghost pairs = inputs.pairs();
        let ghost h = binding_source_faults(*workflow);
        let n = inputs.len();
        let mut i: usize = 0;
        while i < n
            invariant
                n == pairs.len(),
                pairs == inputs.pairs(),
                inputs == task.inputs(),
                i <= n,
                first_fault_from(pairs, h, 0) == first_fault_from(pairs, h, i as int),
                h == binding_source_faults(*workflow),
                first_fault_from(deps@, f, 0) is None,
                f == dependency_faults(*workflow),
                deps == task.dependencies(),
            decreases n - i,
        {
            let input = *inputs.key_at(i);
            match inputs.value_at(i) {
                InputBinding::Reference { ref_from: DependencyRef::Task(task_id), output } => {
                    if !workflow.tasks().contains_key(task_id) {
                        return Err(
                            CompileError::MissingTaskDependency { input: input.to_owned(), id: *task_id },
                        );
                    }
                    let referenced_task = workflow.tasks().get(task_id).unwrap();
                    if !referenced_task.definition().schema().outputs().contains_key(output) {
                        return Err(
                            CompileError::MissingTaskOutput {
                                input: input.to_owned(),
                                output: (*output).to_owned(),
                                id: *task_id,
                            },
                        );
                    }
                },
                InputBinding::Reference { ref_from: DependencyRef::Trigger(trigger_id), output } => {
                    if !workflow.triggers().contains_key(trigger_id) {
                        return Err(
                            CompileError::MissingTriggerDependency {
                                input: input.to_owned(),
                                id: *trigger_id,
                            },
                        );
                    }
                    let trigger = workflow.triggers().get(trigger_id).unwrap();
                    if !trigger.definition().schema().outputs().contains_key(output) {
                        return Err(
                            CompileError::MissingTriggerOutput {
                                input: input.to_owned(),
                                output: (*output).to_owned(),
                                id: *trigger_id,
                            },
                        );
                    }
                },
                InputBinding::Literal(_) => {},
            }
            i = i + 1;
        }
        proof {
            law_dependency_check_needs_existing_sources(*workflow, *task);
        }
        Ok(())
    }

    /// Builds the dependency graph: a node for each trigger, then one for each task, and
    /// an edge from each dependency (explicit, or the source of a reference input) to the
    /// task that depends on it. A topological sort detects cycles.
    fn build_dependency_graph(&self, workflow: &Workflow) -> (r: Result<
        (DependencyGraph, RefMap<usize>),
        CompileError,
    >)
        requires
            tasks_keyed_by_id(*workflow),
        ensures
            r is Ok <==> !has_dependency_cycle(*workflow),
            r matches Ok((g, idx)) ==> graph_matches(*workflow, g, idx),
            r matches Err(e) ==> (e matches CompileError::CyclicDependency { from, to } && from == to
                && on_dependency_cycle(*workflow, DependencyRef::Task(from))),
    {
        let mut graph = graph_new();
        let mut index_map: RefMap<usize> = RefMap::new();
        let ghost kt = spec_keys_iter(workflow.triggers()).remaining();
        proof {
            assert(kt.no_duplicates());
        }
        for trigger_id in it: workflow.triggers().keys()
            invariant
                it.seq() == kt,
                kt.no_duplicates(),
                graph_edges(graph) == Seq::<(int, int)>::empty(),
                graph_nodes(graph).len() == it.index(),
                indexed(graph_nodes(graph), index_map@),
                forall|r: DependencyRef|
                    #[trigger] index_map@.contains_key(r) <==> (r is Trigger && exists|j: int|
                        0 <= j < it.index() && *kt[j] == ref_id(r)),
        {
            let trigger_ref = DependencyRef::Trigger(*trigger_id);
            proof {
                if index_map@.contains_key(trigger_ref) {
                    let j = choose|j: int| 0 <= j < it.index() && *kt[j] == ref_id(trigger_ref);
                    assert(kt[j] == kt[it.index()]);
                }
            }
            let ghost old_nodes = graph_nodes(graph);
            let ghost old_map = index_map@;
            let node_index = graph_add_node(&mut graph, trigger_ref);
            index_map.insert(trigger_ref, node_index);
            proof {
                lemma_index_push(old_nodes, old_map, trigger_ref, node_index);
                assert forall|r: DependencyRef|
                    #[trigger] index_map@.contains_key(r) <==> (r is Trigger && exists|j: int|
                        0 <= j < it.index() + 1 && *kt[j] == ref_id(r)) by {
                    if r is Trigger && r != trigger_ref {
                        if exists|j: int| 0 <= j < it.index() + 1 && *kt[j] == ref_id(r) {
                            let j = choose|j: int| 0 <= j < it.index() + 1 && *kt[j] == ref_id(r);
                            assert(j != it.index());
                        }
                    }
                }
            }
        }
        let ghost tm = workflow.triggers()@;
        proof {
            assert forall|r: DependencyRef|
                #[trigger] index_map@.contains_key(r) <==> (r is Trigger && tm.contains_key(ref_id(r))) by {
                if r is Trigger && tm.contains_key(ref_id(r)) {
                    assert(kt.unref().to_set().contains(ref_id(r)));
                    let j = choose|j: int| 0 <= j < kt.unref().len() && kt.unref()[j] == ref_id(r);
                    assert(*kt[j] == ref_id(r));
                }
                if index_map@.contains_key(r) {
                    let j = choose|j: int| 0 <= j < kt.len() && *kt[j] == ref_id(r);
                    assert(kt.unref()[j] == ref_id(r));
                    assert(kt.unref().to_set().contains(ref_id(r)));
                }
            }
        }
        let ghost kk = spec_keys_iter(workflow.tasks()).remaining();
        proof {
            assert(kk.no_duplicates());
        }
        for task_id in it: workflow.tasks().keys()
            invariant
                it.seq() == kk,
                kk.no_duplicates(),
                tm == workflow.triggers()@,
                graph_edges(graph) == Seq::<(int, int)>::empty(),
                graph_nodes(graph).len() == kt.len() + it.index(),
                indexed(graph_nodes(graph), index_map@),
                forall|r: DependencyRef|
                    #[trigger] index_map@.contains_key(r) <==> ((r is Trigger && tm.contains_key(ref_id(r)))
                        || (r is Task && exists|j: int| 0 <= j < it.index() && *kk[j] == ref_id(r))),
        {
            let task_ref = DependencyRef::Task(*task_id);
            proof {
                if index_map@.contains_key(task_ref) {
                    let j = choose|j: int| 0 <= j < it.index() && *kk[j] == ref_id(task_ref);
                    assert(kk[j] == kk[it.index()]);
                }
            }
            let ghost old_nodes = graph_nodes(graph);
            let ghost old_map = index_map@;
            let node_index = graph_add_node(&mut graph, task_ref);
            index_map.insert(task_ref, node_index);
            proof {
                lemma_index_push(old_nodes, old_map, task_ref, node_index);
                assert forall|r: DependencyRef|
                    #[trigger] index_map@.contains_key(r) <==> ((r is Trigger && tm.contains_key(ref_id(r)))
                        || (r is Task && exists|j: int| 0 <= j < it.index() + 1 && *kk[j] == ref_id(r))) by {
                    if r is Task && r != task_ref {
                        if exists|j: int| 0 <= j < it.index() + 1 && *kk[j] == ref_id(r) {
                            let j = choose|j: int| 0 <= j < it.index() + 1 && *kk[j] == ref_id(r);
                            assert(j != it.index());
                        }
                    }
                }
            }
        }
        let ghost m = workflow.tasks()@;
        let ghost nodes = graph_nodes(graph);
        let ghost idx = index_map@;
        proof {
            assert forall|r: DependencyRef| #[trigger] idx.contains_key(r) <==> ref_exists(*workflow, r) by {
                if r is Task && m.contains_key(ref_id(r)) {
                    assert(kk.unref().to_set().contains(ref_id(r)));
                    let j = choose|j: int| 0 <= j < kk.unref().len() && kk.unref()[j] == ref_id(r);
                    assert(*kk[j] == ref_id(r));
                }
                if r is Task && idx.contains_key(r) {
                    let j = choose|j: int| 0 <= j < kk.len() && *kk[j] == ref_id(r);
                    assert(kk.unref()[j] == ref_id(r));
                    assert(kk.unref().to_set().contains(ref_id(r)));
                }
            }
        }
        let ghost v = spec_values_iter(workflow.tasks()).remaining();
        for task in it: workflow.tasks().values()
            invariant
                it.seq() == v,
                m == workflow.tasks()@,
                tasks_keyed_by_id(*workflow),
                nodes == graph_nodes(graph),
                idx == index_map@,
                indexed(nodes, idx),
                forall|r: DependencyRef| #[trigger] idx.contains_key(r) <==> ref_exists(*workflow, r),
                forall|e: (int, int)|
                    #[trigger] graph_edges(graph).contains(e) ==> 0 <= e.0 < nodes.len() && 0 <= e.1
                        < nodes.len() && depends_edge(*workflow, nodes[e.0], nodes[e.1]),
                forall|j: int, a: DependencyRef|
                    0 <= j < it.index() && #[trigger] all_dependencies(*v[j]).contains(a) && ref_exists(
                        *workflow,
                        a,
                    ) ==> graph_edges(graph).contains(
                        (idx[a] as int, idx[DependencyRef::Task(v[j].id())] as int),
                    ),
        {
            let ghost j0 = it.index();
            proof {
                assert(v.unref().to_set().contains(*v[j0]));
                let k = choose|k: u128| m.contains_key(k) && m[k] == *task;
                assert(m[k].id() == k);
                assert(m[task.id()] == *task);
                assert(idx.contains_key(DependencyRef::Task(task.id())));
            }
            let task_ref = DependencyRef::Task(task.id());
            let task_index = *index_map.get(&task_ref).unwrap();
            let dependencies = task.get_all_dependencies();
            let ghost edges_before = graph_edges(graph);
            let n = dependencies.len();
            let mut i: usize = 0;
            while i < n
                invariant
                    n == dependencies@.len(),
                    dependencies@ == all_dependencies(*task),
                    i <= n,
                    m == workflow.tasks()@,
                    m.contains_key(task.id()),
                    m[task.id()] == *task,
                    nodes == graph_nodes(graph),
                    idx == index_map@,
                    indexed(nodes, idx),
                    forall|r: DependencyRef| #[trigger] idx.contains_key(r) <==> ref_exists(*workflow, r),
                    idx.contains_key(task_ref),
                    task_ref == DependencyRef::Task(task.id()),
                    task_index == idx[task_ref],
                    forall|e: (int, int)|
                        #[trigger] edges_before.contains(e) ==> graph_edges(graph).contains(e),
                    forall|e: (int, int)|
                        #[trigger] graph_edges(graph).contains(e) ==> 0 <= e.0 < nodes.len() && 0
                            <= e.1 < nodes.len() && depends_edge(*workflow, nodes[e.0], nodes[e.1]),
                    forall|k: int|
                        0 <= k < i && ref_exists(*workflow, #[trigger] dependencies@[k])
                            ==> graph_edges(graph).contains(
                            (idx[dependencies@[k]] as int, task_index as int),
                        ),
                decreases n - i,
            {
                let dep_ref = dependencies[i];
                let ghost edges_now = graph_edges(graph);
                if let Some(dep_index) = index_map.get(&dep_ref) {
                    proof {
                        assert(depends_edge(*workflow, dep_ref, task_ref)) by {
                            assert(all_dependencies(*task)[i as int] == dep_ref);
                        }
                    }
                    graph_add_edge(&mut graph, *dep_index, task_index);
                    proof {
                        assert(graph_edges(graph).last() == (*dep_index as int, task_index as int));
                        assert forall|e: (int, int)| #[trigger] edges_now.contains(e) implies graph_edges(
                            graph,
                        ).contains(e) by {
                            let q = choose|q: int| 0 <= q < edges_now.len() && edges_now[q] == e;
                            assert(graph_edges(graph)[q] == e);
                        }
                        assert forall|e: (int, int)| #[trigger] graph_edges(graph).contains(e) implies 0
                            <= e.0 < nodes.len() && 0 <= e.1 < nodes.len() && depends_edge(
                            *workflow,
                            nodes[e.0],
                            nodes[e.1],
                        ) by {
                            if e != (*dep_index as int, task_index as int) {
                                let q = choose|q: int| 0 <= q < graph_edges(graph).len() && graph_edges(graph)[q] == e;
                                assert(q < edges_now.len());
                                assert(edges_now[q] == e);
                                assert(edges_now.contains(e));
                            } else {
                                assert(idx.contains_key(dep_ref));
                                assert(nodes[*dep_index as int] == dep_ref);
                                assert(nodes[task_index as int] == task_ref);
                                assert(0 <= e.0 < nodes.len());
                                assert(0 <= e.1 < nodes.len());
                                assert(depends_edge(*workflow, nodes[e.0], nodes[e.1]));
                            }
                        }
                    }
                }
                i = i + 1;
            }
            proof {
                assert forall|j: int, a: DependencyRef|
                    0 <= j < j0 + 1 && #[trigger] all_dependencies(*v[j]).contains(a) && ref_exists(
                        *workflow,
                        a,
                    ) implies graph_edges(graph).contains(
                    (idx[a] as int, idx[DependencyRef::Task(v[j].id())] as int),
                ) by {
                    if j == j0 {
                        let k = choose|k: int| 0 <= k < dependencies@.len() && dependencies@[k] == a;
                        assert(ref_exists(*workflow, dependencies@[k]));
                    } else {
                        assert(edges_before.contains(
                            (idx[a] as int, idx[DependencyRef::Task(v[j].id())] as int),
                        ));
                    }
                }
            }
        }
        proof {
            assert forall|a: DependencyRef, b: DependencyRef| #[trigger] depends_edge(*workflow, a, b) implies graph_edges(
                graph,
            ).contains((idx[a] as int, idx[b] as int)) by {
                let id = ref_id(b);
                assert(m.values().contains(m[id]));
                assert(v.unref().to_set().contains(m[id]));
                let j = choose|j: int| 0 <= j < v.unref().len() && v.unref()[j] == m[id];
                assert(*v[j] == m[id]);
                assert(v[j].id() == id);
                assert(b == DependencyRef::Task(v[j].id()));
            }
            assert(graph_matches(*workflow, graph, index_map));
        }
        match graph_toposort(&graph) {
            Ok(order) => {
                proof {
                    lemma_order_excludes_cycle(*workflow, graph, index_map, ints(order@));
                }
                Ok((graph, index_map))
            },
            Err(c) => {
                proof {
                    lemma_graph_cycle_is_dependency_cycle(*workflow, graph, c as int);
                }
                match graph_node_weight(&graph, c) {
                    Some(node_ref) => {
                        let id = node_ref.id();
                        Err(CompileError::CyclicDependency { from: id, to: id })
                    },
                    None => Err(CompileError::CyclicDependency { from: 0, to: 0 }),
                }
            },
        }
    }

    /// Checks every reference input of the task against the output it refers to.
    pub fn validate_task_input_types(&self, workflow: &Workflow, task: &Task) -> (r: Result<
        (),
        CompileError,
    >)
        ensures
            match r {
                Ok(()) => task_type_fault(*workflow, *task) is None,
                Err(e) => task_type_fault(*workflow, *task) == Some(e@),
            },
            r is Ok <==> reference_types_match(*workflow, *task),
            r is Ok ==> forall|q: int|
                0 <= q < task.inputs().pairs().len() && (#[trigger] task.inputs().pairs()[q]).1 is Reference ==> {
                    let name = task.inputs().pairs()[q].0;
                    let src = task.inputs().pairs()[q].1->ref_from;
                    let o = task.inputs().pairs()[q].1->output@;
                    &&& task.definition().schema().inputs()@.contains_key(name)
                    &&& declares_output(*workflow, src, o)
                    &&& task.definition().schema().inputs()@[name].data_type() == declared_output_type(*workflow, src, o)
                },
    {
        proof {
            law_type_check_exactly_when_types_match(*workflow, *task);
        }
        let inputs = task.inputs();
        let ghost pairs = inputs.pairs();
        let ghost h = binding_type_faults(*workflow, *task);
        let n = inputs.len();
        let mut i: usize = 0;
        while i < n
            invariant
                n == pairs.len(),
                pairs == inputs.pairs(),
                inputs == task.inputs(),
                i <= n,
                first_fault_from(pairs, h, 0) == first_fault_from(pairs, h, i as int),
                h == binding_type_faults(*workflow, *task),
            decreases n - i,
        {
            let input_key = *inputs.key_at(i);
            if let InputBinding::Reference { ref_from, output } = inputs.value_at(i) {
                match self.validate_reference(workflow, task, input_key, *ref_from, output) {
                    Ok(()) => {},
                    Err(e) => return Err(e),
                }
            }
            i = i + 1;
        }
        proof {
            law_type_check_needs_equal_types(*workflow, *task);
        }
        Ok(())
    }

    /// Checks one reference input of a task: the task's schema declares the input, the
    /// source exists and declares the output, and the two data types are the same.
    pub fn validate_reference(
        &self,
        workflow: &Workflow,
        task: &Task,
        input_key: &str,
        ref_from: DependencyRef,
        output_key: &str,
    ) -> (r: Result<(), CompileError>)
        ensures
            match r {
                Ok(()) => reference_type_fault(*workflow, *task, input_key@, ref_from, output_key@) is None,
                Err(e) => reference_type_fault(*workflow, *task, input_key@, ref_from, output_key@)
                    == Some(e@),
            },
            r is Ok <==> task.definition().schema().inputs()@.contains_key(input_key@) && declares_output(
                *workflow,
                ref_from,
                output_key@,
            ) && task.definition().schema().inputs()@[input_key@].data_type() == declared_output_type(
                *workflow,
                ref_from,
                output_key@,
            ),
    {
        let input_spec = match task.definition().schema().inputs().get(input_key) {
            Some(s) => s,
            None => {
                return Err(
                    CompileError::InputNotInSchema { task_id: task.id(), input: input_key.to_owned() },
                )
            },
        };
        let output_type: DataType = match ref_from {
            DependencyRef::Task(id) => {
                let referenced_task = match workflow.tasks().get(&id) {
                    Some(t) => t,
                    None => {
                        return Err(
                            CompileError::MissingTaskDependency { input: input_key.to_owned(), id },
                        )
                    },
                };
                match referenced_task.definition().schema().outputs().get(output_key) {
                    Some(spec) => spec.data_type(),
                    None => {
                        return Err(
                            CompileError::MissingTaskOutput {
                                input: input_key.to_owned(),
                                output: output_key.to_owned(),
                                id,
                            },
                        )
                    },
                }
            },
            DependencyRef::Trigger(id) => {
                let referenced_trigger = match workflow.triggers().get(&id) {
                    Some(t) => t,
                    None => {
                        return Err(
                            CompileError::MissingTriggerDependency { input: input_key.to_owned(), id },
                        )
                    },
                };
                match referenced_trigger.definition().schema().outputs().get(output_key) {
                    Some(t) => *t,
                    None => {
                        return Err(
                            CompileError::MissingTriggerOutput {
                                input: input_key.to_owned(),
                                output: output_key.to_owned(),
                                id,
                            },
                        )
                    },
                }
            },
        };
        if input_spec.data_type() != output_type {
            return Err(
                CompileError::InputTypeMismatch {
                    task_id: task.id(),
                    input: input_key.to_owned(),
                    expected: input_spec.data_type(),
                    found: output_type,
                    reference: ref_from,
                    output: output_key.to_owned(),
                },
            );
        }
        Ok(())
    }
}

} // verus!
