//! Which tasks a trigger starts, stated over the workflow.
use crate::compiler::{dependency_path, depends_edge, edges_depend, graph_matches, indexed, ref_exists};
use crate::compiler::on_dependency_cycle;
use crate::digraph::{graph_edges, graph_nodes, is_path, is_topological_order, on_cycle, reaches, DependencyGraph};
use crate::executor::{resolution_fault_from, weights_of};
use crate::ref_map::RefMap;
use crate::task::{all_dependencies, binding_refs, lemma_binding_ref, TaskResult};
use crate::workflow::{ref_id, DependencyRef, Workflow};
use crate::Value;
use vstd::prelude::*;

verus! {

/// `b` is `a`, or depends on `a` through one or more dependencies.
pub open spec fn reachable_from<'a>(w: Workflow<'a>, a: DependencyRef, b: DependencyRef) -> bool {
    exists|p: Seq<DependencyRef>|
        p.len() >= 1 && p[0] == a && p.last() == b && #[trigger] dependency_path(w, p)
}

/// The outputs that a run offers to the inputs of tasks, when it sets off the tasks that
/// depend on trigger `sid` and holds the trigger outputs `tout` under trigger `tid`, given
/// the task results `results`: the trigger outputs, and those of each task that depends
/// on trigger `sid` and has a result.
pub open spec fn run_outputs<'a>(
    w: Workflow<'a>,
    sid: u128,
    tid: u128,
    tout: Map<Seq<char>, Value<'a>>,
    results: Map<u128, TaskResult<'a>>,
) -> Map<DependencyRef, Map<Seq<char>, Value<'a>>> {
    Map::new(
        |d: DependencyRef|
            d == DependencyRef::Trigger(tid) || (d is Task && reachable_from(
                w,
                DependencyRef::Trigger(sid),
                d,
            ) && results.contains_key(ref_id(d))),
        |d: DependencyRef|
            match d {
                DependencyRef::Trigger(_) => tout,
                DependencyRef::Task(id) => results[id].outputs()@,
            },
    )
}

/// Every input of task `k` resolves against what the run offers.
pub open spec fn task_resolves<'a>(
    w: Workflow<'a>,
    sid: u128,
    tid: u128,
    tout: Map<Seq<char>, Value<'a>>,
    results: Map<u128, TaskResult<'a>>,
    k: u128,
) -> bool {
    resolution_fault_from(w.tasks()@[k].inputs().pairs(), run_outputs(w, sid, tid, tout, results), 0) is None
}

/// Every task that depends on trigger `sid` has inputs that all resolve against what the
/// run offers.
pub open spec fn run_succeeds<'a>(
    w: Workflow<'a>,
    sid: u128,
    tid: u128,
    tout: Map<Seq<char>, Value<'a>>,
    results: Map<u128, TaskResult<'a>>,
) -> bool {
    forall|k: u128|
        #![trigger w.tasks()@[k]]
        w.tasks()@.contains_key(k) && reachable_from(w, DependencyRef::Trigger(sid), DependencyRef::Task(k))
            ==> task_resolves(w, sid, tid, tout, results, k)
}

/// What depends on a task or trigger of the workflow is in the workflow too.
pub proof fn lemma_reachable_exists<'a>(w: Workflow<'a>, a: DependencyRef, b: DependencyRef)
    requires
        ref_exists(w, a),
        reachable_from(w, a, b),
    ensures
        ref_exists(w, b),
{
    let p = choose|p: Seq<DependencyRef>| p.len() >= 1 && p[0] == a && p.last() == b && #[trigger] dependency_path(w, p);
    if p.len() > 1 {
        let k = p.len() - 2;
        assert(depends_edge(w, p[k], p[k + 1]));
    }
}

/// Only a task or trigger of the workflow has anything other than itself depending on it.
pub proof fn lemma_reachable_source_exists<'a>(w: Workflow<'a>, a: DependencyRef, b: DependencyRef)
    requires
        reachable_from(w, a, b),
        a != b,
    ensures
        ref_exists(w, a),
{
    let p = choose|p: Seq<DependencyRef>| p.len() >= 1 && p[0] == a && p.last() == b && #[trigger] dependency_path(w, p);
    assert(p.len() > 1);
    let i = 0int;
    assert(depends_edge(w, p[i], p[i + 1]));
}

/// The only trigger that depends on a trigger is the trigger itself.
pub proof fn lemma_reachable_trigger<'a>(w: Workflow<'a>, a: DependencyRef, id: u128)
    requires
        reachable_from(w, a, DependencyRef::Trigger(id)),
    ensures
        a == DependencyRef::Trigger(id),
{
    let p = choose|p: Seq<DependencyRef>|
        p.len() >= 1 && p[0] == a && p.last() == DependencyRef::Trigger(id) && #[trigger] dependency_path(w, p);
    if p.len() > 1 {
        let k = p.len() - 2;
        assert(depends_edge(w, p[k], p[k + 1]));
    }
}

/// A task of the workflow depends on the source of each of its reference inputs that
/// is in the workflow.
pub proof fn lemma_reference_depends<'a>(w: Workflow<'a>, k: u128, q: int)
    requires
        w.tasks()@.contains_key(k),
        0 <= q < w.tasks()@[k].inputs().pairs().len(),
        w.tasks()@[k].inputs().pairs()[q].1 is Reference,
        ref_exists(w, w.tasks()@[k].inputs().pairs()[q].1->ref_from),
    ensures
        depends_edge(w, w.tasks()@[k].inputs().pairs()[q].1->ref_from, DependencyRef::Task(k)),
{
    let t = w.tasks()@[k];
    let d = t.inputs().pairs()[q].1->ref_from;
    lemma_binding_ref(t.inputs().pairs(), q);
    let refs = binding_refs(t.inputs().pairs());
    let j = choose|j: int| 0 <= j < refs.len() && refs[j] == d;
    assert(all_dependencies(t)[t.dependencies()@.len() + j] == d);
}

/// The graph holds exactly the references of `members`, the index map gives each its
/// node, and the edges are exactly the dependencies among them.
pub open spec fn subgraph_of<'a>(
    w: Workflow<'a>,
    members: spec_fn(DependencyRef) -> bool,
    g: DependencyGraph,
    idx: RefMap<usize>,
) -> bool {
    &&& forall|r: DependencyRef| #[trigger] idx@.contains_key(r) <==> members(r)
    &&& indexed(graph_nodes(g), idx@)
    &&& edges_depend(w, g)
    &&& forall|a: DependencyRef, b: DependencyRef|
        #[trigger] depends_edge(w, a, b) && idx@.contains_key(a) && idx@.contains_key(b)
            ==> graph_edges(g).contains((idx@[a] as int, idx@[b] as int))
}

/// The graph holds exactly the references reachable from `start`, with the dependencies
/// among them.
pub open spec fn reachable_graph<'a>(
    w: Workflow<'a>,
    start: DependencyRef,
    g: DependencyGraph,
    idx: RefMap<usize>,
) -> bool {
    subgraph_of(w, |r: DependencyRef| reachable_from(w, start, r), g, idx)
}

/// A topological order of a dependency subgraph lists each of its members once, and
/// every dependency among them before what depends on it.
pub proof fn lemma_sorted_subgraph<'a>(
    w: Workflow<'a>,
    members: spec_fn(DependencyRef) -> bool,
    g: DependencyGraph,
    idx: RefMap<usize>,
    order: Seq<int>,
    refs: Seq<DependencyRef>,
)
    requires
        subgraph_of(w, members, g, idx),
        is_topological_order(graph_nodes(g).len() as int, graph_edges(g), order),
        refs == weights_of(g, order),
    ensures
        refs.len() == graph_nodes(g).len(),
        refs.no_duplicates(),
        forall|j: int|
            0 <= j < refs.len() ==> idx@.contains_key(#[trigger] refs[j]) && idx@[refs[j]] == order[j]
                && members(refs[j]),
        forall|d: DependencyRef|
            #![trigger members(d)]
            members(d) ==> exists|j: int| 0 <= j < refs.len() && #[trigger] refs[j] == d,
        forall|a: int, b: int|
            0 <= a < refs.len() && 0 <= b < refs.len() && #[trigger] depends_edge(w, refs[a], refs[b]) ==> a < b,
{
    let nodes = graph_nodes(g);
    let n = nodes.len() as int;
    assert forall|j: int|
        0 <= j < refs.len() implies idx@.contains_key(#[trigger] refs[j]) && idx@[refs[j]] == order[j]
            && members(refs[j]) by {
        assert(0 <= order[j] < n);
        assert(refs[j] == nodes[order[j]]);
    }
    assert forall|a: int, b: int| 0 <= a < b < refs.len() implies refs[a] != refs[b] by {
        assert(idx@[refs[a]] == order[a]);
        assert(idx@[refs[b]] == order[b]);
    }
    assert forall|d: DependencyRef| #[trigger] members(d) implies exists|j: int|
        0 <= j < refs.len() && #[trigger] refs[j] == d by {
        assert(idx@.contains_key(d));
        let m = idx@[d] as int;
        assert(order.contains(m));
        let j = choose|j: int| 0 <= j < order.len() && order[j] == m;
        assert(refs[j] == nodes[m]);
    }
    assert forall|a: int, b: int|
        0 <= a < refs.len() && 0 <= b < refs.len() && #[trigger] depends_edge(w, refs[a], refs[b]) implies a < b by {
        assert(idx@.contains_key(refs[a]));
        assert(idx@.contains_key(refs[b]));
        assert(graph_edges(g).contains((order[a], order[b])));
    }
}

/// A dependency cycle through `r`, when everything reachable from `r` is in a
/// dependency subgraph, is a cycle of the subgraph.
pub proof fn lemma_cycle_in_subgraph<'a>(
    w: Workflow<'a>,
    members: spec_fn(DependencyRef) -> bool,
    g: DependencyGraph,
    idx: RefMap<usize>,
    r: DependencyRef,
)
    requires
        subgraph_of(w, members, g, idx),
        on_dependency_cycle(w, r),
        forall|d: DependencyRef| reachable_from(w, r, d) ==> #[trigger] idx@.contains_key(d),
    ensures
        on_cycle(graph_edges(g), idx@[r] as int),
{
    let p = choose|p: Seq<DependencyRef>| p.len() >= 2 && p[0] == r && p.last() == r && #[trigger] dependency_path(w, p);
    assert forall|i: int| 0 <= i < p.len() implies #[trigger] idx@.contains_key(p[i]) by {
        let pre = p.take(i + 1);
        assert forall|j: int| 0 <= j < pre.len() - 1 implies #[trigger] depends_edge(w, pre[j], pre[j + 1]) by {
            assert(depends_edge(w, p[j], p[j + 1]));
        }
        assert(dependency_path(w, pre));
        assert(reachable_from(w, r, p[i]));
    }
    let q = Seq::new(p.len(), |i: int| idx@[p[i]] as int);
    assert forall|i: int| 0 <= i < q.len() - 1 implies #[trigger] graph_edges(g).contains((q[i], q[i + 1])) by {
        assert(depends_edge(w, p[i], p[i + 1]));
        assert(idx@.contains_key(p[i]));
        assert(idx@.contains_key(p[i + 1]));
    }
    assert(is_path(graph_edges(g), q));
}

/// A path of the dependency graph between nodes is a chain of dependencies between
/// their references.
pub proof fn lemma_reaches_reachable<'a>(
    w: Workflow<'a>,
    g: DependencyGraph,
    idx: RefMap<usize>,
    a: DependencyRef,
    j: int,
)
    requires
        graph_matches(w, g, idx),
        idx@.contains_key(a),
        reaches(graph_edges(g), idx@[a] as int, j),
    ensures
        0 <= j < graph_nodes(g).len(),
        reachable_from(w, a, graph_nodes(g)[j]),
{
    let nodes = graph_nodes(g);
    let edges = graph_edges(g);
    let p = choose|p: Seq<int>| p.len() >= 1 && p[0] == idx@[a] as int && p.last() == j && #[trigger] is_path(edges, p);
    if p.len() > 1 {
        let last = p.len() - 2;
        assert(edges.contains((p[last], p[last + 1])));
    }
    let q = Seq::new(p.len(), |i: int| nodes[p[i]]);
    assert forall|i: int| 0 <= i < q.len() - 1 implies #[trigger] depends_edge(w, q[i], q[i + 1]) by {
        assert(edges.contains((p[i], p[i + 1])));
    }
    assert(dependency_path(w, q));
}

/// A chain of dependencies from `a` is a path of the dependency graph from its node.
pub proof fn lemma_reachable_reaches<'a>(
    w: Workflow<'a>,
    g: DependencyGraph,
    idx: RefMap<usize>,
    a: DependencyRef,
    b: DependencyRef,
)
    requires
        graph_matches(w, g, idx),
        ref_exists(w, a),
        reachable_from(w, a, b),
    ensures
        idx@.contains_key(b),
        reaches(graph_edges(g), idx@[a] as int, idx@[b] as int),
{
    let p = choose|p: Seq<DependencyRef>| p.len() >= 1 && p[0] == a && p.last() == b && #[trigger] dependency_path(w, p);
    assert forall|i: int| 0 <= i < p.len() implies #[trigger] idx@.contains_key(p[i]) by {
        if i > 0 {
            let k = i - 1;
            assert(depends_edge(w, p[k], p[k + 1]));
        }
    }
    let q = Seq::new(p.len(), |i: int| idx@[p[i]] as int);
    assert forall|i: int| 0 <= i < q.len() - 1 implies #[trigger] graph_edges(g).contains((q[i], q[i + 1])) by {
        assert(depends_edge(w, p[i], p[i + 1]));
    }
    assert(is_path(graph_edges(g), q));
    assert(idx@.contains_key(p[p.len() - 1]));
}

} // verus!
