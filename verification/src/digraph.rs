//! Directed graphs of dependency references, built and searched with `petgraph`.
//!
//! A graph is seen through two names: its node weights, in the order of their node
//! indices, and its edges, as pairs of node indices in the order of their addition.
use crate::workflow::DependencyRef;
use petgraph::graph::{Graph, NodeIndex};
use petgraph::visit::{Bfs, Walker};
use petgraph::Directed;
use vstd::prelude::*;

verus! {

#[verifier::external_type_specification]
#[verifier::external_body]
#[verifier::reject_recursive_types(N)]
#[verifier::reject_recursive_types(E)]
#[verifier::reject_recursive_types(Ty)]
#[verifier::reject_recursive_types(Ix)]
pub struct ExGraph<N, E, Ty, Ix>(Graph<N, E, Ty, Ix>);

#[verifier::external_type_specification]
#[verifier::external_body]
pub struct ExDirected(Directed);

/// A directed graph of dependency references, with `usize` node indices.
pub type DependencyGraph = Graph<DependencyRef, (), Directed, usize>;

/// The node weights of a graph, by node index.
pub uninterp spec fn graph_nodes(g: Graph<DependencyRef, (), Directed, usize>) -> Seq<DependencyRef>;

/// The edges of a graph, as (source, target) node indices, in the order of their addition.
pub uninterp spec fn graph_edges(g: Graph<DependencyRef, (), Directed, usize>) -> Seq<(int, int)>;

/// The indices of a sequence of node indices, as integers.
pub open spec fn ints(s: Seq<usize>) -> Seq<int> {
    s.map_values(|x: usize| x as int)
}

/// Consecutive elements of `p` are joined by edges.
pub open spec fn is_path(edges: Seq<(int, int)>, p: Seq<int>) -> bool {
    forall|i: int| 0 <= i < p.len() - 1 ==> #[trigger] edges.contains((p[i], p[i + 1]))
}

/// `b` can be reached from `a` by following zero or more edges.
pub open spec fn reaches(edges: Seq<(int, int)>, a: int, b: int) -> bool {
    exists|p: Seq<int>| p.len() >= 1 && p[0] == a && p.last() == b && #[trigger] is_path(edges, p)
}

/// `c` lies on a cycle: it can be reached from itself by following one or more edges.
pub open spec fn on_cycle(edges: Seq<(int, int)>, c: int) -> bool {
    exists|p: Seq<int>| p.len() >= 2 && p[0] == c && p.last() == c && #[trigger] is_path(edges, p)
}

/// `order` lists each of the nodes `0 .. n` once, and every edge goes from an
/// earlier node of the list to a later one.
pub open spec fn is_topological_order(n: int, edges: Seq<(int, int)>, order: Seq<int>) -> bool {
    &&& order.len() == n
    &&& order.no_duplicates()
    &&& forall|i: int| 0 <= i < n ==> 0 <= #[trigger] order[i] < n
    &&& forall|x: int| 0 <= x < n ==> #[trigger] order.contains(x)
    &&& forall|i: int, j: int|
        0 <= i < n && 0 <= j < n && #[trigger] edges.contains((order[i], order[j])) ==> i < j
}

/// Every edge joins two of the nodes `0 .. n`.
pub open spec fn edges_within(n: int, edges: Seq<(int, int)>) -> bool {
    forall|e: (int, int)| #[trigger] edges.contains(e) ==> 0 <= e.0 < n && 0 <= e.1 < n
}

/// Along a path that a topological order lists, positions in the order grow.
pub proof fn lemma_positions_grow(n: int, edges: Seq<(int, int)>, order: Seq<int>, p: Seq<int>, k: int)
    requires
        is_topological_order(n, edges, order),
        is_path(edges, p),
        forall|i: int| 0 <= i < p.len() ==> 0 <= #[trigger] p[i] < n,
        1 <= k < p.len(),
    ensures
        order.index_of(p[0]) < order.index_of(p[k]),
    decreases k,
{
    assert(order.contains(p[k - 1]));
    assert(order.contains(p[k]));
    let a = order.index_of(p[k - 1]);
    let b = order.index_of(p[k]);
    let j = k - 1;
    assert(edges.contains((p[j], p[j + 1])));
    assert(edges.contains((order[a], order[b])));
    if k > 1 {
        lemma_positions_grow(n, edges, order, p, k - 1);
    }
}

/// A graph whose edges stay among its nodes, and that has a topological order, has no cycle.
pub proof fn lemma_order_acyclic(n: int, edges: Seq<(int, int)>, order: Seq<int>, c: int)
    requires
        is_topological_order(n, edges, order),
        edges_within(n, edges),
    ensures
        !on_cycle(edges, c),
{
    if on_cycle(edges, c) {
        let p = choose|p: Seq<int>| p.len() >= 2 && p[0] == c && p.last() == c && #[trigger] is_path(edges, p);
        assert forall|i: int| 0 <= i < p.len() implies 0 <= #[trigger] p[i] < n by {
            if i < p.len() - 1 {
                assert(edges.contains((p[i], p[i + 1])));
            } else {
                let j = i - 1;
                assert(edges.contains((p[j], p[j + 1])));
            }
        }
        lemma_positions_grow(n, edges, order, p, p.len() - 1);
    }
}

/// The targets of the edges that leave `a`, in the order of their addition.
pub open spec fn out_targets(edges: Seq<(int, int)>, a: int) -> Seq<int>
    decreases edges.len(),
{
    if edges.len() == 0 {
        Seq::empty()
    } else {
        let rest = out_targets(edges.drop_last(), a);
        if edges.last().0 == a {
            rest.push(edges.last().1)
        } else {
            rest
        }
    }
}

/// The reverse of a sequence has its length, and its elements in the other order.
pub proof fn lemma_reverse_index<A>(s: Seq<A>, i: int)
    ensures
        s.reverse().len() == s.len(),
        0 <= i < s.len() ==> s.reverse()[i] == s[s.len() - 1 - i],
{
    if s.len() > 0 {
        assert(s.reverse() == Seq::new(s.len(), |j: int| s[s.len() - 1 - j]));
    }
}

/// `b` is among the targets of the edges that leave `a` exactly when the edge `(a, b)` exists.
pub proof fn lemma_out_targets(edges: Seq<(int, int)>, a: int, b: int)
    ensures
        out_targets(edges, a).contains(b) <==> edges.contains((a, b)),
    decreases edges.len(),
{
    if edges.len() > 0 {
        let rest = edges.drop_last();
        lemma_out_targets(rest, a, b);
        if edges.contains((a, b)) && edges.last() != (a, b) {
            let k = choose|k: int| 0 <= k < edges.len() && edges[k] == (a, b);
            assert(rest[k] == (a, b));
        }
        if rest.contains((a, b)) {
            let k = choose|k: int| 0 <= k < rest.len() && rest[k] == (a, b);
            assert(edges[k] == (a, b));
        }
        if edges.last() == (a, b) {
            assert(edges[edges.len() - 1] == (a, b));
            assert(out_targets(edges, a).last() == b);
        }
        let t = out_targets(rest, a);
        if edges.last().0 == a {
            assert(out_targets(edges, a) == t.push(edges.last().1));
            if t.contains(b) {
                let k = choose|k: int| 0 <= k < t.len() && t[k] == b;
                assert(t.push(edges.last().1)[k] == b);
            }
            if t.push(edges.last().1).contains(b) && edges.last().1 != b {
                let k = choose|k: int| 0 <= k < t.len() + 1 && t.push(edges.last().1)[k] == b;
                assert(t[k] == b);
            }
        }
    }
}

/// An empty graph: `petgraph::graph::Graph::with_capacity(0, 0)`, which is what
/// `Graph::default` makes.
#[verifier::external_body]
pub(crate) fn graph_new() -> (g: DependencyGraph)
    ensures
        graph_nodes(g) == Seq::<DependencyRef>::empty(),
        graph_edges(g) == Seq::<(int, int)>::empty(),
{
    Graph::with_capacity(0, 0)
}

/// `Graph::add_node`: the weight becomes the last node, and its index is returned.
/// With `usize` indices there is no limit on the number of nodes.
#[verifier::external_body]
pub(crate) fn graph_add_node(g: &mut DependencyGraph, weight: DependencyRef) -> (i: usize)
    ensures
        graph_nodes(*final(g)) == graph_nodes(*old(g)).push(weight),
        graph_edges(*final(g)) == graph_edges(*old(g)),
        i == graph_nodes(*old(g)).len(),
{
    g.add_node(weight).index()
}

/// `Graph::add_edge` from node `a` to node `b`: the edge becomes the last one.
/// It panics when either node does not exist, which `requires` rules out.
#[verifier::external_body]
pub(crate) fn graph_add_edge(g: &mut DependencyGraph, a: usize, b: usize)
    requires
        a < graph_nodes(*old(g)).len(),
        b < graph_nodes(*old(g)).len(),
    ensures
        graph_nodes(*final(g)) == graph_nodes(*old(g)),
        graph_edges(*final(g)) == graph_edges(*old(g)).push((a as int, b as int)),
{
    let _ = g.add_edge(NodeIndex::new(a), NodeIndex::new(b), ());
}

/// `Graph::node_weight`, copied out: the weight of node `i`, if it exists.
#[verifier::external_body]
pub(crate) fn graph_node_weight(g: &DependencyGraph, i: usize) -> (r: Option<DependencyRef>)
    ensures
        i < graph_nodes(*g).len() ==> r == Some(graph_nodes(*g)[i as int]),
        i >= graph_nodes(*g).len() ==> r is None,
{
    g.node_weight(NodeIndex::new(i)).copied()
}

/// `Graph::neighbors` of node `i` in a directed graph: the targets of the edges that
/// leave it, most recently added first, collected as indices.
#[verifier::external_body]
pub(crate) fn graph_neighbors(g: &DependencyGraph, i: usize) -> (r: Vec<usize>)
    requires
        i < graph_nodes(*g).len(),
    ensures
        ints(r@) == out_targets(graph_edges(*g), i as int).reverse(),
{
    g.neighbors(NodeIndex::new(i)).map(|n| n.index()).collect()
}

/// `petgraph::algo::toposort` with no workspace. On success, every node once, each
/// before its successors; on failure (`Cycle`), a node that participates in a cycle
/// (a self loop is a cycle).
#[verifier::external_body]
pub(crate) fn graph_toposort(g: &DependencyGraph) -> (r: Result<Vec<usize>, usize>)
    ensures
        match r {
            Ok(order) => is_topological_order(graph_nodes(*g).len() as int, graph_edges(*g), ints(order@)),
            Err(c) => c < graph_nodes(*g).len() && on_cycle(graph_edges(*g), c as int),
        },
{
    match petgraph::algo::toposort(g, None) {
        Ok(order) => Ok(order.iter().map(|n| n.index()).collect()),
        Err(cycle) => Err(cycle.node_id().index()),
    }
}

/// The nodes that a breadth-first search (`petgraph::visit::Bfs`) from node `start`
/// visits, each once: exactly the nodes reachable from `start`, `start` itself included.
#[verifier::external_body]
pub(crate) fn graph_bfs(g: &DependencyGraph, start: usize) -> (r: Vec<usize>)
    requires
        start < graph_nodes(*g).len(),
    ensures
        r@.no_duplicates(),
        forall|i: int| 0 <= i < r@.len() ==> #[trigger] r@[i] < graph_nodes(*g).len(),
        forall|j: int| ints(r@).contains(j) <==> reaches(graph_edges(*g), start as int, j),
{
    Bfs::new(g, NodeIndex::new(start)).iter(g).map(|n| n.index()).collect()
}

} // verus!
