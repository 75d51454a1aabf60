use crate::digraph::{
    edges_within, graph_edges, graph_node_weight, graph_nodes, graph_toposort, ints,
    is_topological_order, lemma_order_acyclic, on_cycle, DependencyGraph,
};
use crate::ref_map::RefMap;
use crate::workflow::execution::ExecutionError;
use crate::workflow::DependencyRef;
use vstd::prelude::*;

verus! {

/// The execution graph of the dependencies in a workflow, with the node of each reference.
pub struct ExecutionGraph {
    graph: DependencyGraph,
    index_map: RefMap<usize>,
}

/// The weights of the nodes that `order` lists, in that order.
pub open spec fn weights_of(g: DependencyGraph, order: Seq<int>) -> Seq<DependencyRef> {
    Seq::new(order.len(), |i: int| graph_nodes(g)[order[i]])
}

/// `refs` lists the node weights of the graph in an order in which every edge goes
/// forward: each node comes before its successors, and every node comes once.
pub open spec fn sorted_refs(g: DependencyGraph, refs: Seq<DependencyRef>) -> bool {
    exists|order: Seq<int>|
        #[trigger] is_topological_order(graph_nodes(g).len() as int, graph_edges(g), order)
            && refs == weights_of(g, order)
}

impl ExecutionGraph {
    /// Every edge of the graph joins two of its nodes.
    #[verifier::type_invariant]
    spec fn edges_among_nodes(self) -> bool {
        edges_within(graph_nodes(self.graph).len() as int, graph_edges(self.graph))
    }

    /// An execution graph from a graph and its index map. Every edge of the graph joins
    /// two of its nodes, as in any graph that `petgraph` builds.
    pub fn new(graph: DependencyGraph, index_map: RefMap<usize>) -> (e: Self)
        requires
            edges_within(graph_nodes(graph).len() as int, graph_edges(graph)),
        ensures
            *e.graph() == graph,
            *e.index_map() == index_map,
    {
        ExecutionGraph { graph, index_map }
    }

    pub closed spec fn spec_graph(&self) -> &DependencyGraph {
        &self.graph
    }

    pub closed spec fn spec_index_map(&self) -> &RefMap<usize> {
        &self.index_map
    }

    /// The directed graph of dependencies.
    #[verifier::when_used_as_spec(spec_graph)]
    pub fn graph(&self) -> (r: &DependencyGraph)
        returns
            self.spec_graph(),
    {
        &self.graph
    }

    /// The node of each reference in the graph.
    #[verifier::when_used_as_spec(spec_index_map)]
    pub fn index_map(&self) -> (r: &RefMap<usize>)
        returns
            self.spec_index_map(),
    {
        &self.index_map
    }

    /// The references of the graph in topological order; a cycle is an error.
    pub fn topological_sort(&self) -> (r: Result<Vec<DependencyRef>, ExecutionError>)
        ensures
            match r {
                Ok(refs) => sorted_refs(*self.graph(), refs@),
                Err(e) => e == ExecutionError::DependencyCycle && exists|c: int|
                    0 <= c < graph_nodes(*self.graph()).len() && #[trigger] on_cycle(
                        graph_edges(*self.graph()),
                        c,
                    ),
            },
            r is Ok <==> forall|c: int| !#[trigger] on_cycle(graph_edges(*self.graph()), c),
    {
        proof {
            use_type_invariant(self);
        }
        match graph_toposort(&self.graph) {
            Ok(order) => {
                let ghost nodes = graph_nodes(*self.graph());
                let ghost io = ints(order@);
                let n = order.len();
                let mut refs: Vec<DependencyRef> = Vec::new();
                let mut i: usize = 0;
                while i < n
                    invariant
                        n == order@.len(),
                        io == ints(order@),
                        nodes == graph_nodes(*self.graph()),
                        is_topological_order(nodes.len() as int, graph_edges(*self.graph()), io),
                        i <= n,
                        refs@ == io.take(i as int).map_values(|j: int| nodes[j]),
                    decreases n - i,
                {
                    assert(0 <= io[i as int] < nodes.len());
                    match graph_node_weight(&self.graph, order[i]) {
                        Some(r) => {
                            refs.push(r);
                        },
                        None => {},
                    }
                    assert(refs@ =~= io.take(i as int + 1).map_values(|j: int| nodes[j]));
                    i = i + 1;
                }
                assert(io.take(n as int) =~= io);
                assert(refs@ =~= weights_of(*self.graph(), io));
                assert(is_topological_order(graph_nodes(*self.graph()).len() as int, graph_edges(*self.graph()), io));
                assert(sorted_refs(*self.graph(), refs@));
                assert forall|c: int| !#[trigger] on_cycle(graph_edges(*self.graph()), c) by {
                    lemma_order_acyclic(nodes.len() as int, graph_edges(*self.graph()), io, c);
                }
                Ok(refs)
            },
            Err(c) => {
                assert(on_cycle(graph_edges(*self.graph()), c as int));
                Err(ExecutionError::DependencyCycle)
            },
        }
    }
}

} // verus!
