//! What compiling a workflow checks, stated over the workflow.
use crate::compiler::CompileFault;
use crate::digraph::{graph_edges, graph_nodes, is_path, on_cycle, DependencyGraph};
use crate::ref_map::RefMap;
use crate::task::{all_dependencies, DataType, InputBinding, Task};
use crate::workflow::{ref_id, DependencyRef, Workflow};
use vstd::prelude::*;

verus! {

/// The reference names a task or a trigger of the workflow.
pub open spec fn ref_exists<'a>(w: Workflow<'a>, r: DependencyRef) -> bool {
    match r {
        DependencyRef::Task(id) => w.tasks()@.contains_key(id),
        DependencyRef::Trigger(id) => w.triggers()@.contains_key(id),
    }
}

/// The first fault, from position `i` on, that `f` finds in `s`.
pub open spec fn first_fault_from<A>(
    s: Seq<A>,
    f: spec_fn(A) -> Option<CompileFault>,
    i: int,
) -> Option<CompileFault>
    decreases s.len() - i,
{
    if 0 <= i < s.len() {
        match f(s[i]) {
            Some(x) => Some(x),
            None => first_fault_from(s, f, i + 1),
        }
    } else {
        None
    }
}

/// When no fault is found from position `i` on, the check passes at every position from `i` on.
pub proof fn lemma_no_fault_from<A>(s: Seq<A>, f: spec_fn(A) -> Option<CompileFault>, i: int, j: int)
    requires
        0 <= i <= j < s.len(),
        first_fault_from(s, f, i) is None,
    ensures
        f(s[j]) is None,
    decreases j - i,
{
    if i < j {
        lemma_no_fault_from(s, f, i + 1, j);
    }
}

/// When the check passes at every position from `i` on, no fault is found from `i` on.
pub proof fn lemma_all_pass_no_fault<A>(s: Seq<A>, f: spec_fn(A) -> Option<CompileFault>, i: int)
    requires
        0 <= i,
        forall|j: int| i <= j < s.len() ==> (#[trigger] f(s[j])) is None,
    ensures
        first_fault_from(s, f, i) is None,
    decreases s.len() - i,
{
    if i < s.len() {
        assert(f(s[i]) is None);
        lemma_all_pass_no_fault(s, f, i + 1);
    }
}

/// The fault of an explicit dependency: it names nothing in the workflow.
pub open spec fn dependency_fault<'a>(w: Workflow<'a>, d: DependencyRef) -> Option<CompileFault> {
    if ref_exists(w, d) {
        None
    } else {
        Some(CompileFault::MissingDependency { id: ref_id(d) })
    }
}

/// The fault of a reference input: its source is not in the workflow, or the source's
/// schema does not declare the output.
pub open spec fn source_fault<'a>(
    w: Workflow<'a>,
    input: Seq<char>,
    r: DependencyRef,
    output: Seq<char>,
) -> Option<CompileFault> {
    match r {
        DependencyRef::Task(id) => if !w.tasks()@.contains_key(id) {
            Some(CompileFault::MissingTaskDependency { input, id })
        } else if !w.tasks()@[id].definition().schema().outputs()@.contains_key(output) {
            Some(CompileFault::MissingTaskOutput { input, output, id })
        } else {
            None
        },
        DependencyRef::Trigger(id) => if !w.triggers()@.contains_key(id) {
            Some(CompileFault::MissingTriggerDependency { input, id })
        } else if !w.triggers()@[id].definition().schema().outputs()@.contains_key(output) {
            Some(CompileFault::MissingTriggerOutput { input, output, id })
        } else {
            None
        },
    }
}

/// The data type that the source of a reference declares for the output.
pub open spec fn source_output_type<'a>(w: Workflow<'a>, r: DependencyRef, output: Seq<char>) -> DataType {
    match r {
        DependencyRef::Task(id) => w.tasks()@[id].definition().schema().outputs()@[output].data_type(),
        DependencyRef::Trigger(id) => w.triggers()@[id].definition().schema().outputs()@[output],
    }
}

/// The fault of a reference input of task `t` in the type check: the task's schema
/// does not declare the input, the source or output is missing, or the types differ.
pub open spec fn reference_type_fault<'a>(
    w: Workflow<'a>,
    t: Task<'a>,
    input: Seq<char>,
    r: DependencyRef,
    output: Seq<char>,
) -> Option<CompileFault> {
    let inputs = t.definition().schema().inputs()@;
    if !inputs.contains_key(input) {
        Some(CompileFault::InputNotInSchema { task_id: t.id(), input })
    } else {
        match source_fault(w, input, r, output) {
            Some(f) => Some(f),
            None => {
                let expected = inputs[input].data_type();
                let found = source_output_type(w, r, output);
                if expected != found {
                    Some(
                        CompileFault::InputTypeMismatch {
                            task_id: t.id(),
                            input,
                            expected,
                            found,
                            reference: r,
                            output,
                        },
                    )
                } else {
                    None
                }
            },
        }
    }
}

/// The fault that the existence check finds in a named binding.
pub open spec fn binding_source_fault<'a>(
    w: Workflow<'a>,
    entry: (Seq<char>, InputBinding<'a>),
) -> Option<CompileFault> {
    match entry.1 {
        InputBinding::Reference { ref_from, output } => source_fault(w, entry.0, ref_from, output@),
        InputBinding::Literal(_) => None,
    }
}

/// The fault that the type check finds in a named binding of task `t`.
pub open spec fn binding_type_fault<'a>(
    w: Workflow<'a>,
    t: Task<'a>,
    entry: (Seq<char>, InputBinding<'a>),
) -> Option<CompileFault> {
    match entry.1 {
        InputBinding::Reference { ref_from, output } => reference_type_fault(
            w,
            t,
            entry.0,
            ref_from,
            output@,
        ),
        InputBinding::Literal(_) => None,
    }
}

/// The dependency check of one explicit dependency, as a function.
pub open spec fn dependency_faults<'a>(w: Workflow<'a>) -> spec_fn(DependencyRef) -> Option<CompileFault> {
    |d: DependencyRef| dependency_fault(w, d)
}

/// The existence check of one named binding, as a function.
pub open spec fn binding_source_faults<'a>(w: Workflow<'a>) -> spec_fn((Seq<char>, InputBinding<'a>)) -> Option<CompileFault> {
    |e: (Seq<char>, InputBinding<'a>)| binding_source_fault(w, e)
}

/// The type check of one named binding of task `t`, as a function.
pub open spec fn binding_type_faults<'a>(w: Workflow<'a>, t: Task<'a>) -> spec_fn((Seq<char>, InputBinding<'a>)) -> Option<CompileFault> {
    |e: (Seq<char>, InputBinding<'a>)| binding_type_fault(w, t, e)
}

/// The fault that the dependency check finds in task `t`: the first explicit dependency
/// that names nothing, else the first reference input whose source or output is missing.
pub open spec fn task_dependency_fault<'a>(w: Workflow<'a>, t: Task<'a>) -> Option<CompileFault> {
    match first_fault_from(t.dependencies()@, dependency_faults(w), 0) {
        Some(f) => Some(f),
        None => first_fault_from(t.inputs().pairs(), binding_source_faults(w), 0),
    }
}

/// The fault that the type check finds in task `t`: the first reference input that fails it.
pub open spec fn task_type_fault<'a>(w: Workflow<'a>, t: Task<'a>) -> Option<CompileFault> {
    first_fault_from(t.inputs().pairs(), binding_type_faults(w, t), 0)
}

/// The fault that compiling finds in task `t`: the dependency check comes first.
pub open spec fn task_fault<'a>(w: Workflow<'a>, t: Task<'a>) -> Option<CompileFault> {
    match task_dependency_fault(w, t) {
        Some(f) => Some(f),
        None => task_type_fault(w, t),
    }
}

/// No task of the workflow has a fault.
pub open spec fn fault_free<'a>(w: Workflow<'a>) -> bool {
    forall|k: u128| #[trigger] w.tasks()@.contains_key(k) ==> task_fault(w, w.tasks()@[k]) is None
}

/// `b` depends on `a`: `b` is a task of the workflow, and `a`, a task or trigger of the
/// workflow, is one of its dependencies, explicit or through an input.
pub open spec fn depends_edge<'a>(w: Workflow<'a>, a: DependencyRef, b: DependencyRef) -> bool {
    &&& ref_exists(w, a)
    &&& b is Task
    &&& w.tasks()@.contains_key(ref_id(b))
    &&& all_dependencies(w.tasks()@[ref_id(b)]).contains(a)
}

/// Each element of `p` depends on the one before it.
pub open spec fn dependency_path<'a>(w: Workflow<'a>, p: Seq<DependencyRef>) -> bool {
    forall|i: int| 0 <= i < p.len() - 1 ==> #[trigger] depends_edge(w, p[i], p[i + 1])
}

/// `r` depends, through one or more dependencies, on itself.
pub open spec fn on_dependency_cycle<'a>(w: Workflow<'a>, r: DependencyRef) -> bool {
    exists|p: Seq<DependencyRef>|
        p.len() >= 2 && p[0] == r && p.last() == r && #[trigger] dependency_path(w, p)
}

/// Some task of the workflow depends, through one or more dependencies, on itself.
pub open spec fn has_dependency_cycle<'a>(w: Workflow<'a>) -> bool {
    exists|r: DependencyRef| #[trigger] on_dependency_cycle(w, r)
}

/// Every edge of the graph joins two of its nodes, and goes from a dependency to a
/// task that depends on it.
pub open spec fn edges_depend<'a>(w: Workflow<'a>, g: DependencyGraph) -> bool {
    let nodes = graph_nodes(g);
    forall|e: (int, int)|
        #[trigger] graph_edges(g).contains(e) ==> 0 <= e.0 < nodes.len() && 0 <= e.1 < nodes.len()
            && depends_edge(w, nodes[e.0], nodes[e.1])
}

/// A cycle of a graph whose edges are dependencies goes through a task that depends,
/// through one or more dependencies, on itself.
pub proof fn lemma_graph_cycle_is_dependency_cycle<'a>(w: Workflow<'a>, g: DependencyGraph, c: int)
    requires
        edges_depend(w, g),
        on_cycle(graph_edges(g), c),
    ensures
        0 <= c < graph_nodes(g).len(),
        on_dependency_cycle(w, graph_nodes(g)[c]),
        graph_nodes(g)[c] is Task,
{
    let nodes = graph_nodes(g);
    let edges = graph_edges(g);
    let p = choose|p: Seq<int>| p.len() >= 2 && p[0] == c && p.last() == c && #[trigger] is_path(edges, p);
    let last = p.len() - 2;
    assert(edges.contains((p[last], p[last + 1])));
    let q = Seq::new(p.len(), |i: int| nodes[p[i]]);
    assert forall|i: int| 0 <= i < q.len() - 1 implies #[trigger] depends_edge(w, q[i], q[i + 1]) by {
        assert(edges.contains((p[i], p[i + 1])));
    }
    assert(dependency_path(w, q));
}

/// The graph has one node per task and trigger of the workflow, the index map gives
/// each reference its node, and the edges are exactly the dependencies, from each
/// dependency to the task that depends on it.
pub open spec fn graph_matches<'a>(w: Workflow<'a>, g: DependencyGraph, idx: RefMap<usize>) -> bool {
    let nodes = graph_nodes(g);
    let edges = graph_edges(g);
    &&& forall|r: DependencyRef| #[trigger] idx@.contains_key(r) <==> ref_exists(w, r)
    &&& forall|r: DependencyRef|
        #[trigger] idx@.contains_key(r) ==> idx@[r] < nodes.len() && nodes[idx@[r] as int] == r
    &&& forall|i: int|
        0 <= i < nodes.len() ==> idx@.contains_key(#[trigger] nodes[i]) && idx@[nodes[i]] == i
    &&& edges_depend(w, g)
    &&& forall|a: DependencyRef, b: DependencyRef|
        #[trigger] depends_edge(w, a, b) ==> edges.contains((idx@[a] as int, idx@[b] as int))
}

} // verus!
