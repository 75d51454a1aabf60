//! The tasks that a trigger sets off, found by following dependents.
use crate::compiler::{dependency_path, depends_edge, on_dependency_cycle, ref_exists};
use crate::executor::reachable_from;
use crate::task::all_dependencies;
use crate::workflow::{dependents_of, ref_id, DependencyRef, Workflow};
use vstd::prelude::*;

verus! {

/// Some task that depends on trigger `tid`, directly or through other tasks, depends
/// through one or more dependencies on itself.
pub open spec fn cycle_after<'a>(w: Workflow<'a>, tid: u128) -> bool {
    exists|k: u128|
        #![trigger on_dependency_cycle(w, DependencyRef::Task(k))]
        w.tasks()@.contains_key(k) && reachable_from(w, DependencyRef::Trigger(tid), DependencyRef::Task(k))
            && on_dependency_cycle(w, DependencyRef::Task(k))
}

/// Each element of `p` is among the tasks that depend on the element before it.
pub open spec fn dependent_path<'a>(w: Workflow<'a>, p: Seq<DependencyRef>) -> bool {
    forall|i: int| 0 <= i < p.len() - 1 ==> #[trigger] dependents_of(w, p[i]).contains(p[i + 1])
}

/// `b` depends on `a` through one or more steps: a task that depends on `a`, a task that
/// depends on that one, and so on.
pub open spec fn depends_transitively<'a>(w: Workflow<'a>, a: DependencyRef, b: DependencyRef) -> bool {
    exists|p: Seq<DependencyRef>| p.len() >= 2 && p[0] == a && p.last() == b && #[trigger] dependent_path(w, p)
}

/// A task that depends on `a` depends on it transitively.
pub proof fn lemma_depends_step<'a>(w: Workflow<'a>, a: DependencyRef, b: DependencyRef)
    requires
        dependents_of(w, a).contains(b),
    ensures
        depends_transitively(w, a, b),
{
    let p = seq![a, b];
    assert(dependents_of(w, p[0]).contains(p[1]));
    assert(dependent_path(w, p));
}

/// A task that depends on `m`, which depends transitively on `a`, depends transitively on `a`.
pub proof fn lemma_depends_extend<'a>(w: Workflow<'a>, a: DependencyRef, m: DependencyRef, b: DependencyRef)
    requires
        depends_transitively(w, a, m),
        dependents_of(w, m).contains(b),
    ensures
        depends_transitively(w, a, b),
{
    let p = choose|p: Seq<DependencyRef>| p.len() >= 2 && p[0] == a && p.last() == m && #[trigger] dependent_path(w, p);
    let q = p.push(b);
    assert forall|i: int| 0 <= i < q.len() - 1 implies #[trigger] dependents_of(w, q[i]).contains(q[i + 1]) by {
        if i < p.len() - 1 {
            assert(dependents_of(w, p[i]).contains(p[i + 1]));
        }
    }
    assert(dependent_path(w, q));
}

/// Along a path of dependents from `a`, a set that holds the dependents of `a` and of
/// each of its members holds every element after the first.
proof fn lemma_closed_path<'a>(w: Workflow<'a>, s: Set<DependencyRef>, p: Seq<DependencyRef>, i: int)
    requires
        p.len() >= 2,
        dependent_path(w, p),
        forall|d: DependencyRef| #[trigger] dependents_of(w, p[0]).contains(d) ==> s.contains(d),
        forall|v: DependencyRef, d: DependencyRef|
            s.contains(v) && #[trigger] dependents_of(w, v).contains(d) ==> s.contains(d),
        1 <= i < p.len(),
    ensures
        s.contains(p[i]),
    decreases i,
{
    let j = i - 1;
    assert(dependents_of(w, p[j]).contains(p[j + 1]));
    if i > 1 {
        lemma_closed_path(w, s, p, i - 1);
    }
}

/// A set that holds the dependents of `a` and of each of its members holds everything
/// that depends transitively on `a`.
pub proof fn lemma_closed_holds<'a>(w: Workflow<'a>, a: DependencyRef, s: Set<DependencyRef>, b: DependencyRef)
    requires
        forall|d: DependencyRef| #[trigger] dependents_of(w, a).contains(d) ==> s.contains(d),
        forall|v: DependencyRef, d: DependencyRef|
            s.contains(v) && #[trigger] dependents_of(w, v).contains(d) ==> s.contains(d),
        depends_transitively(w, a, b),
    ensures
        s.contains(b),
{
    let p = choose|p: Seq<DependencyRef>| p.len() >= 2 && p[0] == a && p.last() == b && #[trigger] dependent_path(w, p);
    lemma_closed_path(w, s, p, p.len() - 1);
}

/// Every task found by following dependents from `start` is stored under its own
/// identifier.
pub open spec fn dependents_keyed<'a>(w: Workflow<'a>, start: DependencyRef) -> bool {
    forall|k: u128|
        #![trigger w.tasks()@[k]]
        w.tasks()@.contains_key(k) && depends_transitively(w, start, DependencyRef::Task(w.tasks()@[k].id()))
            ==> w.tasks()@[k].id() == k
}

/// Along a path of dependencies from `p[0]`, when the tasks found by following dependents
/// from `p[0]` are stored under their own identifiers, each prefix is also a path of
/// dependents.
proof fn lemma_path_follows_dependents<'a>(w: Workflow<'a>, p: Seq<DependencyRef>, i: int)
    requires
        p.len() >= 2,
        dependency_path(w, p),
        dependents_keyed(w, p[0]),
        1 <= i < p.len(),
    ensures
        dependent_path(w, p.take(i + 1)),
    decreases i,
{
    if i > 1 {
        lemma_path_follows_dependents(w, p, i - 1);
    }
    let j = i - 1;
    assert(depends_edge(w, p[j], p[j + 1]));
    let k = ref_id(p[i]);
    let d = DependencyRef::Task(w.tasks()@[k].id());
    assert(dependents_of(w, p[j]).contains(d));
    let q = p.take(i).push(d);
    assert forall|m: int| 0 <= m < q.len() - 1 implies #[trigger] dependents_of(w, q[m]).contains(q[m + 1]) by {
        if m < j {
            assert(dependents_of(w, p.take(i)[m]).contains(p.take(i)[m + 1]));
            assert(q[m] == p.take(i)[m] && q[m + 1] == p.take(i)[m + 1]);
        } else {
            assert(q[m] == p[j] && q[m + 1] == d);
        }
    }
    assert(dependent_path(w, q));
    assert(q.len() >= 2 && q[0] == p[0] && q.last() == d);
    assert(depends_transitively(w, p[0], d));
    assert(w.tasks()@[k].id() == k);
    assert(q =~= p.take(i + 1));
}

/// Following dependents from a trigger of the workflow, when the tasks found that way
/// are stored under their own identifiers, reaches exactly the tasks that the trigger
/// reaches through dependencies.
pub proof fn lemma_depends_reachable<'a>(w: Workflow<'a>, tid: u128, b: DependencyRef)
    requires
        dependents_keyed(w, DependencyRef::Trigger(tid)),
        w.triggers()@.contains_key(tid),
    ensures
        depends_transitively(w, DependencyRef::Trigger(tid), b) <==> (b is Task && reachable_from(
            w,
            DependencyRef::Trigger(tid),
            b,
        )),
{
    let start = DependencyRef::Trigger(tid);
    if depends_transitively(w, start, b) {
        let p = choose|p: Seq<DependencyRef>|
            p.len() >= 2 && p[0] == start && p.last() == b && #[trigger] dependent_path(w, p);
        assert forall|i: int| 0 <= i < p.len() - 1 implies #[trigger] depends_edge(w, p[i], p[i + 1]) by {
            assert forall|m: int| 0 <= m < p.take(i + 2).len() - 1 implies #[trigger] dependents_of(
                w,
                p.take(i + 2)[m],
            ).contains(p.take(i + 2)[m + 1]) by {
                assert(dependents_of(w, p[m]).contains(p[m + 1]));
            }
            assert(dependent_path(w, p.take(i + 2)));
            assert(depends_transitively(w, start, p[i + 1]));
            assert(dependents_of(w, p[i]).contains(p[i + 1]));
            let k = choose|k: u128|
                #![trigger w.tasks()@[k]]
                w.tasks()@.contains_key(k) && p[i + 1] == DependencyRef::Task(w.tasks()@[k].id())
                    && all_dependencies(w.tasks()@[k]).contains(p[i]);
            if i > 0 {
                let j = i - 1;
                assert forall|m: int| 0 <= m < p.take(j + 2).len() - 1 implies #[trigger] dependents_of(
                    w,
                    p.take(j + 2)[m],
                ).contains(p.take(j + 2)[m + 1]) by {
                    assert(dependents_of(w, p[m]).contains(p[m + 1]));
                }
                assert(dependent_path(w, p.take(j + 2)));
                assert(depends_transitively(w, start, p[j + 1]));
                assert(dependents_of(w, p[j]).contains(p[j + 1]));
                let k2 = choose|k2: u128|
                    #![trigger w.tasks()@[k2]]
                    w.tasks()@.contains_key(k2) && p[j + 1] == DependencyRef::Task(w.tasks()@[k2].id())
                        && all_dependencies(w.tasks()@[k2]).contains(p[j]);
                assert(ref_exists(w, p[i]));
            }
        }
        assert(dependency_path(w, p));
        let l = p.len() - 2;
        assert(dependents_of(w, p[l]).contains(p[l + 1]));
    }
    if b is Task && reachable_from(w, start, b) {
        let p = choose|p: Seq<DependencyRef>| p.len() >= 1 && p[0] == start && p.last() == b && #[trigger] dependency_path(w, p);
        lemma_path_follows_dependents(w, p, p.len() - 1);
        assert(p.take(p.len() as int) =~= p);
    }
}

/// What a reference reachable from `start` reaches is reachable from `start`.
pub proof fn lemma_reachable_concat<'a>(w: Workflow<'a>, start: DependencyRef, a: DependencyRef, b: DependencyRef)
    requires
        reachable_from(w, start, a),
        reachable_from(w, a, b),
    ensures
        reachable_from(w, start, b),
{
    let p = choose|p: Seq<DependencyRef>| p.len() >= 1 && p[0] == start && p.last() == a && #[trigger] dependency_path(w, p);
    let q = choose|q: Seq<DependencyRef>| q.len() >= 1 && q[0] == a && q.last() == b && #[trigger] dependency_path(w, q);
    let r = p + q.drop_first();
    assert forall|i: int| 0 <= i < r.len() - 1 implies #[trigger] depends_edge(w, r[i], r[i + 1]) by {
        if i < p.len() - 1 {
            assert(depends_edge(w, p[i], p[i + 1]));
        } else {
            let j = i - (p.len() - 1);
            assert(depends_edge(w, q[j], q[j + 1]));
        }
    }
    assert(dependency_path(w, r));
    if q.len() == 1 {
        assert(r =~= p);
    }
}

} // verus!
