//! Properties that relate several operations of the library.
use crate::compiler::{
    binding_source_faults, binding_type_faults, dependency_faults, has_dependency_cycle, lemma_all_pass_no_fault,
    lemma_no_fault_from, depends_edge, dependency_path,
    on_dependency_cycle, ref_exists, task_dependency_fault, task_type_fault,
};
use crate::executor::{
    binding_value, lemma_all_resolve, lemma_fault_found, lemma_resolved_each, resolved_pairs, reachable_from, resolution_fault_from,
    run_outputs, run_succeeds,
};
use crate::plugin::{Plugin, Registry};
use crate::task::{all_dependencies, binding_refs, lemma_binding_ref, lemma_binding_ref_source, literal_fault, literals_accepted, DataType, InputBinding, Task, TaskBuilder, TaskDefinition, TaskResult};
use crate::value::type_of;
use crate::trigger::Trigger;
use crate::workflow::execution::{cycle_after, ExecutionFault};
use crate::workflow::{keyed_by_id, ref_id, DependencyRef, Workflow};
use crate::Value;
use vstd::prelude::*;

verus! {

/// After `register_plugin`, a lookup of the plugin's name finds the plugin, and a lookup
/// of any other name finds what it found before.
pub proof fn law_register_then_get<'a>(
    before: Registry<'a>,
    after: Registry<'a>,
    plugin: Plugin<'a>,
    name: Seq<char>,
)
    requires
        after.plugins()@ == before.plugins()@.insert(plugin.name()@, plugin),
    ensures
        name == plugin.name()@ ==> after.plugins()@.contains_key(name) && after.plugins()@[name] == plugin,
        name != plugin.name()@ ==> (after.plugins()@.contains_key(name) == before.plugins()@.contains_key(name)
            && (before.plugins()@.contains_key(name) ==> after.plugins()@[name] == before.plugins()@[name])),
{
}

/// After `remove_plugin`, a lookup of the removed name finds nothing, and a lookup of any
/// other name finds what it found before.
pub proof fn law_remove_then_get<'a>(before: Registry<'a>, after: Registry<'a>, removed: Seq<char>, name: Seq<char>)
    requires
        after.plugins()@ == before.plugins()@.remove(removed),
    ensures
        !after.plugins()@.contains_key(removed),
        name != removed ==> (after.plugins()@.contains_key(name) == before.plugins()@.contains_key(name)
            && (before.plugins()@.contains_key(name) ==> after.plugins()@[name] == before.plugins()@[name])),
{
}

/// A task definition added to a plugin is what a lookup of its name finds.
pub proof fn law_plugin_task_then_get<'a>(before: Plugin<'a>, after: Plugin<'a>, task: TaskDefinition<'a>)
    requires
        after.tasks()@ == before.tasks()@.insert(task.name()@, task),
    ensures
        after.tasks()@.contains_key(task.name()@),
        after.tasks()@[task.name()@] == task,
{
}

/// Adding a task keeps a workflow keyed by identifier, and the task is then found under
/// its identifier.
pub proof fn law_add_task_keeps_keyed<'a>(before: Workflow<'a>, after: Workflow<'a>, task: Task<'a>)
    requires
        keyed_by_id(before),
        after.tasks()@ == before.tasks()@.insert(task.id(), task),
        after.triggers()@ == before.triggers()@,
    ensures
        keyed_by_id(after),
        after.tasks()@.contains_key(task.id()),
        after.tasks()@[task.id()] == task,
{
}

/// Adding a trigger keeps a workflow keyed by identifier, and the trigger is then found
/// under its identifier.
pub proof fn law_add_trigger_keeps_keyed<'a>(before: Workflow<'a>, after: Workflow<'a>, trigger: Trigger<'a>)
    requires
        keyed_by_id(before),
        after.triggers()@ == before.triggers()@.insert(trigger.id(), trigger),
        after.tasks()@ == before.tasks()@,
    ensures
        keyed_by_id(after),
        after.triggers()@.contains_key(trigger.id()),
        after.triggers()@[trigger.id()] == trigger,
{
}

/// Removing a task or a trigger keeps a workflow keyed by identifier and leaves every
/// other task and trigger as it was.
pub proof fn law_remove_keeps_keyed<'a>(before: Workflow<'a>, after: Workflow<'a>, id: u128, other: u128)
    requires
        keyed_by_id(before),
        (after.tasks()@ == before.tasks()@.remove(id) && after.triggers()@ == before.triggers()@) || (
        after.triggers()@ == before.triggers()@.remove(id) && after.tasks()@ == before.tasks()@),
    ensures
        keyed_by_id(after),
        other != id ==> after.tasks()@.contains_key(other) == before.tasks()@.contains_key(other),
        other != id && before.tasks()@.contains_key(other) ==> after.tasks()@[other] == before.tasks()@[other],
        other != id ==> after.triggers()@.contains_key(other) == before.triggers()@.contains_key(other),
{
}

/// Removing a dependency after adding it leaves none of it, and keeps the other
/// dependencies in their order.
pub proof fn law_add_then_remove_dependency<'a>(t0: Task<'a>, t1: Task<'a>, t2: Task<'a>, dep: DependencyRef)
    requires
        t1.dependencies()@ == t0.dependencies()@.push(dep),
        t2.dependencies()@ == t1.dependencies()@.filter(|d: DependencyRef| d != dep),
    ensures
        !t2.dependencies()@.contains(dep),
        t2.dependencies()@ == t0.dependencies()@.filter(|d: DependencyRef| d != dep),
{
    let f = |d: DependencyRef| d != dep;
    t0.dependencies()@.lemma_filter_push(dep, f);
    t1.dependencies()@.filter_lemma(f);
    if t2.dependencies()@.contains(dep) {
        let i = choose|i: int| 0 <= i < t2.dependencies()@.len() && t2.dependencies()@[i] == dep;
        assert(f(t1.dependencies()@.filter(f)[i]));
    }
}

/// Resolving the inputs of a task fails only because a producer has no outputs or lacks
/// the output: never for a cycle, a missing task or trigger, or a context.
pub proof fn law_resolution_faults<'a>(
    pairs: Seq<(Seq<char>, InputBinding<'a>)>,
    om: Map<DependencyRef, Map<Seq<char>, Value<'a>>>,
)
    ensures
        resolution_fault_from(pairs, om, 0) matches Some(f) ==> (f is FailedDependencyOutput
            || f is MissingDependencyOutput),
{
    if resolution_fault_from(pairs, om, 0) is Some {
        lemma_fault_found(pairs, om, 0);
    }
}

/// A run in which every reference input of every task that depends on the trigger names
/// an output of the trigger's own result succeeds, whatever the tasks produce. The run
/// sets off the tasks that depend on trigger `sid` and offers the outputs `tout` under
/// trigger `tid`.
pub proof fn law_trigger_outputs_suffice<'a>(
    w: Workflow<'a>,
    sid: u128,
    tid: u128,
    tout: Map<Seq<char>, Value<'a>>,
    results: Map<u128, TaskResult<'a>>,
)
    requires
        forall|k: u128, q: int|
            #![trigger w.tasks()@[k].inputs().pairs()[q]]
            w.tasks()@.contains_key(k) && reachable_from(w, DependencyRef::Trigger(sid), DependencyRef::Task(k))
                && 0 <= q < w.tasks()@[k].inputs().pairs().len() && w.tasks()@[k].inputs().pairs()[q].1 is Reference
                ==> w.tasks()@[k].inputs().pairs()[q].1->ref_from == DependencyRef::Trigger(tid)
                && tout.contains_key(w.tasks()@[k].inputs().pairs()[q].1->output@),
    ensures
        run_succeeds(w, sid, tid, tout, results),
{
    assert forall|k: u128|
        #![trigger w.tasks()@[k]]
        w.tasks()@.contains_key(k) && reachable_from(w, DependencyRef::Trigger(sid), DependencyRef::Task(k))
            implies resolution_fault_from(w.tasks()@[k].inputs().pairs(), run_outputs(w, sid, tid, tout, results), 0) is None by {
        let pairs = w.tasks()@[k].inputs().pairs();
        let ro = run_outputs(w, sid, tid, tout, results);
        assert(ro.contains_key(DependencyRef::Trigger(tid)));
        assert forall|q: int| 0 <= q < pairs.len() implies (#[trigger] binding_value(pairs[q].1, ro)) is Ok by {
            if pairs[q].1 is Reference {
                assert(pairs[q].1->ref_from == DependencyRef::Trigger(tid));
            }
        }
        lemma_all_resolve(pairs, ro, 0);
    }
}

/// A workflow without dependency cycles, such as every workflow that compiles, has no
/// cycle among the tasks that any trigger sets off: running it from a trigger never
/// reports one.
pub proof fn law_acyclic_runs_meet_no_cycle<'a>(w: Workflow<'a>, tid: u128)
    requires
        !has_dependency_cycle(w),
    ensures
        !cycle_after(w, tid),
{
    if cycle_after(w, tid) {
        let k = choose|k: u128|
            #![trigger on_dependency_cycle(w, DependencyRef::Task(k))]
            w.tasks()@.contains_key(k) && reachable_from(w, DependencyRef::Trigger(tid), DependencyRef::Task(k))
                && on_dependency_cycle(w, DependencyRef::Task(k));
        assert(has_dependency_cycle(w));
    }
}

/// The output `output` is declared by the schema of the task or trigger that `r` names
/// in `w`.
pub open spec fn declares_output<'a>(w: Workflow<'a>, r: DependencyRef, output: Seq<char>) -> bool {
    match r {
        DependencyRef::Task(id) => w.tasks()@.contains_key(id)
            && w.tasks()@[id].definition().schema().outputs()@.contains_key(output),
        DependencyRef::Trigger(id) => w.triggers()@.contains_key(id)
            && w.triggers()@[id].definition().schema().outputs()@.contains_key(output),
    }
}

/// The data type that the task or trigger that `r` names in `w` declares for `output`.
pub open spec fn declared_output_type<'a>(w: Workflow<'a>, r: DependencyRef, output: Seq<char>) -> DataType {
    match r {
        DependencyRef::Task(id) => w.tasks()@[id].definition().schema().outputs()@[output].data_type(),
        DependencyRef::Trigger(id) => w.triggers()@[id].definition().schema().outputs()@[output],
    }
}

/// A task passes the dependency check only when every explicit dependency names a task
/// or a trigger of the workflow, and every reference input names a task or trigger of
/// the workflow whose schema declares the output.
pub proof fn law_dependency_check_needs_existing_sources<'a>(w: Workflow<'a>, t: Task<'a>)
    requires
        task_dependency_fault(w, t) is None,
    ensures
        forall|j: int| 0 <= j < t.dependencies()@.len() ==> ref_exists(w, #[trigger] t.dependencies()@[j]),
        forall|q: int|
            0 <= q < t.inputs().pairs().len() && (#[trigger] t.inputs().pairs()[q]).1 is Reference
                ==> declares_output(w, t.inputs().pairs()[q].1->ref_from, t.inputs().pairs()[q].1->output@),
{
    let deps = t.dependencies()@;
    let pairs = t.inputs().pairs();
    assert forall|j: int| 0 <= j < deps.len() implies ref_exists(w, #[trigger] deps[j]) by {
        lemma_no_fault_from(deps, dependency_faults(w), 0, j);
    }
    assert forall|q: int| 0 <= q < pairs.len() && (#[trigger] pairs[q]).1 is Reference implies declares_output(
        w,
        pairs[q].1->ref_from,
        pairs[q].1->output@,
    ) by {
        lemma_no_fault_from(pairs, binding_source_faults(w), 0, q);
    }
}

/// A task passes the type check only when each of its reference inputs is an input of
/// its schema, names a task or trigger that declares the output, and the input's data
/// type is exactly the data type declared for the output.
pub proof fn law_type_check_needs_equal_types<'a>(w: Workflow<'a>, t: Task<'a>)
    requires
        task_type_fault(w, t) is None,
    ensures
        forall|q: int|
            0 <= q < t.inputs().pairs().len() && (#[trigger] t.inputs().pairs()[q]).1 is Reference ==> {
                let name = t.inputs().pairs()[q].0;
                let r = t.inputs().pairs()[q].1->ref_from;
                let o = t.inputs().pairs()[q].1->output@;
                &&& t.definition().schema().inputs()@.contains_key(name)
                &&& declares_output(w, r, o)
                &&& t.definition().schema().inputs()@[name].data_type() == declared_output_type(w, r, o)
            },
{
    let pairs = t.inputs().pairs();
    assert forall|q: int| 0 <= q < pairs.len() && (#[trigger] pairs[q]).1 is Reference implies {
        let name = pairs[q].0;
        let r = pairs[q].1->ref_from;
        let o = pairs[q].1->output@;
        &&& t.definition().schema().inputs()@.contains_key(name)
        &&& declares_output(w, r, o)
        &&& t.definition().schema().inputs()@[name].data_type() == declared_output_type(w, r, o)
    } by {
        lemma_no_fault_from(pairs, binding_type_faults(w, t), 0, q);
    }
}

/// Every literal input of the builder names an input of its definition's schema and
/// has exactly that input's data type.
pub open spec fn literals_match_schema<'a>(b: TaskBuilder<'a>) -> bool {
    &&& b.definition is Some
    &&& forall|i: int|
        0 <= i < b.inputs.pairs().len() && (#[trigger] b.inputs.pairs()[i]).1 is Literal ==> {
            let inputs = b.definition->0.schema().inputs()@;
            let name = b.inputs.pairs()[i].0;
            inputs.contains_key(name) && inputs[name].data_type() == type_of(b.inputs.pairs()[i].1->0)
        }
}

/// A builder's literal inputs are accepted exactly when it has a definition and each of
/// them, wherever it stands among the inputs, names a schema input of its own data type.
pub proof fn law_literals_accepted_exactly_when_they_match<'a>(b: TaskBuilder<'a>)
    ensures
        literals_accepted(b) <==> literals_match_schema(b),
{
    let pairs = b.inputs.pairs();
    if literals_accepted(b) {
        assert forall|i: int| 0 <= i < pairs.len() && (#[trigger] pairs[i]).1 is Literal implies {
            let inputs = b.definition->0.schema().inputs()@;
            let name = pairs[i].0;
            inputs.contains_key(name) && inputs[name].data_type() == type_of(pairs[i].1->0)
        } by {
            assert(!literal_fault(b.definition->0.schema().inputs()@, pairs[i]));
        }
    }
    if literals_match_schema(b) {
        assert forall|i: int| 0 <= i < pairs.len() implies !literal_fault(
            b.definition->0.schema().inputs()@,
            #[trigger] pairs[i],
        ) by {
            if pairs[i].1 is Literal {
                assert(pairs[i].1 is Literal);
            }
        }
    }
}

/// `got` holds, for each named binding of `pairs` and in the same order, its name and its
/// value: a literal's own value, or the output that a reference names among the outputs
/// `om`, which must be there.
pub open spec fn inputs_resolved_from<'a>(
    pairs: Seq<(Seq<char>, InputBinding<'a>)>,
    om: Map<DependencyRef, Map<Seq<char>, Value<'a>>>,
    got: Seq<(Seq<char>, Value<'a>)>,
) -> bool {
    &&& got.len() == pairs.len()
    &&& forall|q: int|
        0 <= q < pairs.len() ==> (#[trigger] got[q]).0 == pairs[q].0 && match pairs[q].1 {
            InputBinding::Literal(v) => got[q].1 == v,
            InputBinding::Reference { ref_from, output } => om.contains_key(ref_from) && om[ref_from].contains_key(
                output@,
            ) && got[q].1 == om[ref_from][output@],
        }
}

/// When a task's inputs resolve without a fault, each literal input takes its own value
/// and each reference input takes the output it names, under the input's own name.
pub proof fn law_resolved_inputs_take_their_values<'a>(
    pairs: Seq<(Seq<char>, InputBinding<'a>)>,
    om: Map<DependencyRef, Map<Seq<char>, Value<'a>>>,
)
    requires
        resolution_fault_from(pairs, om, 0) is None,
    ensures
        inputs_resolved_from(pairs, om, resolved_pairs(pairs, om)),
{
    lemma_resolved_each(pairs, om, 0);
    let got = resolved_pairs(pairs, om);
    assert forall|q: int| 0 <= q < pairs.len() implies (#[trigger] got[q]).0 == pairs[q].0 && match pairs[q].1 {
        InputBinding::Literal(v) => got[q].1 == v,
        InputBinding::Reference { ref_from, output } => om.contains_key(ref_from) && om[ref_from].contains_key(
            output@,
        ) && got[q].1 == om[ref_from][output@],
    } by {
        assert(binding_value(pairs[q].1, om) is Ok);
    }
}

/// A literal input takes its own value, whatever outputs are offered.
pub proof fn law_literal_resolves_to_itself<'a>(
    name: Seq<char>,
    v: Value<'a>,
    om: Map<DependencyRef, Map<Seq<char>, Value<'a>>>,
)
    ensures
        binding_value(InputBinding::Literal(v), om) == Ok::<Value<'a>, ExecutionFault>(v),
        resolved_pairs(seq![(name, InputBinding::Literal(v))], om) == seq![(name, v)],
{
    assert(resolved_pairs(seq![(name, InputBinding::Literal(v))], om) =~= seq![(name, v)]);
}

/// Every explicit dependency of `t` names a task or trigger of `w`, and every reference
/// input of `t` names one whose schema declares the output.
pub open spec fn sources_exist<'a>(w: Workflow<'a>, t: Task<'a>) -> bool {
    &&& forall|j: int| 0 <= j < t.dependencies()@.len() ==> ref_exists(w, #[trigger] t.dependencies()@[j])
    &&& forall|q: int|
        0 <= q < t.inputs().pairs().len() && (#[trigger] t.inputs().pairs()[q]).1 is Reference
            ==> declares_output(w, t.inputs().pairs()[q].1->ref_from, t.inputs().pairs()[q].1->output@)
}

/// Every reference input of `t` is an input of its schema, names a task or trigger of
/// `w` that declares the output, and has exactly the output's declared data type.
pub open spec fn reference_types_match<'a>(w: Workflow<'a>, t: Task<'a>) -> bool {
    forall|q: int|
        0 <= q < t.inputs().pairs().len() && (#[trigger] t.inputs().pairs()[q]).1 is Reference ==> {
            let name = t.inputs().pairs()[q].0;
            let r = t.inputs().pairs()[q].1->ref_from;
            let o = t.inputs().pairs()[q].1->output@;
            &&& t.definition().schema().inputs()@.contains_key(name)
            &&& declares_output(w, r, o)
            &&& t.definition().schema().inputs()@[name].data_type() == declared_output_type(w, r, o)
        }
}

/// The dependency check passes exactly when every explicit dependency and every
/// reference input names something that exists, with the output declared.
pub proof fn law_dependency_check_exactly_when_sources_exist<'a>(w: Workflow<'a>, t: Task<'a>)
    ensures
        task_dependency_fault(w, t) is None <==> sources_exist(w, t),
{
    let deps = t.dependencies()@;
    let pairs = t.inputs().pairs();
    if task_dependency_fault(w, t) is None {
        law_dependency_check_needs_existing_sources(w, t);
    }
    if sources_exist(w, t) {
        assert forall|j: int| 0 <= j < deps.len() implies (#[trigger] dependency_faults(w)(deps[j])) is None by {
            assert(ref_exists(w, deps[j]));
        }
        lemma_all_pass_no_fault(deps, dependency_faults(w), 0);
        assert forall|q: int| 0 <= q < pairs.len() implies (#[trigger] binding_source_faults(w)(pairs[q])) is None by {
            if pairs[q].1 is Reference {
                assert(declares_output(w, pairs[q].1->ref_from, pairs[q].1->output@));
            }
        }
        lemma_all_pass_no_fault(pairs, binding_source_faults(w), 0);
    }
}

/// The type check passes exactly when every reference input is a schema input whose
/// data type equals the type declared for the output it names.
pub proof fn law_type_check_exactly_when_types_match<'a>(w: Workflow<'a>, t: Task<'a>)
    ensures
        task_type_fault(w, t) is None <==> reference_types_match(w, t),
{
    let pairs = t.inputs().pairs();
    if task_type_fault(w, t) is None {
        law_type_check_needs_equal_types(w, t);
    }
    if reference_types_match(w, t) {
        assert forall|q: int| 0 <= q < pairs.len() implies (#[trigger] binding_type_faults(w, t)(pairs[q])) is None by {
            if pairs[q].1 is Reference {
                let name = pairs[q].0;
                let r = pairs[q].1->ref_from;
                let o = pairs[q].1->output@;
                assert(t.definition().schema().inputs()@.contains_key(name));
                assert(declares_output(w, r, o));
            }
        }
        lemma_all_pass_no_fault(pairs, binding_type_faults(w, t), 0);
    }
}

/// Task `t` lists `d` as an explicit dependency or as the source of a reference input.
pub open spec fn task_depends_on<'a>(t: Task<'a>, d: DependencyRef) -> bool {
    ||| t.dependencies()@.contains(d)
    ||| exists|q: int|
        0 <= q < t.inputs().pairs().len() && (#[trigger] t.inputs().pairs()[q]).1 is Reference
            && t.inputs().pairs()[q].1->ref_from == d
}

/// A task of the workflow depends on `a` exactly when `a` is a task or trigger of the
/// workflow that the task lists as an explicit dependency or as the source of an input.
pub proof fn law_dependency_edges<'a>(w: Workflow<'a>, a: DependencyRef, k: u128)
    ensures
        depends_edge(w, a, DependencyRef::Task(k)) <==> ref_exists(w, a) && w.tasks()@.contains_key(k)
            && task_depends_on(w.tasks()@[k], a),
        forall|t: u128| !depends_edge(w, a, DependencyRef::Trigger(t)),
{
    if w.tasks()@.contains_key(k) {
        let t = w.tasks()@[k];
        let deps = t.dependencies()@;
        let refs = binding_refs(t.inputs().pairs());
        assert(all_dependencies(t) == deps + refs);
        if all_dependencies(t).contains(a) {
            let i = choose|i: int| 0 <= i < (deps + refs).len() && (deps + refs)[i] == a;
            if i < deps.len() {
                assert(deps[i] == a);
            } else {
                assert(refs[i - deps.len()] == a);
                lemma_binding_ref_source(t.inputs().pairs(), a);
            }
        }
        if deps.contains(a) {
            let i = choose|i: int| 0 <= i < deps.len() && deps[i] == a;
            assert((deps + refs)[i] == a);
        }
        if exists|q: int|
            0 <= q < t.inputs().pairs().len() && (#[trigger] t.inputs().pairs()[q]).1 is Reference
                && t.inputs().pairs()[q].1->ref_from == a {
            let q = choose|q: int|
                0 <= q < t.inputs().pairs().len() && (#[trigger] t.inputs().pairs()[q]).1 is Reference
                    && t.inputs().pairs()[q].1->ref_from == a;
            lemma_binding_ref(t.inputs().pairs(), q);
            let i = choose|i: int| 0 <= i < refs.len() && refs[i] == a;
            assert((deps + refs)[deps.len() + i] == a);
        }
    }
}

/// A task of the workflow that depends on itself is on a dependency cycle.
pub proof fn law_self_dependency_is_a_cycle<'a>(w: Workflow<'a>, k: u128)
    requires
        w.tasks()@.contains_key(k),
        task_depends_on(w.tasks()@[k], DependencyRef::Task(k)),
    ensures
        has_dependency_cycle(w),
{
    let r = DependencyRef::Task(k);
    law_dependency_edges(w, r, k);
    let p = seq![r, r];
    assert(depends_edge(w, p[0], p[1]));
    assert(dependency_path(w, p));
    assert(on_dependency_cycle(w, r));
}

/// Two tasks of the workflow that depend on each other are on a dependency cycle.
pub proof fn law_mutual_dependency_is_a_cycle<'a>(w: Workflow<'a>, a: u128, b: u128)
    requires
        w.tasks()@.contains_key(a),
        w.tasks()@.contains_key(b),
        task_depends_on(w.tasks()@[a], DependencyRef::Task(b)),
        task_depends_on(w.tasks()@[b], DependencyRef::Task(a)),
    ensures
        has_dependency_cycle(w),
{
    let ra = DependencyRef::Task(a);
    let rb = DependencyRef::Task(b);
    law_dependency_edges(w, rb, a);
    law_dependency_edges(w, ra, b);
    let p = seq![ra, rb, ra];
    assert(depends_edge(w, p[0], p[1]));
    assert(depends_edge(w, p[1], p[2]));
    assert(dependency_path(w, p));
    assert(on_dependency_cycle(w, ra));
}

/// A workflow in which no task depends on anything has no dependency cycle.
pub proof fn law_no_dependencies_no_cycle<'a>(w: Workflow<'a>)
    requires
        forall|k: u128, d: DependencyRef| w.tasks()@.contains_key(k) ==> !#[trigger] task_depends_on(w.tasks()@[k], d),
    ensures
        !has_dependency_cycle(w),
{
    if has_dependency_cycle(w) {
        let r = choose|r: DependencyRef| #[trigger] on_dependency_cycle(w, r);
        let p = choose|p: Seq<DependencyRef>| p.len() >= 2 && p[0] == r && p.last() == r && #[trigger] dependency_path(w, p);
        let i = 0int;
        assert(depends_edge(w, p[i], p[i + 1]));
        if p[1] is Trigger {
            law_dependency_edges(w, p[0], 0);
        } else {
            law_dependency_edges(w, p[0], ref_id(p[1]));
        }
    }
}

/// Every reference input among `pairs` names a producer that has outputs in `om`, and
/// the output it names is among them.
pub open spec fn outputs_present<'a>(
    pairs: Seq<(Seq<char>, InputBinding<'a>)>,
    om: Map<DependencyRef, Map<Seq<char>, Value<'a>>>,
) -> bool {
    forall|q: int|
        0 <= q < pairs.len() && (#[trigger] pairs[q]).1 is Reference ==> om.contains_key(pairs[q].1->ref_from)
            && om[pairs[q].1->ref_from].contains_key(pairs[q].1->output@)
}

/// Inputs resolve exactly when every reference input finds its producer's outputs and
/// the output it names. A fault names a reference input: its producer when the producer
/// has no outputs, or the producer and the output when that output is missing.
pub proof fn law_resolution_exactly_when_outputs_present<'a>(
    pairs: Seq<(Seq<char>, InputBinding<'a>)>,
    om: Map<DependencyRef, Map<Seq<char>, Value<'a>>>,
)
    ensures
        resolution_fault_from(pairs, om, 0) is None <==> outputs_present(pairs, om),
        resolution_fault_from(pairs, om, 0) matches Some(f) ==> exists|q: int|
            0 <= q < pairs.len() && (#[trigger] pairs[q]).1 is Reference && {
                let r = pairs[q].1->ref_from;
                let o = pairs[q].1->output@;
                ||| !om.contains_key(r) && f == ExecutionFault::FailedDependencyOutput { dependency: r }
                ||| om.contains_key(r) && !om[r].contains_key(o) && f
                    == ExecutionFault::MissingDependencyOutput { dependency: r, output: o }
            },
{
    if resolution_fault_from(pairs, om, 0) is None {
        lemma_resolved_each(pairs, om, 0);
        assert forall|q: int| 0 <= q < pairs.len() && (#[trigger] pairs[q]).1 is Reference implies om.contains_key(
            pairs[q].1->ref_from,
        ) && om[pairs[q].1->ref_from].contains_key(pairs[q].1->output@) by {
            assert(binding_value(pairs[q].1, om) is Ok);
        }
    } else {
        lemma_fault_found(pairs, om, 0);
        let j = choose|j: int|
            0 <= j < pairs.len() && #[trigger] binding_value(pairs[j].1, om) == Err::<Value<'a>, ExecutionFault>(
                resolution_fault_from(pairs, om, 0)->0,
            );
        assert(pairs[j].1 is Reference);
        if outputs_present(pairs, om) {
            assert(om.contains_key(pairs[j].1->ref_from));
        }
    }
    if outputs_present(pairs, om) {
        assert forall|q: int| 0 <= q < pairs.len() implies (#[trigger] binding_value(pairs[q].1, om)) is Ok by {
            if pairs[q].1 is Reference {
                assert(om.contains_key(pairs[q].1->ref_from));
            }
        }
        lemma_all_resolve(pairs, om, 0);
    }
}

/// A run offers the trigger's outputs under the trigger, and under each task that the
/// trigger sets off and that has a result, that result's outputs; nothing else.
pub proof fn law_run_offers_trigger_and_task_outputs<'a>(
    w: Workflow<'a>,
    sid: u128,
    tid: u128,
    tout: Map<Seq<char>, Value<'a>>,
    results: Map<u128, TaskResult<'a>>,
    k: u128,
    d: DependencyRef,
)
    ensures
        run_outputs(w, sid, tid, tout, results).contains_key(DependencyRef::Trigger(tid)),
        run_outputs(w, sid, tid, tout, results)[DependencyRef::Trigger(tid)] == tout,
        reachable_from(w, DependencyRef::Trigger(sid), DependencyRef::Task(k)) && results.contains_key(k) ==> {
            &&& run_outputs(w, sid, tid, tout, results).contains_key(DependencyRef::Task(k))
            &&& run_outputs(w, sid, tid, tout, results)[DependencyRef::Task(k)] == results[k].outputs()@
        },
        run_outputs(w, sid, tid, tout, results).contains_key(d) ==> d == DependencyRef::Trigger(tid) || (
        d is Task && reachable_from(w, DependencyRef::Trigger(sid), d) && results.contains_key(ref_id(d))),
{
}

} // verus!
