//! Running the tasks of a workflow in a dependency order, from one trigger's outputs.
use crate::compiler::{depends_edge, ref_exists};
use crate::executor::{
    binding_value, lemma_all_resolve, lemma_binding_value_insert, lemma_reachable_exists,
    lemma_reachable_trigger, lemma_reference_depends, lemma_resolution_agrees, lemma_resolved_each,
    outputs_view, reachable_from, resolution_fault_from, resolve_task_inputs, resolved_pairs, run_outputs,
    run_succeeds, task_resolves, ExecutionError,
};
use crate::laws::inputs_resolved_from;
use crate::name_map::{firsts, NameMap};
use crate::ref_map::RefMap;
use crate::task::{handled, InputBinding, Task, TaskContext, TaskResult, TaskStatus};
use crate::workflow::{ref_id, DependencyRef, Workflow};
use crate::Value;
use std::collections::HashMap;
use vstd::prelude::*;

verus! {

/// A copy of a set of named values, entry by entry.
pub fn copy_outputs<'a>(m: &NameMap<&'a str, Value<'a>>) -> (r: NameMap<&'a str, Value<'a>>)
    ensures
        r.pairs() == m.pairs(),
        r@ == m@,
{
    let n = m.len();
    let ghost pairs = m.pairs();
    let mut r: NameMap<&'a str, Value<'a>> = NameMap::new();
    let mut i: usize = 0;
    while i < n
        invariant
            n == pairs.len(),
            pairs == m.pairs(),
            firsts(pairs).no_duplicates(),
            i <= n,
            r.pairs() == pairs.take(i as int),
            r.names() == firsts(pairs.take(i as int)),
        decreases n - i,
    {
        let key = *m.key_at(i);
        let value = m.value_at(i).duplicate();
        proof {
            if r.names().contains(key@) {
                let j = choose|j: int| 0 <= j < r.names().len() && r.names()[j] == key@;
                assert(firsts(pairs)[j] == firsts(pairs)[i as int]);
            }
        }
        r.insert(key, value);
        proof {
            assert(pairs.take(i as int + 1) =~= pairs.take(i as int).push(pairs[i as int]));
            assert(r.names() =~= firsts(pairs.take(i as int + 1)));
        }
        i = i + 1;
    }
    assert(pairs.take(n as int) =~= pairs);
    let _ = r.len();
    r
}

/// Every input of task `k` resolves against the outputs `om`.
pub open spec fn resolves_in<'a>(
    w: Workflow<'a>,
    om: Map<DependencyRef, Map<Seq<char>, Value<'a>>>,
    k: u128,
) -> bool {
    forall|q: int|
        0 <= q < w.tasks()@[k].inputs().pairs().len() ==> (#[trigger] binding_value(
            w.tasks()@[k].inputs().pairs()[q].1,
            om,
        )) is Ok
}

/// `r` is what the handler of task `k` of `w` returned when it ran on the context that
/// the task starts with, its inputs resolved against the outputs `om`.
pub open spec fn handled_task<'a>(
    w: Workflow<'a>,
    k: u128,
    om: Map<DependencyRef, Map<Seq<char>, Value<'a>>>,
    r: TaskResult<'a>,
) -> bool {
    exists|c: TaskContext<'a>|
        #[trigger] handled(*w.tasks()@[k].definition().handler(), c, r) && starts_task(c, w.id(), w.tasks()@[k])
            && c.resolved_inputs().pairs() == resolved_pairs(w.tasks()@[k].inputs().pairs(), om)
}

/// When every input of task `k` takes the same value under two sets of outputs, a result
/// handled on the inputs resolved against one is handled on those resolved against the other.
pub proof fn lemma_handled_task_agrees<'a>(
    w: Workflow<'a>,
    k: u128,
    om1: Map<DependencyRef, Map<Seq<char>, Value<'a>>>,
    om2: Map<DependencyRef, Map<Seq<char>, Value<'a>>>,
    r: TaskResult<'a>,
)
    requires
        handled_task(w, k, om1, r),
        forall|q: int|
            0 <= q < w.tasks()@[k].inputs().pairs().len() ==> binding_value(
                w.tasks()@[k].inputs().pairs()[q].1,
                om1,
            ) == #[trigger] binding_value(w.tasks()@[k].inputs().pairs()[q].1, om2),
    ensures
        handled_task(w, k, om2, r),
{
    let pairs = w.tasks()@[k].inputs().pairs();
    let c = choose|c: TaskContext<'a>|
        #[trigger] handled(*w.tasks()@[k].definition().handler(), c, r) && starts_task(c, w.id(), w.tasks()@[k])
            && c.resolved_inputs().pairs() == resolved_pairs(pairs, om1);
    assert(resolved_pairs(pairs, om1) =~= resolved_pairs(pairs, om2)) by {
        assert forall|q: int| 0 <= q < pairs.len() implies resolved_pairs(pairs, om1)[q] == resolved_pairs(
            pairs,
            om2,
        )[q] by {
            assert(binding_value(pairs[q].1, om1) == binding_value(pairs[q].1, om2));
        }
    }
}

/// One task step of a run of `w`: when the inputs of task `task_id` resolve against the
/// outputs so far, its result is recorded and its outputs are added; otherwise the first
/// fault is reported and nothing changes. A task that is not in the workflow is reported.
pub open spec fn ran_task<'a>(
    w: Workflow<'a>,
    results_before: Map<u128, TaskResult<'a>>,
    results_after: Map<u128, TaskResult<'a>>,
    om_before: RefMap<NameMap<&'a str, Value<'a>>>,
    om_after: RefMap<NameMap<&'a str, Value<'a>>>,
    task_id: u128,
    r: Result<(), ExecutionError>,
) -> bool {
    let pairs = w.tasks()@[task_id].inputs().pairs();
    &&& !w.tasks()@.contains_key(task_id) ==> r == Err::<(), ExecutionError>(
        ExecutionError::TaskNotFound { id: task_id },
    ) && results_after == results_before && om_after == om_before
    &&& w.tasks()@.contains_key(task_id) ==> match r {
        Ok(()) => {
            &&& resolution_fault_from(pairs, outputs_view(om_before), 0) is None
            &&& results_after.contains_key(task_id)
            &&& results_after == results_before.insert(task_id, results_after[task_id])
            &&& om_after@ == om_before@.insert(
                DependencyRef::Task(task_id),
                om_after@[DependencyRef::Task(task_id)],
            )
            &&& om_after@[DependencyRef::Task(task_id)]@ == results_after[task_id].outputs()@
            &&& handled_task(w, task_id, outputs_view(om_before), results_after[task_id])
        },
        Err(e) => resolution_fault_from(pairs, outputs_view(om_before), 0) == Some(e@)
            && results_after == results_before && om_after == om_before,
    }
}

/// `c` is the context in which task `task` of workflow `workflow_id` starts: it carries the
/// task's identity, definition and description, its status is `Pending`, and it has no
/// collected outputs, no environment, no working directory and no logger.
pub open spec fn starts_task<'a>(c: TaskContext<'a>, workflow_id: u128, task: Task<'a>) -> bool {
    &&& c.task_id() == task.id()
    &&& c.task_name() == task.name()
    &&& c.task_definition() == task.definition()
    &&& c.workflow_id() == workflow_id
    &&& c.description() == task.description()
    &&& c.status() == TaskStatus::Pending
    &&& c.output_collector()@ == Map::<Seq<char>, Value<'a>>::empty()
    &&& c.env()@ == Map::<Seq<char>, String>::empty()
    &&& *c.cwd() == None::<std::path::PathBuf>
    &&& *c.logger() == None::<&'a dyn crate::logger::Logger>
}

/// The context in which a task of workflow `workflow_id` runs: the task's identity,
/// definition and description, its resolved inputs, status `Pending`, and nothing else.
pub fn build_task_context<'a>(
    workflow_id: u128,
    task: &Task<'a>,
    resolved_inputs: NameMap<&'a str, Value<'a>>,
) -> (r: Result<TaskContext<'a>, ExecutionError>)
    ensures
        r matches Ok(c) && starts_task(c, workflow_id, *task) && *c.resolved_inputs()
            == resolved_inputs,
{
    match TaskContext::builder().task_id(task.id()).task_name(task.name()).task_definition(
        task.definition(),
    ).workflow_id(workflow_id).description(task.description()).resolved_inputs(
        resolved_inputs,
    ).build() {
        Ok(c) => Ok(c),
        Err(_) => Err(ExecutionError::FailedToBuildTaskContext),
    }
}

/// The context handed to task `task` of workflow `workflow_id`: its inputs are resolved
/// against `outputs_map`, and the context is built from them. The first input that cannot
/// be resolved is reported instead.
pub fn task_context_for<'a>(
    workflow_id: u128,
    task: &Task<'a>,
    outputs_map: &RefMap<NameMap<&'a str, Value<'a>>>,
) -> (r: Result<TaskContext<'a>, ExecutionError>)
    ensures
        match r {
            Ok(c) => resolution_fault_from(task.inputs().pairs(), outputs_view(*outputs_map), 0)
                is None && starts_task(c, workflow_id, *task) && c.resolved_inputs().pairs()
                == resolved_pairs(task.inputs().pairs(), outputs_view(*outputs_map)) && inputs_resolved_from(
                task.inputs().pairs(),
                outputs_view(*outputs_map),
                c.resolved_inputs().pairs(),
            ),
            Err(e) => resolution_fault_from(task.inputs().pairs(), outputs_view(*outputs_map), 0)
                == Some(e@),
        },
{
    let input_values = match resolve_task_inputs(task, outputs_map) {
        Ok(v) => v,
        Err(e) => return Err(e),
    };
    build_task_context(workflow_id, task, input_values)
}

/// Records what task `task_id` returned: the result under the task's identifier, and a
/// copy of its outputs under the task's reference.
pub fn record_task_result<'a>(
    task_id: u128,
    result: TaskResult<'a>,
    outputs_map: &mut RefMap<NameMap<&'a str, Value<'a>>>,
    task_results: &mut HashMap<u128, TaskResult<'a>>,
)
    ensures
        final(task_results)@ == old(task_results)@.insert(task_id, result),
        final(outputs_map)@ == old(outputs_map)@.insert(
            DependencyRef::Task(task_id),
            final(outputs_map)@[DependencyRef::Task(task_id)],
        ),
        final(outputs_map)@[DependencyRef::Task(task_id)]@ == result.outputs()@,
        final(outputs_map)@[DependencyRef::Task(task_id)].pairs() == result.outputs().pairs(),
{
    outputs_map.insert(DependencyRef::Task(task_id), copy_outputs(result.outputs()));
    let _ = task_results.insert(task_id, result);
}

/// Runs a task of the workflow: resolves its inputs, builds its context, calls its
/// handler with that context, and records what the handler returned.
pub fn execute_task<'a>(
    workflow: &'a Workflow<'a>,
    task_id: u128,
    outputs_map: &mut RefMap<NameMap<&'a str, Value<'a>>>,
    task_results: &mut HashMap<u128, TaskResult<'a>>,
) -> (r: Result<(), ExecutionError>)
    ensures
        ran_task(
            *workflow,
            old(task_results)@,
            final(task_results)@,
            *old(outputs_map),
            *final(outputs_map),
            task_id,
            r,
        ),
{
    let task = match workflow.tasks().get(&task_id) {
        Some(t) => t,
        None => return Err(ExecutionError::TaskNotFound { id: task_id }),
    };
    let task_context = match task_context_for(workflow.id(), task, outputs_map) {
        Ok(c) => c,
        Err(e) => return Err(e),
    };
    let result = task.definition().execute(&task_context);
    proof {
        assert(handled(*task.definition().handler(), task_context, result));
    }
    record_task_result(task_id, result, outputs_map, task_results);
    Ok(())
}

/// Runs one node of an execution graph: nothing for a trigger, the task for a task.
pub fn execute_node<'a>(
    workflow: &'a Workflow<'a>,
    node: DependencyRef,
    outputs_map: &mut RefMap<NameMap<&'a str, Value<'a>>>,
    task_results: &mut HashMap<u128, TaskResult<'a>>,
) -> (r: Result<(), ExecutionError>)
    ensures
        node is Trigger ==> r is Ok && final(task_results)@ == old(task_results)@
            && *final(outputs_map) == *old(outputs_map),
        node matches DependencyRef::Task(id) ==> ran_task(
            *workflow,
            old(task_results)@,
            final(task_results)@,
            *old(outputs_map),
            *final(outputs_map),
            id,
            r,
        ),
{
    match node {
        DependencyRef::Trigger(_) => Ok(()),
        DependencyRef::Task(task_id) => execute_task(workflow, task_id, outputs_map, task_results),
    }
}

/// Runs, in the order of `sorted`, the tasks that depend on trigger `start_id`, the
/// outputs `trigger_outputs` being offered to their inputs as those of trigger
/// `trigger_id`. `sorted` lists each such task once (and may list the trigger), each
/// after everything it depends on. A task whose input cannot be
/// resolved stops the run with its first fault; the result of each task that ran is
/// recorded in `task_results`.
pub fn run_sorted<'a>(
    workflow: &'a Workflow<'a>,
    start_id: u128,
    trigger_id: u128,
    trigger_outputs: NameMap<&'a str, Value<'a>>,
    sorted: &Vec<DependencyRef>,
    task_results: &mut HashMap<u128, TaskResult<'a>>,
) -> (r: Result<(), ExecutionError>)
    requires
        sorted@.len() > 0 ==> workflow.triggers()@.contains_key(start_id),
        sorted@.no_duplicates(),
        forall|j: int|
            0 <= j < sorted@.len() ==> reachable_from(
                *workflow,
                DependencyRef::Trigger(start_id),
                #[trigger] sorted@[j],
            ),
        forall|k: u128|
            #![trigger reachable_from(*workflow, DependencyRef::Trigger(start_id), DependencyRef::Task(k))]
            workflow.tasks()@.contains_key(k) && reachable_from(
                *workflow,
                DependencyRef::Trigger(start_id),
                DependencyRef::Task(k),
            ) ==> exists|j: int| 0 <= j < sorted@.len() && #[trigger] sorted@[j] == DependencyRef::Task(k),
        forall|a: int, b: int|
            0 <= a < sorted@.len() && 0 <= b < sorted@.len() && #[trigger] depends_edge(
                *workflow,
                sorted@[a],
                sorted@[b],
            ) ==> a < b,
    ensures
        r is Ok ==> forall|k: u128|
            #![trigger reachable_from(*workflow, DependencyRef::Trigger(start_id), DependencyRef::Task(k))]
            workflow.tasks()@.contains_key(k) && reachable_from(
                *workflow,
                DependencyRef::Trigger(start_id),
                DependencyRef::Task(k),
            ) ==> handled_task(
                *workflow,
                k,
                run_outputs(*workflow, start_id, trigger_id, trigger_outputs@, final(task_results)@),
                final(task_results)@[k],
            ),
        r is Ok <==> run_succeeds(*workflow, start_id, trigger_id, trigger_outputs@, final(task_results)@),
        r is Ok ==> forall|k: u128|
            #![trigger final(task_results)@.contains_key(k)]
            workflow.tasks()@.contains_key(k) && reachable_from(
                *workflow,
                DependencyRef::Trigger(start_id),
                DependencyRef::Task(k),
            ) ==> final(task_results)@.contains_key(k),
        r matches Err(e) ==> exists|k: u128|
            #![trigger workflow.tasks()@[k]]
            workflow.tasks()@.contains_key(k) && reachable_from(
                *workflow,
                DependencyRef::Trigger(start_id),
                DependencyRef::Task(k),
            ) && resolution_fault_from(
                workflow.tasks()@[k].inputs().pairs(),
                run_outputs(*workflow, start_id, trigger_id, trigger_outputs@, final(task_results)@),
                0,
            ) == Some(e@),
        forall|k: u128|
            #![trigger final(task_results)@.contains_key(k)]
            !(workflow.tasks()@.contains_key(k) && reachable_from(
                *workflow,
                DependencyRef::Trigger(start_id),
                DependencyRef::Task(k),
            )) ==> (final(task_results)@.contains_key(k) == old(task_results)@.contains_key(k)
                && (old(task_results)@.contains_key(k) ==> final(task_results)@[k]
                == old(task_results)@[k])),
{
    let ghost w = *workflow;
    let ghost tout = trigger_outputs@;
    let ghost old_results = task_results@;
    let ghost start = DependencyRef::Trigger(start_id);
    let ghost key = DependencyRef::Trigger(trigger_id);
    let ghost refs = sorted@;
    proof {
        assert(reachable_from(w, start, start)) by {
            assert(crate::compiler::dependency_path(w, seq![start]));
        }
    }
    let mut outputs_map: RefMap<NameMap<&'a str, Value<'a>>> = RefMap::new();
    outputs_map.insert(DependencyRef::Trigger(trigger_id), trigger_outputs);
    let n = sorted.len();
    let mut i: usize = 0;
    while i < n
        invariant
            n == refs.len(),
            i <= n,
            sorted@ == refs,
            w == *workflow,
            n > 0 ==> w.triggers()@.contains_key(start_id),
            start == DependencyRef::Trigger(start_id),
            key == DependencyRef::Trigger(trigger_id),
            old_results == old(task_results)@,
            tout == trigger_outputs@,
            refs.no_duplicates(),
            forall|j: int| 0 <= j < refs.len() ==> reachable_from(w, start, #[trigger] refs[j]),
            forall|k: u128|
                #![trigger reachable_from(w, start, DependencyRef::Task(k))]
                w.tasks()@.contains_key(k) && reachable_from(w, start, DependencyRef::Task(k)) ==> exists|j: int|
                    0 <= j < refs.len() && #[trigger] refs[j] == DependencyRef::Task(k),
            forall|a: int, b: int|
                0 <= a < refs.len() && 0 <= b < refs.len() && #[trigger] depends_edge(w, refs[a], refs[b])
                    ==> a < b,
            reachable_from(w, start, start),
            outputs_map@.contains_key(key),
            outputs_map@[key]@ == tout,
            forall|j: int| 0 <= j < i && (#[trigger] refs[j]) is Task ==> outputs_map@.contains_key(refs[j]),
            forall|d: DependencyRef|
                #[trigger] outputs_map@.contains_key(d) ==> d == key || exists|j: int|
                    0 <= j < i && #[trigger] refs[j] == d,
            forall|d: DependencyRef|
                #[trigger] outputs_map@.contains_key(d) ==> run_outputs(w, start_id, trigger_id, tout, task_results@).contains_key(d)
                    && run_outputs(w, start_id, trigger_id, tout, task_results@)[d] == outputs_map@[d]@,
            forall|j: int|
                0 <= j < i && (#[trigger] refs[j]) is Task ==> resolves_in(w, outputs_view(outputs_map), ref_id(refs[j])),
            forall|j: int|
                0 <= j < i && (#[trigger] refs[j]) is Task ==> handled_task(
                    w,
                    ref_id(refs[j]),
                    outputs_view(outputs_map),
                    task_results@[ref_id(refs[j])],
                ),
            forall|k: u128|
                #![trigger task_results@.contains_key(k)]
                !(task_results@.contains_key(k) == old_results.contains_key(k) && (old_results.contains_key(k)
                    ==> task_results@[k] == old_results[k])) ==> w.tasks()@.contains_key(k)
                    && reachable_from(w, start, DependencyRef::Task(k)),
        decreases n - i,
    {
        let node = sorted[i];
        let ghost om_before = outputs_map;
        let ghost results_before = task_results@;
        proof {
            lemma_reachable_exists(w, start, node);
        }
        match execute_node(workflow, node, &mut outputs_map, task_results) {
            Ok(()) => {},
            Err(e) => {
                proof {
                    let x = ref_id(node);
                    assert(node == DependencyRef::Task(x));
                    let pairs = w.tasks()@[x].inputs().pairs();
                    let ro = run_outputs(w, start_id, trigger_id, tout, task_results@);
                    let ov = outputs_view(outputs_map);
                    assert forall|q: int| 0 <= q < pairs.len() implies binding_value(pairs[q].1, ov)
                        == #[trigger] binding_value(pairs[q].1, ro) by {
                        if let InputBinding::Reference { ref_from: d, output: o } = pairs[q].1 {
                            if outputs_map@.contains_key(d) {
                                assert(ro.contains_key(d));
                            }
                            if ro.contains_key(d) && d != key {
                                let y = ref_id(d);
                                assert(d == DependencyRef::Task(y));
                                lemma_reachable_exists(w, start, d);
                                assert(reachable_from(w, start, DependencyRef::Task(y)));
                                lemma_reference_depends(w, x, q);
                                let j = choose|j: int| 0 <= j < refs.len() && #[trigger] refs[j] == d;
                                assert(depends_edge(w, refs[j], refs[i as int]));
                                assert(outputs_map@.contains_key(refs[j]));
                            }
                        }
                    }
                    lemma_resolution_agrees(pairs, ov, ro, 0);
                    assert(reachable_from(w, start, refs[i as int]));
                    assert(reachable_from(w, start, DependencyRef::Task(x)));
                    lemma_reachable_exists(w, start, DependencyRef::Task(x));
                    assert(resolution_fault_from(pairs, ro, 0) == Some(e@));
                    assert(workflow.tasks()@[x] == w.tasks()@[x]);
                    assert(!task_resolves(w, start_id, trigger_id, tout, task_results@, x));
                }
                return Err(e);
            },
        }
        proof {
            match node {
                DependencyRef::Trigger(t) => {
                    lemma_reachable_trigger(w, start, t);
                    assert forall|k: u128|
                        !(#[trigger] task_results@.contains_key(k) == old_results.contains_key(k)
                            && (old_results.contains_key(k) ==> task_results@[k] == old_results[k]))
                        implies w.tasks()@.contains_key(k) && reachable_from(w, start, DependencyRef::Task(k)) by {
                        assert(results_before.contains_key(k) == task_results@.contains_key(k));
                    }
                },
                DependencyRef::Task(x) => {
                    let o = outputs_map@[node]@;
                    let ov0 = outputs_view(om_before);
                    if om_before@.contains_key(node) {
                        let j = choose|j: int| 0 <= j < i && #[trigger] refs[j] == node;
                        assert(refs[j] == refs[i as int]);
                    }
                    assert(outputs_view(outputs_map) =~= ov0.insert(node, o));
                    lemma_resolved_each(w.tasks()@[x].inputs().pairs(), ov0, 0);
                    assert forall|j: int|
                        0 <= j < i + 1 && (#[trigger] refs[j]) is Task implies resolves_in(
                        w,
                        outputs_view(outputs_map),
                        ref_id(refs[j]),
                    ) by {
                        let y = ref_id(refs[j]);
                        let pj = w.tasks()@[y].inputs().pairs();
                        assert forall|q: int| 0 <= q < pj.len() implies (#[trigger] binding_value(
                            pj[q].1,
                            outputs_view(outputs_map),
                        )) is Ok by {
                            assert(binding_value(pj[q].1, ov0) is Ok);
                            lemma_binding_value_insert(pj[q].1, ov0, node, o);
                        }
                    }
                    assert forall|j: int|
                        0 <= j < i + 1 && (#[trigger] refs[j]) is Task implies handled_task(
                        w,
                        ref_id(refs[j]),
                        outputs_view(outputs_map),
                        task_results@[ref_id(refs[j])],
                    ) by {
                        let y = ref_id(refs[j]);
                        let pj = w.tasks()@[y].inputs().pairs();
                        if j < i {
                            assert(refs[j] != refs[i as int]);
                            assert(resolves_in(w, ov0, y));
                        }
                        assert forall|q: int| 0 <= q < pj.len() implies binding_value(pj[q].1, ov0)
                            == #[trigger] binding_value(pj[q].1, outputs_view(outputs_map)) by {
                            assert(binding_value(pj[q].1, ov0) is Ok);
                            lemma_binding_value_insert(pj[q].1, ov0, node, o);
                        }
                        lemma_handled_task_agrees(w, y, ov0, outputs_view(outputs_map), task_results@[y]);
                    }
                    assert forall|d: DependencyRef|
                        #[trigger] outputs_map@.contains_key(d) implies run_outputs(
                        w,
                        start_id,
                        trigger_id,
                        tout,
                        task_results@,
                    ).contains_key(d) && run_outputs(w, start_id, trigger_id, tout, task_results@)[d]
                        == outputs_map@[d]@ by {
                        if d != node {
                            assert(om_before@.contains_key(d));
                        }
                    }
                    assert forall|k: u128|
                        !(#[trigger] task_results@.contains_key(k) == old_results.contains_key(k)
                            && (old_results.contains_key(k) ==> task_results@[k] == old_results[k]))
                        implies w.tasks()@.contains_key(k) && reachable_from(w, start, DependencyRef::Task(k)) by {
                        if k != x {
                            assert(results_before.contains_key(k) == task_results@.contains_key(k));
                        }
                    }
                    assert forall|d: DependencyRef|
                        #[trigger] outputs_map@.contains_key(d) implies d == key || exists|j: int|
                            0 <= j < i + 1 && #[trigger] refs[j] == d by {
                        if d == node {
                            assert(refs[i as int] == d);
                        } else {
                            assert(om_before@.contains_key(d));
                        }
                    }
                },
            }
        }
        assert(forall|k: u128|
            #![trigger task_results@.contains_key(k)]
            !(task_results@.contains_key(k) == old_results.contains_key(k) && (old_results.contains_key(k)
                ==> task_results@[k] == old_results[k])) ==> w.tasks()@.contains_key(k)
                && reachable_from(w, start, DependencyRef::Task(k)));
        i = i + 1;
    }
    proof {
        let ro = run_outputs(w, start_id, trigger_id, tout, task_results@);
        let ov = outputs_view(outputs_map);
        assert forall|k: u128|
            #![trigger w.tasks()@[k]]
            w.tasks()@.contains_key(k) && reachable_from(w, start, DependencyRef::Task(k))
                implies task_resolves(w, start_id, trigger_id, tout, task_results@, k)
                && task_results@.contains_key(k) && handled_task(w, k, ro, task_results@[k]) by {
            assert(reachable_from(w, start, DependencyRef::Task(k)));
            let j = choose|j: int| 0 <= j < refs.len() && #[trigger] refs[j] == DependencyRef::Task(k);
            assert(outputs_map@.contains_key(refs[j]));
            assert(resolves_in(w, ov, k));
            let pairs = w.tasks()@[k].inputs().pairs();
            assert forall|q: int| 0 <= q < pairs.len() implies (#[trigger] binding_value(pairs[q].1, ro)) is Ok by {
                assert(binding_value(pairs[q].1, ov) is Ok);
                if let InputBinding::Reference { ref_from: d, output: o } = pairs[q].1 {
                    assert(outputs_map@.contains_key(d));
                }
            }
            lemma_all_resolve(pairs, ro, 0);
            assert forall|q: int| 0 <= q < pairs.len() implies binding_value(pairs[q].1, ov)
                == #[trigger] binding_value(pairs[q].1, ro) by {
                assert(binding_value(pairs[q].1, ov) is Ok);
                if let InputBinding::Reference { ref_from: d, output: o } = pairs[q].1 {
                    assert(outputs_map@.contains_key(d));
                }
            }
            lemma_handled_task_agrees(w, k, ov, ro, task_results@[k]);
        }
    }
    Ok(())
}

} // verus!
