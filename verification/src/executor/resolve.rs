//! The values that a task's inputs take from literals and from the outputs of the
//! triggers and tasks that ran before it.
use crate::name_map::{firsts, NameMap};
use crate::ref_map::RefMap;
use crate::task::{InputBinding, Task};
use crate::workflow::execution::{ExecutionError, ExecutionFault};
use crate::workflow::DependencyRef;
use crate::Value;
use crate::laws::{
    inputs_resolved_from, law_resolution_exactly_when_outputs_present, law_resolved_inputs_take_their_values,
    outputs_present,
};
use vstd::prelude::*;

verus! {

/// The outputs produced so far, by producer and output name.
pub open spec fn outputs_view<'a>(om: RefMap<NameMap<&'a str, Value<'a>>>) -> Map<
    DependencyRef,
    Map<Seq<char>, Value<'a>>,
> {
    om@.map_values(|n: NameMap<&'a str, Value<'a>>| n@)
}

/// The value that a binding takes: a literal's value, or the referenced output; the
/// fault when the producer has no outputs, or lacks the output.
pub open spec fn binding_value<'a>(
    b: InputBinding<'a>,
    om: Map<DependencyRef, Map<Seq<char>, Value<'a>>>,
) -> Result<Value<'a>, ExecutionFault> {
    match b {
        InputBinding::Literal(v) => Ok(v),
        InputBinding::Reference { ref_from, output } => if !om.contains_key(ref_from) {
            Err(ExecutionFault::FailedDependencyOutput { dependency: ref_from })
        } else if !om[ref_from].contains_key(output@) {
            Err(ExecutionFault::MissingDependencyOutput { dependency: ref_from, output: output@ })
        } else {
            Ok(om[ref_from][output@])
        },
    }
}

/// The first fault, from position `i` on, in resolving named bindings.
pub open spec fn resolution_fault_from<'a>(
    pairs: Seq<(Seq<char>, InputBinding<'a>)>,
    om: Map<DependencyRef, Map<Seq<char>, Value<'a>>>,
    i: int,
) -> Option<ExecutionFault>
    decreases pairs.len() - i,
{
    if 0 <= i < pairs.len() {
        match binding_value(pairs[i].1, om) {
            Err(f) => Some(f),
            Ok(_) => resolution_fault_from(pairs, om, i + 1),
        }
    } else {
        None
    }
}

/// The value of a binding that resolves (and `Null` for one that does not).
pub open spec fn resolved_value<'a>(
    b: InputBinding<'a>,
    om: Map<DependencyRef, Map<Seq<char>, Value<'a>>>,
) -> Value<'a> {
    match binding_value(b, om) {
        Ok(v) => v,
        Err(_) => Value::Null,
    }
}

/// The named values of named bindings, in the same order.
pub open spec fn resolved_pairs<'a>(
    pairs: Seq<(Seq<char>, InputBinding<'a>)>,
    om: Map<DependencyRef, Map<Seq<char>, Value<'a>>>,
) -> Seq<(Seq<char>, Value<'a>)> {
    Seq::new(pairs.len(), |i: int| (pairs[i].0, resolved_value(pairs[i].1, om)))
}

/// When every binding takes the same value under two sets of outputs, so does the
/// first fault.
pub proof fn lemma_resolution_agrees<'a>(
    pairs: Seq<(Seq<char>, InputBinding<'a>)>,
    om1: Map<DependencyRef, Map<Seq<char>, Value<'a>>>,
    om2: Map<DependencyRef, Map<Seq<char>, Value<'a>>>,
    i: int,
)
    requires
        forall|j: int| 0 <= j < pairs.len() ==> binding_value(pairs[j].1, om1) == #[trigger] binding_value(pairs[j].1, om2),
    ensures
        resolution_fault_from(pairs, om1, i) == resolution_fault_from(pairs, om2, i),
    decreases pairs.len() - i,
{
    if 0 <= i < pairs.len() {
        assert(binding_value(pairs[i].1, om1) == binding_value(pairs[i].1, om2));
        lemma_resolution_agrees(pairs, om1, om2, i + 1);
    }
}

/// With no fault from position `i` on, every binding from there on resolves.
pub proof fn lemma_resolved_each<'a>(
    pairs: Seq<(Seq<char>, InputBinding<'a>)>,
    om: Map<DependencyRef, Map<Seq<char>, Value<'a>>>,
    i: int,
)
    requires
        0 <= i,
        resolution_fault_from(pairs, om, i) is None,
    ensures
        forall|j: int| i <= j < pairs.len() ==> (#[trigger] binding_value(pairs[j].1, om)) is Ok,
    decreases pairs.len() - i,
{
    if i < pairs.len() {
        lemma_resolved_each(pairs, om, i + 1);
    }
}

/// When every binding from position `i` on resolves, there is no fault from there on.
pub proof fn lemma_all_resolve<'a>(
    pairs: Seq<(Seq<char>, InputBinding<'a>)>,
    om: Map<DependencyRef, Map<Seq<char>, Value<'a>>>,
    i: int,
)
    requires
        forall|j: int| 0 <= j < pairs.len() ==> (#[trigger] binding_value(pairs[j].1, om)) is Ok,
    ensures
        resolution_fault_from(pairs, om, i) is None,
    decreases pairs.len() - i,
{
    if 0 <= i < pairs.len() {
        assert(binding_value(pairs[i].1, om) is Ok);
        lemma_all_resolve(pairs, om, i + 1);
    }
}

/// The first fault is that of some binding.
pub proof fn lemma_fault_found<'a>(
    pairs: Seq<(Seq<char>, InputBinding<'a>)>,
    om: Map<DependencyRef, Map<Seq<char>, Value<'a>>>,
    i: int,
)
    requires
        0 <= i,
        resolution_fault_from(pairs, om, i) is Some,
    ensures
        exists|j: int|
            i <= j < pairs.len() && #[trigger] binding_value(pairs[j].1, om) == Err::<Value<'a>, ExecutionFault>(
                resolution_fault_from(pairs, om, i)->0,
            ),
    decreases pairs.len() - i,
{
    if i < pairs.len() {
        match binding_value(pairs[i].1, om) {
            Err(_) => {},
            Ok(_) => {
                lemma_fault_found(pairs, om, i + 1);
                let j = choose|j: int|
                    i + 1 <= j < pairs.len() && #[trigger] binding_value(pairs[j].1, om) == Err::<Value<'a>, ExecutionFault>(
                        resolution_fault_from(pairs, om, i + 1)->0,
                    );
            },
        }
    }
}

/// A binding that resolves keeps its value when outputs are added for a new producer.
pub proof fn lemma_binding_value_insert<'a>(
    b: InputBinding<'a>,
    om: Map<DependencyRef, Map<Seq<char>, Value<'a>>>,
    d: DependencyRef,
    outputs: Map<Seq<char>, Value<'a>>,
)
    requires
        binding_value(b, om) is Ok,
        !om.contains_key(d),
    ensures
        binding_value(b, om.insert(d, outputs)) == binding_value(b, om),
{
}

/// Resolves the inputs of a task, in the order of its inputs: a literal gives its value,
/// a reference gives the output of the trigger or task it names. The first input that
/// cannot be resolved is reported.
pub fn resolve_task_inputs<'a>(task: &Task<'a>, outputs_map: &RefMap<NameMap<&'a str, Value<'a>>>) -> (r:
    Result<NameMap<&'a str, Value<'a>>, ExecutionError>)
    ensures
        match r {
            Ok(m) => resolution_fault_from(task.inputs().pairs(), outputs_view(*outputs_map), 0) is None
                && m.pairs() == resolved_pairs(task.inputs().pairs(), outputs_view(*outputs_map))
                && inputs_resolved_from(task.inputs().pairs(), outputs_view(*outputs_map), m.pairs()),
            Err(e) => resolution_fault_from(task.inputs().pairs(), outputs_view(*outputs_map), 0)
                == Some(e@),
        },
        r is Ok <==> outputs_present(task.inputs().pairs(), outputs_view(*outputs_map)),
{
    proof {
        law_resolution_exactly_when_outputs_present(task.inputs().pairs(), outputs_view(*outputs_map));
        if resolution_fault_from(task.inputs().pairs(), outputs_view(*outputs_map), 0) is None {
            law_resolved_inputs_take_their_values(task.inputs().pairs(), outputs_view(*outputs_map));
        }
    }
    let inputs = task.inputs();
    let ghost pairs = inputs.pairs();
    let ghost om = outputs_view(*outputs_map);
    let n = inputs.len();
    let mut input_values: NameMap<&'a str, Value<'a>> = NameMap::new();
    let mut i: usize = 0;
    while i < n
        invariant
            n == pairs.len(),
            pairs == inputs.pairs(),
            inputs == task.inputs(),
            om == outputs_view(*outputs_map),
            firsts(pairs).no_duplicates(),
            i <= n,
            resolution_fault_from(pairs, om, 0) == resolution_fault_from(pairs, om, i as int),
            input_values.pairs() == resolved_pairs(pairs.take(i as int), om),
            input_values.names() == firsts(pairs.take(i as int)),
        decreases n - i,
    {
        let key = *inputs.key_at(i);
        let value = match inputs.value_at(i) {
            InputBinding::Literal(v) => v.duplicate(),
            InputBinding::Reference { ref_from, output } => {
                let dep_outputs = match outputs_map.get(ref_from) {
                    Some(o) => o,
                    None => {
                        return Err(ExecutionError::FailedDependencyOutput { dependency: *ref_from });
                    },
                };
                match dep_outputs.get(output) {
                    Some(v) => v.duplicate(),
                    None => {
                        return Err(
                            ExecutionError::MissingDependencyOutput {
                                dependency: *ref_from,
                                output: (*output).to_owned(),
                            },
                        );
                    },
                }
            },
        };
        proof {
            assert(binding_value(pairs[i as int].1, om) == Ok::<Value<'a>, ExecutionFault>(value));
            if input_values.names().contains(key@) {
                let j = choose|j: int| 0 <= j < input_values.names().len() && input_values.names()[j] == key@;
                assert(firsts(pairs)[j] == firsts(pairs)[i as int]);
            }
        }
        input_values.insert(key, value);
        proof {
            assert(pairs.take(i as int + 1) =~= pairs.take(i as int).push(pairs[i as int]));
            assert(input_values.pairs() =~= resolved_pairs(pairs.take(i as int + 1), om));
            assert(input_values.names() =~= firsts(pairs.take(i as int + 1)));
        }
        i = i + 1;
    }
    assert(pairs.take(n as int) =~= pairs);
    Ok(input_values)
}

} // verus!
