use crate::workflow::DependencyRef;
use crate::Value;
use vstd::prelude::*;

verus! {

/// How a task input gets its value: a literal, or an output of another task or of a trigger.
#[derive(Clone, Debug)]
pub enum InputBinding<'a> {
    /// A literal value
    Literal(Value<'a>),
    /// Reference to an output of a task or of a trigger
    Reference { ref_from: DependencyRef, output: &'a str },
}

impl<'a> InputBinding<'a> {
    /// A reference to a trigger's output.
    pub fn trigger(trigger_id: u128, output: &'a str) -> (b: Self)
        ensures
            b == (InputBinding::Reference { ref_from: DependencyRef::Trigger(trigger_id), output }),
    {
        InputBinding::Reference { ref_from: DependencyRef::Trigger(trigger_id), output }
    }

    /// A reference to another task's output.
    pub fn task(task_id: u128, output: &'a str) -> (b: Self)
        ensures
            b == (InputBinding::Reference { ref_from: DependencyRef::Task(task_id), output }),
    {
        InputBinding::Reference { ref_from: DependencyRef::Task(task_id), output }
    }

    /// A literal value.
    pub fn literal(value: Value<'a>) -> (b: Self)
        ensures
            b == InputBinding::Literal(value),
    {
        InputBinding::Literal(value)
    }
}

/// The references that a sequence of named bindings makes, in order.
pub open spec fn binding_refs<'a>(pairs: Seq<(Seq<char>, InputBinding<'a>)>) -> Seq<DependencyRef>
    decreases pairs.len(),
{
    if pairs.len() == 0 {
        Seq::empty()
    } else {
        let rest = binding_refs(pairs.drop_last());
        match pairs.last().1 {
            InputBinding::Reference { ref_from, .. } => rest.push(ref_from),
            InputBinding::Literal(_) => rest,
        }
    }
}

/// The source of every reference binding is among the references the bindings make.
pub proof fn lemma_binding_ref<'a>(pairs: Seq<(Seq<char>, InputBinding<'a>)>, i: int)
    requires
        0 <= i < pairs.len(),
        pairs[i].1 is Reference,
    ensures
        binding_refs(pairs).contains(pairs[i].1->ref_from),
    decreases pairs.len(),
{
    let rest = binding_refs(pairs.drop_last());
    if i == pairs.len() - 1 {
        assert(binding_refs(pairs) == rest.push(pairs[i].1->ref_from));
        assert(binding_refs(pairs)[rest.len() as int] == pairs[i].1->ref_from);
    } else {
        assert(pairs.drop_last()[i] == pairs[i]);
        lemma_binding_ref(pairs.drop_last(), i);
        let k = choose|k: int| 0 <= k < rest.len() && rest[k] == pairs[i].1->ref_from;
        match pairs.last().1 {
            InputBinding::Reference { ref_from, .. } => {
                assert(binding_refs(pairs) == rest.push(ref_from));
                assert(binding_refs(pairs)[k] == pairs[i].1->ref_from);
            },
            InputBinding::Literal(_) => {
                assert(binding_refs(pairs)[k] == pairs[i].1->ref_from);
            },
        }
    }
}

/// Every reference the bindings make is the source of one of them.
pub proof fn lemma_binding_ref_source<'a>(pairs: Seq<(Seq<char>, InputBinding<'a>)>, d: DependencyRef)
    requires
        binding_refs(pairs).contains(d),
    ensures
        exists|q: int| 0 <= q < pairs.len() && (#[trigger] pairs[q]).1 is Reference && pairs[q].1->ref_from == d,
    decreases pairs.len(),
{
    let rest = binding_refs(pairs.drop_last());
    let last = pairs.len() - 1;
    match pairs.last().1 {
        InputBinding::Reference { ref_from, .. } => {
            if ref_from == d {
                assert(pairs[last].1 is Reference);
            } else {
                let k = choose|k: int| 0 <= k < binding_refs(pairs).len() && binding_refs(pairs)[k] == d;
                assert(binding_refs(pairs) == rest.push(ref_from));
                assert(rest[k] == d);
                lemma_binding_ref_source(pairs.drop_last(), d);
                let q = choose|q: int| 0 <= q < pairs.drop_last().len() && (#[trigger] pairs.drop_last()[q]).1 is Reference
                    && pairs.drop_last()[q].1->ref_from == d;
                assert(pairs[q] == pairs.drop_last()[q]);
            }
        },
        InputBinding::Literal(_) => {
            lemma_binding_ref_source(pairs.drop_last(), d);
            let q = choose|q: int| 0 <= q < pairs.drop_last().len() && (#[trigger] pairs.drop_last()[q]).1 is Reference
                && pairs.drop_last()[q].1->ref_from == d;
            assert(pairs[q] == pairs.drop_last()[q]);
        },
    }
}

} // verus!
