use crate::builder::BuilderError;
use crate::name_map::NameMap;
use crate::Value;
use vstd::prelude::*;

verus! {

/// The result of evaluating a trigger: its outputs, by name.
#[derive(Clone)]
pub struct TriggerResult<'a> {
    pub outputs: NameMap<&'a str, Value<'a>>,
}

impl<'a> Default for TriggerResult<'a> {
    /// A result with no outputs.
    fn default() -> (r: Self)
        ensures
            r.outputs@ == Map::<Seq<char>, Value<'a>>::empty(),
    {
        TriggerResult { outputs: NameMap::new() }
    }
}

impl<'a> TriggerResult<'a> {
    /// A new builder, with no outputs.
    pub fn builder() -> (b: TriggerResultBuilder<'a>)
        ensures
            b.outputs@ == Map::<Seq<char>, Value<'a>>::empty(),
    {
        TriggerResultBuilder { outputs: NameMap::new() }
    }

    /// Outputs produced by the trigger, by name.
    pub fn outputs(&self) -> (r: &NameMap<&'a str, Value<'a>>)
        ensures
            *r == self.outputs,
    {
        &self.outputs
    }
}

/// Builder of a `TriggerResult`.
pub struct TriggerResultBuilder<'a> {
    pub outputs: NameMap<&'a str, Value<'a>>,
}

impl<'a> TriggerResultBuilder<'a> {
    /// Adds (or replaces) one output.
    pub fn output(self, entry: (&'a str, Value<'a>)) -> (b: Self)
        ensures
            b.outputs@ == self.outputs@.insert(entry.0@, entry.1),
    {
        let mut b = self;
        b.outputs.insert(entry.0, entry.1);
        b
    }

    /// Sets all outputs.
    pub fn outputs(self, outputs: NameMap<&'a str, Value<'a>>) -> (b: Self)
        ensures
            b.outputs == outputs,
    {
        TriggerResultBuilder { outputs }
    }

    /// The result; it always builds.
    pub fn build(self) -> (r: Result<TriggerResult<'a>, BuilderError>)
        ensures
            r matches Ok(t) && t.outputs == self.outputs,
    {
        Ok(TriggerResult { outputs: self.outputs })
    }
}

} // verus!
