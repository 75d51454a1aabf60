use crate::builder::BuilderError;
use crate::name_map::NameMap;
use crate::task::DataType;
use vstd::prelude::*;

verus! {

/// The outputs of a trigger, each with its data type, by name.
pub struct TriggerSchema<'a> {
    outputs: NameMap<&'a str, DataType>,
}

impl<'a> TriggerSchema<'a> {
    /// A new builder, with no outputs.
    pub fn builder() -> (b: TriggerSchemaBuilder<'a>)
        ensures
            b.outputs@ == Map::<Seq<char>, DataType>::empty(),
    {
        TriggerSchemaBuilder { outputs: NameMap::new() }
    }

    pub closed spec fn spec_outputs(&self) -> &NameMap<&'a str, DataType> {
        &self.outputs
    }

    /// Output specifications, by name.
    #[verifier::when_used_as_spec(spec_outputs)]
    pub fn outputs(&self) -> (r: &NameMap<&'a str, DataType>)
        returns
            self.spec_outputs(),
    {
        &self.outputs
    }
}

impl<'a> Default for TriggerSchema<'a> {
    /// A schema with no outputs.
    fn default() -> (s: Self)
        ensures
            s.outputs()@ == Map::<Seq<char>, DataType>::empty(),
    {
        TriggerSchema { outputs: NameMap::new() }
    }
}

/// Builder of a `TriggerSchema`.
pub struct TriggerSchemaBuilder<'a> {
    pub outputs: NameMap<&'a str, DataType>,
}

impl<'a> TriggerSchemaBuilder<'a> {
    /// Adds (or replaces) one output.
    pub fn output(self, entry: (&'a str, DataType)) -> (b: Self)
        ensures
            b.outputs@ == self.outputs@.insert(entry.0@, entry.1),
    {
        let mut b = self;
        b.outputs.insert(entry.0, entry.1);
        b
    }

    /// Sets all outputs.
    pub fn outputs(self, outputs: NameMap<&'a str, DataType>) -> (b: Self)
        ensures
            b.outputs == outputs,
    {
        TriggerSchemaBuilder { outputs }
    }

    /// The schema; it always builds.
    pub fn build(self) -> (r: Result<TriggerSchema<'a>, BuilderError>)
        ensures
            r matches Ok(s) && *s.outputs() == self.outputs,
    {
        Ok(TriggerSchema { outputs: self.outputs })
    }
}

} // verus!
