use crate::builder::BuilderError;
use crate::ids::new_id;
use crate::name_map::NameMap;
use crate::trigger::TriggerDefinition;
use crate::Value;
use vstd::prelude::*;

verus! {

/// A trigger of a workflow: an instance of a trigger definition, with its inputs.
#[derive(Clone)]
pub struct Trigger<'a> {
    id: u128,
    name: &'a str,
    description: Option<&'a str>,
    definition: &'a TriggerDefinition<'a>,
    inputs: NameMap<&'a str, Value<'a>>,
}

impl<'a> Trigger<'a> {
    /// A new builder, with nothing set.
    pub fn builder() -> (b: TriggerBuilder<'a>)
        ensures
            b.id is None,
            b.name is None,
            b.description is None,
            b.definition is None,
            b.inputs@ == Map::<Seq<char>, Value<'a>>::empty(),
    {
        TriggerBuilder { id: None, name: None, description: None, definition: None, inputs: NameMap::new() }
    }

    pub closed spec fn spec_id(&self) -> u128 {
        self.id
    }

    pub closed spec fn spec_name(&self) -> &'a str {
        self.name
    }

    pub closed spec fn spec_description(&self) -> Option<&'a str> {
        self.description
    }

    pub closed spec fn spec_definition(&self) -> &'a TriggerDefinition<'a> {
        self.definition
    }

    pub closed spec fn spec_inputs(&self) -> &NameMap<&'a str, Value<'a>> {
        &self.inputs
    }

    /// Unique identifier of the trigger.
    #[verifier::when_used_as_spec(spec_id)]
    pub fn id(&self) -> (r: u128)
        returns
            self.spec_id(),
    {
        self.id
    }

    /// Name of the trigger.
    #[verifier::when_used_as_spec(spec_name)]
    pub fn name(&self) -> (r: &'a str)
        returns
            self.spec_name(),
    {
        self.name
    }

    /// Optional description of the trigger.
    #[verifier::when_used_as_spec(spec_description)]
    pub fn description(&self) -> (r: Option<&'a str>)
        returns
            self.spec_description(),
    {
        self.description
    }

    /// Definition of the trigger.
    #[verifier::when_used_as_spec(spec_definition)]
    pub fn definition(&self) -> (r: &'a TriggerDefinition<'a>)
        returns
            self.spec_definition(),
    {
        self.definition
    }

    /// Inputs of the trigger, by name.
    #[verifier::when_used_as_spec(spec_inputs)]
    pub fn inputs(&self) -> (r: &NameMap<&'a str, Value<'a>>)
        returns
            self.spec_inputs(),
    {
        &self.inputs
    }

    /// Sets the name.
    pub fn set_name(&mut self, name: &'a str)
        ensures
            final(self).name() == name,
            final(self).id() == old(self).id(),
            final(self).description() == old(self).description(),
            final(self).definition() == old(self).definition(),
            final(self).inputs() == old(self).inputs(),
    {
        self.name = name;
    }

    /// Sets the description.
    pub fn set_description(&mut self, description: Option<&'a str>)
        ensures
            final(self).description() == description,
            final(self).id() == old(self).id(),
            final(self).name() == old(self).name(),
            final(self).definition() == old(self).definition(),
            final(self).inputs() == old(self).inputs(),
    {
        self.description = description;
    }
}

/// Builder of a `Trigger`: the name and the definition are required, the identifier
/// defaults to a fresh random one.
pub struct TriggerBuilder<'a> {
    pub id: Option<u128>,
    pub name: Option<&'a str>,
    pub description: Option<Option<&'a str>>,
    pub definition: Option<&'a TriggerDefinition<'a>>,
    pub inputs: NameMap<&'a str, Value<'a>>,
}

impl<'a> TriggerBuilder<'a> {
    /// Sets the identifier.
    pub fn id(self, id: u128) -> (b: Self)
        ensures
            b == (TriggerBuilder { id: Some(id), ..self }),
    {
        TriggerBuilder { id: Some(id), ..self }
    }

    /// Sets the name.
    pub fn name(self, name: &'a str) -> (b: Self)
        ensures
            b == (TriggerBuilder { name: Some(name), ..self }),
    {
        TriggerBuilder { name: Some(name), ..self }
    }

    /// Sets the description.
    pub fn description(self, description: Option<&'a str>) -> (b: Self)
        ensures
            b == (TriggerBuilder { description: Some(description), ..self }),
    {
        TriggerBuilder { description: Some(description), ..self }
    }

    /// Sets the definition.
    pub fn definition(self, definition: &'a TriggerDefinition<'a>) -> (b: Self)
        ensures
            b == (TriggerBuilder { definition: Some(definition), ..self }),
    {
        TriggerBuilder { definition: Some(definition), ..self }
    }

    /// Adds (or replaces) one input.
    pub fn input(self, entry: (&'a str, Value<'a>)) -> (b: Self)
        ensures
            b.inputs@ == self.inputs@.insert(entry.0@, entry.1),
            b == (TriggerBuilder { inputs: b.inputs, ..self }),
    {
        let mut b = self;
        b.inputs.insert(entry.0, entry.1);
        b
    }

    /// Sets all inputs.
    pub fn inputs(self, inputs: NameMap<&'a str, Value<'a>>) -> (b: Self)
        ensures
            b == (TriggerBuilder { inputs, ..self }),
    {
        TriggerBuilder { inputs, ..self }
    }

    /// The trigger; the first missing required field (name, then definition) is reported.
    pub fn build(self) -> (r: Result<Trigger<'a>, BuilderError>)
        ensures
            match r {
                Ok(t) => {
                    &&& self.name == Some(t.name())
                    &&& self.definition == Some(t.definition())
                    &&& self.id matches Some(id) ==> t.id() == id
                    &&& t.description() == (match self.description {
                        Some(d) => d,
                        None => None,
                    })
                    &&& *t.inputs() == self.inputs
                },
                Err(e) => e matches BuilderError::UninitializedField(f) && {
                    ||| self.name is None && f@ == "name"@
                    ||| self.name is Some && self.definition is None && f@ == "definition"@
                },
            },
    {
        let id = match self.id {
            Some(id) => id,
            None => new_id(),
        };
        let name = match self.name {
            Some(n) => n,
            None => return Err(BuilderError::UninitializedField("name")),
        };
        let description = match self.description {
            Some(d) => d,
            None => None,
        };
        let definition = match self.definition {
            Some(d) => d,
            None => return Err(BuilderError::UninitializedField("definition")),
        };
        Ok(Trigger { id, name, description, definition, inputs: self.inputs })
    }
}

} // verus!
