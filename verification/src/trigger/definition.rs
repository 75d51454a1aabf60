use crate::builder::BuilderError;
use crate::trigger::TriggerSchema;
use vstd::prelude::*;

verus! {

/// Definition of a kind of trigger: its name and the schema of its outputs.
/// This is independent of any specific instance of a trigger.
pub struct TriggerDefinition<'a> {
    name: &'a str,
    schema: TriggerSchema<'a>,
}

impl<'a> TriggerDefinition<'a> {
    /// A new builder, with nothing set.
    pub fn builder() -> (b: TriggerDefinitionBuilder<'a>)
        ensures
            b.name is None,
            b.schema is None,
    {
        TriggerDefinitionBuilder { name: None, schema: None }
    }

    pub closed spec fn spec_name(&self) -> &'a str {
        self.name
    }

    pub closed spec fn spec_schema(&self) -> &TriggerSchema<'a> {
        &self.schema
    }

    /// Name of the trigger.
    #[verifier::when_used_as_spec(spec_name)]
    pub fn name(&self) -> (r: &'a str)
        returns
            self.spec_name(),
    {
        self.name
    }

    /// Schema of the trigger's outputs.
    #[verifier::when_used_as_spec(spec_schema)]
    pub fn schema(&self) -> (r: &TriggerSchema<'a>)
        returns
            self.spec_schema(),
    {
        &self.schema
    }
}

/// Builder of a `TriggerDefinition`.
pub struct TriggerDefinitionBuilder<'a> {
    pub name: Option<&'a str>,
    pub schema: Option<TriggerSchema<'a>>,
}

impl<'a> TriggerDefinitionBuilder<'a> {
    /// Sets the name.
    pub fn name(self, name: &'a str) -> (b: Self)
        ensures
            b.name == Some(name),
            b.schema == self.schema,
    {
        TriggerDefinitionBuilder { name: Some(name), schema: self.schema }
    }

    /// Sets the schema.
    pub fn schema(self, schema: TriggerSchema<'a>) -> (b: Self)
        ensures
            b.name == self.name,
            b.schema == Some(schema),
    {
        TriggerDefinitionBuilder { name: self.name, schema: Some(schema) }
    }

    /// The definition; the name is required, the schema defaults to no outputs.
    pub fn build(self) -> (r: Result<TriggerDefinition<'a>, BuilderError>)
        ensures
            match r {
                Ok(d) => {
                    &&& self.name == Some(d.name())
                    &&& match self.schema {
                        Some(s) => *d.schema() == s,
                        None => d.schema().outputs()@.dom().is_empty(),
                    }
                },
                Err(e) => self.name is None && (e matches BuilderError::UninitializedField(f)
                    && f@ == "name"@),
            },
    {
        let name = match self.name {
            Some(n) => n,
            None => return Err(BuilderError::UninitializedField("name")),
        };
        let schema = match self.schema {
            Some(s) => s,
            None => TriggerSchema::default(),
        };
        Ok(TriggerDefinition { name, schema })
    }
}

} // verus!
