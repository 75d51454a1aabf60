use crate::builder::BuilderError;
use crate::name_map::NameMap;
use crate::task::DataType;
use vstd::prelude::*;

verus! {

/// Specification of a task input.
#[derive(Debug, Clone, Copy, PartialEq, Eq)]
pub struct InputSpec {
    data_type: DataType,
    required: bool,
}

impl InputSpec {
    /// An input of the given data type, not required.
    pub fn new(data_type: DataType) -> (s: Self)
        ensures
            s.spec_data_type() == data_type,
            !s.spec_required(),
    {
        InputSpec { data_type, required: false }
    }

    pub closed spec fn spec_data_type(&self) -> DataType {
        self.data_type
    }

    pub closed spec fn spec_required(&self) -> bool {
        self.required
    }

    /// Data type of the input.
    #[verifier::when_used_as_spec(spec_data_type)]
    pub fn data_type(&self) -> (t: DataType)
        returns
            self.spec_data_type(),
    {
        self.data_type
    }

    /// Whether the input is required.
    #[verifier::when_used_as_spec(spec_required)]
    pub fn required(&self) -> (b: bool)
        returns
            self.spec_required(),
    {
        self.required
    }
}

/// Specification of a task output.
#[derive(Debug, Clone, Copy, PartialEq, Eq)]
pub struct OutputSpec {
    data_type: DataType,
}

impl OutputSpec {
    /// An output of the given data type.
    pub fn new(data_type: DataType) -> (s: Self)
        ensures
            s.spec_data_type() == data_type,
    {
        OutputSpec { data_type }
    }

    pub closed spec fn spec_data_type(&self) -> DataType {
        self.data_type
    }

    /// Data type of the output.
    #[verifier::when_used_as_spec(spec_data_type)]
    pub fn data_type(&self) -> (t: DataType)
        returns
            self.spec_data_type(),
    {
        self.data_type
    }
}

/// The inputs and outputs of a task, each by name.
#[derive(Debug)]
pub struct TaskSchema<'a> {
    inputs: NameMap<&'a str, InputSpec>,
    outputs: NameMap<&'a str, OutputSpec>,
}

impl<'a> TaskSchema<'a> {
    /// A new builder, with no inputs and no outputs.
    pub fn builder() -> (b: TaskSchemaBuilder<'a>)
        ensures
            b.inputs@ == Map::<Seq<char>, InputSpec>::empty(),
            b.outputs@ == Map::<Seq<char>, OutputSpec>::empty(),
    {
        TaskSchemaBuilder { inputs: NameMap::new(), outputs: NameMap::new() }
    }

    pub closed spec fn spec_inputs(&self) -> &NameMap<&'a str, InputSpec> {
        &self.inputs
    }

    pub closed spec fn spec_outputs(&self) -> &NameMap<&'a str, OutputSpec> {
        &self.outputs
    }

    /// Input specifications, by name.
    #[verifier::when_used_as_spec(spec_inputs)]
    pub fn inputs(&self) -> (r: &NameMap<&'a str, InputSpec>)
        returns
            self.spec_inputs(),
    {
        &self.inputs
    }

    /// Output specifications, by name.
    #[verifier::when_used_as_spec(spec_outputs)]
    pub fn outputs(&self) -> (r: &NameMap<&'a str, OutputSpec>)
        returns
            self.spec_outputs(),
    {
        &self.outputs
    }
}

impl<'a> Default for TaskSchema<'a> {
    /// A schema with no inputs and no outputs.
    fn default() -> (s: Self)
        ensures
            s.inputs()@ == Map::<Seq<char>, InputSpec>::empty(),
            s.outputs()@ == Map::<Seq<char>, OutputSpec>::empty(),
    {
        TaskSchema { inputs: NameMap::new(), outputs: NameMap::new() }
    }
}

/// Builder of a `TaskSchema`.
pub struct TaskSchemaBuilder<'a> {
    pub inputs: NameMap<&'a str, InputSpec>,
    pub outputs: NameMap<&'a str, OutputSpec>,
}

impl<'a> TaskSchemaBuilder<'a> {
    /// Adds (or replaces) one input specification.
    pub fn input(self, entry: (&'a str, InputSpec)) -> (b: Self)
        ensures
            b.inputs@ == self.inputs@.insert(entry.0@, entry.1),
            b.outputs == self.outputs,
    {
        let mut b = self;
        b.inputs.insert(entry.0, entry.1);
        b
    }

    /// Adds (or replaces) one output specification.
    pub fn output(self, entry: (&'a str, OutputSpec)) -> (b: Self)
        ensures
            b.outputs@ == self.outputs@.insert(entry.0@, entry.1),
            b.inputs == self.inputs,
    {
        let mut b = self;
        b.outputs.insert(entry.0, entry.1);
        b
    }

    /// Sets all input specifications.
    pub fn inputs(self, inputs: NameMap<&'a str, InputSpec>) -> (b: Self)
        ensures
            b.inputs == inputs,
            b.outputs == self.outputs,
    {
        TaskSchemaBuilder { inputs, outputs: self.outputs }
    }

    /// Sets all output specifications.
    pub fn outputs(self, outputs: NameMap<&'a str, OutputSpec>) -> (b: Self)
        ensures
            b.outputs == outputs,
            b.inputs == self.inputs,
    {
        TaskSchemaBuilder { inputs: self.inputs, outputs }
    }

    /// The schema; it always builds.
    pub fn build(self) -> (r: Result<TaskSchema<'a>, BuilderError>)
        ensures
            r matches Ok(s) && s.inputs() == self.inputs && s.outputs() == self.outputs,
    {
        Ok(TaskSchema { inputs: self.inputs, outputs: self.outputs })
    }
}

} // verus!
