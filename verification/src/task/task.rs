use crate::builder::BuilderError;
use crate::ids::new_id;
use crate::name_map::NameMap;
use crate::task::{binding_refs, data_type_name, InputBinding, InputSpec, TaskDefinition, TaskError, TaskStatus};
use crate::laws::{law_literals_accepted_exactly_when_they_match, literals_match_schema};
use crate::value::{type_of, value_debug, value_debug_text};
use crate::workflow::DependencyRef;
use vstd::prelude::*;

verus! {

/// An instance of a task within a workflow.
#[derive(Clone)]
pub struct Task<'a> {
    id: u128,
    name: &'a str,
    description: Option<&'a str>,
    definition: &'a TaskDefinition<'a>,
    inputs: NameMap<&'a str, InputBinding<'a>>,
    dependencies: Vec<DependencyRef>,
    status: TaskStatus,
    retry: u32,
    parallel: bool,
}

/// Every dependency of a task: its explicit dependencies, then the sources of its
/// reference inputs, in the order of its inputs.
pub open spec fn all_dependencies<'a>(t: Task<'a>) -> Seq<DependencyRef> {
    t.dependencies()@ + binding_refs(t.inputs().pairs())
}

/// The `Debug` text of a literal binding's value (empty for a reference).
pub open spec fn literal_text<'a>(entry: (Seq<char>, InputBinding<'a>)) -> Seq<char> {
    match entry.1 {
        InputBinding::Literal(v) => value_debug(v),
        InputBinding::Reference { .. } => Seq::empty(),
    }
}

/// Whether a named binding is a literal that the schema's inputs reject: its name is
/// not an input of the schema, or its value's type is not the input's type.
pub open spec fn literal_fault<'a>(
    inputs: Map<Seq<char>, InputSpec>,
    entry: (Seq<char>, InputBinding<'a>),
) -> bool {
    match entry.1 {
        InputBinding::Literal(v) => !inputs.contains_key(entry.0) || type_of(v)
            != inputs[entry.0].data_type(),
        InputBinding::Reference { .. } => false,
    }
}

/// Position `i` holds the first binding that the schema's inputs reject.
pub open spec fn first_fault_at<'a>(
    inputs: Map<Seq<char>, InputSpec>,
    pairs: Seq<(Seq<char>, InputBinding<'a>)>,
    i: int,
) -> bool {
    &&& 0 <= i < pairs.len()
    &&& literal_fault(inputs, pairs[i])
    &&& forall|j: int| 0 <= j < i ==> !literal_fault(inputs, #[trigger] pairs[j])
}

/// The message of the error for a rejected literal binding, given the `Debug` text of its value.
pub open spec fn fault_message<'a>(
    inputs: Map<Seq<char>, InputSpec>,
    entry: (Seq<char>, InputBinding<'a>),
    found: Seq<char>,
) -> Seq<char> {
    if inputs.contains_key(entry.0) {
        "input '"@ + entry.0 + "' has incompatible type. expected '"@ + data_type_name(
            inputs[entry.0].data_type(),
        ) + "' but found '"@ + found + "'"@
    } else {
        "input '"@ + entry.0 + "' not defined in schema"@
    }
}

impl<'a> Task<'a> {
    /// A new builder, with nothing set.
    pub fn builder() -> (b: TaskBuilder<'a>)
        ensures
            b.id is None,
            b.name is None,
            b.description is None,
            b.definition is None,
            b.inputs@ == Map::<Seq<char>, InputBinding<'a>>::empty(),
            b.inputs.pairs().len() == 0,
            b.dependencies@.len() == 0,
            b.status is None,
            b.retry is None,
            b.parallel is None,
    {
        TaskBuilder {
            id: None,
            name: None,
            description: None,
            definition: None,
            inputs: NameMap::new(),
            dependencies: Vec::new(),
            status: None,
            retry: None,
            parallel: None,
        }
    }

    pub closed spec fn spec_id(&self) -> u128 {
        self.id
    }

    pub closed spec fn spec_name(&self) -> &'a str {
        self.name
    }

    pub closed spec fn spec_description(&self) -> Option<&'a str> {
        self.description
    }

    pub closed spec fn spec_definition(&self) -> &'a TaskDefinition<'a> {
        self.definition
    }

    pub closed spec fn spec_inputs(&self) -> &NameMap<&'a str, InputBinding<'a>> {
        &self.inputs
    }

    pub closed spec fn spec_dependencies(&self) -> &Vec<DependencyRef> {
        &self.dependencies
    }

    pub closed spec fn spec_status(&self) -> TaskStatus {
        self.status
    }

    pub closed spec fn spec_retry(&self) -> u32 {
        self.retry
    }

    pub closed spec fn spec_parallel(&self) -> bool {
        self.parallel
    }

    /// Unique identifier of the task.
    #[verifier::when_used_as_spec(spec_id)]
    pub fn id(&self) -> (r: u128)
        returns
            self.spec_id(),
    {
        self.id
    }

    /// Name of the task.
    #[verifier::when_used_as_spec(spec_name)]
    pub fn name(&self) -> (r: &'a str)
        returns
            self.spec_name(),
    {
        self.name
    }

    /// Optional description of the task.
    #[verifier::when_used_as_spec(spec_description)]
    pub fn description(&self) -> (r: Option<&'a str>)
        returns
            self.spec_description(),
    {
        self.description
    }

    /// Definition of the task.
    #[verifier::when_used_as_spec(spec_definition)]
    pub fn definition(&self) -> (r: &'a TaskDefinition<'a>)
        returns
            self.spec_definition(),
    {
        self.definition
    }

    /// Input bindings, by input name.
    #[verifier::when_used_as_spec(spec_inputs)]
    pub fn inputs(&self) -> (r: &NameMap<&'a str, InputBinding<'a>>)
        returns
            self.spec_inputs(),
    {
        &self.inputs
    }

    /// The tasks and triggers that must run first, beyond those the inputs refer to.
    #[verifier::when_used_as_spec(spec_dependencies)]
    pub fn dependencies(&self) -> (r: &Vec<DependencyRef>)
        returns
            self.spec_dependencies(),
    {
        &self.dependencies
    }

    /// Current status of the task.
    #[verifier::when_used_as_spec(spec_status)]
    pub fn status(&self) -> (r: TaskStatus)
        returns
            self.spec_status(),
    {
        self.status
    }

    /// Number of retries on failure before the task is marked failed.
    #[verifier::when_used_as_spec(spec_retry)]
    pub fn retry(&self) -> (r: u32)
        returns
            self.spec_retry(),
    {
        self.retry
    }

    /// Whether the task may run in parallel with other ready tasks.
    #[verifier::when_used_as_spec(spec_parallel)]
    pub fn parallel(&self) -> (r: bool)
        returns
            self.spec_parallel(),
    {
        self.parallel
    }

    /// Sets the name.
    pub fn set_name(&mut self, name: &'a str)
        ensures
            final(self).name() == name,
            final(self).id() == old(self).id(),
            final(self).description() == old(self).description(),
            final(self).definition() == old(self).definition(),
            final(self).inputs() == old(self).inputs(),
            final(self).dependencies() == old(self).dependencies(),
            final(self).status() == old(self).status(),
            final(self).retry() == old(self).retry(),
            final(self).parallel() == old(self).parallel(),
    {
        self.name = name;
    }

    /// Sets the description.
    pub fn set_description(&mut self, description: Option<&'a str>)
        ensures
            final(self).description() == description,
            final(self).id() == old(self).id(),
            final(self).name() == old(self).name(),
            final(self).definition() == old(self).definition(),
            final(self).inputs() == old(self).inputs(),
            final(self).dependencies() == old(self).dependencies(),
            final(self).status() == old(self).status(),
            final(self).retry() == old(self).retry(),
            final(self).parallel() == old(self).parallel(),
    {
        self.description = description;
    }

    /// Sets the number of retries.
    pub fn set_retry(&mut self, retry: u32)
        ensures
            final(self).retry() == retry,
            final(self).id() == old(self).id(),
            final(self).name() == old(self).name(),
            final(self).description() == old(self).description(),
            final(self).definition() == old(self).definition(),
            final(self).inputs() == old(self).inputs(),
            final(self).dependencies() == old(self).dependencies(),
            final(self).status() == old(self).status(),
            final(self).parallel() == old(self).parallel(),
    {
        self.retry = retry;
    }

    /// Sets whether the task may run in parallel.
    pub fn set_parallel(&mut self, parallel: bool)
        ensures
            final(self).parallel() == parallel,
            final(self).id() == old(self).id(),
            final(self).name() == old(self).name(),
            final(self).description() == old(self).description(),
            final(self).definition() == old(self).definition(),
            final(self).inputs() == old(self).inputs(),
            final(self).dependencies() == old(self).dependencies(),
            final(self).status() == old(self).status(),
            final(self).retry() == old(self).retry(),
    {
        self.parallel = parallel;
    }

    /// Sets the status of the task.
    pub fn set_status(&mut self, status: TaskStatus)
        ensures
            final(self).status() == status,
            final(self).id() == old(self).id(),
            final(self).name() == old(self).name(),
            final(self).description() == old(self).description(),
            final(self).definition() == old(self).definition(),
            final(self).inputs() == old(self).inputs(),
            final(self).dependencies() == old(self).dependencies(),
            final(self).retry() == old(self).retry(),
            final(self).parallel() == old(self).parallel(),
    {
        self.status = status;
    }

    /// Adds a dependency, after the existing ones.
    pub fn add_dependency(&mut self, dep: DependencyRef)
        ensures
            final(self).dependencies()@ == old(self).dependencies()@.push(dep),
            final(self).id() == old(self).id(),
            final(self).name() == old(self).name(),
            final(self).description() == old(self).description(),
            final(self).definition() == old(self).definition(),
            final(self).inputs() == old(self).inputs(),
            final(self).status() == old(self).status(),
            final(self).retry() == old(self).retry(),
            final(self).parallel() == old(self).parallel(),
    {
        self.dependencies.push(dep);
    }

    /// Removes every occurrence of a dependency; the others keep their order.
    pub fn remove_dependency(&mut self, dep: DependencyRef)
        ensures
            final(self).dependencies()@ == old(self).dependencies()@.filter(
                |d: DependencyRef| d != dep,
            ),
            final(self).id() == old(self).id(),
            final(self).name() == old(self).name(),
            final(self).description() == old(self).description(),
            final(self).definition() == old(self).definition(),
            final(self).inputs() == old(self).inputs(),
            final(self).status() == old(self).status(),
            final(self).retry() == old(self).retry(),
            final(self).parallel() == old(self).parallel(),
    {
        let ghost s = self.dependencies@;
        let mut kept: Vec<DependencyRef> = Vec::new();
        let n = self.dependencies.len();
        let mut i: usize = 0;
        while i < n
            invariant
                n == s.len(),
                s == self.dependencies@,
                i <= n,
                kept@ == s.take(i as int).filter(|d: DependencyRef| d != dep),
            decreases n - i,
        {
            let d = self.dependencies[i];
            proof {
                assert(s.take(i as int + 1).drop_last() =~= s.take(i as int));
                reveal(Seq::filter);
            }
            if d != dep {
                kept.push(d);
            }
            i = i + 1;
        }
        assert(s.take(n as int) =~= s);
        self.dependencies = kept;
    }

    /// Clears all dependencies.
    pub fn clear_dependencies(&mut self)
        ensures
            final(self).dependencies()@.len() == 0,
            final(self).id() == old(self).id(),
            final(self).name() == old(self).name(),
            final(self).description() == old(self).description(),
            final(self).definition() == old(self).definition(),
            final(self).inputs() == old(self).inputs(),
            final(self).status() == old(self).status(),
            final(self).retry() == old(self).retry(),
            final(self).parallel() == old(self).parallel(),
    {
        self.dependencies.clear();
    }

    /// The binding of an input, by name.
    pub fn get_input(&self, key: &str) -> (r: Option<&InputBinding<'a>>)
        ensures
            match r {
                Some(b) => self.inputs()@.contains_key(key@) && *b == self.inputs()@[key@],
                None => !self.inputs()@.contains_key(key@),
            },
    {
        self.inputs.get(key)
    }

    /// Adds or replaces the binding of an input.
    pub fn add_input(&mut self, key: &'a str, binding: InputBinding<'a>)
        ensures
            final(self).inputs()@ == old(self).inputs()@.insert(key@, binding),
            final(self).id() == old(self).id(),
            final(self).name() == old(self).name(),
            final(self).description() == old(self).description(),
            final(self).definition() == old(self).definition(),
            final(self).dependencies() == old(self).dependencies(),
            final(self).status() == old(self).status(),
            final(self).retry() == old(self).retry(),
            final(self).parallel() == old(self).parallel(),
    {
        self.inputs.insert(key, binding);
    }

    /// Removes the binding of an input, if any.
    pub fn remove_input(&mut self, key: &str)
        ensures
            final(self).inputs()@ == old(self).inputs()@.remove(key@),
            final(self).id() == old(self).id(),
            final(self).name() == old(self).name(),
            final(self).description() == old(self).description(),
            final(self).definition() == old(self).definition(),
            final(self).dependencies() == old(self).dependencies(),
            final(self).status() == old(self).status(),
            final(self).retry() == old(self).retry(),
            final(self).parallel() == old(self).parallel(),
    {
        let _ = self.inputs.remove(key);
    }

    /// Every dependency: the explicit ones, then the sources of reference inputs in input order.
    pub fn get_all_dependencies(&self) -> (r: Vec<DependencyRef>)
        ensures
            r@ == all_dependencies(*self),
    {
        let mut r = self.dependencies.clone();
        let n = self.inputs.len();
        let ghost pairs = self.inputs.pairs();
        let mut i: usize = 0;
        while i < n
            invariant
                n == pairs.len(),
                pairs == self.inputs.pairs(),
                i <= n,
                r@ == self.dependencies@ + binding_refs(pairs.take(i as int)),
            decreases n - i,
        {
            proof {
                assert(pairs.take(i as int + 1).drop_last() =~= pairs.take(i as int));
            }
            match self.inputs.value_at(i) {
                InputBinding::Reference { ref_from, .. } => {
                    r.push(*ref_from);
                    assert(r@ =~= self.dependencies@ + binding_refs(pairs.take(i as int + 1)));
                },
                InputBinding::Literal(_) => {},
            }
            i = i + 1;
        }
        assert(pairs.take(n as int) =~= pairs);
        r
    }
}

/// Builder of a `Task`: the name and the definition are required, the identifier
/// defaults to a fresh random one, and literal inputs must agree with the schema.
pub struct TaskBuilder<'a> {
    pub id: Option<u128>,
    pub name: Option<&'a str>,
    pub description: Option<Option<&'a str>>,
    pub definition: Option<&'a TaskDefinition<'a>>,
    pub inputs: NameMap<&'a str, InputBinding<'a>>,
    pub dependencies: Vec<DependencyRef>,
    pub status: Option<TaskStatus>,
    pub retry: Option<u32>,
    pub parallel: Option<bool>,
}

/// The builder has a definition, and its schema accepts every literal input.
pub open spec fn literals_accepted<'a>(b: TaskBuilder<'a>) -> bool {
    &&& b.definition is Some
    &&& forall|i: int|
        0 <= i < b.inputs.pairs().len() ==> !literal_fault(
            b.definition->0.schema().inputs()@,
            #[trigger] b.inputs.pairs()[i],
        )
}

/// `e` is the error that validation reports for the builder: a missing definition, or
/// the first literal input (in input order) that the schema rejects.
pub open spec fn validation_error<'a>(b: TaskBuilder<'a>, e: TaskError) -> bool {
    match b.definition {
        None => e == TaskError::MissingTaskDefinition,
        Some(d) => {
            let inputs = d.schema().inputs()@;
            let pairs = b.inputs.pairs();
            exists|i: int|
                #![trigger pairs[i]]
                {
                    &&& first_fault_at(inputs, pairs, i)
                    &&& if inputs.contains_key(pairs[i].0) {
                        e matches TaskError::InputTypeMismatch { input, expected, found }
                            && input@ == pairs[i].0 && expected@ == data_type_name(
                            inputs[pairs[i].0].data_type(),
                        ) && found@ == literal_text(pairs[i])
                    } else {
                        e matches TaskError::InputNotInSchema { input } && input@ == pairs[i].0
                    }
                }
        },
    }
}

/// `e` is the builder error that validation reports: a missing definition, or the
/// message of the first literal input (in input order) that the schema rejects.
pub open spec fn validation_builder_error<'a>(b: TaskBuilder<'a>, e: BuilderError) -> bool {
    match b.definition {
        None => e matches BuilderError::UninitializedField(f) && f@ == "definition"@,
        Some(d) => {
            let inputs = d.schema().inputs()@;
            let pairs = b.inputs.pairs();
            exists|i: int|
                #![trigger pairs[i]]
                {
                    &&& first_fault_at(inputs, pairs, i)
                    &&& e matches BuilderError::ValidationError(m) && m@ == fault_message(
                        inputs,
                        pairs[i],
                        literal_text(pairs[i]),
                    )
                }
        },
    }
}

impl<'a> TaskBuilder<'a> {
    /// Sets the identifier.
    pub fn id(self, id: u128) -> (b: Self)
        ensures
            b == (TaskBuilder { id: Some(id), ..self }),
    {
        TaskBuilder { id: Some(id), ..self }
    }

    /// Sets the name.
    pub fn name(self, name: &'a str) -> (b: Self)
        ensures
            b == (TaskBuilder { name: Some(name), ..self }),
    {
        TaskBuilder { name: Some(name), ..self }
    }

    /// Sets the description.
    pub fn description(self, description: Option<&'a str>) -> (b: Self)
        ensures
            b == (TaskBuilder { description: Some(description), ..self }),
    {
        TaskBuilder { description: Some(description), ..self }
    }

    /// Sets the definition.
    pub fn definition(self, definition: &'a TaskDefinition<'a>) -> (b: Self)
        ensures
            b == (TaskBuilder { definition: Some(definition), ..self }),
    {
        TaskBuilder { definition: Some(definition), ..self }
    }

    /// Adds (or replaces) one input binding.
    pub fn input(self, entry: (&'a str, InputBinding<'a>)) -> (b: Self)
        ensures
            b.inputs@ == self.inputs@.insert(entry.0@, entry.1),
            self.inputs.names().contains(entry.0@) ==> b.inputs.pairs() == self.inputs.pairs().update(
                self.inputs.names().index_of(entry.0@),
                (entry.0@, entry.1),
            ),
            !self.inputs.names().contains(entry.0@) ==> b.inputs.pairs() == self.inputs.pairs().push(
                (entry.0@, entry.1),
            ),
            b == (TaskBuilder { inputs: b.inputs, ..self }),
    {
        let mut b = self;
        b.inputs.insert(entry.0, entry.1);
        b
    }

    /// Sets all input bindings.
    pub fn inputs(self, inputs: NameMap<&'a str, InputBinding<'a>>) -> (b: Self)
        ensures
            b == (TaskBuilder { inputs, ..self }),
    {
        TaskBuilder { inputs, ..self }
    }

    /// Adds one dependency.
    pub fn dependency(self, dep: DependencyRef) -> (b: Self)
        ensures
            b.dependencies@ == self.dependencies@.push(dep),
            b == (TaskBuilder { dependencies: b.dependencies, ..self }),
    {
        let mut b = self;
        b.dependencies.push(dep);
        b
    }

    /// Sets all dependencies.
    pub fn dependencies(self, dependencies: Vec<DependencyRef>) -> (b: Self)
        ensures
            b == (TaskBuilder { dependencies, ..self }),
    {
        TaskBuilder { dependencies, ..self }
    }

    /// Sets the status.
    pub fn status(self, status: TaskStatus) -> (b: Self)
        ensures
            b == (TaskBuilder { status: Some(status), ..self }),
    {
        TaskBuilder { status: Some(status), ..self }
    }

    /// Sets the number of retries.
    pub fn retry(self, retry: u32) -> (b: Self)
        ensures
            b == (TaskBuilder { retry: Some(retry), ..self }),
    {
        TaskBuilder { retry: Some(retry), ..self }
    }

    /// Sets whether the task may run in parallel.
    pub fn parallel(self, parallel: bool) -> (b: Self)
        ensures
            b == (TaskBuilder { parallel: Some(parallel), ..self }),
    {
        TaskBuilder { parallel: Some(parallel), ..self }
    }

    /// Validates the input bindings against the schema of the task definition: every
    /// literal value must name an input of the schema and have that input's data type.
    pub fn validate_schema(&self) -> (r: Result<(), TaskError>)
        ensures
            r is Ok <==> literals_accepted(*self),
            r is Ok <==> literals_match_schema(*self),
            r matches Err(e) ==> validation_error(*self, e),
    {
        proof {
            law_literals_accepted_exactly_when_they_match(*self);
        }
        let definition = match self.definition {
            Some(d) => d,
            None => return Err(TaskError::MissingTaskDefinition),
        };
        let schema = definition.schema();
        let ghost inputs = schema.inputs()@;
        let ghost pairs = self.inputs.pairs();
        let n = self.inputs.len();
        let mut i: usize = 0;
        while i < n
            invariant
                n == pairs.len(),
                pairs == self.inputs.pairs(),
                inputs == schema.inputs()@,
                self.definition == Some(definition),
                schema == definition.schema(),
                i <= n,
                forall|j: int| 0 <= j < i ==> !literal_fault(inputs, #[trigger] pairs[j]),
            decreases n - i,
        {
            let key = *self.inputs.key_at(i);
            let binding = self.inputs.value_at(i);
            if let InputBinding::Literal(value) = binding {
                match schema.inputs().get(key) {
                    Some(spec) => {
                        if value.get_type() != spec.data_type() {
                            let e = TaskError::InputTypeMismatch {
                                input: key.to_owned(),
                                expected: spec.data_type().name(),
                                found: value_debug_text(value),
                            };
                            assert(first_fault_at(inputs, pairs, i as int));
                            assert(literal_fault(inputs, pairs[i as int]));
                            return Err(e);
                        }
                    },
                    None => {
                        let e = TaskError::InputNotInSchema { input: key.to_owned() };
                        assert(first_fault_at(inputs, pairs, i as int));
                        assert(literal_fault(inputs, pairs[i as int]));
                        return Err(e);
                    },
                }
            }
            i = i + 1;
        }
        Ok(())
    }

    /// Validates the builder before building: a missing definition is reported as an
    /// uninitialized field, a rejected literal as a validation error with its message.
    pub fn validate(&self) -> (r: Result<(), BuilderError>)
        ensures
            r is Ok <==> literals_accepted(*self),
            r is Ok <==> literals_match_schema(*self),
            r matches Err(e) ==> validation_builder_error(*self, e),
    {
        proof {
            law_literals_accepted_exactly_when_they_match(*self);
        }
        match self.validate_schema() {
            Ok(()) => Ok(()),
            Err(TaskError::MissingTaskDefinition) => Err(BuilderError::UninitializedField("definition")),
            Err(e) => {
                let m = e.message();
                proof {
                    let d = self.definition->0;
                    let inputs = d.schema().inputs()@;
                    let pairs = self.inputs.pairs();
                    let i = choose|i: int|
                        #![trigger pairs[i]]
                        {
                            &&& first_fault_at(inputs, pairs, i)
                            &&& if inputs.contains_key(pairs[i].0) {
                                e matches TaskError::InputTypeMismatch { input, expected, found }
                                    && input@ == pairs[i].0 && expected@ == data_type_name(
                                    inputs[pairs[i].0].data_type(),
                                )
                            } else {
                                e matches TaskError::InputNotInSchema { input } && input@
                                    == pairs[i].0
                            }
                        };
                    match e {
                        TaskError::InputTypeMismatch { input, expected, found } => {
                            assert(m@ == fault_message(inputs, pairs[i], found@));
                        },
                        TaskError::InputNotInSchema { input } => {
                            assert(m@ == fault_message(inputs, pairs[i], Seq::empty()));
                        },
                        TaskError::MissingTaskDefinition => {},
                    }
                }
                Err(BuilderError::ValidationError(m))
            },
        }
    }

    /// The task. Validation comes first; then the name must be set. The identifier
    /// defaults to a fresh random one, the status to pending, retries to zero.
    pub fn build(self) -> (r: Result<Task<'a>, BuilderError>)
        ensures
            match r {
                Ok(t) => {
                    &&& literals_accepted(self)
                    &&& literals_match_schema(self)
                    &&& self.name == Some(t.name())
                    &&& self.definition == Some(t.definition())
                    &&& self.id matches Some(id) ==> t.id() == id
                    &&& t.description() == (match self.description {
                        Some(d) => d,
                        None => None,
                    })
                    &&& *t.inputs() == self.inputs
                    &&& *t.dependencies() == self.dependencies
                    &&& t.status() == (match self.status {
                        Some(s) => s,
                        None => TaskStatus::Pending,
                    })
                    &&& t.retry() == (match self.retry {
                        Some(n) => n,
                        None => 0,
                    })
                    &&& t.parallel() == (match self.parallel {
                        Some(p) => p,
                        None => false,
                    })
                },
                Err(e) => {
                    ||| !literals_accepted(self) && validation_builder_error(self, e)
                    ||| literals_accepted(self) && self.name is None && (
                    e matches BuilderError::UninitializedField(f) && f@ == "name"@)
                },
            },
    {
        proof {
            law_literals_accepted_exactly_when_they_match(self);
        }
        match self.validate() {
            Ok(()) => {},
            Err(e) => return Err(e),
        }
        let id = match self.id {
            Some(id) => id,
            None => new_id(),
        };
        let name = match self.name {
            Some(n) => n,
            None => return Err(BuilderError::UninitializedField("name")),
        };
        let description = match self.description {
            Some(d) => d,
            None => None,
        };
        let definition = match self.definition {
            Some(d) => d,
            None => return Err(BuilderError::UninitializedField("definition")),
        };
        let status = match self.status {
            Some(s) => s,
            None => TaskStatus::default(),
        };
        let retry = match self.retry {
            Some(n) => n,
            None => 0,
        };
        let parallel = match self.parallel {
            Some(p) => p,
            None => false,
        };
        Ok(
            Task {
                id,
                name,
                description,
                definition,
                inputs: self.inputs,
                dependencies: self.dependencies,
                status,
                retry,
                parallel,
            },
        )
    }
}

} // verus!
