use crate::builder::BuilderError;
use crate::task::{TaskContext, TaskHandler, TaskResult, TaskSchema};
use vstd::prelude::*;

verus! {

/// The handler of a task definition, behind dynamic dispatch.
///
/// Verus does not read this struct: a definition that held the trait object directly
/// would be a type that refers to itself (the handler's method takes a context that
/// refers back to the definition). The handler trait states nothing of its result, so
/// hiding it hides no contract.
#[verifier::external_body]
pub struct Handler {
    inner: Box<dyn TaskHandler>,
}

/// `r` is a result that handler `h` can return when it runs on context `ctx`. A handler
/// is user code: nothing more is known of what it returns.
pub uninterp spec fn handled(h: Handler, ctx: TaskContext, r: TaskResult) -> bool;

impl Handler {
    /// Wraps a handler.
    #[verifier::external_body]
    pub fn new(inner: Box<dyn TaskHandler>) -> Handler {
        Handler { inner }
    }

    /// Runs the handler's `TaskHandler::execute` on the context. What it returns is only
    /// named as one of the handler's results on that context (`handled`): the handler is
    /// user code, and its result is not stated.
    #[verifier::external_body]
    pub fn execute<'a>(&self, ctx: &TaskContext<'a>) -> (r: TaskResult<'a>)
        ensures
            handled(*self, *ctx, r),
    {
        self.inner.execute(ctx)
    }
}

/// Definition of a kind of task: its name, schema and handler.
/// This is independent of any specific instance of a task.
pub struct TaskDefinition<'a> {
    name: &'a str,
    schema: TaskSchema<'a>,
    handler: Handler,
}

impl<'a> TaskDefinition<'a> {
    /// A new builder, with nothing set.
    pub fn builder() -> (b: TaskDefinitionBuilder<'a>)
        ensures
            b.name is None,
            b.schema is None,
            b.handler is None,
    {
        TaskDefinitionBuilder { name: None, schema: None, handler: None }
    }

    pub closed spec fn spec_name(&self) -> &'a str {
        self.name
    }

    pub closed spec fn spec_schema(&self) -> &TaskSchema<'a> {
        &self.schema
    }

    /// Name of the task.
    #[verifier::when_used_as_spec(spec_name)]
    pub fn name(&self) -> (r: &'a str)
        returns
            self.spec_name(),
    {
        self.name
    }

    /// Schema defining inputs and outputs of the task.
    #[verifier::when_used_as_spec(spec_schema)]
    pub fn schema(&self) -> (r: &TaskSchema<'a>)
        returns
            self.spec_schema(),
    {
        &self.schema
    }

    pub closed spec fn spec_handler(&self) -> &Handler {
        &self.handler
    }

    /// The handler that executes the task.
    #[verifier::when_used_as_spec(spec_handler)]
    pub fn handler(&self) -> (r: &Handler)
        returns
            self.spec_handler(),
    {
        &self.handler
    }

    /// Execute the task with the given context, through its handler: the result is what
    /// the handler returns on that context.
    pub fn execute(&self, ctx: &TaskContext<'a>) -> (r: TaskResult<'a>)
        ensures
            handled(*self.handler(), *ctx, r),
    {
        self.handler.execute(ctx)
    }
}

/// Builder of a `TaskDefinition`.
pub struct TaskDefinitionBuilder<'a> {
    pub name: Option<&'a str>,
    pub schema: Option<TaskSchema<'a>>,
    pub handler: Option<Handler>,
}

impl<'a> TaskDefinitionBuilder<'a> {
    /// Sets the name.
    pub fn name(self, name: &'a str) -> (b: Self)
        ensures
            b.name == Some(name),
            b.schema == self.schema,
            b.handler == self.handler,
    {
        TaskDefinitionBuilder { name: Some(name), schema: self.schema, handler: self.handler }
    }

    /// Sets the schema.
    pub fn schema(self, schema: TaskSchema<'a>) -> (b: Self)
        ensures
            b.name == self.name,
            b.schema == Some(schema),
            b.handler == self.handler,
    {
        TaskDefinitionBuilder { name: self.name, schema: Some(schema), handler: self.handler }
    }

    /// Sets the handler.
    pub fn handler(self, handler: Box<dyn TaskHandler>) -> (b: Self)
        ensures
            b.name == self.name,
            b.schema == self.schema,
            b.handler is Some,
    {
        TaskDefinitionBuilder {
            name: self.name,
            schema: self.schema,
            handler: Some(Handler::new(handler)),
        }
    }

    /// The definition; the name and the handler are required, the schema defaults to empty.
    pub fn build(self) -> (r: Result<TaskDefinition<'a>, BuilderError>)
        ensures
            match r {
                Ok(d) => {
                    &&& self.name == Some(d.name())
                    &&& self.handler is Some
                    &&& match self.schema {
                        Some(s) => *d.schema() == s,
                        None => d.schema().inputs()@.dom().is_empty()
                            && d.schema().outputs()@.dom().is_empty(),
                    }
                },
                Err(e) => e matches BuilderError::UninitializedField(f) && {
                    ||| self.name is None && f@ == "name"@
                    ||| self.name is Some && self.handler is None && f@ == "handler"@
                },
            },
    {
        let name = match self.name {
            Some(n) => n,
            None => return Err(BuilderError::UninitializedField("name")),
        };
        let schema = match self.schema {
            Some(s) => s,
            None => TaskSchema::default(),
        };
        let handler = match self.handler {
            Some(h) => h,
            None => return Err(BuilderError::UninitializedField("handler")),
        };
        Ok(TaskDefinition { name, schema, handler })
    }
}

} // verus!
