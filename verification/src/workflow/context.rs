use crate::builder::BuilderError;
use crate::ids::new_id;
use crate::logger::Logger;
use crate::name_map::NameMap;
use crate::Value;
use std::path::PathBuf;
use vstd::prelude::*;

verus! {

/// Contextual information available during the execution of a workflow.
#[derive(Clone)]
pub struct WorkflowExecutionContext<'a> {
    run_id: u128,
    workflow_id: u128,
    env: NameMap<&'a str, &'a str>,
    cwd: Option<PathBuf>,
    workflow_params: NameMap<&'a str, Value<'a>>,
    logger: Option<&'a dyn Logger>,
}

impl<'a> WorkflowExecutionContext<'a> {
    /// A new builder, with nothing set.
    pub fn builder() -> (b: WorkflowExecutionContextBuilder<'a>)
        ensures
            b.run_id is None,
            b.workflow_id is None,
    {
        WorkflowExecutionContextBuilder {
            run_id: None,
            workflow_id: None,
            env: None,
            cwd: None,
            workflow_params: None,
            logger: None,
        }
    }

    pub closed spec fn spec_run_id(&self) -> u128 {
        self.run_id
    }

    pub closed spec fn spec_workflow_id(&self) -> u128 {
        self.workflow_id
    }

    /// Unique identifier of the run.
    #[verifier::when_used_as_spec(spec_run_id)]
    pub fn run_id(&self) -> (r: u128)
        returns
            self.spec_run_id(),
    {
        self.run_id
    }

    /// Identifier of the workflow.
    #[verifier::when_used_as_spec(spec_workflow_id)]
    pub fn workflow_id(&self) -> (r: u128)
        returns
            self.spec_workflow_id(),
    {
        self.workflow_id
    }

    pub closed spec fn spec_env(&self) -> &NameMap<&'a str, &'a str> {
        &self.env
    }

    /// Environment variables, by name.
    #[verifier::when_used_as_spec(spec_env)]
    pub fn env(&self) -> (r: &NameMap<&'a str, &'a str>)
        returns
            self.spec_env(),
    {
        &self.env
    }

    pub closed spec fn spec_cwd(&self) -> &Option<PathBuf> {
        &self.cwd
    }

    /// Working directory, if any.
    #[verifier::when_used_as_spec(spec_cwd)]
    pub fn cwd(&self) -> (r: &Option<PathBuf>)
        returns
            self.spec_cwd(),
    {
        &self.cwd
    }

    pub closed spec fn spec_workflow_params(&self) -> &NameMap<&'a str, Value<'a>> {
        &self.workflow_params
    }

    /// Parameters given to the workflow at execution time, by name.
    #[verifier::when_used_as_spec(spec_workflow_params)]
    pub fn workflow_params(&self) -> (r: &NameMap<&'a str, Value<'a>>)
        returns
            self.spec_workflow_params(),
    {
        &self.workflow_params
    }

    pub closed spec fn spec_logger(&self) -> &Option<&'a dyn Logger> {
        &self.logger
    }

    /// Logger, if any.
    #[verifier::when_used_as_spec(spec_logger)]
    pub fn logger(&self) -> (r: &Option<&'a dyn Logger>)
        returns
            self.spec_logger(),
    {
        &self.logger
    }
}

/// Builder of a `WorkflowExecutionContext`: the workflow identifier is required, the run
/// identifier defaults to a fresh random one.
pub struct WorkflowExecutionContextBuilder<'a> {
    pub run_id: Option<u128>,
    pub workflow_id: Option<u128>,
    pub env: Option<NameMap<&'a str, &'a str>>,
    pub cwd: Option<Option<PathBuf>>,
    pub workflow_params: Option<NameMap<&'a str, Value<'a>>>,
    pub logger: Option<Option<&'a dyn Logger>>,
}

impl<'a> WorkflowExecutionContextBuilder<'a> {
    /// Sets the run identifier.
    pub fn run_id(self, run_id: u128) -> (b: Self)
        ensures
            b == (WorkflowExecutionContextBuilder { run_id: Some(run_id), ..self }),
    {
        WorkflowExecutionContextBuilder { run_id: Some(run_id), ..self }
    }

    /// Sets the workflow identifier.
    pub fn workflow_id(self, workflow_id: u128) -> (b: Self)
        ensures
            b == (WorkflowExecutionContextBuilder { workflow_id: Some(workflow_id), ..self }),
    {
        WorkflowExecutionContextBuilder { workflow_id: Some(workflow_id), ..self }
    }

    /// Sets the environment.
    pub fn env(self, env: NameMap<&'a str, &'a str>) -> (b: Self)
        ensures
            b == (WorkflowExecutionContextBuilder { env: Some(env), ..self }),
    {
        WorkflowExecutionContextBuilder { env: Some(env), ..self }
    }

    /// Sets the working directory.
    pub fn cwd(self, cwd: Option<PathBuf>) -> (b: Self)
        ensures
            b == (WorkflowExecutionContextBuilder { cwd: Some(cwd), ..self }),
    {
        WorkflowExecutionContextBuilder { cwd: Some(cwd), ..self }
    }

    /// Sets the workflow parameters.
    pub fn workflow_params(self, workflow_params: NameMap<&'a str, Value<'a>>) -> (b: Self)
        ensures
            b == (WorkflowExecutionContextBuilder { workflow_params: Some(workflow_params), ..self }),
    {
        WorkflowExecutionContextBuilder { workflow_params: Some(workflow_params), ..self }
    }

    /// Sets the logger.
    pub fn logger(self, logger: Option<&'a dyn Logger>) -> (b: Self)
        ensures
            b == (WorkflowExecutionContextBuilder { logger: Some(logger), ..self }),
    {
        WorkflowExecutionContextBuilder { logger: Some(logger), ..self }
    }

    /// The context; the workflow identifier is required.
    pub fn build(self) -> (r: Result<WorkflowExecutionContext<'a>, BuilderError>)
        ensures
            match r {
                Ok(c) => {
                    &&& self.workflow_id == Some(c.workflow_id())
                    &&& self.run_id matches Some(id) ==> c.run_id() == id
                    &&& match self.env {
                        Some(e) => *c.env() == e,
                        None => c.env()@ == Map::<Seq<char>, &'a str>::empty(),
                    }
                    &&& *c.cwd() == match self.cwd {
                        Some(d) => d,
                        None => None,
                    }
                    &&& match self.workflow_params {
                        Some(p) => *c.workflow_params() == p,
                        None => c.workflow_params()@ == Map::<Seq<char>, Value<'a>>::empty(),
                    }
                    &&& *c.logger() == match self.logger {
                        Some(l) => l,
                        None => None,
                    }
                },
                Err(e) => self.workflow_id is None && (e matches BuilderError::UninitializedField(f)
                    && f@ == "workflow_id"@),
            },
    {
        let run_id = match self.run_id {
            Some(id) => id,
            None => new_id(),
        };
        let workflow_id = match self.workflow_id {
            Some(id) => id,
            None => return Err(BuilderError::UninitializedField("workflow_id")),
        };
        let env = match self.env {
            Some(e) => e,
            None => NameMap::new(),
        };
        let cwd = match self.cwd {
            Some(c) => c,
            None => None,
        };
        let workflow_params = match self.workflow_params {
            Some(p) => p,
            None => NameMap::new(),
        };
        let logger = match self.logger {
            Some(l) => l,
            None => None,
        };
        Ok(WorkflowExecutionContext { run_id, workflow_id, env, cwd, workflow_params, logger })
    }
}

} // verus!
