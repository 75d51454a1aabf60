use crate::builder::BuilderError;
use crate::logger::Logger;
use crate::name_map::NameMap;
use crate::task::{TaskDefinition, TaskStatus};
use crate::Value;
use std::path::PathBuf;
use vstd::prelude::*;

verus! {

/// Contextual information available to a task while it executes.
pub struct TaskContext<'a> {
    task_id: u128,
    task_name: &'a str,
    task_definition: &'a TaskDefinition<'a>,
    workflow_id: u128,
    description: Option<&'a str>,
    status: TaskStatus,
    resolved_inputs: NameMap<&'a str, Value<'a>>,
    output_collector: NameMap<String, Value<'a>>,
    env: NameMap<String, String>,
    cwd: Option<PathBuf>,
    logger: Option<&'a dyn Logger>,
}

impl<'a> TaskContext<'a> {
    /// A new builder, with nothing set.
    pub fn builder() -> (b: TaskContextBuilder<'a>)
        ensures
            b.task_id is None,
            b.task_name is None,
            b.task_definition is None,
            b.workflow_id is None,
            b.description is None,
            b.status is None,
            b.resolved_inputs is None,
            b.output_collector is None,
            b.env is None,
            b.cwd is None,
            b.logger is None,
    {
        TaskContextBuilder {
            task_id: None,
            task_name: None,
            task_definition: None,
            workflow_id: None,
            description: None,
            status: None,
            resolved_inputs: None,
            output_collector: None,
            env: None,
            cwd: None,
            logger: None,
        }
    }

    pub closed spec fn spec_task_id(&self) -> u128 {
        self.task_id
    }

    pub closed spec fn spec_task_name(&self) -> &'a str {
        self.task_name
    }

    pub closed spec fn spec_task_definition(&self) -> &'a TaskDefinition<'a> {
        self.task_definition
    }

    pub closed spec fn spec_workflow_id(&self) -> u128 {
        self.workflow_id
    }

    pub closed spec fn spec_description(&self) -> Option<&'a str> {
        self.description
    }

    pub closed spec fn spec_status(&self) -> TaskStatus {
        self.status
    }

    pub closed spec fn spec_resolved_inputs(&self) -> &NameMap<&'a str, Value<'a>> {
        &self.resolved_inputs
    }

    /// Identifier of the task.
    #[verifier::when_used_as_spec(spec_task_id)]
    pub fn task_id(&self) -> (r: u128)
        returns
            self.spec_task_id(),
    {
        self.task_id
    }

    /// Name of the task.
    #[verifier::when_used_as_spec(spec_task_name)]
    pub fn task_name(&self) -> (r: &'a str)
        returns
            self.spec_task_name(),
    {
        self.task_name
    }

    /// Definition of the task.
    #[verifier::when_used_as_spec(spec_task_definition)]
    pub fn task_definition(&self) -> (r: &'a TaskDefinition<'a>)
        returns
            self.spec_task_definition(),
    {
        self.task_definition
    }

    /// Identifier of the workflow the task belongs to.
    #[verifier::when_used_as_spec(spec_workflow_id)]
    pub fn workflow_id(&self) -> (r: u128)
        returns
            self.spec_workflow_id(),
    {
        self.workflow_id
    }

    /// Optional description of the task.
    #[verifier::when_used_as_spec(spec_description)]
    pub fn description(&self) -> (r: Option<&'a str>)
        returns
            self.spec_description(),
    {
        self.description
    }

    /// Current status of the task.
    #[verifier::when_used_as_spec(spec_status)]
    pub fn status(&self) -> (r: TaskStatus)
        returns
            self.spec_status(),
    {
        self.status
    }

    /// Inputs already resolved, by name.
    #[verifier::when_used_as_spec(spec_resolved_inputs)]
    pub fn resolved_inputs(&self) -> (r: &NameMap<&'a str, Value<'a>>)
        returns
            self.spec_resolved_inputs(),
    {
        &self.resolved_inputs
    }

    pub closed spec fn spec_output_collector(&self) -> &NameMap<String, Value<'a>> {
        &self.output_collector
    }

    /// Collector for outputs, by name.
    #[verifier::when_used_as_spec(spec_output_collector)]
    pub fn output_collector(&self) -> (r: &NameMap<String, Value<'a>>)
        returns
            self.spec_output_collector(),
    {
        &self.output_collector
    }

    pub closed spec fn spec_env(&self) -> &NameMap<String, String> {
        &self.env
    }

    /// Environment variables, by name.
    #[verifier::when_used_as_spec(spec_env)]
    pub fn env(&self) -> (r: &NameMap<String, String>)
        returns
            self.spec_env(),
    {
        &self.env
    }

    pub closed spec fn spec_cwd(&self) -> &Option<PathBuf> {
        &self.cwd
    }

    /// Working directory, if any.
    #[verifier::when_used_as_spec(spec_cwd)]
    pub fn cwd(&self) -> (r: &Option<PathBuf>)
        returns
            self.spec_cwd(),
    {
        &self.cwd
    }

    pub closed spec fn spec_logger(&self) -> &Option<&'a dyn Logger> {
        &self.logger
    }

    /// Logger, if any.
    #[verifier::when_used_as_spec(spec_logger)]
    pub fn logger(&self) -> (r: &Option<&'a dyn Logger>)
        returns
            self.spec_logger(),
    {
        &self.logger
    }
}

/// Builder of a `TaskContext`; the identifiers, the name and the definition are required.
pub struct TaskContextBuilder<'a> {
    pub task_id: Option<u128>,
    pub task_name: Option<&'a str>,
    pub task_definition: Option<&'a TaskDefinition<'a>>,
    pub workflow_id: Option<u128>,
    pub description: Option<Option<&'a str>>,
    pub status: Option<TaskStatus>,
    pub resolved_inputs: Option<NameMap<&'a str, Value<'a>>>,
    pub output_collector: Option<NameMap<String, Value<'a>>>,
    pub env: Option<NameMap<String, String>>,
    pub cwd: Option<Option<PathBuf>>,
    pub logger: Option<Option<&'a dyn Logger>>,
}

impl<'a> TaskContextBuilder<'a> {
    /// Sets the task identifier.
    pub fn task_id(self, task_id: u128) -> (b: Self)
        ensures
            b == (TaskContextBuilder { task_id: Some(task_id), ..self }),
    {
        TaskContextBuilder { task_id: Some(task_id), ..self }
    }

    /// Sets the task name.
    pub fn task_name(self, task_name: &'a str) -> (b: Self)
        ensures
            b == (TaskContextBuilder { task_name: Some(task_name), ..self }),
    {
        TaskContextBuilder { task_name: Some(task_name), ..self }
    }

    /// Sets the task definition.
    pub fn task_definition(self, task_definition: &'a TaskDefinition<'a>) -> (b: Self)
        ensures
            b == (TaskContextBuilder { task_definition: Some(task_definition), ..self }),
    {
        TaskContextBuilder { task_definition: Some(task_definition), ..self }
    }

    /// Sets the workflow identifier.
    pub fn workflow_id(self, workflow_id: u128) -> (b: Self)
        ensures
            b == (TaskContextBuilder { workflow_id: Some(workflow_id), ..self }),
    {
        TaskContextBuilder { workflow_id: Some(workflow_id), ..self }
    }

    /// Sets the description.
    pub fn description(self, description: Option<&'a str>) -> (b: Self)
        ensures
            b == (TaskContextBuilder { description: Some(description), ..self }),
    {
        TaskContextBuilder { description: Some(description), ..self }
    }

    /// Sets the status.
    pub fn status(self, status: TaskStatus) -> (b: Self)
        ensures
            b == (TaskContextBuilder { status: Some(status), ..self }),
    {
        TaskContextBuilder { status: Some(status), ..self }
    }

    /// Sets the resolved inputs.
    pub fn resolved_inputs(self, resolved_inputs: NameMap<&'a str, Value<'a>>) -> (b: Self)
        ensures
            b == (TaskContextBuilder { resolved_inputs: Some(resolved_inputs), ..self }),
    {
        TaskContextBuilder { resolved_inputs: Some(resolved_inputs), ..self }
    }

    /// Sets the output collector.
    pub fn output_collector(self, output_collector: NameMap<String, Value<'a>>) -> (b: Self)
        ensures
            b == (TaskContextBuilder { output_collector: Some(output_collector), ..self }),
    {
        TaskContextBuilder { output_collector: Some(output_collector), ..self }
    }

    /// Sets the environment.
    pub fn env(self, env: NameMap<String, String>) -> (b: Self)
        ensures
            b == (TaskContextBuilder { env: Some(env), ..self }),
    {
        TaskContextBuilder { env: Some(env), ..self }
    }

    /// Sets the working directory.
    pub fn cwd(self, cwd: Option<PathBuf>) -> (b: Self)
        ensures
            b == (TaskContextBuilder { cwd: Some(cwd), ..self }),
    {
        TaskContextBuilder { cwd: Some(cwd), ..self }
    }

    /// Sets the logger.
    pub fn logger(self, logger: Option<&'a dyn Logger>) -> (b: Self)
        ensures
            b == (TaskContextBuilder { logger: Some(logger), ..self }),
    {
        TaskContextBuilder { logger: Some(logger), ..self }
    }

    /// The context; the first required field that is missing, in the order task identifier,
    /// task name, task definition, workflow identifier, is reported.
    pub fn build(self) -> (r: Result<TaskContext<'a>, BuilderError>)
        ensures
            match r {
                Ok(c) => {
                    &&& self.task_id == Some(c.task_id())
                    &&& self.task_name == Some(c.task_name())
                    &&& self.task_definition == Some(c.task_definition())
                    &&& self.workflow_id == Some(c.workflow_id())
                    &&& c.description() == (match self.description {
                        Some(d) => d,
                        None => None,
                    })
                    &&& c.status() == (match self.status {
                        Some(s) => s,
                        None => TaskStatus::Pending,
                    })
                    &&& match self.resolved_inputs {
                        Some(i) => *c.resolved_inputs() == i,
                        None => c.resolved_inputs()@ == Map::<Seq<char>, Value<'a>>::empty(),
                    }
                    &&& match self.output_collector {
                        Some(o) => *c.output_collector() == o,
                        None => c.output_collector()@ == Map::<Seq<char>, Value<'a>>::empty(),
                    }
                    &&& match self.env {
                        Some(e) => *c.env() == e,
                        None => c.env()@ == Map::<Seq<char>, String>::empty(),
                    }
                    &&& *c.cwd() == match self.cwd {
                        Some(d) => d,
                        None => None,
                    }
                    &&& *c.logger() == match self.logger {
                        Some(l) => l,
                        None => None,
                    }
                },
                Err(e) => e matches BuilderError::UninitializedField(f) && {
                    ||| self.task_id is None && f@ == "task_id"@
                    ||| self.task_id is Some && self.task_name is None && f@ == "task_name"@
                    ||| self.task_id is Some && self.task_name is Some && self.task_definition is None
                        && f@ == "task_definition"@
                    ||| self.task_id is Some && self.task_name is Some && self.task_definition is Some
                        && self.workflow_id is None && f@ == "workflow_id"@
                },
            },
    {
        let task_id = match self.task_id {
            Some(v) => v,
            None => return Err(BuilderError::UninitializedField("task_id")),
        };
        let task_name = match self.task_name {
            Some(v) => v,
            None => return Err(BuilderError::UninitializedField("task_name")),
        };
        let task_definition = match self.task_definition {
            Some(v) => v,
            None => return Err(BuilderError::UninitializedField("task_definition")),
        };
        let workflow_id = match self.workflow_id {
            Some(v) => v,
            None => return Err(BuilderError::UninitializedField("workflow_id")),
        };
        let description = match self.description {
            Some(v) => v,
            None => None,
        };
        let status = match self.status {
            Some(v) => v,
            None => TaskStatus::default(),
        };
        let resolved_inputs = match self.resolved_inputs {
            Some(v) => v,
            None => NameMap::new(),
        };
        let output_collector = match self.output_collector {
            Some(v) => v,
            None => NameMap::new(),
        };
        let env = match self.env {
            Some(v) => v,
            None => NameMap::new(),
        };
        let cwd = match self.cwd {
            Some(v) => v,
            None => None,
        };
        let logger = match self.logger {
            Some(v) => v,
            None => None,
        };
        Ok(
            TaskContext {
                task_id,
                task_name,
                task_definition,
                workflow_id,
                description,
                status,
                resolved_inputs,
                output_collector,
                env,
                cwd,
                logger,
            },
        )
    }
}

} // verus!
