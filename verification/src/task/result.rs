use crate::builder::BuilderError;
use crate::name_map::NameMap;
use crate::task::TaskStatus;
use crate::Value;
use vstd::prelude::*;

verus! {

/// The result of a task execution: status, outputs, message, logs and metrics.
///
/// A metric is held as the IEEE-754 bit pattern of its value (`f64::to_bits`).
#[derive(Debug, Clone)]
pub struct TaskResult<'a> {
    status: TaskStatus,
    outputs: NameMap<&'a str, Value<'a>>,
    message: Option<String>,
    logs: Vec<String>,
    metrics: NameMap<String, u64>,
}

impl<'a> Default for TaskResult<'a> {
    /// A completed result with no outputs, message, logs or metrics.
    fn default() -> (r: Self)
        ensures
            r.status() == TaskStatus::Completed,
            r.outputs()@ == Map::<Seq<char>, Value<'a>>::empty(),
            r.message() is None,
            r.logs()@.len() == 0,
            r.metrics()@ == Map::<Seq<char>, u64>::empty(),
    {
        TaskResult {
            status: TaskStatus::Completed,
            outputs: NameMap::new(),
            message: None,
            logs: Vec::new(),
            metrics: NameMap::new(),
        }
    }
}

impl<'a> TaskResult<'a> {
    /// A new builder, with nothing set.
    pub fn builder() -> (b: TaskResultBuilder<'a>)
        ensures
            b.status is None,
            b.outputs is None,
            b.message is None,
            b.logs is None,
            b.metrics is None,
    {
        TaskResultBuilder { status: None, outputs: None, message: None, logs: None, metrics: None }
    }

    pub closed spec fn spec_status(&self) -> TaskStatus {
        self.status
    }

    pub closed spec fn spec_outputs(&self) -> &NameMap<&'a str, Value<'a>> {
        &self.outputs
    }

    pub closed spec fn spec_message(&self) -> &Option<String> {
        &self.message
    }

    pub closed spec fn spec_logs(&self) -> &Vec<String> {
        &self.logs
    }

    pub closed spec fn spec_metrics(&self) -> &NameMap<String, u64> {
        &self.metrics
    }

    /// Status of the task execution.
    #[verifier::when_used_as_spec(spec_status)]
    pub fn status(&self) -> (s: TaskStatus)
        returns
            self.spec_status(),
    {
        self.status
    }

    /// Outputs produced by the task, by name.
    #[verifier::when_used_as_spec(spec_outputs)]
    pub fn outputs(&self) -> (r: &NameMap<&'a str, Value<'a>>)
        returns
            self.spec_outputs(),
    {
        &self.outputs
    }

    /// Optional message about the execution.
    #[verifier::when_used_as_spec(spec_message)]
    pub fn message(&self) -> (r: &Option<String>)
        returns
            self.spec_message(),
    {
        &self.message
    }

    /// Logs generated during the execution.
    #[verifier::when_used_as_spec(spec_logs)]
    pub fn logs(&self) -> (r: &Vec<String>)
        returns
            self.spec_logs(),
    {
        &self.logs
    }

    /// Metrics collected during the execution, each as the bits of its value.
    #[verifier::when_used_as_spec(spec_metrics)]
    pub fn metrics(&self) -> (r: &NameMap<String, u64>)
        returns
            self.spec_metrics(),
    {
        &self.metrics
    }

    /// Sets the status.
    pub fn set_status(&mut self, status: TaskStatus)
        ensures
            final(self).status() == status,
            final(self).outputs() == old(self).outputs(),
            final(self).message() == old(self).message(),
            final(self).logs() == old(self).logs(),
            final(self).metrics() == old(self).metrics(),
    {
        self.status = status;
    }

    /// Sets the outputs.
    pub fn set_outputs(&mut self, outputs: NameMap<&'a str, Value<'a>>)
        ensures
            final(self).status() == old(self).status(),
            *final(self).outputs() == outputs,
            final(self).message() == old(self).message(),
            final(self).logs() == old(self).logs(),
            final(self).metrics() == old(self).metrics(),
    {
        self.outputs = outputs;
    }

    /// Sets the message.
    pub fn set_message(&mut self, message: Option<String>)
        ensures
            final(self).status() == old(self).status(),
            final(self).outputs() == old(self).outputs(),
            *final(self).message() == message,
            final(self).logs() == old(self).logs(),
            final(self).metrics() == old(self).metrics(),
    {
        self.message = message;
    }
}

/// Builder of a `TaskResult`; every field defaults (the status to `Pending`).
pub struct TaskResultBuilder<'a> {
    pub status: Option<TaskStatus>,
    pub outputs: Option<NameMap<&'a str, Value<'a>>>,
    pub message: Option<Option<String>>,
    pub logs: Option<Vec<String>>,
    pub metrics: Option<NameMap<String, u64>>,
}

impl<'a> TaskResultBuilder<'a> {
    /// Sets the status.
    pub fn status(self, status: TaskStatus) -> (b: Self)
        ensures
            b == (TaskResultBuilder { status: Some(status), ..self }),
    {
        TaskResultBuilder { status: Some(status), ..self }
    }

    /// Sets the outputs.
    pub fn outputs(self, outputs: NameMap<&'a str, Value<'a>>) -> (b: Self)
        ensures
            b == (TaskResultBuilder { outputs: Some(outputs), ..self }),
    {
        TaskResultBuilder { outputs: Some(outputs), ..self }
    }

    /// Sets the message.
    pub fn message(self, message: Option<String>) -> (b: Self)
        ensures
            b == (TaskResultBuilder { message: Some(message), ..self }),
    {
        TaskResultBuilder { message: Some(message), ..self }
    }

    /// Sets the logs.
    pub fn logs(self, logs: Vec<String>) -> (b: Self)
        ensures
            b == (TaskResultBuilder { logs: Some(logs), ..self }),
    {
        TaskResultBuilder { logs: Some(logs), ..self }
    }

    /// Sets the metrics.
    pub fn metrics(self, metrics: NameMap<String, u64>) -> (b: Self)
        ensures
            b == (TaskResultBuilder { metrics: Some(metrics), ..self }),
    {
        TaskResultBuilder { metrics: Some(metrics), ..self }
    }

    /// The result; every field not set takes its default.
    pub fn build(self) -> (r: Result<TaskResult<'a>, BuilderError>)
        ensures
            r matches Ok(t) && {
                &&& t.status() == (match self.status {
                    Some(s) => s,
                    None => TaskStatus::Pending,
                })
                &&& match self.outputs {
                    Some(o) => *t.outputs() == o,
                    None => t.outputs()@ == Map::<Seq<char>, Value<'a>>::empty(),
                }
                &&& match self.message {
                    Some(m) => *t.message() == m,
                    None => t.message() is None,
                }
                &&& match self.logs {
                    Some(l) => *t.logs() == l,
                    None => t.logs()@.len() == 0,
                }
                &&& match self.metrics {
                    Some(m) => *t.metrics() == m,
                    None => t.metrics()@ == Map::<Seq<char>, u64>::empty(),
                }
            },
    {
        let status = match self.status {
            Some(s) => s,
            None => TaskStatus::default(),
        };
        let outputs = match self.outputs {
            Some(o) => o,
            None => NameMap::new(),
        };
        let message = match self.message {
            Some(m) => m,
            None => None,
        };
        let logs = match self.logs {
            Some(l) => l,
            None => Vec::new(),
        };
        let metrics = match self.metrics {
            Some(m) => m,
            None => NameMap::new(),
        };
        Ok(TaskResult { status, outputs, message, logs, metrics })
    }
}

} // verus!
