use autoflow::name_map::NameMap;
use autoflow::plugin::Registry;
use autoflow::task::{
    DataType, InputBinding, InputSpec, NoOpTaskHandler, OutputSpec, Task, TaskContext, TaskDefinition,
    TaskHandler, TaskResult, TaskSchema,
};
use autoflow::trigger::{Trigger, TriggerDefinition, TriggerResult, TriggerSchema};
use autoflow::workflow::execution::WorkflowExecutor;
use autoflow::workflow::{DependencyRef, Workflow};
use autoflow::Value;
use uuid::Uuid;

struct InOutTaskHandler;

impl TaskHandler for InOutTaskHandler {
    fn execute<'a>(&self, context: &TaskContext<'a>) -> TaskResult<'a> {
        // Get the first input value (or Null if no inputs)
        let inputs = context.resolved_inputs();
        let input_value = if inputs.len() > 0 { inputs.value_at(0).clone() } else { Value::Null };

        // Create outputs for all expected output keys from the schema
        let mut outputs = NameMap::new();
        for output_key in context.task_definition().schema().outputs().keys() {
            outputs.insert(*output_key, input_value.clone());
        }

        TaskResult::builder().outputs(outputs).build().unwrap()
    }
}

fn dummy_task_def<'a>(
    name: &'a str,
    input: Option<(&'a str, DataType)>,
    output: Option<(&'a str, DataType)>,
) -> TaskDefinition<'a> {
    let mut schema_builder = TaskSchema::builder();
    if let Some((input_name, input_type)) = input {
        schema_builder = schema_builder.input((input_name, InputSpec::new(input_type)));
    }
    if let Some((output_name, output_type)) = output {
        schema_builder = schema_builder.output((output_name, OutputSpec::new(output_type)));
    }
    if input.is_some() && output.is_some() {
        TaskDefinition::builder()
            .name(name)
            .schema(schema_builder.build().unwrap())
            .handler(Box::new(InOutTaskHandler))
            .build()
            .unwrap()
    } else {
        TaskDefinition::builder()
            .name(name)
            .schema(schema_builder.build().unwrap())
            .handler(Box::new(NoOpTaskHandler))
            .build()
            .unwrap()
    }
}

fn dummy_trigger_def<'a>(name: &'a str, output: Option<(&'a str, DataType)>) -> TriggerDefinition<'a> {
    let mut schema_builder = TriggerSchema::builder();
    if let Some((output_name, output_type)) = output {
        schema_builder = schema_builder.output((output_name, output_type));
    }
    TriggerDefinition::builder()
        .name(name)
        .schema(schema_builder.build().unwrap())
        .build()
        .unwrap()
}

fn setup_registry<'a>() -> Registry<'a> {
    Registry::new()
}

fn task_ids(reachable: &autoflow::ref_map::RefSet) -> Vec<u128> {
    reachable
        .to_vec()
        .iter()
        .filter_map(|d| if let DependencyRef::Task(id) = d { Some(*id) } else { None })
        .collect()
}

#[test]
fn executor_test_executor_runs_only_relevant_tasks_for_trigger() {
    let reg = setup_registry();
    let trigger_def1 = dummy_trigger_def("trig1", Some(("out", DataType::String)));
    let trigger_def2 = dummy_trigger_def("trig2", Some(("out", DataType::String)));
    let trigger1 = Trigger::builder()
        .id(Uuid::new_v4().as_u128())
        .name("trig1")
        .definition(&trigger_def1)
        .build()
        .unwrap();
    let trigger2 = Trigger::builder()
        .id(Uuid::new_v4().as_u128())
        .name("trig2")
        .definition(&trigger_def2)
        .build()
        .unwrap();

    let t1_def = dummy_task_def("t1", None, Some(("out", DataType::String)));
    let t2_def = dummy_task_def("t2", Some(("in", DataType::String)), None);
    let t3_def = dummy_task_def("t3", Some(("in", DataType::String)), None);

    let t1 = Task::builder()
        .id(Uuid::new_v4().as_u128())
        .name("t1")
        .definition(&t1_def)
        .build()
        .unwrap();
    let t2 = Task::builder()
        .id(Uuid::new_v4().as_u128())
        .name("t2")
        .definition(&t2_def)
        .input((
            "in",
            InputBinding::Reference {
                ref_from: DependencyRef::Trigger(trigger1.id()),
                output: "out",
            },
        ))
        .build()
        .unwrap();
    let t3 = Task::builder()
        .id(Uuid::new_v4().as_u128())
        .name("t3")
        .definition(&t3_def)
        .input((
            "in",
            InputBinding::Reference {
                ref_from: DependencyRef::Trigger(trigger2.id()),
                output: "out",
            },
        ))
        .build()
        .unwrap();

    let workflow = Workflow::builder()
        .name("wf")
        .trigger((trigger1.id(), trigger1.clone()))
        .trigger((trigger2.id(), trigger2.clone()))
        .task((t1.id(), t1.clone()))
        .task((t2.id(), t2.clone()))
        .task((t3.id(), t3.clone()))
        .build()
        .unwrap();

    let mut exec = WorkflowExecutor::builder()
        .workflow(&workflow)
        .plugins(&reg)
        .build()
        .unwrap();

    // Trigger 1 should only execute t2 (and not t3)
    let trigger1_result = TriggerResult::builder()
        .output(("out", Value::String("trigger1_output")))
        .build()
        .unwrap();
    let result = exec.execute_from_trigger(trigger1.id(), trigger1_result);
    assert!(result.is_ok(), "Execution failed: {:?}", result.err());
    // The execution order should include t2 but not t3
    let reachable = exec.reachable_tasks(&trigger1);
    let task_ids1 = task_ids(&reachable);
    assert!(task_ids1.contains(&t2.id()));
    assert!(!task_ids1.contains(&t3.id()));

    // Trigger 2 should only execute t3 (and not t2)
    let mut exec2 = WorkflowExecutor::builder()
        .workflow(&workflow)
        .plugins(&reg)
        .build()
        .unwrap();
    let trigger2_result = TriggerResult::builder()
        .output(("out", Value::String("trigger2_output")))
        .build()
        .unwrap();
    let result2 = exec2.execute_from_trigger(trigger2.id(), trigger2_result);
    assert!(result2.is_ok());
    let reachable2 = exec2.reachable_tasks(&trigger2);
    let task_ids2 = task_ids(&reachable2);
    assert!(task_ids2.contains(&t3.id()));
    assert!(!task_ids2.contains(&t2.id()));
}

#[test]
fn executor_test_executor_handles_no_tasks_for_trigger() {
    let reg = setup_registry();
    let trigger_def = dummy_trigger_def("trig", Some(("out", DataType::String)));
    let trigger = Trigger::builder()
        .id(Uuid::new_v4().as_u128())
        .name("trig")
        .definition(&trigger_def)
        .build()
        .unwrap();
    let workflow = Workflow::builder()
        .name("wf")
        .trigger((trigger.id(), trigger.clone()))
        .build()
        .unwrap();
    let mut exec = WorkflowExecutor::builder()
        .workflow(&workflow)
        .plugins(&reg)
        .build()
        .unwrap();
    let result = exec.execute_from_trigger(trigger.id(), TriggerResult::default());
    assert!(result.is_ok());
    let reachable = exec.reachable_tasks(&trigger);
    assert!(reachable.is_empty());
}

#[test]
fn executor_test_executor_handles_task_with_multiple_dependencies() {
    let reg = setup_registry();
    let trigger_def = dummy_trigger_def("trig", Some(("out", DataType::String)));
    let trigger = Trigger::builder()
        .id(Uuid::new_v4().as_u128())
        .name("trig")
        .definition(&trigger_def)
        .build()
        .unwrap();
    let t1_def = dummy_task_def("t1", None, Some(("out", DataType::String)));
    let t2_def = dummy_task_def(
        "t2",
        Some(("in", DataType::String)),
        Some(("out2", DataType::String)),
    );
    let t3_def = dummy_task_def("t3", Some(("in", DataType::String)), None);
    let t1 = Task::builder()
        .id(Uuid::new_v4().as_u128())
        .name("t1")
        .definition(&t1_def)
        .build()
        .unwrap();
    let t2 = Task::builder()
        .id(Uuid::new_v4().as_u128())
        .name("t2")
        .definition(&t2_def)
        .input((
            "in",
            InputBinding::Reference {
                ref_from: DependencyRef::Trigger(trigger.id()),
                output: "out",
            },
        ))
        .dependency(DependencyRef::Task(t1.id()))
        .build()
        .unwrap();
    let t3 = Task::builder()
        .id(Uuid::new_v4().as_u128())
        .name("t3")
        .definition(&t3_def)
        .input((
            "in",
            InputBinding::Reference {
                ref_from: DependencyRef::Task(t2.id()),
                output: "out2",
            },
        ))
        .build()
        .unwrap();
    let workflow = Workflow::builder()
        .name("wf")
        .trigger((trigger.id(), trigger.clone()))
        .task((t1.id(), t1.clone()))
        .task((t2.id(), t2.clone()))
        .task((t3.id(), t3.clone()))
        .build()
        .unwrap();
    let mut exec = WorkflowExecutor::builder()
        .workflow(&workflow)
        .plugins(&reg)
        .build()
        .unwrap();
    let result = exec.execute_from_trigger(
        trigger.id(),
        TriggerResult::builder()
            .output(("out", Value::String("trigger_output")))
            .build()
            .unwrap(),
    );
    assert!(result.is_ok(), "Execution failed: {:?}", result.err());
    let reachable = exec.reachable_tasks(&trigger);
    let ids = task_ids(&reachable);
    assert!(ids.contains(&t2.id()));
    assert!(ids.contains(&t3.id()));
}

#[test]
fn executor_test_executor_handles_circular_dependencies() {
    let reg = setup_registry();
    let trigger_def = dummy_trigger_def("trig", Some(("out", DataType::String)));
    let trigger = Trigger::builder()
        .id(Uuid::new_v4().as_u128())
        .name("trig")
        .definition(&trigger_def)
        .build()
        .unwrap();
    let def = dummy_task_def(
        "t1",
        Some(("in", DataType::String)),
        Some(("out", DataType::String)),
    );
    let t1_id = Uuid::new_v4().as_u128();
    let t2_id = Uuid::new_v4().as_u128();
    let t1 = Task::builder()
        .id(t1_id)
        .name("t1")
        .definition(&def)
        .input((
            "in",
            InputBinding::Reference {
                ref_from: DependencyRef::Task(t2_id),
                output: "out",
            },
        ))
        .dependency(DependencyRef::from_trigger(&trigger))
        .build()
        .unwrap();
    let t2 = Task::builder()
        .id(t2_id)
        .name("t2")
        .definition(&def)
        .input((
            "in",
            InputBinding::Reference {
                ref_from: DependencyRef::Task(t1_id),
                output: "out",
            },
        ))
        .build()
        .unwrap();
    let workflow = Workflow::builder()
        .name("wf")
        .trigger((trigger.id(), trigger.clone()))
        .task((t1_id, t1.clone()))
        .task((t2_id, t2.clone()))
        .build()
        .unwrap();
    let mut exec = WorkflowExecutor::builder()
        .workflow(&workflow)
        .plugins(&reg)
        .build()
        .unwrap();
    // Should return an error due to circular dependency
    let result = exec.execute_from_trigger(trigger.id(), TriggerResult::default());
    assert!(
        result.is_err(),
        "Expected error due to circular dependency, but got Ok"
    );
    let err_str = format!("{:?}", result.err().unwrap());
    assert!(
        err_str.contains("cycle") || err_str.contains("Cycle"),
        "Error should mention cycle, got: {}",
        err_str
    );
}

#[test]
fn executor_test_executor_handles_multiple_triggers_and_tasks() {
    let reg = setup_registry();
    let trigger_def1 = dummy_trigger_def("trig1", Some(("out", DataType::String)));
    let trigger_def2 = dummy_trigger_def("trig2", Some(("out", DataType::String)));
    let trigger1 = Trigger::builder()
        .id(Uuid::new_v4().as_u128())
        .name("trig1")
        .definition(&trigger_def1)
        .build()
        .unwrap();
    let trigger2 = Trigger::builder()
        .id(Uuid::new_v4().as_u128())
        .name("trig2")
        .definition(&trigger_def2)
        .build()
        .unwrap();
    let t1_def = dummy_task_def("t1", Some(("in", DataType::String)), None);
    let t2_def = dummy_task_def("t2", Some(("in", DataType::String)), None);
    let t1 = Task::builder()
        .id(Uuid::new_v4().as_u128())
        .name("t1")
        .definition(&t1_def)
        .input((
            "in",
            InputBinding::Reference {
                ref_from: DependencyRef::Trigger(trigger1.id()),
                output: "out",
            },
        ))
        .build()
        .unwrap();
    let t2 = Task::builder()
        .id(Uuid::new_v4().as_u128())
        .name("t2")
        .definition(&t2_def)
        .input((
            "in",
            InputBinding::Reference {
                ref_from: DependencyRef::Trigger(trigger2.id()),
                output: "out",
            },
        ))
        .build()
        .unwrap();
    let workflow = Workflow::builder()
        .name("wf")
        .trigger((trigger1.id(), trigger1.clone()))
        .trigger((trigger2.id(), trigger2.clone()))
        .task((t1.id(), t1.clone()))
        .task((t2.id(), t2.clone()))
        .build()
        .unwrap();
    let mut exec = WorkflowExecutor::builder()
        .workflow(&workflow)
        .plugins(&reg)
        .build()
        .unwrap();
    let trigger1_result = TriggerResult::builder()
        .output(("out", Value::String("trigger1_output")))
        .build()
        .unwrap();
    let result = exec.execute_from_trigger(trigger1.id(), trigger1_result);
    assert!(result.is_ok());
    let reachable = exec.reachable_tasks(&trigger1);
    let ids = task_ids(&reachable);
    assert!(ids.contains(&t1.id()));
    assert!(!ids.contains(&t2.id()));
}

#[test]
fn executor_test_missing_dependency_output_error() {
    let reg = setup_registry();
    let trigger_def = dummy_trigger_def("trig", Some(("out", DataType::String)));
    let trigger = Trigger::builder()
        .id(Uuid::new_v4().as_u128())
        .name("trig")
        .definition(&trigger_def)
        .build()
        .unwrap();
    let t1_def = dummy_task_def("t1", Some(("in", DataType::String)), None);
    let t1 = Task::builder()
        .id(Uuid::new_v4().as_u128())
        .name("t1")
        .definition(&t1_def)
        .input((
            "in",
            InputBinding::Reference {
                ref_from: DependencyRef::Trigger(trigger.id()),
                output: "missing_output", // output key does not exist
            },
        ))
        .build()
        .unwrap();
    let workflow = Workflow::builder()
        .name("wf")
        .trigger((trigger.id(), trigger.clone()))
        .task((t1.id(), t1.clone()))
        .build()
        .unwrap();
    let mut exec = WorkflowExecutor::builder()
        .workflow(&workflow)
        .plugins(&reg)
        .build()
        .unwrap();
    let result = exec.execute_from_trigger(trigger.id(), TriggerResult::default());
    match result {
        Err(e) => {
            let err_str = format!("{:?}", e);
            assert!(
                err_str.contains("MissingDependencyOutput"),
                "Expected MissingDependencyOutput error, got: {}",
                err_str
            );
        }
        Ok(_) => panic!("Expected error due to missing dependency output, but got Ok"),
    }
}

#[test]
fn executor_test_failed_dependency_output_error() {
    let reg = setup_registry();
    let trigger_def = dummy_trigger_def("trig", None); // No outputs
    let trigger = Trigger::builder()
        .id(Uuid::new_v4().as_u128())
        .name("trig")
        .definition(&trigger_def)
        .build()
        .unwrap();
    let t1_def = dummy_task_def("t1", Some(("in", DataType::String)), None);
    let t1 = Task::builder()
        .id(Uuid::new_v4().as_u128())
        .name("t1")
        .definition(&t1_def)
        .input((
            "in",
            InputBinding::Reference {
                ref_from: DependencyRef::Trigger(trigger.id()),
                output: "out", // output key does not exist
            },
        ))
        .build()
        .unwrap();
    let workflow = Workflow::builder()
        .name("wf")
        .trigger((trigger.id(), trigger.clone()))
        .task((t1.id(), t1.clone()))
        .build()
        .unwrap();
    let mut exec = WorkflowExecutor::builder()
        .workflow(&workflow)
        .plugins(&reg)
        .build()
        .unwrap();
    let result = exec.execute_from_trigger(trigger.id(), TriggerResult::default());
    match result {
        Err(e) => {
            let err_str = format!("{:?}", e);
            assert!(
                err_str.contains("FailedDependencyOutput") || err_str.contains("MissingDependencyOutput"),
                "Expected FailedDependencyOutput or MissingDependencyOutput error, got: {}",
                err_str
            );
        }
        Ok(_) => panic!("Expected error due to failed dependency output, but got Ok"),
    }
}

#[test]
fn executor_test_trigger_output_propagation_to_task() {
    let reg = setup_registry();
    let trigger_def = dummy_trigger_def("trig", Some(("out", DataType::String)));
    let trigger = Trigger::builder()
        .id(Uuid::new_v4().as_u128())
        .name("trig")
        .definition(&trigger_def)
        .build()
        .unwrap();
    let t1_def = dummy_task_def(
        "t1",
        Some(("in", DataType::String)),
        Some(("out", DataType::String)),
    );
    let t1 = Task::builder()
        .id(Uuid::new_v4().as_u128())
        .name("t1")
        .definition(&t1_def)
        .input((
            "in",
            InputBinding::Reference {
                ref_from: DependencyRef::Trigger(trigger.id()),
                output: "out",
            },
        ))
        .build()
        .unwrap();
    let workflow = Workflow::builder()
        .name("wf")
        .trigger((trigger.id(), trigger.clone()))
        .task((t1.id(), t1.clone()))
        .build()
        .unwrap();
    let mut exec = WorkflowExecutor::builder()
        .workflow(&workflow)
        .plugins(&reg)
        .build()
        .unwrap();
    // Provide a trigger result with output
    let mut outputs = NameMap::new();
    outputs.insert("out", Value::String("hello"));
    let trigger_result = TriggerResult::builder().outputs(outputs).build().unwrap();
    let result = exec.execute_from_trigger(trigger.id(), trigger_result);
    assert!(
        result.is_ok(),
        "Expected Ok for successful output propagation"
    );
    // Check that t1 received the correct input
    let t1_result = exec.get_task_result(&t1.id());
    assert!(t1_result.is_some(), "Task result should be present");
    let t1_outputs = t1_result.unwrap().outputs();
    assert!(
        t1_outputs.contains_key("out"),
        "Task output should be present"
    );
}
