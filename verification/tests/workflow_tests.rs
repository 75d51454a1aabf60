use autoflow::compiler::{CompileError, WorkflowCompiler};
use autoflow::task::{
    DataType, InputBinding, InputSpec, NoOpTaskHandler, OutputSpec, Task, TaskDefinition, TaskSchema,
};
use autoflow::trigger::{Trigger, TriggerDefinition, TriggerSchema};
use autoflow::workflow::{DependencyRef, Workflow};
use uuid::Uuid;

fn dummy_task_def<'a>() -> TaskDefinition<'a> {
    TaskDefinition::builder()
        .name("dummy")
        .schema(
            TaskSchema::builder()
                .input(("foo", InputSpec::new(DataType::String)))
                .build()
                .unwrap(),
        )
        .handler(Box::new(NoOpTaskHandler))
        .build()
        .unwrap()
}

fn dummy_trigger_def<'a>() -> TriggerDefinition<'a> {
    TriggerDefinition::builder()
        .name("dummy_trigger")
        .schema(
            TriggerSchema::builder()
                .output(("bar", DataType::String))
                .build()
                .unwrap(),
        )
        .build()
        .unwrap()
}

#[test]
fn test_add_task_with_missing_dependency_fails() {
    let mut wf = Workflow::builder().name("wf").build().unwrap();
    let dummy_def = dummy_task_def();
    let mut task = Task::builder()
        .id(Uuid::new_v4().as_u128())
        .name("t1")
        .definition(&dummy_def)
        .build()
        .unwrap();
    // Add a fake dependency
    let missing_id = Uuid::new_v4().as_u128();
    task.add_dependency(DependencyRef::Task(missing_id));
    wf.add_task(task); // This should succeed (no validation)

    // But compilation should fail
    let res = WorkflowCompiler::compile(&wf);
    assert!(res.is_err());
    if let Err(e) = res {
        match e {
            CompileError::MissingDependency { id, .. } => {
                assert_eq!(id, missing_id);
            }
            _ => panic!("Expected MissingDependency error"),
        }
    }
}

#[test]
fn test_add_and_remove_task() {
    let mut wf = Workflow::builder().name("wf").build().unwrap();
    let def = dummy_task_def();
    let t1_id = Uuid::new_v4().as_u128();
    let t2_id = Uuid::new_v4().as_u128();
    let t1 = Task::builder()
        .id(t1_id)
        .name("t1")
        .definition(&def)
        .build()
        .unwrap();
    let t2 = Task::builder()
        .id(t2_id)
        .name("t2")
        .definition(&def)
        .dependencies(vec![DependencyRef::Task(t1_id)])
        .build()
        .unwrap();
    wf.add_task(t1);
    wf.add_task(t2);
    // Remove t1 (should not panic, t2 remains)
    wf.remove_task(t1_id);
    assert!(wf.tasks().get(&t2_id).is_some());
}

#[test]
fn test_remove_task_strict_with_dependents_fails() {
    let mut wf = Workflow::builder().name("wf").build().unwrap();
    let def = dummy_task_def();
    let t1_id = Uuid::new_v4().as_u128();
    let t2_id = Uuid::new_v4().as_u128();
    let t1 = Task::builder()
        .id(t1_id)
        .name("t1")
        .definition(&def)
        .build()
        .unwrap();
    let t2 = Task::builder()
        .id(t2_id)
        .name("t2")
        .definition(&def)
        .dependencies(vec![DependencyRef::Task(t1_id)])
        .build()
        .unwrap();
    wf.add_task(t1);
    wf.add_task(t2);
    // Removing a task does not check its dependents
    wf.remove_task(t1_id);
    // t1 should be gone
    assert!(wf.tasks().get(&t1_id).is_none());
}

#[test]
fn test_remove_task_cascade_removes_dependents() {
    let mut wf = Workflow::builder().name("wf").build().unwrap();
    let def = dummy_task_def();
    let t1_id = Uuid::new_v4().as_u128();
    let t2_id = Uuid::new_v4().as_u128();
    let t1 = Task::builder()
        .id(t1_id)
        .name("t1")
        .definition(&def)
        .build()
        .unwrap();
    let t2 = Task::builder()
        .id(t2_id)
        .name("t2")
        .definition(&def)
        .dependencies(vec![DependencyRef::Task(t1_id)])
        .build()
        .unwrap();
    wf.add_task(t1);
    wf.add_task(t2);
    // Remove just t1; its dependents stay
    wf.remove_task(t1_id);
    assert!(wf.tasks().get(&t1_id).is_none());
    // t2 should still exist
    assert!(wf.tasks().get(&t2_id).is_some());
}

#[test]
fn test_trigger_reference_and_removal() {
    let mut wf = Workflow::builder().name("wf").build().unwrap();
    let trigger_def = dummy_trigger_def();
    let trigger_id = Uuid::new_v4().as_u128();
    let trigger = Trigger::builder()
        .id(trigger_id)
        .name("trig")
        .definition(&trigger_def)
        .build()
        .unwrap();
    wf.add_trigger(trigger);
    let def = dummy_task_def();
    let t_id = Uuid::new_v4().as_u128();
    let t = Task::builder()
        .id(t_id)
        .name("t")
        .definition(&def)
        .input((
            "foo",
            InputBinding::Reference {
                ref_from: DependencyRef::Trigger(trigger_id),
                output: "bar",
            },
        ))
        .build()
        .unwrap();
    wf.add_task(t);
    // Remove trigger (should not panic, task remains)
    wf.remove_trigger(trigger_id);
    assert!(wf.tasks().get(&t_id).is_some());
}

#[test]
fn test_task_reference_type_mismatch_fails() {
    let mut wf = Workflow::builder().name("wf").build().unwrap();

    // Task 1: output "out" is Float
    let def1 = TaskDefinition::builder()
        .name("t1")
        .schema(
            TaskSchema::builder()
                .output(("out", OutputSpec::new(DataType::Float)))
                .build()
                .unwrap(),
        )
        .handler(Box::new(NoOpTaskHandler))
        .build()
        .unwrap();
    let t1_id = Uuid::new_v4().as_u128();
    let t1 = Task::builder()
        .id(t1_id)
        .name("t1")
        .definition(&def1)
        .build()
        .unwrap();
    wf.add_task(t1);

    // Task 2: input "foo" expects String, but references t1's "out" (Float)
    let def2 = TaskDefinition::builder()
        .name("t2")
        .schema(
            TaskSchema::builder()
                .input(("foo", InputSpec::new(DataType::String)))
                .build()
                .unwrap(),
        )
        .handler(Box::new(NoOpTaskHandler))
        .build()
        .unwrap();
    let t2 = Task::builder()
        .id(Uuid::new_v4().as_u128())
        .name("t2")
        .definition(&def2)
        .input((
            "foo",
            InputBinding::Reference {
                ref_from: DependencyRef::Task(t1_id),
                output: "out",
            },
        ))
        .build()
        .unwrap();

    // Add task (no validation during construction)
    wf.add_task(t2);

    // Check that compilation fails with the correct error
    let res = WorkflowCompiler::compile(&wf);
    assert!(res.is_err());
    if let Err(e) = res {
        match e {
            CompileError::InputTypeMismatch {
                task_id: _,
                input,
                expected,
                found,
                reference: _,
                output: _,
            } => {
                assert_eq!(input, "foo");
                assert_eq!(expected, DataType::String);
                assert_eq!(found, DataType::Float);
            }
            _ => panic!("Expected InputTypeMismatch error"),
        }
    }
}

#[test]
fn test_trigger_reference_type_mismatch_fails() {
    let mut wf = Workflow::builder().name("wf").build().unwrap();

    // Trigger: output "bar" is Float
    let trigger_def = TriggerDefinition::builder()
        .name("trig")
        .schema(
            TriggerSchema::builder()
                .output(("bar", DataType::Float))
                .build()
                .unwrap(),
        )
        .build()
        .unwrap();
    let trigger_id = Uuid::new_v4().as_u128();
    let trigger = Trigger::builder()
        .id(trigger_id)
        .name("trig")
        .definition(&trigger_def)
        .build()
        .unwrap();
    wf.add_trigger(trigger);

    // Task: input "foo" expects Bool, but references trigger's "bar" (Float)
    let def = TaskDefinition::builder()
        .name("t")
        .schema(
            TaskSchema::builder()
                .input(("foo", InputSpec::new(DataType::Boolean)))
                .build()
                .unwrap(),
        )
        .handler(Box::new(NoOpTaskHandler))
        .build()
        .unwrap();
    let t = Task::builder()
        .id(Uuid::new_v4().as_u128())
        .name("t")
        .definition(&def)
        .input((
            "foo",
            InputBinding::Reference {
                ref_from: DependencyRef::Trigger(trigger_id),
                output: "bar",
            },
        ))
        .build()
        .unwrap();

    // Add task (no validation during construction)
    wf.add_task(t);

    // Check that compilation fails with the correct error
    let res = WorkflowCompiler::compile(&wf);
    assert!(res.is_err());
    if let Err(e) = res {
        match e {
            CompileError::InputTypeMismatch {
                task_id: _,
                input,
                expected,
                found,
                reference: _,
                output: _,
            } => {
                assert_eq!(input, "foo");
                assert_eq!(expected, DataType::Boolean);
                assert_eq!(found, DataType::Float);
            }
            _ => panic!("Expected InputTypeMismatch error"),
        }
    }
}

#[test]
fn test_task_reference_type_match_succeeds() {
    let mut wf = Workflow::builder().name("wf").build().unwrap();

    // Task 1: output "out" is String
    let def1 = TaskDefinition::builder()
        .name("t1")
        .schema(
            TaskSchema::builder()
                .output(("out", OutputSpec::new(DataType::String)))
                .build()
                .unwrap(),
        )
        .handler(Box::new(NoOpTaskHandler))
        .build()
        .unwrap();
    let t1_id = Uuid::new_v4().as_u128();
    let t1 = Task::builder()
        .id(t1_id)
        .name("t1")
        .definition(&def1)
        .build()
        .unwrap();
    wf.add_task(t1);

    // Task 2: input "foo" expects String, references t1's "out" (String)
    let def2 = TaskDefinition::builder()
        .name("t2")
        .schema(
            TaskSchema::builder()
                .input(("foo", InputSpec::new(DataType::String)))
                .build()
                .unwrap(),
        )
        .handler(Box::new(NoOpTaskHandler))
        .build()
        .unwrap();
    let t2 = Task::builder()
        .id(Uuid::new_v4().as_u128())
        .name("t2")
        .definition(&def2)
        .input((
            "foo",
            InputBinding::Reference {
                ref_from: DependencyRef::Task(t1_id),
                output: "out",
            },
        ))
        .build()
        .unwrap();

    // Should succeed (no panic)
    wf.add_task(t2);

    // And compilation should succeed
    let res = WorkflowCompiler::compile(&wf);
    assert!(res.is_ok());
}

#[test]
fn test_trigger_reference_type_match_succeeds() {
    let mut wf = Workflow::builder().name("wf").build().unwrap();

    // Trigger: output "bar" is Boolean
    let trigger_def = TriggerDefinition::builder()
        .name("trig")
        .schema(
            TriggerSchema::builder()
                .output(("bar", DataType::Boolean))
                .build()
                .unwrap(),
        )
        .build()
        .unwrap();
    let trigger_id = Uuid::new_v4().as_u128();
    let trigger = Trigger::builder()
        .id(trigger_id)
        .name("trig")
        .definition(&trigger_def)
        .build()
        .unwrap();
    wf.add_trigger(trigger);

    // Task: input "foo" expects Boolean, references trigger's "bar" (Boolean)
    let def = TaskDefinition::builder()
        .name("t")
        .schema(
            TaskSchema::builder()
                .input(("foo", InputSpec::new(DataType::Boolean)))
                .build()
                .unwrap(),
        )
        .handler(Box::new(NoOpTaskHandler))
        .build()
        .unwrap();
    let t = Task::builder()
        .id(Uuid::new_v4().as_u128())
        .name("t")
        .definition(&def)
        .input((
            "foo",
            InputBinding::Reference {
                ref_from: DependencyRef::Trigger(trigger_id),
                output: "bar",
            },
        ))
        .build()
        .unwrap();

    // Should succeed (no panic)
    wf.add_task(t);

    // And compilation should succeed
    let res = WorkflowCompiler::compile(&wf);
    assert!(res.is_ok());
}
