use autoflow::compiler::WorkflowCompiler;
use autoflow::task::{DataType, InputSpec, NoOpTaskHandler, OutputSpec, Task, TaskDefinition, TaskSchema};
use autoflow::workflow::{DependencyRef, Workflow};
use uuid::Uuid;

fn dummy_task_def<'a>() -> TaskDefinition<'a> {
    TaskDefinition::builder()
        .name("dummy")
        .schema(
            TaskSchema::builder()
                .input(("in", InputSpec::new(DataType::String)))
                .output(("out", OutputSpec::new(DataType::String)))
                .build()
                .unwrap(),
        )
        .handler(Box::new(NoOpTaskHandler))
        .build()
        .unwrap()
}

#[test]
fn test_compile_valid_workflow() {
    let def = dummy_task_def();
    let t1 = Task::builder()
        .id(Uuid::new_v4().as_u128())
        .name("t1")
        .definition(&def)
        .build()
        .unwrap();

    let mut wf = Workflow::builder().name("wf").build().unwrap();
    wf.add_task(t1);

    let result = WorkflowCompiler::compile(&wf);
    assert!(result.is_ok());
}

#[test]
fn test_compile_missing_dependency() {
    let def = dummy_task_def();
    let mut task = Task::builder()
        .id(Uuid::new_v4().as_u128())
        .name("t1")
        .definition(&def)
        .build()
        .unwrap();

    let missing_id = Uuid::new_v4().as_u128();
    task.add_dependency(DependencyRef::Task(missing_id));

    let mut wf = Workflow::builder().name("wf").build().unwrap();
    wf.add_task(task);

    let result = WorkflowCompiler::compile(&wf);
    assert!(result.is_err());
}
