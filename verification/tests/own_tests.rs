use autoflow::builder::BuilderError;
use autoflow::compiler::{CompileError, WorkflowCompiler};
use autoflow::executor::{copy_outputs, record_task_result, task_context_for, WorkflowExecutor};
use autoflow::ref_map::RefMap;
use autoflow::value::value_debug_text;
use std::collections::HashMap;
use autoflow::name_map::NameMap;
use autoflow::plugin::{Plugin, Registry};
use autoflow::task::{
    DataType, InputBinding, InputSpec, NoOpTaskHandler, OutputSpec, Task, TaskContext, TaskDefinition,
    TaskError, TaskHandler, TaskResult, TaskSchema, TaskStatus,
};
use autoflow::trigger::{Trigger, TriggerDefinition, TriggerResult, TriggerSchema};
use autoflow::workflow::execution::{ExecutionError, WorkflowExecutor as PlainExecutor};
use autoflow::workflow::{DependencyRef, Workflow};
use autoflow::{CoreError, Value};
use uuid::Uuid;

struct EchoHandler;

impl TaskHandler for EchoHandler {
    fn execute<'a>(&self, context: &TaskContext<'a>) -> TaskResult<'a> {
        let mut outputs = NameMap::new();
        for key in context.task_definition().schema().outputs().keys() {
            outputs.insert(*key, Value::String("echo"));
        }
        TaskResult::builder().outputs(outputs).build().unwrap()
    }
}

fn new_id() -> u128 {
    Uuid::new_v4().as_u128()
}

fn trigger_def<'a>(output: Option<(&'a str, DataType)>) -> TriggerDefinition<'a> {
    let mut b = TriggerSchema::builder();
    if let Some(o) = output {
        b = b.output(o);
    }
    TriggerDefinition::builder().name("trig").schema(b.build().unwrap()).build().unwrap()
}

fn task_def<'a>(inputs: &[(&'a str, DataType)], outputs: &[(&'a str, DataType)]) -> TaskDefinition<'a> {
    let mut b = TaskSchema::builder();
    for (n, t) in inputs {
        b = b.input((*n, InputSpec::new(*t)));
    }
    for (n, t) in outputs {
        b = b.output((*n, OutputSpec::new(*t)));
    }
    TaskDefinition::builder().name("def").schema(b.build().unwrap()).handler(Box::new(EchoHandler)).build().unwrap()
}

#[test]
fn registered_plugin_is_found_and_removed_one_is_not() {
    let mut registry = Registry::new();
    registry.register_plugin(Plugin::builder().name("a").build().unwrap());
    registry.register_plugin(Plugin::builder().name("b").build().unwrap());
    assert_eq!(registry.get_plugin("a").unwrap().name(), "a");
    assert_eq!(registry.get_plugin("b").unwrap().name(), "b");
    assert!(registry.get_plugin("c").is_none());
    let removed = registry.remove_plugin("a");
    assert_eq!(removed.unwrap().name(), "a");
    assert!(registry.get_plugin("a").is_none());
    assert_eq!(registry.get_plugin("b").unwrap().name(), "b");
    assert_eq!(registry.list_plugins(), vec!["b"]);
}

#[test]
fn plugin_task_definition_is_found_by_name() {
    let plugin = Plugin::builder()
        .name("p")
        .task(TaskDefinition::builder().name("t").handler(Box::new(NoOpTaskHandler)).build().unwrap())
        .trigger(trigger_def(None))
        .build()
        .unwrap();
    assert_eq!(plugin.get_task("t").unwrap().name(), "t");
    assert!(plugin.get_task("u").is_none());
    assert_eq!(plugin.get_trigger("trig").unwrap().name(), "trig");
    assert_eq!(plugin.list_tasks(), vec!["t"]);
}

#[test]
fn adding_and_removing_keeps_workflow_keyed() {
    let def = task_def(&[], &[]);
    let tdef = trigger_def(None);
    let mut wf = Workflow::builder().name("wf").build().unwrap();
    let t = Task::builder().name("t").definition(&def).build().unwrap();
    let trig = Trigger::builder().name("g").definition(&tdef).build().unwrap();
    let (tid, gid) = (t.id(), trig.id());
    wf.add_task(t);
    wf.add_trigger(trig);
    assert_eq!(wf.tasks().get(&tid).unwrap().id(), tid);
    assert_eq!(wf.triggers().get(&gid).unwrap().id(), gid);
    wf.remove_trigger(gid);
    assert!(wf.triggers().get(&gid).is_none());
    assert!(wf.tasks().get(&tid).is_some());
}

#[test]
fn removing_a_dependency_removes_every_occurrence() {
    let def = task_def(&[], &[]);
    let a = DependencyRef::Task(1);
    let b = DependencyRef::Trigger(2);
    let mut t = Task::builder().name("t").definition(&def).dependencies(vec![a, b]).build().unwrap();
    t.add_dependency(a);
    assert_eq!(t.dependencies(), &vec![a, b, a]);
    t.remove_dependency(a);
    assert_eq!(t.dependencies(), &vec![b]);
    t.clear_dependencies();
    assert!(t.dependencies().is_empty());
}

#[test]
fn compiled_run_reports_missing_trigger_output() {
    let tdef = trigger_def(Some(("out", DataType::String)));
    let trig = Trigger::builder().name("g").definition(&tdef).build().unwrap();
    let def = task_def(&[("in", DataType::String)], &[]);
    let t = Task::builder().name("t").definition(&def).input(("in", InputBinding::trigger(trig.id(), "out"))).build().unwrap();
    let mut wf = Workflow::builder().name("wf").build().unwrap();
    let gid = trig.id();
    wf.add_trigger(trig);
    wf.add_task(t);
    let compiled = WorkflowCompiler::compile(&wf).unwrap();
    let reg = Registry::new();
    let mut exec = WorkflowExecutor::builder().workflow(&compiled).plugins(&reg).build().unwrap();
    let result = exec.trigger(gid, TriggerResult::default());
    assert_eq!(
        result,
        Err(ExecutionError::MissingDependencyOutput { dependency: DependencyRef::Trigger(gid), output: "out".to_string() })
    );
    assert!(exec.task_results().is_empty());
}

#[test]
fn compiled_run_reports_source_that_did_not_run() {
    let tdef = trigger_def(Some(("out", DataType::String)));
    let trig = Trigger::builder().name("g").definition(&tdef).build().unwrap();
    let root_def = task_def(&[], &[("o1", DataType::String)]);
    let root = Task::builder().name("root").definition(&root_def).build().unwrap();
    let def = task_def(&[("a", DataType::String), ("b", DataType::String)], &[]);
    let t = Task::builder()
        .name("t")
        .definition(&def)
        .input(("a", InputBinding::trigger(trig.id(), "out")))
        .input(("b", InputBinding::task(root.id(), "o1")))
        .build()
        .unwrap();
    let (gid, rid) = (trig.id(), root.id());
    let mut wf = Workflow::builder().name("wf").build().unwrap();
    wf.add_trigger(trig);
    wf.add_task(root);
    wf.add_task(t);
    let compiled = WorkflowCompiler::compile(&wf).unwrap();
    let reg = Registry::new();
    let mut exec = WorkflowExecutor::builder().workflow(&compiled).plugins(&reg).build().unwrap();
    let result = exec.trigger(gid, TriggerResult::builder().output(("out", Value::String("x"))).build().unwrap());
    assert_eq!(result, Err(ExecutionError::FailedDependencyOutput { dependency: DependencyRef::Task(rid) }));
    assert!(exec.get_task_result(&rid).is_none());
}

#[test]
fn compiled_run_reports_unknown_trigger() {
    let wf = Workflow::builder().name("wf").build().unwrap();
    let compiled = WorkflowCompiler::compile(&wf).unwrap();
    let reg = Registry::new();
    let mut exec = WorkflowExecutor::builder().workflow(&compiled).plugins(&reg).build().unwrap();
    let id = new_id();
    assert_eq!(exec.trigger(id, TriggerResult::default()), Err(ExecutionError::TriggerNotFound { id }));
}

#[test]
fn compiled_run_with_trigger_outputs_runs_only_dependents_in_order() {
    let tdef = trigger_def(Some(("out", DataType::String)));
    let trig = Trigger::builder().name("g").definition(&tdef).build().unwrap();
    let d1 = task_def(&[("in", DataType::String)], &[("o", DataType::String)]);
    let d2 = task_def(&[("in", DataType::String)], &[]);
    let t1 = Task::builder().name("t1").definition(&d1).input(("in", InputBinding::trigger(trig.id(), "out"))).build().unwrap();
    let t2 = Task::builder().name("t2").definition(&d2).input(("in", InputBinding::task(t1.id(), "o"))).build().unwrap();
    let other = Task::builder().name("other").definition(&d2).input(("in", InputBinding::literal(Value::String("lit")))).build().unwrap();
    let (gid, id1, id2, ido) = (trig.id(), t1.id(), t2.id(), other.id());
    let mut wf = Workflow::builder().name("wf").build().unwrap();
    wf.add_trigger(trig);
    wf.add_task(t2);
    wf.add_task(other);
    wf.add_task(t1);
    let compiled = WorkflowCompiler::compile(&wf).unwrap();
    let reg = Registry::new();
    let mut exec = WorkflowExecutor::builder().workflow(&compiled).plugins(&reg).build().unwrap();
    let result = exec.trigger(gid, TriggerResult::builder().output(("out", Value::String("x"))).build().unwrap());
    assert_eq!(result, Ok(()));
    assert_eq!(exec.get_task_result(&id1).unwrap().outputs().get("o"), Some(&Value::String("echo")));
    assert!(exec.get_task_result(&id2).is_some());
    assert!(exec.get_task_result(&ido).is_none());
    assert_eq!(exec.task_results().len(), 2);
}

#[test]
fn plain_run_reports_cycle_and_runs_nothing() {
    let tdef = trigger_def(Some(("out", DataType::String)));
    let trig = Trigger::builder().name("g").definition(&tdef).build().unwrap();
    let d = task_def(&[("in", DataType::String)], &[("o", DataType::String)]);
    let a_id = new_id();
    let b_id = new_id();
    let a = Task::builder().id(a_id).name("a").definition(&d).input(("in", InputBinding::task(b_id, "o"))).dependency(DependencyRef::Trigger(trig.id())).build().unwrap();
    let b = Task::builder().id(b_id).name("b").definition(&d).input(("in", InputBinding::task(a_id, "o"))).build().unwrap();
    let gid = trig.id();
    let mut wf = Workflow::builder().name("wf").build().unwrap();
    wf.add_trigger(trig);
    wf.add_task(a);
    wf.add_task(b);
    let reg = Registry::new();
    let mut exec = PlainExecutor::builder().workflow(&wf).plugins(&reg).build().unwrap();
    assert_eq!(exec.execute_from_trigger(gid, TriggerResult::default()), Err(ExecutionError::DependencyCycle));
    assert!(exec.task_results().is_empty());
    match WorkflowCompiler::compile(&wf) {
        Err(CompileError::CyclicDependency { from, to }) => {
            assert_eq!(from, to);
            assert!(from == a_id || from == b_id);
        }
        _ => panic!("expected a cycle"),
    }
}

#[test]
fn plain_run_of_a_compiling_workflow_meets_no_cycle() {
    let tdef = trigger_def(Some(("out", DataType::String)));
    let trig = Trigger::builder().name("g").definition(&tdef).build().unwrap();
    let d = task_def(&[("in", DataType::String)], &[("o", DataType::String)]);
    let t1 = Task::builder().name("t1").definition(&d).input(("in", InputBinding::trigger(trig.id(), "out"))).build().unwrap();
    let t2 = Task::builder().name("t2").definition(&d).input(("in", InputBinding::task(t1.id(), "o"))).build().unwrap();
    let t3 = Task::builder().name("t3").definition(&d).input(("in", InputBinding::literal(Value::String("v")))).build().unwrap();
    let (gid, id1, id2, id3) = (trig.id(), t1.id(), t2.id(), t3.id());
    let mut wf = Workflow::builder().name("wf").build().unwrap();
    wf.add_trigger(trig.clone());
    wf.add_task(t1);
    wf.add_task(t2);
    wf.add_task(t3);
    assert!(WorkflowCompiler::compile(&wf).is_ok());
    let reg = Registry::new();
    let mut exec = PlainExecutor::builder().workflow(&wf).plugins(&reg).build().unwrap();
    let reachable = exec.reachable_tasks(&trig);
    assert_eq!(reachable.len(), 2);
    assert!(reachable.contains(&DependencyRef::Task(id1)));
    assert!(reachable.contains(&DependencyRef::Task(id2)));
    assert!(!reachable.contains(&DependencyRef::Task(id3)));
    let result = exec.execute_from_trigger(gid, TriggerResult::builder().output(("out", Value::String("x"))).build().unwrap());
    assert_eq!(result, Ok(()));
    assert!(exec.get_task_result(&id2).is_some());
    assert!(exec.get_task_result(&id3).is_none());
}

#[test]
fn compile_reports_each_missing_source() {
    let tdef = trigger_def(Some(("out", DataType::String)));
    let trig = Trigger::builder().name("g").definition(&tdef).build().unwrap();
    let src_def = task_def(&[], &[("o", DataType::String)]);
    let src = Task::builder().name("src").definition(&src_def).build().unwrap();
    let def = task_def(&[("x", DataType::String)], &[]);
    let missing = new_id();
    let cases: Vec<(InputBinding, CompileError)> = vec![
        (InputBinding::task(missing, "o"), CompileError::MissingTaskDependency { input: "x".to_string(), id: missing }),
        (
            InputBinding::task(src.id(), "nope"),
            CompileError::MissingTaskOutput { input: "x".to_string(), output: "nope".to_string(), id: src.id() },
        ),
        (InputBinding::trigger(missing, "out"), CompileError::MissingTriggerDependency { input: "x".to_string(), id: missing }),
        (
            InputBinding::trigger(trig.id(), "nope"),
            CompileError::MissingTriggerOutput { input: "x".to_string(), output: "nope".to_string(), id: trig.id() },
        ),
    ];
    for (binding, expected) in cases {
        let t = Task::builder().name("t").definition(&def).input(("x", binding)).build().unwrap();
        let mut wf = Workflow::builder().name("wf").build().unwrap();
        wf.add_trigger(trig.clone());
        wf.add_task(src.clone());
        wf.add_task(t);
        assert_eq!(WorkflowCompiler::compile(&wf).err(), Some(expected));
    }
}

#[test]
fn compile_reports_reference_input_missing_from_schema() {
    let tdef = trigger_def(Some(("out", DataType::String)));
    let trig = Trigger::builder().name("g").definition(&tdef).build().unwrap();
    let def = task_def(&[], &[]);
    let t = Task::builder().name("t").definition(&def).input(("x", InputBinding::trigger(trig.id(), "out"))).build().unwrap();
    let tid = t.id();
    let mut wf = Workflow::builder().name("wf").build().unwrap();
    wf.add_trigger(trig);
    wf.add_task(t);
    assert_eq!(
        WorkflowCompiler::compile(&wf).err(),
        Some(CompileError::InputNotInSchema { task_id: tid, input: "x".to_string() })
    );
}

#[test]
fn literal_type_mismatch_message_names_both_types() {
    let def = task_def(&[("foo", DataType::Integer)], &[]);
    let result = Task::builder().name("t").definition(&def).input(("foo", InputBinding::literal(Value::String("s")))).build();
    let err = result.err().unwrap();
    assert_eq!(
        err,
        BuilderError::ValidationError("input 'foo' has incompatible type. expected 'Integer' but found 'String(\"s\")'".to_string())
    );
    let result = Task::builder().name("t").definition(&def).input(("bar", InputBinding::literal(Value::Integer(1)))).build();
    assert_eq!(result.err().unwrap().message(), "input 'bar' not defined in schema");
    let e = TaskError::MissingTaskDefinition;
    assert_eq!(e.message(), "task definition is required");
}

#[test]
fn executor_builder_reports_missing_fields_and_defaults() {
    let r = WorkflowExecutor::builder().build();
    assert_eq!(r.err(), Some("`workflow` must be initialized".to_string()));
    let wf = Workflow::builder().name("wf").build().unwrap();
    let compiled = WorkflowCompiler::compile(&wf).unwrap();
    let r = WorkflowExecutor::builder().workflow(&compiled).build();
    assert_eq!(r.err(), Some("`plugins` must be initialized".to_string()));
    let reg = Registry::new();
    let exec = WorkflowExecutor::builder().workflow(&compiled).plugins(&reg).max_parallelism(4).build().unwrap();
    assert_eq!(exec.max_parallelism(), 4);
    assert_eq!(exec.context().as_ref().unwrap().workflow_id(), wf.id());
    let exec = PlainExecutor::builder().workflow(&wf).plugins(&reg).task_state((7, TaskStatus::InProgress)).build().unwrap();
    assert_eq!(exec.max_parallelism(), 1);
    assert_eq!(exec.get_task_state(&7), Some(&TaskStatus::InProgress));
    assert_eq!(exec.context().as_ref().unwrap().workflow_id(), wf.id());
}

#[test]
fn update_task_state_only_changes_known_tasks() {
    let wf = Workflow::builder().name("wf").build().unwrap();
    let reg = Registry::new();
    let mut exec = PlainExecutor::builder().workflow(&wf).plugins(&reg).task_state((1, TaskStatus::Pending)).build().unwrap();
    exec.update_task_state(&1, TaskStatus::Completed);
    exec.update_task_state(&2, TaskStatus::Completed);
    assert_eq!(exec.get_task_state(&1), Some(&TaskStatus::Completed));
    assert_eq!(exec.get_task_state(&2), None);
}

#[test]
fn dependency_ref_text_and_identifier() {
    let id = Uuid::parse_str("67e55044-10b1-426f-9247-bb680e5fe0c8").unwrap().as_u128();
    assert_eq!(DependencyRef::Task(id).to_text(), "Task(67e55044-10b1-426f-9247-bb680e5fe0c8)");
    assert_eq!(DependencyRef::Trigger(id).to_text(), "Trigger(67e55044-10b1-426f-9247-bb680e5fe0c8)");
    assert_eq!(DependencyRef::Trigger(id).id(), id);
}

#[test]
fn fresh_identifiers_differ() {
    let tdef = trigger_def(None);
    let a = Trigger::builder().name("a").definition(&tdef).build().unwrap();
    let b = Trigger::builder().name("b").definition(&tdef).build().unwrap();
    assert_ne!(a.id(), b.id());
}

#[test]
fn value_types_and_copies() {
    assert_eq!(Value::String("s").get_type(), DataType::String);
    assert_eq!(Value::Integer(3).get_type(), DataType::Integer);
    assert_eq!(Value::Float(1.5f64.to_bits()).get_type(), DataType::Float);
    assert_eq!(Value::Boolean(true).get_type(), DataType::Boolean);
    assert_eq!(Value::Json("{}".to_string()).get_type(), DataType::Json);
    assert_eq!(Value::FilePath(std::path::PathBuf::from("/tmp/x")).get_type(), DataType::File);
    assert_eq!(Value::Null.get_type(), DataType::Null);
    let mut m = NameMap::new();
    m.insert("p", Value::FilePath(std::path::PathBuf::from("/tmp/x")));
    m.insert("n", Value::Integer(5));
    let c = copy_outputs(&m);
    assert_eq!(c.keys(), vec![&"p", &"n"]);
    assert_eq!(c.get("p"), Some(&Value::FilePath(std::path::PathBuf::from("/tmp/x"))));
    assert_eq!(c.get("n"), Some(&Value::Integer(5)));
}

#[test]
fn definition_runs_its_handler() {
    let def = task_def(&[], &[("r", DataType::String)]);
    let ctx = TaskContext::builder().task_id(1).task_name("t").task_definition(&def).workflow_id(2).build().unwrap();
    let result = def.execute(&ctx);
    assert_eq!(result.outputs().get("r"), Some(&Value::String("echo")));
    assert_eq!(result.status(), TaskStatus::Pending);
}

#[test]
fn core_error_wraps_each_kind() {
    match CoreError::from(ExecutionError::DependencyCycle) {
        CoreError::Execution(ExecutionError::DependencyCycle) => {}
        other => panic!("unexpected {:?}", other),
    }
    match CoreError::from(TaskError::MissingTaskDefinition) {
        CoreError::Task(TaskError::MissingTaskDefinition) => {}
        other => panic!("unexpected {:?}", other),
    }
    match CoreError::from(CompileError::MissingDependency { id: 3 }) {
        CoreError::Compilation(CompileError::MissingDependency { id: 3 }) => {}
        other => panic!("unexpected {:?}", other),
    }
}

#[test]
fn value_debug_text_writes_variant_and_payload() {
    let values = vec![
        Value::String("a\"b\n"),
        Value::Integer(-42),
        Value::Integer(i64::MIN),
        Value::Float(1.5f64.to_bits()),
        Value::Boolean(true),
        Value::Boolean(false),
        Value::FilePath(std::path::PathBuf::from("/tmp/x y")),
        Value::Null,
    ];
    for v in &values {
        assert_eq!(value_debug_text(v), format!("{:?}", v));
    }
    assert_eq!(value_debug_text(&Value::Integer(-42)), "Integer(-42)");
    assert_eq!(value_debug_text(&Value::Integer(0)), "Integer(0)");
    assert_eq!(value_debug_text(&Value::String("s")), "String(\"s\")");
    assert_eq!(value_debug_text(&Value::Boolean(false)), "Boolean(false)");
    assert_eq!(value_debug_text(&Value::Null), "Null");
    assert_eq!(value_debug_text(&Value::Json("{\"k\": [1, true]}".to_string())), "Json(Object {\"k\": Array [Number(1), Bool(true)]})");
    assert_eq!(value_debug_text(&Value::Json("not json".to_string())), "Json(\"not json\")");
}

#[test]
fn task_context_for_resolves_inputs_and_starts_pending() {
    let tid = new_id();
    let def = task_def(&[("x", DataType::String)], &[]);
    let task = Task::builder()
        .name("t")
        .definition(&def)
        .input(("x", InputBinding::trigger(tid, "out")))
        .build()
        .unwrap();
    let mut outs = NameMap::new();
    outs.insert("out", Value::String("hi"));
    let mut om = RefMap::new();
    om.insert(DependencyRef::Trigger(tid), outs);
    let c = task_context_for(7, &task, &om).ok().unwrap();
    assert_eq!(c.resolved_inputs().get("x"), Some(&Value::String("hi")));
    assert_eq!(c.resolved_inputs().len(), 1);
    assert_eq!(c.task_id(), task.id());
    assert_eq!(c.task_name(), "t");
    assert_eq!(c.workflow_id(), 7);
    assert_eq!(c.status(), TaskStatus::Pending);
    assert_eq!(c.output_collector().len(), 0);
    assert_eq!(c.env().len(), 0);
    assert!(c.cwd().is_none());
    assert!(c.logger().is_none());
    let empty: RefMap<NameMap<&str, Value>> = RefMap::new();
    assert_eq!(
        task_context_for(7, &task, &empty).err(),
        Some(ExecutionError::FailedDependencyOutput { dependency: DependencyRef::Trigger(tid) })
    );
}

#[test]
fn record_task_result_keeps_what_the_handler_returned() {
    let mut outs = NameMap::new();
    outs.insert("o", Value::Integer(3));
    let result = TaskResult::builder().outputs(outs).build().unwrap();
    let mut om: RefMap<NameMap<&str, Value>> = RefMap::new();
    let mut results: HashMap<u128, TaskResult> = HashMap::new();
    record_task_result(9, result, &mut om, &mut results);
    assert_eq!(results.len(), 1);
    assert_eq!(results.get(&9).unwrap().outputs().get("o"), Some(&Value::Integer(3)));
    assert_eq!(om.get(&DependencyRef::Task(9)).unwrap().get("o"), Some(&Value::Integer(3)));
    assert!(om.get(&DependencyRef::Trigger(9)).is_none());
}

#[test]
fn compiled_run_from_trigger_stored_under_another_key_sets_off_nothing() {
    let tdef = trigger_def(Some(("out", DataType::String)));
    let trig = Trigger::builder().name("g").definition(&tdef).build().unwrap();
    let key = new_id();
    let def = task_def(&[], &[("o", DataType::String)]);
    let t = Task::builder().name("t").definition(&def).dependency(DependencyRef::Trigger(key)).build().unwrap();
    let tid = t.id();
    let mut wf = Workflow::builder().name("wf").trigger((key, trig)).build().unwrap();
    wf.add_task(t);
    let compiled = WorkflowCompiler::compile(&wf).unwrap();
    let reg = Registry::new();
    let mut exec = WorkflowExecutor::builder().workflow(&compiled).plugins(&reg).build().unwrap();
    assert_eq!(exec.trigger(key, TriggerResult::default()), Ok(()));
    assert!(exec.get_task_result(&tid).is_none());
    assert!(exec.task_results().is_empty());
}

#[test]
fn per_task_checks_report_their_own_faults() {
    let tdef = trigger_def(Some(("out", DataType::String)));
    let trig = Trigger::builder().name("g").definition(&tdef).build().unwrap();
    let gid = trig.id();
    let def = task_def(&[("x", DataType::Integer)], &[]);
    let t = Task::builder().name("t").definition(&def).input(("x", InputBinding::trigger(gid, "out"))).build().unwrap();
    let missing = new_id();
    let u = Task::builder().name("u").definition(&def).dependency(DependencyRef::Task(missing)).build().unwrap();
    let mut wf = Workflow::builder().name("wf").build().unwrap();
    wf.add_trigger(trig);
    let compiler = WorkflowCompiler;
    assert_eq!(compiler.verify_task_dependencies(&wf, &t), Ok(()));
    assert_eq!(
        compiler.verify_task_dependencies(&wf, &u),
        Err(CompileError::MissingDependency { id: missing })
    );
    assert_eq!(compiler.validate_task_input_types(&wf, &u), Ok(()));
    let mismatch = CompileError::InputTypeMismatch {
        task_id: t.id(),
        input: "x".to_string(),
        expected: DataType::Integer,
        found: DataType::String,
        reference: DependencyRef::Trigger(gid),
        output: "out".to_string(),
    };
    assert_eq!(compiler.validate_task_input_types(&wf, &t), Err(mismatch.clone()));
    assert_eq!(compiler.validate_reference(&wf, &t, "x", DependencyRef::Trigger(gid), "out"), Err(mismatch));
    assert_eq!(
        compiler.validate_reference(&wf, &t, "y", DependencyRef::Trigger(gid), "out"),
        Err(CompileError::InputNotInSchema { task_id: t.id(), input: "y".to_string() })
    );
}

#[test]
fn compile_reports_fault_of_task_stored_under_another_key() {
    let def = task_def(&[], &[]);
    let missing = new_id();
    let t = Task::builder().name("t").definition(&def).dependency(DependencyRef::Task(missing)).build().unwrap();
    let wf = Workflow::builder().name("wf").task((new_id(), t)).build().unwrap();
    assert_eq!(WorkflowCompiler::compile(&wf).err(), Some(CompileError::MissingDependency { id: missing }));
}

#[test]
fn runs_from_trigger_carrying_another_triggers_id_follow_that_trigger() {
    let tdef = trigger_def(Some(("out", DataType::String)));
    let b = Trigger::builder().name("b").definition(&tdef).build().unwrap();
    let bid = b.id();
    let a = Trigger::builder().id(bid).name("a").definition(&tdef).build().unwrap();
    let akey = new_id();
    let def = task_def(&[("in", DataType::String)], &[("o", DataType::String)]);
    let t = Task::builder().name("t").definition(&def).input(("in", InputBinding::trigger(bid, "out"))).build().unwrap();
    let tid = t.id();
    let mut wf = Workflow::builder().name("wf").trigger((akey, a)).build().unwrap();
    wf.add_trigger(b);
    wf.add_task(t);
    let reg = Registry::new();
    let out = || TriggerResult::builder().output(("out", Value::String("x"))).build().unwrap();
    let expected = Err(ExecutionError::FailedDependencyOutput { dependency: DependencyRef::Trigger(bid) });
    let mut plain = PlainExecutor::builder().workflow(&wf).plugins(&reg).build().unwrap();
    assert_eq!(plain.execute_from_trigger(akey, out()), expected.clone());
    assert!(plain.get_task_result(&tid).is_none());
    let compiled = WorkflowCompiler::compile(&wf).unwrap();
    let mut exec = WorkflowExecutor::builder().workflow(&compiled).plugins(&reg).build().unwrap();
    assert_eq!(exec.trigger(akey, out()), expected);
    assert!(exec.get_task_result(&tid).is_none());
    assert_eq!(exec.trigger(bid, out()), Ok(()));
    assert_eq!(exec.get_task_result(&tid).unwrap().outputs().get("o"), Some(&Value::String("echo")));
}

#[test]
fn name_map_clone_keeps_names_in_order() {
    let mut m = NameMap::new();
    m.insert("b", Value::Integer(2));
    m.insert("a", Value::String("x"));
    let c = m.clone();
    assert_eq!(c.len(), 2);
    assert_eq!(c.keys(), vec![&"b", &"a"]);
    assert_eq!(c.get("a"), Some(&Value::String("x")));
    assert_eq!(c.get("b"), Some(&Value::Integer(2)));
}

#[test]
fn plain_run_ignores_unreached_task_stored_under_another_key() {
    let tdef = trigger_def(Some(("out", DataType::String)));
    let trig = Trigger::builder().name("g").definition(&tdef).build().unwrap();
    let gid = trig.id();
    let def = task_def(&[("in", DataType::String)], &[("o", DataType::String)]);
    let t = Task::builder().name("t").definition(&def).input(("in", InputBinding::trigger(gid, "out"))).build().unwrap();
    let tid = t.id();
    let lone = Task::builder().name("lone").definition(&def).input(("in", InputBinding::literal(Value::String("l")))).build().unwrap();
    let lone_key = new_id();
    let mut wf = Workflow::builder().name("wf").task((lone_key, lone)).build().unwrap();
    wf.add_trigger(trig);
    wf.add_task(t);
    let reg = Registry::new();
    let mut exec = PlainExecutor::builder().workflow(&wf).plugins(&reg).build().unwrap();
    let out = TriggerResult::builder().output(("out", Value::String("x"))).build().unwrap();
    assert_eq!(exec.execute_from_trigger(gid, out), Ok(()));
    assert_eq!(exec.get_task_result(&tid).unwrap().outputs().get("o"), Some(&Value::String("echo")));
    assert_eq!(exec.task_results().len(), 1);
}
