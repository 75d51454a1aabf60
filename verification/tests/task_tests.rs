use autoflow::name_map::NameMap;
use autoflow::task::{DataType, InputBinding, InputSpec, NoOpTaskHandler, Task, TaskDefinition, TaskSchema};
use autoflow::Value;
use uuid::Uuid;

#[test]
fn test_literal_type_mismatch_returns_error() {
    // Build a schema expecting an Integer input named "foo"
    let mut input_specs = NameMap::new();
    input_specs.insert("foo", InputSpec::new(DataType::Integer));
    let schema = TaskSchema::builder().inputs(input_specs).build().unwrap();

    // Dummy TaskDefinition with the schema
    let def = TaskDefinition::builder()
        .name("test")
        .schema(schema)
        .handler(Box::new(NoOpTaskHandler))
        .build()
        .unwrap();

    // Build a Task with a String value for "foo" (should be Integer)
    let result = Task::builder()
        .id(Uuid::new_v4().as_u128())
        .name("bad_task")
        .definition(&def)
        .input(("foo", InputBinding::literal(Value::String("not an int"))))
        .build();

    assert!(
        result.is_err(),
        "Expected error for type mismatch, got: {:?}",
        result.as_ref().err()
    );
    let err = result.err().unwrap();
    assert!(
        err.message().contains("incompatible type"),
        "Error message should mention incompatible type, got: {}",
        err.message()
    );
}
