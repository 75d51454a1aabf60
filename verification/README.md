# autoflow

A workflow engine: plugins provide task and trigger definitions, a workflow holds
task and trigger instances, the compiler checks a workflow (every dependency exists,
every reference input names a declared output of the right type, no dependency cycle)
and builds its dependency graph, and an executor runs the tasks that a trigger sets off,
each after what it depends on, resolving their inputs from literals and from the outputs
of the trigger and of earlier tasks.

The library in `src/` is written in Verus: its functions state what they do in their
`requires` and `ensures`, and Verus proves it. What lies outside the library is named
rather than described: a task's handler is user code, so what it returns is only named
(`handled`: a result the handler can return on a given context), and the run states
with which context each handler is called and that its return is what gets recorded.
The calls into `petgraph`, `uuid`, `serde_json` and std's formatting are trusted items
whose contracts say what those crates document. The main modules:

- `workflow`, `task`, `trigger`, `plugin`: the data, with builders and accessors.
- `compiler`: compilation, stated over the model in `compiler/model.rs`.
- `executor`: the run of a compiled workflow; `executor/run.rs` is the run loop that
  both executors share, `executor/model.rs` states what a run offers to task inputs.
- `workflow::execution`: the executor that runs a workflow as it stands, finding the
  tasks a trigger sets off by following dependents and reporting cycles among them.
- `digraph`: the dependency graph, a `petgraph` graph behind a few trusted calls.
- `laws`: properties that relate several operations.

`app/` holds what stays outside the verified library: a progress-reporting trait that
works with floating point, conversions between floats or JSON documents and library
values, and error types with `Display` messages.
