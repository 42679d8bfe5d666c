# control_plane

The decisions of a workflow control plane, written in Verus and proved against their contracts:
JSON documents held as plain values, model definitions and their grants, model provider
configuration (splitting, masking, fingerprints, instance updates, preview sessions and the
writes of a validation), the interface catalog of MCP management, and the orchestration runtime's
decisions (data model nodes and their side effects, callback completion, debug stream events,
answer presentation, run observability, gateway billing records).

- `src/` is the verified library. `src/outside.rs` holds the few calls into outside crates
  (`serde_json`, `sha2`, `uuid`, `regex`, `time`, `rand_core`), each with the contract it is
  trusted to keep.
- `src/orchestration_runtime/run_steps.rs` holds the long-running service operations as steps
  from a state and an event to the next state and an action: preparing a queued debug run,
  continuing a run node by node, previewing one node, starting a published run and finishing
  a continued one. `app/runs.rs` runs those loops against
  the stores, and completes callback tasks with the decisions of `callbacks.rs`. The same shape
  serves the validation of a model provider instance (`validate_instance_step`, run by
  `app/model_provider.rs`) and the idempotent data model write (`write_step`, run by
  `app/data_model.rs`).
- `tests/` runs the library on concrete values.
- `app/` is the edge around it: conversions to and from `serde_json::Value` and `uuid::Uuid`, and
  the asynchronous code that stores events, makes data model writes and drives the run loops as
  the library decides.

What is not here: the flow compiler, the execution engine that runs a node, the repositories and
their ports, and the domain types live in crates of their own that this library does not contain.
The steps above take what those produce (a compiled plan, a node's outcome, a stored record) as
arguments. Of the services, only the model definition service runs whole here, over the
verified in-memory repository (scope grants created, changed and withdrawn with their audit
events); the others hold their constructors, and their operations are the decision functions
of their modules.
