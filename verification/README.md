# dag_engine

A workflow engine for directed acyclic graphs of nodes, written in Verus. Its logic
is proved against its contracts. Workflows are checked, ordered level by level and run
node by node, and the engine can also schedule runs with cron expressions, receive
webhooks and call REST services.

## Layout

- `src/`: the verified library.
  - `workflow.rs`, `node.rs`, `builder.rs`, `validation.rs`, `linter.rs`: the workflow
    model, its builder and its checks.
  - `graph.rs`, `dfs.rs`, `engine.rs`, `execution.rs`, `node_step.rs`, `executors.rs`,
    `conditional.rs`, `template.rs`, `templating.rs`: execution levels, run state and
    what each kind of node computes.
  - `scheduler.rs`, `schedule.rs`: the book of cron schedules and the decisions the
    scheduler loop takes.
  - `webhook.rs`, `event_bus.rs`, `sse.rs`: webhook handling, workflow events and
    their triggers, and server-sent event connections.
  - `rest.rs`, `auth.rs`, `rest_response.rs`, `rate_limit.rs`: REST requests,
    authentication, caching, rate limits and the circuit breaker.
  - `storage.rs`, `variable_store.rs`, `db_utils.rs`, `query_builder.rs`, `tls.rs`,
    `server.rs`, `json_schema.rs`, `visualization.rs`, `testing.rs`: the rest of the
    services.
  - `laws.rs`: properties that relate several operations.
- `tests/`: tests of the library on concrete values.
- `app/`: what runs around the library: the asynchronous loops, HTTP, files, logging,
  scripts and the serde forms of the library's types.

Calls into outside crates (serde_json, regex, evalexpr, cron, chrono, uuid, hmac,
base64, hex and others) are made by small trusted functions. Each one's doc comment
says what its contract claims of the outside function.
