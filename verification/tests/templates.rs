use dag_engine::code_executor::{select_runtime, script_bindings, CodeExecutionError, CodeExecutor, ScriptConfig, ScriptRuntime};
use dag_engine::engine::EngineError;
use dag_engine::execution::{ExecutionContext, ExecutionResult, NodeExecutionResult};
use dag_engine::executors::{LoopExecutor, SubWorkflowExecutor, TryCatchExecutor, WhileStep};
use dag_engine::node::{SubWorkflowConfig, TryCatchConfig};
use dag_engine::templating::{execute_expression, resolve_template, resolve_with_captures, ExprValue};
use dag_engine::conditional::ConditionalEvaluator;

fn vars() -> Vec<(String, String)> {
    vec![
        ("name".to_string(), "\"Alice\"".to_string()),
        ("count".to_string(), "3".to_string()),
        ("items".to_string(), "[1, \"two\", true]".to_string()),
        ("obj".to_string(), "{\"a\": 1}".to_string()),
    ]
}

#[test]
fn template_replaces_placeholders() {
    let r = resolve_template("Hello {{ name }}, you have {{count}} items", &vars());
    assert_eq!(r, Ok("Hello Alice, you have 3 items".to_string()));
    let r = resolve_template("obj={{obj}}", &vars());
    assert_eq!(r, Ok("obj={\"a\":1}".to_string()));
    assert_eq!(resolve_template("no placeholders", &vars()), Ok("no placeholders".to_string()));
}

#[test]
fn template_missing_variable() {
    let r = resolve_template("{{name}} and {{ missing }}", &vars());
    assert_eq!(r, Err(EngineError::VariableNotFound("missing".to_string())));
}

#[test]
fn template_from_given_matches() {
    let caps = vec![vec![Some("{{x}}".to_string()), Some("x".to_string())]];
    let v = vec![("x".to_string(), "\"7\"".to_string())];
    assert_eq!(resolve_with_captures("a{{x}}b{{x}}", &caps, &v), Ok("a7b7".to_string()));
}

#[test]
fn expression_json_or_text() {
    assert_eq!(execute_expression("{{count}}", &vars()), Ok(ExprValue::Json("3".to_string())));
    assert_eq!(execute_expression("hello {{name}}", &vars()), Ok(ExprValue::Text("hello Alice".to_string())));
    assert_eq!(execute_expression("{\"k\": {{count}}}", &vars()), Ok(ExprValue::Json("{\"k\": 3}".to_string())));
}

fn try_config(try_e: &str, catch_e: Option<&str>, finally_e: Option<&str>, rethrow: bool) -> TryCatchConfig {
    TryCatchConfig {
        try_expression: try_e.to_string(),
        catch_expression: catch_e.map(|s| s.to_string()),
        finally_expression: finally_e.map(|s| s.to_string()),
        rethrow,
        error_variable: "error".to_string(),
    }
}

#[test]
fn try_succeeds() {
    let r = TryCatchExecutor::execute(&try_config("{{count}}", None, None, false), &vars()).unwrap();
    assert!(r.succeeded);
    assert_eq!(r.try_result, Some(ExprValue::Json("3".to_string())));
    assert_eq!(r.error, None);
}

#[test]
fn catch_handles_failure() {
    let r = TryCatchExecutor::execute(&try_config("{{nope}}", Some("caught: {{error}}"), None, false), &vars()).unwrap();
    assert!(r.succeeded);
    assert_eq!(r.try_result, None);
    assert_eq!(r.catch_result, Some(ExprValue::Text("caught: Variable not found: nope".to_string())));
    assert_eq!(r.error, Some("Variable not found: nope".to_string()));
}

#[test]
fn catch_with_rethrow_fails() {
    let r = TryCatchExecutor::execute(&try_config("{{nope}}", Some("ok"), None, true), &vars()).unwrap();
    assert!(!r.succeeded);
    assert_eq!(r.catch_result, Some(ExprValue::Text("ok".to_string())));
}

#[test]
fn catch_failure_and_finally_failure() {
    let r = TryCatchExecutor::execute(&try_config("{{a}}", Some("{{b}}"), Some("{{c}}"), false), &vars()).unwrap();
    assert!(!r.succeeded);
    assert_eq!(
        r.error,
        Some(
            "Try failed: Variable not found: a. Catch also failed: Variable not found: b. Finally block failed: Variable not found: c"
                .to_string()
        )
    );
}

#[test]
fn finally_runs_after_success() {
    let r = TryCatchExecutor::execute(&try_config("1", None, Some("{{name}}"), false), &vars()).unwrap();
    assert!(r.succeeded);
    assert_eq!(r.finally_result, Some(ExprValue::Text("Alice".to_string())));
}

#[test]
fn foreach_over_items() {
    let r = LoopExecutor::execute_foreach("items", &"item".to_string(), Some(&"i".to_string()), "{{i}}:{{item}}", &vars(), 10);
    assert_eq!(
        r,
        Ok(vec![
            ExprValue::Text("0:1".to_string()),
            ExprValue::Text("1:two".to_string()),
            ExprValue::Text("2:true".to_string()),
        ])
    );
}

#[test]
fn foreach_errors() {
    assert_eq!(
        LoopExecutor::execute_foreach("missing", &"x".to_string(), None, "1", &vars(), 10),
        Err(EngineError::VariableNotFound("missing".to_string()))
    );
    assert_eq!(
        LoopExecutor::execute_foreach("obj", &"x".to_string(), None, "1", &vars(), 10),
        Err(EngineError::ExecutionError("Variable 'obj' is not an array (got: {\"a\":1})".to_string()))
    );
    assert_eq!(
        LoopExecutor::execute_foreach("items", &"x".to_string(), None, "1", &vars(), 2),
        Err(EngineError::ExecutionError("Collection size 3 exceeds max_iterations 2".to_string()))
    );
}

#[test]
fn repeat_counts() {
    let r = LoopExecutor::execute_repeat("{{count}}", "{{k}}", Some(&"k".to_string()), &vars(), 5);
    assert_eq!(
        r,
        Ok(vec![ExprValue::Json("0".to_string()), ExprValue::Json("1".to_string()), ExprValue::Json("2".to_string())])
    );
    assert_eq!(LoopExecutor::execute_repeat("+2", "x", None, &vars(), 5).map(|v| v.len()), Ok(2));
}

#[test]
fn repeat_errors() {
    assert_eq!(
        LoopExecutor::execute_repeat("abc", "x", None, &vars(), 5),
        Err(EngineError::ExecutionError("Failed to parse count 'abc' as integer: invalid digit found in string".to_string()))
    );
    assert_eq!(
        LoopExecutor::execute_repeat("", "x", None, &vars(), 5),
        Err(EngineError::ExecutionError("Failed to parse count '' as integer: cannot parse integer from empty string".to_string()))
    );
    assert_eq!(
        LoopExecutor::execute_repeat("99999999999999999999999", "x", None, &vars(), 5),
        Err(EngineError::ExecutionError(
            "Failed to parse count '99999999999999999999999' as integer: number too large to fit in target type".to_string()
        ))
    );
    assert_eq!(
        LoopExecutor::execute_repeat("6", "x", None, &vars(), 5),
        Err(EngineError::ExecutionError("Repeat count 6 exceeds max_iterations 5".to_string()))
    );
}

#[test]
fn while_loop_steps() {
    assert_eq!(LoopExecutor::while_step(5, 5, true), WhileStep::LimitExceeded);
    assert_eq!(LoopExecutor::while_step(1, 5, false), WhileStep::Finish);
    assert_eq!(LoopExecutor::while_step(1, 5, true), WhileStep::RunBody);
    assert_eq!(
        LoopExecutor::while_limit_error(7),
        EngineError::ExecutionError("While loop exceeded max_iterations 7".to_string())
    );
    let v = LoopExecutor::while_vars(&vars(), Some(&"n".to_string()), 4);
    assert!(v.contains(&("n".to_string(), "4".to_string())));
}

#[test]
fn sub_workflow_inputs() {
    let config = SubWorkflowConfig {
        workflow_path: "sub.json".to_string(),
        input_mappings: vec![
            ("who".to_string(), "{{name}}".to_string()),
            ("greeting".to_string(), "hi {{name}}".to_string()),
        ],
        output_variable: Some("result".to_string()),
        inherit_context: false,
    };
    let v = SubWorkflowExecutor::sub_variables(&config, &vars()).unwrap();
    assert_eq!(
        v,
        vec![("who".to_string(), "\"Alice\"".to_string()), ("greeting".to_string(), "\"hi Alice\"".to_string())]
    );
    let out = SubWorkflowExecutor::output_of(&config, &vec![]);
    assert_eq!(out, Some("null".to_string()));
    let inherit = SubWorkflowConfig { inherit_context: true, input_mappings: vec![], ..config };
    assert_eq!(SubWorkflowExecutor::sub_variables(&inherit, &vars()).unwrap().len(), 4);
}

#[test]
fn runtime_selection() {
    let mut c = ScriptConfig { runtime: "RHAI".to_string(), code: "1".to_string(), inputs: vec![], output: "o".to_string() };
    assert_eq!(select_runtime(&c), Ok(ScriptRuntime::Rhai));
    c.runtime = "Rust".to_string();
    assert_eq!(select_runtime(&c), Ok(ScriptRuntime::Rhai));
    c.runtime = "wasm".to_string();
    assert_eq!(
        select_runtime(&c),
        Err(CodeExecutionError::UnsupportedRuntime("WASM support not enabled. Enable the 'wasm' feature.".to_string()))
    );
    c.runtime = "python".to_string();
    assert_eq!(select_runtime(&c), Err(CodeExecutionError::UnsupportedRuntime("python".to_string())));
    assert_eq!(CodeExecutionError::InputNotFound("x".to_string()).message(), "Input variable not found: x");
}

#[test]
fn script_inputs_bound() {
    let mut ctx = ExecutionContext::new_with(1, 2, 0);
    ctx.set_variable("x".to_string(), "10".to_string());
    ctx.record_node_result(
        0x0123456789abcdef0123456789abcdef,
        NodeExecutionResult::new_at(0).complete_at(ExecutionResult::Success("5".to_string()), 1),
    );
    let config = ScriptConfig { runtime: "rhai".to_string(), code: "x".to_string(), inputs: vec!["x".to_string()], output: "o".to_string() };
    let b = script_bindings(&config, &ctx).unwrap();
    assert_eq!(
        b,
        vec![
            ("x".to_string(), "10".to_string()),
            ("node_01234567_89ab_cdef_0123_456789abcdef".to_string(), "5".to_string()),
        ]
    );
    let missing = ScriptConfig { inputs: vec!["x".to_string(), "y".to_string()], ..config };
    assert_eq!(script_bindings(&missing, &ctx), Err(CodeExecutionError::InputNotFound("y".to_string())));
}

#[test]
fn code_executor_limits() {
    let e = CodeExecutor::new();
    assert_eq!((e.timeout_ms, e.max_operations), (5000, 1_000_000));
    let e = e.with_timeout(100).with_max_operations(7);
    assert_eq!((e.timeout_ms, e.max_operations), (100, 7));
}

fn as_json(v: &ExprValue) -> serde_json::Value {
    match v {
        ExprValue::Json(t) => serde_json::from_str(t).unwrap(),
        ExprValue::Text(s) => serde_json::Value::String(s.clone()),
    }
}

fn empty_vars() -> Vec<(String, String)> {
    Vec::new()
}

#[test]
fn test_try_success() {
    let config = try_config("success", None, None, false);
    let result = TryCatchExecutor::execute(&config, &empty_vars()).unwrap();
    assert!(result.succeeded);
    assert!(result.try_result.is_some());
    assert!(result.catch_result.is_none());
    assert!(result.error.is_none());
}

#[test]
fn test_try_failure_with_catch() {
    let config = try_config("{{nonexistent}}", Some("caught error: {{error}}"), None, false);
    let result = TryCatchExecutor::execute(&config, &empty_vars()).unwrap();
    assert!(result.succeeded);
    assert!(result.try_result.is_none());
    assert!(result.catch_result.is_some());
    assert!(result.error.is_some());
}

#[test]
fn test_try_failure_with_rethrow() {
    let config = try_config("{{nonexistent}}", Some("logging error"), None, true);
    let result = TryCatchExecutor::execute(&config, &empty_vars()).unwrap();
    assert!(!result.succeeded);
    assert!(result.catch_result.is_some());
    assert!(result.error.is_some());
}

#[test]
fn test_finally_always_executes() {
    let vars = vec![("value".to_string(), "\"test\"".to_string())];
    let config = try_config("{{value}}", None, Some("cleanup done"), false);
    let result = TryCatchExecutor::execute(&config, &vars).unwrap();
    assert!(result.succeeded);
    assert!(result.try_result.is_some());
    assert!(result.finally_result.is_some());
}

#[test]
fn test_finally_executes_on_error() {
    let config = try_config("{{nonexistent}}", Some("handled"), Some("cleanup done"), false);
    let result = TryCatchExecutor::execute(&config, &empty_vars()).unwrap();
    assert!(result.succeeded);
    assert!(result.catch_result.is_some());
    assert!(result.finally_result.is_some());
}

#[test]
fn test_foreach_loop() {
    let vars = vec![("items".to_string(), "[\"apple\", \"banana\", \"cherry\"]".to_string())];
    let results =
        LoopExecutor::execute_foreach("items", &"item".to_string(), Some(&"idx".to_string()), "{{item}}", &vars, 1000)
            .unwrap();
    assert_eq!(results.len(), 3);
    assert_eq!(as_json(&results[0]), serde_json::Value::String("apple".to_string()));
    assert_eq!(as_json(&results[1]), serde_json::Value::String("banana".to_string()));
    assert_eq!(as_json(&results[2]), serde_json::Value::String("cherry".to_string()));
}

#[test]
fn test_repeat_loop() {
    let vars = vec![("count".to_string(), "5".to_string())];
    let results =
        LoopExecutor::execute_repeat("{{count}}", "iteration {{idx}}", Some(&"idx".to_string()), &vars, 1000).unwrap();
    assert_eq!(results.len(), 5);
    assert_eq!(as_json(&results[0]), serde_json::Value::String("iteration 0".to_string()));
    assert_eq!(as_json(&results[4]), serde_json::Value::String("iteration 4".to_string()));
}

#[test]
fn test_while_loop() {
    let mut ctx = ExecutionContext::new(1);
    ctx.set_variable("max".to_string(), "3".to_string());
    let results =
        LoopExecutor::execute_while("counter < 3", "count: {{counter}}", Some(&"counter".to_string()), &ctx, 1000).unwrap();
    assert_eq!(results.len(), 3);
    assert_eq!(as_json(&results[0]), serde_json::Value::String("count: 0".to_string()));
    assert_eq!(as_json(&results[2]), serde_json::Value::String("count: 2".to_string()));
}

#[test]
fn while_loop_hits_its_limit() {
    let ctx = ExecutionContext::new(1);
    let r = LoopExecutor::execute_while("true", "x", None, &ctx, 5);
    assert_eq!(r, Err(EngineError::ExecutionError("While loop exceeded max_iterations 5".to_string())));
}

#[test]
fn test_max_iterations_limit() {
    let items: Vec<String> = vec!["\"a\"".to_string(); 1500];
    let vars = vec![("items".to_string(), format!("[{}]", items.join(",")))];
    let result = LoopExecutor::execute_foreach("items", &"item".to_string(), None, "{{item}}", &vars, 1000);
    assert!(result.is_err());
    assert!(result.unwrap_err().message().contains("exceeds max_iterations"));
}
