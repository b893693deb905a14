use dag_engine::conditional::ConditionalEvaluator;
use dag_engine::engine::EngineError;
use dag_engine::execution::{ExecutionContext, ExecutionResult, NodeExecutionResult};
use uuid::Uuid;

fn node_var(id: u128) -> String {
    format!("node_{}", Uuid::from_u128(id).to_string().replace('-', "_"))
}

#[test]
fn test_simple_boolean_expression() {
    let mut ctx = ExecutionContext::new(Uuid::new_v4().as_u128());
    ctx.set_variable("x".to_string(), "10".to_string());
    ctx.set_variable("y".to_string(), "5".to_string());

    let evaluator = ConditionalEvaluator::new(&ctx).unwrap();

    assert!(evaluator.evaluate("x > y").unwrap());
    assert!(!evaluator.evaluate("x < y").unwrap());
    assert!(evaluator.evaluate("x == 10").unwrap());
    assert!(evaluator.evaluate("x > 5 && y < 10").unwrap());
    assert!(!evaluator.evaluate("x > 5 && y > 10").unwrap());
}

#[test]
fn test_string_comparison() {
    let mut ctx = ExecutionContext::new(Uuid::new_v4().as_u128());
    ctx.set_variable("status".to_string(), "\"success\"".to_string());

    let evaluator = ConditionalEvaluator::new(&ctx).unwrap();

    assert!(evaluator.evaluate("status == \"success\"").unwrap());
    assert!(!evaluator.evaluate("status == \"failed\"").unwrap());
}

#[test]
fn test_jsonpath_query() {
    let mut ctx = ExecutionContext::new(Uuid::new_v4().as_u128());

    let node_id = Uuid::new_v4().as_u128();
    let mut node_result = NodeExecutionResult::new();
    node_result = node_result.complete(ExecutionResult::Success(
        "{\"user\": {\"age\": 25, \"name\": \"Alice\"}}".to_string(),
    ));

    ctx.record_node_result(node_id, node_result);

    let evaluator = ConditionalEvaluator::new(&ctx).unwrap();

    let var_name = node_var(node_id);
    let expr = format!("${}.user.age > 20", var_name);
    assert!(evaluator.evaluate(&expr).unwrap());

    let expr2 = format!("${}.user.age < 20", var_name);
    assert!(!evaluator.evaluate(&expr2).unwrap());
}

#[test]
fn test_complex_expression() {
    let mut ctx = ExecutionContext::new(Uuid::new_v4().as_u128());
    ctx.set_variable("score".to_string(), "85".to_string());
    ctx.set_variable("passed".to_string(), "true".to_string());

    let evaluator = ConditionalEvaluator::new(&ctx).unwrap();

    assert!(evaluator.evaluate("score >= 80 && passed == true").unwrap());
    assert!(evaluator
        .evaluate("(score > 90) || (score >= 80 && passed)")
        .unwrap());
}

#[test]
fn string_found_by_a_query_is_quoted() {
    let mut ctx = ExecutionContext::new_with(1, 2, 0);
    let node_id: u128 = 0x1234_5678_9abc_def0_1234_5678_9abc_def0;
    let result = NodeExecutionResult::new_at(0)
        .complete_at(ExecutionResult::Success("{\"user\": {\"name\": \"Alice\"}}".to_string()), 5);
    ctx.record_node_result(node_id, result);
    let evaluator = ConditionalEvaluator::new(&ctx).unwrap();
    let expr = format!("${}.user.name == \"Alice\"", node_var(node_id));
    let resolved = evaluator.resolve_jsonpath(&expr).unwrap();
    assert_eq!(resolved, "\"Alice\" == \"Alice\"");
    assert!(evaluator.evaluate(&expr).unwrap());
}

#[test]
fn variable_reference_uses_its_value() {
    let mut ctx = ExecutionContext::new_with(1, 2, 0);
    ctx.set_variable("order".to_string(), "{\"total\": 120, \"paid\": true}".to_string());
    let evaluator = ConditionalEvaluator::new(&ctx).unwrap();
    assert_eq!(evaluator.resolve_jsonpath("$order.total > 100").unwrap(), "120 > 100");
    assert!(evaluator.evaluate("$order.total > 100 && $order.paid").unwrap());
}

#[test]
fn unknown_reference_is_left_in_place() {
    let ctx = ExecutionContext::new_with(1, 2, 0);
    let evaluator = ConditionalEvaluator::new(&ctx).unwrap();
    assert_eq!(evaluator.resolve_jsonpath("$missing.field > 1").unwrap(), "$missing.field > 1");
    let failed_node: u128 = 77;
    let mut ctx2 = ExecutionContext::new_with(1, 2, 0);
    ctx2.record_node_result(
        failed_node,
        NodeExecutionResult::new_at(0).complete_at(ExecutionResult::Failure("boom".to_string()), 1),
    );
    let evaluator2 = ConditionalEvaluator::new(&ctx2).unwrap();
    let expr = format!("${}.a == 1", node_var(failed_node));
    assert_eq!(evaluator2.resolve_jsonpath(&expr).unwrap(), expr);
}

#[test]
fn query_that_finds_nothing_leaves_text() {
    let mut ctx = ExecutionContext::new_with(1, 2, 0);
    ctx.set_variable("cfg".to_string(), "{\"a\": 1}".to_string());
    let evaluator = ConditionalEvaluator::new(&ctx).unwrap();
    assert_eq!(evaluator.resolve_jsonpath("$cfg.b == 1").unwrap(), "$cfg.b == 1");
}

#[test]
fn evaluation_failure_is_an_execution_error() {
    let mut ctx = ExecutionContext::new_with(1, 2, 0);
    ctx.set_variable("x".to_string(), "1".to_string());
    let evaluator = ConditionalEvaluator::new(&ctx).unwrap();
    match evaluator.evaluate("x + 1") {
        Err(EngineError::ExecutionError(m)) => assert!(m.starts_with("Expression evaluation failed: ")),
        other => panic!("unexpected {:?}", other),
    }
}

#[test]
fn node_outputs_become_variables() {
    let mut ctx = ExecutionContext::new_with(1, 2, 0);
    let id: u128 = 5;
    ctx.record_node_result(id, NodeExecutionResult::new_at(0).complete_at(ExecutionResult::Success("3".to_string()), 1));
    let evaluator = ConditionalEvaluator::new(&ctx).unwrap();
    assert!(evaluator.evaluate(&format!("{} == 3", node_var(id))).unwrap());
    assert_eq!(evaluator.outputs, vec![(id, Some("3".to_string()))]);
}
