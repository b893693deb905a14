use dag_engine::execution::{
    ExecutionContext, ExecutionResult, ExecutionState, NodeExecutionResult, NodeMetrics, TokenUsage,
};
use uuid::Uuid;

fn fresh() -> u128 {
    Uuid::new_v4().as_u128()
}

#[test]
fn test_execution_context() {
    let workflow_id = fresh();
    let mut ctx = ExecutionContext::new(workflow_id);
    let node_id = fresh();
    let result = NodeExecutionResult::new().complete(ExecutionResult::Success("{\"output\": \"test\"}".to_string()));
    ctx.record_node_result(node_id, result);
    assert!(ctx.get_node_result(&node_id).is_some());
    assert_eq!(ctx.state, ExecutionState::Running);
}

#[test]
fn test_execution_context_new() {
    let workflow_id = fresh();
    let ctx = ExecutionContext::new(workflow_id);
    assert_eq!(ctx.workflow_id, workflow_id);
    assert_eq!(ctx.state, ExecutionState::Running);
    assert_eq!(ctx.node_results.len(), 0);
    assert_eq!(ctx.variables.len(), 0);
    assert!(ctx.completed_at.is_none());
    assert!(ctx.checkpoint.is_none());
}

#[test]
fn test_execution_context_pause_resume() {
    let mut ctx = ExecutionContext::new(fresh());
    assert_eq!(ctx.state, ExecutionState::Running);
    assert!(!ctx.can_resume());
    ctx.pause();
    assert_eq!(ctx.state, ExecutionState::Paused);
    assert!(ctx.can_resume());
    assert!(ctx.checkpoint.is_some());
    ctx.resume();
    assert_eq!(ctx.state, ExecutionState::Running);
}

#[test]
fn test_execution_context_cancel() {
    let mut ctx = ExecutionContext::new(fresh());
    ctx.cancel();
    assert_eq!(ctx.state, ExecutionState::Cancelled);
    assert!(ctx.completed_at.is_some());
}

#[test]
fn test_execution_context_mark_completed() {
    let mut ctx = ExecutionContext::new(fresh());
    assert!(ctx.completed_at.is_none());
    ctx.mark_completed();
    assert!(ctx.completed_at.is_some());
    let first_completion = ctx.completed_at.unwrap();
    ctx.mark_completed();
    assert_eq!(ctx.completed_at.unwrap(), first_completion);
}

#[test]
fn test_execution_context_variables() {
    let mut ctx = ExecutionContext::new(fresh());
    ctx.set_variable("key1".to_string(), "\"value1\"".to_string());
    ctx.set_variable("key2".to_string(), "42".to_string());
    assert_eq!(ctx.get_variable("key1"), Some(&"\"value1\"".to_string()));
    assert_eq!(ctx.get_variable("key2"), Some(&"42".to_string()));
    assert_eq!(ctx.get_variable("key3"), None);
}

#[test]
fn test_execution_context_checkpoint() {
    let mut ctx = ExecutionContext::new(fresh());
    ctx.set_variable("var1".to_string(), "\"test\"".to_string());
    let checkpoint = ctx.create_checkpoint();
    assert_eq!(checkpoint.variables.len(), 1);
    assert_eq!(checkpoint.state, ExecutionState::Running);
    assert!(ctx.checkpoint.is_some());
}

#[test]
fn test_execution_context_resume_from_checkpoint() {
    let workflow_id = fresh();
    let mut original_ctx = ExecutionContext::new(workflow_id);
    original_ctx.set_variable("var1".to_string(), "\"test\"".to_string());
    let checkpoint = original_ctx.create_checkpoint();
    let resumed_ctx = ExecutionContext::resume_from_checkpoint(checkpoint, workflow_id);
    assert_eq!(resumed_ctx.workflow_id, workflow_id);
    assert_eq!(resumed_ctx.variables.len(), 1);
    assert_eq!(resumed_ctx.get_variable("var1"), Some(&"\"test\"".to_string()));
}

#[test]
fn test_node_execution_result_new() {
    let result = NodeExecutionResult::new();
    assert_eq!(result.retry_count, 0);
    assert!(result.completed_at.is_none());
    assert!(result.metrics.is_none());
    assert_eq!(result.result, ExecutionResult::Pending);
}

#[test]
fn test_node_execution_result_complete() {
    let result = NodeExecutionResult::new().complete(ExecutionResult::Success("{\"data\": \"test\"}".to_string()));
    assert!(result.completed_at.is_some());
    assert!(matches!(result.result, ExecutionResult::Success(_)));
}

#[test]
fn test_node_execution_result_with_metrics() {
    let metrics = NodeMetrics {
        duration_ms: Some(100),
        token_usage: Some(TokenUsage { input_tokens: 50, output_tokens: 30, total_tokens: 80, cached_tokens: None }),
        api_calls: 1,
        bytes_transferred: 1024,
        memory_bytes: Some(128),
        custom: Default::default(),
    };
    let result = NodeExecutionResult::new().with_metrics(metrics.clone());
    assert!(result.metrics.is_some());
    let result_metrics = result.metrics.unwrap();
    assert_eq!(result_metrics.duration_ms, Some(100));
    assert_eq!(result_metrics.api_calls, 1);
    assert_eq!(result_metrics.bytes_transferred, 1024);
}

#[test]
fn test_execution_result_variants() {
    assert!(matches!(ExecutionResult::Pending, ExecutionResult::Pending));
    assert!(matches!(ExecutionResult::Success("null".to_string()), ExecutionResult::Success(_)));
    assert!(matches!(ExecutionResult::Failure("test".to_string()), ExecutionResult::Failure(_)));
    assert!(matches!(ExecutionResult::Skipped, ExecutionResult::Skipped));
}

#[test]
fn test_node_metrics_default() {
    let metrics = NodeMetrics::default();
    assert_eq!(metrics.duration_ms, None);
    assert_eq!(metrics.token_usage, None);
    assert_eq!(metrics.api_calls, 0);
    assert_eq!(metrics.bytes_transferred, 0);
    assert_eq!(metrics.memory_bytes, None);
}
