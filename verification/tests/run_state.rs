use dag_engine::engine::{exhausted_result, finish_execution, record_node_outcome, Engine, EngineError, ExecutionConfig};
use dag_engine::execution::{
    ExecutionContext, ExecutionResult, ExecutionState, NodeExecutionResult, NodeMetrics, TokenUsage,
};

fn ctx() -> ExecutionContext {
    ExecutionContext::new_with(7, 9, 1_000)
}

#[test]
fn context_starts_running_and_empty() {
    let c = ctx();
    assert_eq!(c.workflow_id, 7);
    assert_eq!(c.execution_id, 9);
    assert_eq!(c.started_at, 1_000);
    assert_eq!(c.state, ExecutionState::Running);
    assert!(c.node_results.is_empty());
    assert!(c.variables.is_empty());
    assert!(c.completed_at.is_none());
    assert!(c.checkpoint.is_none());
}

#[test]
fn context_new_with_fresh_identity() {
    let c = ExecutionContext::new(42);
    assert_eq!(c.workflow_id, 42);
    assert_eq!(c.state, ExecutionState::Running);
    assert_eq!(c.node_results.len(), 0);
}

#[test]
fn variable_written_is_read_back() {
    let mut c = ctx();
    c.set_variable("key1".to_string(), "\"value1\"".to_string());
    c.set_variable("key2".to_string(), "42".to_string());
    assert_eq!(c.get_variable("key1"), Some(&"\"value1\"".to_string()));
    assert_eq!(c.get_variable("key2"), Some(&"42".to_string()));
    assert_eq!(c.get_variable("key3"), None);
    c.set_variable("key1".to_string(), "true".to_string());
    assert_eq!(c.get_variable("key1"), Some(&"true".to_string()));
    assert_eq!(c.variables.len(), 2);
}

#[test]
fn node_result_recorded_is_read_back() {
    let mut c = ctx();
    let r = NodeExecutionResult::new_at(5).complete_at(ExecutionResult::Success("{\"output\":1}".to_string()), 25);
    c.record_node_result(3, r.clone());
    assert_eq!(c.get_node_result(&3), Some(&r));
    assert_eq!(c.get_node_result(&4), None);
    let r2 = NodeExecutionResult::new_at(30);
    c.record_node_result(3, r2.clone());
    assert_eq!(c.get_node_result(&3), Some(&r2));
    assert_eq!(c.node_results.len(), 1);
}

#[test]
fn pause_then_resume() {
    let mut c = ctx();
    assert!(!c.can_resume());
    c.pause_at(2_000);
    assert_eq!(c.state, ExecutionState::Paused);
    assert!(c.can_resume());
    let cp = c.checkpoint.clone().unwrap();
    assert_eq!(cp.timestamp, 2_000);
    assert_eq!(cp.state, ExecutionState::Paused);
    c.resume();
    assert_eq!(c.state, ExecutionState::Running);
    c.resume();
    assert_eq!(c.state, ExecutionState::Running);
}

#[test]
fn cancel_marks_completed_once() {
    let mut c = ctx();
    c.cancel_at(3_000);
    assert_eq!(c.state, ExecutionState::Cancelled);
    assert_eq!(c.completed_at, Some(3_000));
    c.mark_completed_at(4_000);
    assert_eq!(c.completed_at, Some(3_000));
}

#[test]
fn checkpoint_and_resume() {
    let mut c = ctx();
    c.set_variable("var1".to_string(), "\"test\"".to_string());
    c.record_node_result(11, NodeExecutionResult::new_at(1));
    let cp = c.create_checkpoint_at(1_500);
    assert_eq!(cp.variables.len(), 1);
    assert_eq!(cp.completed_nodes, vec![11]);
    assert_eq!(cp.state, ExecutionState::Running);
    assert!(c.checkpoint.is_some());
    let resumed = ExecutionContext::resume_from_checkpoint_with(cp, 7, 99);
    assert_eq!(resumed.execution_id, 99);
    assert_eq!(resumed.started_at, 1_500);
    assert_eq!(resumed.get_variable("var1"), Some(&"\"test\"".to_string()));
    assert!(resumed.node_results.is_empty());
}

#[test]
fn completion_records_duration() {
    let r = NodeExecutionResult::new_at(100).complete_at(ExecutionResult::Failure("boom".to_string()), 350);
    assert_eq!(r.completed_at, Some(350));
    assert_eq!(r.duration_ms(), Some(250));
    assert_eq!(r.result, ExecutionResult::Failure("boom".to_string()));
    let m = NodeMetrics { api_calls: 3, ..NodeMetrics::empty() };
    let r2 = NodeExecutionResult::new_at(0).with_metrics(m).complete_at(ExecutionResult::Skipped, 10);
    assert_eq!(r2.metrics.as_ref().unwrap().api_calls, 3);
    assert_eq!(r2.duration_ms(), Some(10));
}

#[test]
fn token_usage_totals_and_records() {
    let t = TokenUsage::new(100, 50);
    assert_eq!(t.total_tokens, 150);
    let r = NodeExecutionResult::new_at(0).with_token_usage(t);
    assert_eq!(r.total_tokens(), Some(150));
    assert_eq!(NodeExecutionResult::new_at(0).total_tokens(), None);
}

#[test]
fn level_gate_cancel_then_pause() {
    let mut e = Engine::new();
    assert_eq!(e.level_gate(1), Ok(()));
    e.cancel_execution(1);
    assert_eq!(e.level_gate(1), Err(EngineError::ExecutionCancelled));
    assert!(!e.is_cancelled(1));
    e.pause_execution(1);
    assert_eq!(e.level_gate(1), Err(EngineError::ExecutionPaused));
    e.resume_execution(1);
    assert!(!e.is_paused(1));
    assert_eq!(e.level_gate(1), Ok(()));
}

#[test]
fn outcome_recorded_or_aborts() {
    let mut c = ctx();
    let config = ExecutionConfig::new();
    let err = EngineError::Timeout("Node 'a' timed out".to_string());
    assert_eq!(record_node_outcome(&mut c, 1, Err(err.clone()), &config, 50), Err(err.clone()));
    assert!(c.node_results.is_empty());
    let tolerant = ExecutionConfig::new().with_continue_on_error();
    assert_eq!(record_node_outcome(&mut c, 1, Err(err), &tolerant, 50), Ok(()));
    let rec = c.get_node_result(&1).unwrap();
    assert_eq!(rec.result, ExecutionResult::Failure("Timeout: Node 'a' timed out".to_string()));
    assert_eq!(record_node_outcome(&mut c, 2, Ok(NodeExecutionResult::new_at(1)), &config, 60), Ok(()));
    assert_eq!(c.node_results.len(), 2);
    finish_execution(&mut c, 70);
    assert_eq!(c.state, ExecutionState::Completed);
    assert_eq!(c.completed_at, Some(70));
}

#[test]
fn exhausted_retries_message() {
    let r = exhausted_result(4, 3, &EngineError::ExecutionError("down".to_string()), 10);
    assert_eq!(r.retry_count, 3);
    assert_eq!(r.result, ExecutionResult::Failure("Failed after 3 retries: Execution error: down".to_string()));
}
