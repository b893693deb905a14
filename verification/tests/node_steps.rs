use dag_engine::execution::{ExecutionContext, ExecutionResult};
use dag_engine::node::{Condition, LoopConfig, LoopType, Node, NodeKind, ParallelConfig, ParallelStrategy, SubWorkflowConfig, TryCatchConfig};
use dag_engine::node_step::{node_step, NodeStep};

fn ctx() -> ExecutionContext {
    let mut c = ExecutionContext::new(1);
    c.set_variable("x".to_string(), "10".to_string());
    c
}

fn success(step: NodeStep) -> serde_json::Value {
    match step {
        NodeStep::Done(ExecutionResult::Success(t)) => serde_json::from_str(&t).unwrap(),
        other => panic!("unexpected {:?}", other),
    }
}

#[test]
fn start_and_end_give_an_empty_object() {
    let s = node_step(&Node::new("s".to_string(), NodeKind::Start), &ctx()).unwrap();
    assert_eq!(s, NodeStep::Done(ExecutionResult::Success("{}".to_string())));
}

#[test]
fn branch_evaluates_its_condition() {
    let n = Node::new(
        "if".to_string(),
        NodeKind::IfElse(Condition { expression: "x > 5".to_string(), true_branch: 1, false_branch: 2 }),
    );
    assert_eq!(success(node_step(&n, &ctx()).unwrap()), serde_json::from_str::<serde_json::Value>(r#"{"condition_result": true}"#).unwrap());
}

#[test]
fn loop_collects_its_values() {
    let mut c = ctx();
    c.set_variable("items".to_string(), "[1, 2]".to_string());
    let n = Node::new(
        "loop".to_string(),
        NodeKind::Loop(LoopConfig {
            loop_type: LoopType::ForEach {
                collection_path: "items".to_string(),
                item_variable: "it".to_string(),
                index_variable: None,
                body_expression: "v{{it}}".to_string(),
                parallel: false,
                max_concurrency: None,
            },
            max_iterations: 10,
        }),
    );
    assert_eq!(success(node_step(&n, &c).unwrap()), serde_json::from_str::<serde_json::Value>(r#"{"loop_result": ["v1", "v2"]}"#).unwrap());
}

#[test]
fn try_catch_reports_all_blocks() {
    let n = Node::new(
        "try".to_string(),
        NodeKind::TryCatch(TryCatchConfig {
            try_expression: "{{x}}".to_string(),
            catch_expression: None,
            finally_expression: None,
            rethrow: false,
            error_variable: "error".to_string(),
        }),
    );
    assert_eq!(
        success(node_step(&n, &ctx()).unwrap()),
        serde_json::from_str::<serde_json::Value>(r#"{"catch_result": null, "error": null, "finally_result": null, "succeeded": true, "try_result": 10}"#).unwrap()
    );
}

#[test]
fn parallel_subworkflow_and_service() {
    let p = Node::new(
        "p".to_string(),
        NodeKind::Parallel(ParallelConfig { strategy: ParallelStrategy::WaitAll, tasks: vec![], max_concurrency: None, timeout_ms: None }),
    );
    assert_eq!(success(node_step(&p, &ctx()).unwrap()), serde_json::from_str::<serde_json::Value>(r#"{"parallel": true}"#).unwrap());
    let w = Node::new(
        "w".to_string(),
        NodeKind::SubWorkflow(SubWorkflowConfig {
            workflow_path: "sub.json".to_string(),
            input_mappings: vec![],
            output_variable: None,
            inherit_context: false,
        }),
    );
    assert_eq!(node_step(&w, &ctx()).unwrap(), NodeStep::LoadSubWorkflow("sub.json".to_string()));
}
