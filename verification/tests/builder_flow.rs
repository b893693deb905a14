use dag_engine::builder::{NodeBuilder, WorkflowBuilder};
use dag_engine::node::{Condition, NodeKind, RetryConfig, TimeoutAction, TimeoutConfig};
use uuid::Uuid;

#[test]
fn test_workflow_builder_basic() {
    let workflow = WorkflowBuilder::new("Test Workflow".to_string())
        .description("A test workflow".to_string())
        .version("1.0.0".to_string())
        .tag("test".to_string())
        .start("Start".to_string())
        .end("End".to_string())
        .build();
    assert_eq!(workflow.metadata.name, "Test Workflow");
    assert_eq!(workflow.metadata.description, Some("A test workflow".to_string()));
    assert_eq!(workflow.metadata.version, "1.0.0");
    assert_eq!(workflow.metadata.tags, vec!["test"]);
    assert_eq!(workflow.nodes.len(), 2);
    assert_eq!(workflow.edges.len(), 1);
}

#[test]
fn test_workflow_builder_custom_connections() {
    let workflow = WorkflowBuilder::new("Custom Connections".to_string())
        .start("Start".to_string())
        .end("End".to_string())
        .connect(0, 1)
        .build();
    assert_eq!(workflow.edges.len(), 2);
}

#[test]
fn test_node_builder() {
    let retry_config = RetryConfig { max_retries: 3, initial_delay_ms: 1000, max_delay_ms: 30000 };
    let timeout_config =
        TimeoutConfig { execution_timeout_ms: 60000, idle_timeout_ms: None, timeout_action: TimeoutAction::Fail };
    let node = NodeBuilder::new("Test Node".to_string(), NodeKind::Start)
        .retry(retry_config)
        .timeout(timeout_config)
        .build();
    assert_eq!(node.name, "Test Node");
    assert!(node.retry_config.is_some());
    assert!(node.timeout_config.is_some());
}

#[test]
fn test_workflow_builder_multiple_tags() {
    let workflow = WorkflowBuilder::new("Tagged Workflow".to_string())
        .tags(vec!["tag1".to_string(), "tag2".to_string()])
        .tag("tag3".to_string())
        .build();
    assert_eq!(workflow.metadata.tags.len(), 3);
    assert!(workflow.metadata.tags.contains(&"tag1".to_string()));
    assert!(workflow.metadata.tags.contains(&"tag2".to_string()));
    assert!(workflow.metadata.tags.contains(&"tag3".to_string()));
}

#[test]
fn test_workflow_builder_get_node_ids() {
    let builder = WorkflowBuilder::new("Test".to_string()).start("Start".to_string()).end("End".to_string());
    assert!(builder.last_node_id().is_some());
    assert!(builder.node_id_at(0).is_some());
    assert!(builder.node_id_at(1).is_some());
    assert!(builder.node_id_at(2).is_none());
}

#[test]
fn test_workflow_builder_if_else() {
    let condition = Condition {
        expression: "{{value}} > 10".to_string(),
        true_branch: Uuid::new_v4().as_u128(),
        false_branch: Uuid::new_v4().as_u128(),
    };
    let workflow = WorkflowBuilder::new("Conditional Workflow".to_string())
        .start("Start".to_string())
        .if_else("Check Value".to_string(), condition)
        .end("End".to_string())
        .build();
    assert_eq!(workflow.nodes.len(), 3);
    assert!(matches!(workflow.nodes[1].kind, NodeKind::IfElse(_)));
}
