use dag_engine::json_schema::WorkflowSchemaGenerator;
use dag_engine::node::{Node, NodeKind};
use dag_engine::workflow::{Edge, Workflow};

#[test]
fn test_validate_workflow_missing_start() {
    let mut workflow = Workflow::new("Test".to_string());
    workflow.add_node(Node::new("End".to_string(), NodeKind::End));
    let generator = WorkflowSchemaGenerator::new();
    let result = generator.validate_workflow(&workflow);
    assert!(result.is_err());
    let errors = result.unwrap_err();
    assert!(errors.iter().any(|e| e.contains("Start")));
}

#[test]
fn test_validate_workflow_missing_end() {
    let mut workflow = Workflow::new("Test".to_string());
    workflow.add_node(Node::new("Start".to_string(), NodeKind::Start));
    let generator = WorkflowSchemaGenerator::new();
    let result = generator.validate_workflow(&workflow);
    assert!(result.is_err());
    let errors = result.unwrap_err();
    assert!(errors.iter().any(|e| e.contains("End")));
}

#[test]
fn test_validate_valid_workflow() {
    let mut workflow = Workflow::new("Test".to_string());
    let start_node = Node::new("Start".to_string(), NodeKind::Start);
    let start_id = start_node.id;
    workflow.add_node(start_node);
    let end_node = Node::new("End".to_string(), NodeKind::End);
    let end_id = end_node.id;
    workflow.add_node(end_node);
    workflow.add_edge(Edge::new(start_id, end_id));
    let generator = WorkflowSchemaGenerator::new();
    assert!(generator.validate_workflow(&workflow).is_ok());
}
