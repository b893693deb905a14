use dag_engine::node::{Node, NodeKind};
use dag_engine::workflow::{Edge, VersionBump, Workflow, WorkflowMetadata, WorkflowSchedule};
use uuid::Uuid;

const DAY_MS: i64 = 86_400_000;

fn fresh() -> u128 {
    Uuid::new_v4().as_u128()
}

fn now_ms() -> i64 {
    chrono::Utc::now().timestamp_millis()
}

#[test]
fn workflow_test_workflow_validation() {
    let mut workflow = Workflow::new("Test Workflow".to_string());
    let start_node = Node::new("Start".to_string(), NodeKind::Start);
    let start_id = start_node.id;
    workflow.add_node(start_node);
    let end_node = Node::new("End".to_string(), NodeKind::End);
    let end_id = end_node.id;
    workflow.add_node(end_node);
    workflow.add_edge(Edge::new(start_id, end_id));
    assert!(workflow.validate().is_ok());
}

#[test]
fn test_workflow_missing_start_node() {
    let workflow = Workflow::new("Test Workflow".to_string());
    assert!(workflow.validate().is_err());
}

#[test]
fn test_workflow_metadata_new() {
    let metadata = WorkflowMetadata::new("Test Workflow".to_string());
    assert_eq!(metadata.name, "Test Workflow");
    assert_eq!(metadata.version, "0.1.0");
    assert!(metadata.description.is_none());
    assert_eq!(metadata.tags.len(), 0);
    assert!(metadata.parent_id.is_none());
    assert!(metadata.change_description.is_none());
    assert!(metadata.schedule.is_none());
}

#[test]
fn test_workflow_metadata_parse_version() {
    let metadata = WorkflowMetadata::new("Test".to_string());
    let (major, minor, patch) = metadata.parse_version().unwrap();
    assert_eq!(major, 0);
    assert_eq!(minor, 1);
    assert_eq!(patch, 0);
}

#[test]
fn test_workflow_metadata_parse_version_invalid() {
    let mut metadata = WorkflowMetadata::new("Test".to_string());
    metadata.version = "invalid".to_string();
    assert!(metadata.parse_version().is_err());
}

#[test]
fn test_workflow_metadata_bump_major() {
    let mut metadata = WorkflowMetadata::new("Test".to_string());
    metadata.version = "1.2.3".to_string();
    metadata.bump_major();
    assert_eq!(metadata.version, "2.0.0");
}

#[test]
fn test_workflow_metadata_bump_minor() {
    let mut metadata = WorkflowMetadata::new("Test".to_string());
    metadata.version = "1.2.3".to_string();
    metadata.bump_minor();
    assert_eq!(metadata.version, "1.3.0");
}

#[test]
fn test_workflow_metadata_bump_patch() {
    let mut metadata = WorkflowMetadata::new("Test".to_string());
    metadata.version = "1.2.3".to_string();
    metadata.bump_patch();
    assert_eq!(metadata.version, "1.2.4");
}

#[test]
fn test_workflow_new() {
    let workflow = Workflow::new("Test Workflow".to_string());
    assert_eq!(workflow.metadata.name, "Test Workflow");
    assert_eq!(workflow.nodes.len(), 0);
    assert_eq!(workflow.edges.len(), 0);
}

#[test]
fn test_workflow_add_node() {
    let mut workflow = Workflow::new("Test".to_string());
    let node = Node::new("Test Node".to_string(), NodeKind::Start);
    workflow.add_node(node);
    assert_eq!(workflow.nodes.len(), 1);
    assert_eq!(workflow.nodes[0].name, "Test Node");
}

#[test]
fn test_workflow_add_edge() {
    let mut workflow = Workflow::new("Test".to_string());
    let from = fresh();
    let to = fresh();
    workflow.add_edge(Edge::new(from, to));
    assert_eq!(workflow.edges.len(), 1);
    assert_eq!(workflow.edges[0].from, from);
    assert_eq!(workflow.edges[0].to, to);
}

#[test]
fn test_workflow_get_node() {
    let mut workflow = Workflow::new("Test".to_string());
    let node = Node::new("Test Node".to_string(), NodeKind::Start);
    let node_id = node.id;
    workflow.add_node(node);
    let found = workflow.get_node(node_id);
    assert!(found.is_some());
    assert_eq!(found.unwrap().name, "Test Node");
}

#[test]
fn test_workflow_get_node_not_found() {
    let workflow = Workflow::new("Test".to_string());
    assert!(workflow.get_node(fresh()).is_none());
}

#[test]
fn test_workflow_get_outgoing_edges() {
    let mut workflow = Workflow::new("Test".to_string());
    let from = fresh();
    let to1 = fresh();
    let to2 = fresh();
    workflow.add_edge(Edge::new(from, to1));
    workflow.add_edge(Edge::new(from, to2));
    workflow.add_edge(Edge::new(to1, to2));
    assert_eq!(workflow.get_outgoing_edges(from).len(), 2);
}

#[test]
fn test_workflow_get_incoming_edges() {
    let mut workflow = Workflow::new("Test".to_string());
    let from1 = fresh();
    let from2 = fresh();
    let to = fresh();
    workflow.add_edge(Edge::new(from1, to));
    workflow.add_edge(Edge::new(from2, to));
    workflow.add_edge(Edge::new(from1, from2));
    assert_eq!(workflow.get_incoming_edges(to).len(), 2);
}

#[test]
fn test_workflow_create_new_version_major() {
    let workflow = Workflow::new("Test".to_string());
    let new_version = workflow.create_new_version("Breaking changes".to_string(), VersionBump::Major);
    assert_ne!(new_version.metadata.id, workflow.metadata.id);
    assert_eq!(new_version.metadata.parent_id, Some(workflow.metadata.id));
    assert_eq!(new_version.metadata.version, "1.0.0");
    assert_eq!(new_version.metadata.change_description, Some("Breaking changes".to_string()));
}

#[test]
fn test_workflow_create_new_version_minor() {
    let mut workflow = Workflow::new("Test".to_string());
    workflow.metadata.version = "1.0.0".to_string();
    let new_version = workflow.create_new_version("New features".to_string(), VersionBump::Minor);
    assert_eq!(new_version.metadata.version, "1.1.0");
}

#[test]
fn test_workflow_create_new_version_patch() {
    let mut workflow = Workflow::new("Test".to_string());
    workflow.metadata.version = "1.0.0".to_string();
    let new_version = workflow.create_new_version("Bug fixes".to_string(), VersionBump::Patch);
    assert_eq!(new_version.metadata.version, "1.0.1");
}

#[test]
fn test_workflow_is_newer_than() {
    let mut workflow1 = Workflow::new("Test".to_string());
    workflow1.metadata.version = "1.0.0".to_string();
    let mut workflow2 = Workflow::new("Test".to_string());
    workflow2.metadata.version = "2.0.0".to_string();
    assert!(workflow2.is_newer_than(&workflow1).unwrap());
    assert!(!workflow1.is_newer_than(&workflow2).unwrap());
}

#[test]
fn test_workflow_version_tuple() {
    let mut workflow = Workflow::new("Test".to_string());
    workflow.metadata.version = "3.2.1".to_string();
    let (major, minor, patch) = workflow.version_tuple().unwrap();
    assert_eq!(major, 3);
    assert_eq!(minor, 2);
    assert_eq!(patch, 1);
}

#[test]
fn test_workflow_schedule_new() {
    let schedule = WorkflowSchedule::new("0 0 * * *".to_string());
    assert_eq!(schedule.cron, "0 0 * * *");
    assert_eq!(schedule.timezone, "UTC");
    assert!(schedule.enabled);
    assert!(schedule.max_concurrent_runs.is_none());
    assert!(!schedule.retry_on_failure);
    assert!(schedule.start_date.is_none());
    assert!(schedule.end_date.is_none());
}

#[test]
fn test_workflow_schedule_with_timezone() {
    let schedule = WorkflowSchedule::new("0 0 * * *".to_string()).with_timezone("America/New_York".to_string());
    assert_eq!(schedule.timezone, "America/New_York");
}

#[test]
fn test_workflow_schedule_set_enabled() {
    let schedule = WorkflowSchedule::new("0 0 * * *".to_string()).set_enabled(false);
    assert!(!schedule.enabled);
}

#[test]
fn test_workflow_schedule_with_max_concurrent_runs() {
    let schedule = WorkflowSchedule::new("0 0 * * *".to_string()).with_max_concurrent_runs(5);
    assert_eq!(schedule.max_concurrent_runs, Some(5));
}

#[test]
fn test_workflow_schedule_with_date_range() {
    let now = now_ms();
    let future = now + 7 * DAY_MS;
    let schedule = WorkflowSchedule::new("0 0 * * *".to_string()).with_date_range(now, future);
    assert!(schedule.start_date.is_some());
    assert!(schedule.end_date.is_some());
    assert_eq!(schedule.start_date.unwrap(), now);
    assert_eq!(schedule.end_date.unwrap(), future);
}

#[test]
fn test_workflow_schedule_is_valid_now_enabled() {
    let schedule = WorkflowSchedule::new("0 0 * * *".to_string());
    assert!(schedule.is_valid_now());
}

#[test]
fn test_workflow_schedule_is_valid_now_disabled() {
    let schedule = WorkflowSchedule::new("0 0 * * *".to_string()).set_enabled(false);
    assert!(!schedule.is_valid_now());
}

#[test]
fn test_workflow_schedule_is_valid_now_before_start() {
    let future = now_ms() + DAY_MS;
    let end = future + 7 * DAY_MS;
    let schedule = WorkflowSchedule::new("0 0 * * *".to_string()).with_date_range(future, end);
    assert!(!schedule.is_valid_now());
}

#[test]
fn test_workflow_schedule_is_valid_now_after_end() {
    let past_start = now_ms() - 7 * DAY_MS;
    let past_end = now_ms() - DAY_MS;
    let schedule = WorkflowSchedule::new("0 0 * * *".to_string()).with_date_range(past_start, past_end);
    assert!(!schedule.is_valid_now());
}

#[test]
fn test_workflow_schedule_is_valid_now_within_range() {
    let past = now_ms() - DAY_MS;
    let future = now_ms() + DAY_MS;
    let schedule = WorkflowSchedule::new("0 0 * * *".to_string()).with_date_range(past, future);
    assert!(schedule.is_valid_now());
}

#[test]
fn test_workflow_get_node_mut() {
    let mut workflow = Workflow::new("test".to_string());
    let node = Node::new("Start".to_string(), NodeKind::Start);
    let node_id = node.id;
    workflow.add_node(node);
    let node_mut = workflow.get_node_mut(node_id);
    assert!(node_mut.is_some());
    let node_mut = node_mut.unwrap();
    node_mut.name = "Modified".to_string();
    let node = workflow.get_node(node_id).unwrap();
    assert_eq!(node.name, "Modified");
}

#[test]
fn test_workflow_get_start_node() {
    let mut workflow = Workflow::new("test".to_string());
    assert!(workflow.get_start_node().is_none());
    workflow.add_node(Node::new("Start".to_string(), NodeKind::Start));
    let start_node = workflow.get_start_node();
    assert!(start_node.is_some());
    assert!(matches!(start_node.unwrap().kind, NodeKind::Start));
}

#[test]
fn test_workflow_get_end_nodes() {
    let mut workflow = Workflow::new("test".to_string());
    assert_eq!(workflow.get_end_nodes().len(), 0);
    workflow.add_node(Node::new("End1".to_string(), NodeKind::End));
    workflow.add_node(Node::new("End2".to_string(), NodeKind::End));
    assert_eq!(workflow.get_end_nodes().len(), 2);
}

#[test]
fn test_workflow_remove_node() {
    let mut workflow = Workflow::new("test".to_string());
    let node1 = Node::new("Start".to_string(), NodeKind::Start);
    let node2 = Node::new("End".to_string(), NodeKind::End);
    let id1 = node1.id;
    let id2 = node2.id;
    workflow.add_node(node1);
    workflow.add_node(node2);
    workflow.add_edge(Edge::new(id1, id2));
    assert_eq!(workflow.nodes.len(), 2);
    assert_eq!(workflow.edges.len(), 1);
    assert!(workflow.remove_node(id1));
    assert_eq!(workflow.nodes.len(), 1);
    assert_eq!(workflow.edges.len(), 0);
    assert!(!workflow.remove_node(id1));
}

#[test]
fn test_workflow_remove_edge() {
    let mut workflow = Workflow::new("test".to_string());
    let node1 = Node::new("Start".to_string(), NodeKind::Start);
    let node2 = Node::new("End".to_string(), NodeKind::End);
    let id1 = node1.id;
    let id2 = node2.id;
    workflow.add_node(node1);
    workflow.add_node(node2);
    workflow.add_edge(Edge::new(id1, id2));
    assert_eq!(workflow.edges.len(), 1);
    assert!(workflow.remove_edge(id1, id2));
    assert_eq!(workflow.edges.len(), 0);
    assert!(!workflow.remove_edge(id1, id2));
}

#[test]
fn test_workflow_node_count() {
    let mut workflow = Workflow::new("test".to_string());
    assert_eq!(workflow.node_count(), 0);
    workflow.add_node(Node::new("Start".to_string(), NodeKind::Start));
    assert_eq!(workflow.node_count(), 1);
    workflow.add_node(Node::new("End".to_string(), NodeKind::End));
    assert_eq!(workflow.node_count(), 2);
}

#[test]
fn test_workflow_edge_count() {
    let mut workflow = Workflow::new("test".to_string());
    let node1 = Node::new("Start".to_string(), NodeKind::Start);
    let node2 = Node::new("End".to_string(), NodeKind::End);
    let id1 = node1.id;
    let id2 = node2.id;
    workflow.add_node(node1);
    workflow.add_node(node2);
    assert_eq!(workflow.edge_count(), 0);
    workflow.add_edge(Edge::new(id1, id2));
    assert_eq!(workflow.edge_count(), 1);
}

#[test]
fn test_edge_creation() {
    let from = fresh();
    let to = fresh();
    let edge = Edge::new(from, to).with_label("success".to_string()).with_condition("result.ok".to_string());
    assert_eq!(edge.from, from);
    assert_eq!(edge.to, to);
    assert_eq!(edge.label, Some("success".to_string()));
    assert_eq!(edge.condition, Some("result.ok".to_string()));
}

#[test]
fn test_edge_basic_creation() {
    let from = fresh();
    let to = fresh();
    let edge = Edge::new(from, to);
    assert_eq!(edge.from, from);
    assert_eq!(edge.to, to);
    assert_eq!(edge.label, None);
    assert_eq!(edge.condition, None);
    assert_ne!(edge.id, 0);
}

#[test]
fn test_edge_with_label_only() {
    let edge = Edge::new(fresh(), fresh()).with_label("branch_a".to_string());
    assert_eq!(edge.label, Some("branch_a".to_string()));
    assert_eq!(edge.condition, None);
}

#[test]
fn test_edge_with_condition_only() {
    let edge = Edge::new(fresh(), fresh()).with_condition("x > 10".to_string());
    assert_eq!(edge.condition, Some("x > 10".to_string()));
    assert_eq!(edge.label, None);
}

#[test]
fn test_edge_unique_ids() {
    let from = fresh();
    let to = fresh();
    let edge1 = Edge::new(from, to);
    let edge2 = Edge::new(from, to);
    assert_ne!(edge1.id, edge2.id);
}

#[test]
fn test_edge_builder_pattern_chaining() {
    let from = fresh();
    let to = fresh();
    let edge = Edge::new(from, to).with_label("test".to_string()).with_condition("true".to_string());
    assert_eq!(edge.label, Some("test".to_string()));
    assert_eq!(edge.condition, Some("true".to_string()));
    assert_eq!(edge.from, from);
    assert_eq!(edge.to, to);
}

#[test]
fn new_version_of_unparsable_version_keeps_it() {
    let mut workflow = Workflow::new("Test".to_string());
    workflow.metadata.version = "draft".to_string();
    workflow.metadata.tags = vec!["a".to_string()];
    workflow.add_node(Node::new("Start".to_string(), NodeKind::Start));
    let v = workflow.create_new_version("x".to_string(), VersionBump::Major);
    assert_eq!(v.metadata.version, "draft");
    assert_eq!(v.metadata.tags, vec!["a".to_string()]);
    assert_eq!(v.nodes.len(), 1);
    assert_eq!(v.metadata.name, "Test");
}
