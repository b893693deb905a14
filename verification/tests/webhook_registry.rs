use dag_engine::node::{Node, NodeKind};
use dag_engine::webhook::{extract_json_value, WebhookConfig, WebhookRegistry};
use dag_engine::workflow::{Edge, Workflow, WorkflowMetadata};
use uuid::Uuid;

#[test]
fn test_webhook_config_creation() {
    let config = WebhookConfig::new("Test Webhook".to_string(), Uuid::new_v4().as_u128())
        .with_secret("secret123".to_string())
        .with_header("X-User-ID".to_string(), "user_id".to_string())
        .with_payload("user.email".to_string(), "email".to_string());
    assert_eq!(config.name, "Test Webhook");
    assert_eq!(config.secret, Some("secret123".to_string()));
    assert!(config.enabled);
    assert_eq!(config.header_mappings.len(), 1);
    assert_eq!(config.payload_mappings.len(), 1);
}

#[test]
fn test_webhook_registry() {
    let mut registry = WebhookRegistry::new();
    let start = Node::new("Start".to_string(), NodeKind::Start);
    let end = Node::new("End".to_string(), NodeKind::End);
    let workflow = Workflow {
        metadata: WorkflowMetadata::new("Test Workflow".to_string()),
        nodes: vec![start.clone(), end.clone()],
        edges: vec![Edge::new(start.id, end.id)],
    };
    let config = WebhookConfig::new("Test Webhook".to_string(), workflow.metadata.id);
    let webhook_id = registry.register(config, workflow);
    assert_eq!(registry.list().len(), 1);
    assert!(registry.get(webhook_id).is_some());
    let removed = registry.unregister(webhook_id);
    assert!(removed);
    assert_eq!(registry.list().len(), 0);
    assert!(registry.get(webhook_id).is_none());
}

#[test]
fn test_extract_json_value() {
    let payload = r#"{"user": {"name": "John", "email": "john@example.com"}, "count": 42}"#;
    assert_eq!(extract_json_value(payload, "user.name"), Some("John".to_string()));
    assert_eq!(extract_json_value(payload, "user.email"), Some("john@example.com".to_string()));
    assert_eq!(extract_json_value(payload, "count"), Some("42".to_string()));
    assert_eq!(extract_json_value(payload, "invalid.path"), None);
}

#[test]
fn old_requests_are_cleaned_up() {
    let mut registry = WebhookRegistry::new();
    let workflow = Workflow::new("W".to_string());
    let config = WebhookConfig::new_with("Hook".to_string(), 1, 2, 0);
    let id = registry.register(config, workflow);
    registry.trigger_at(id, vec![], "{}".to_string(), None, 1_000, 10).unwrap();
    registry.trigger_at(id, vec![], "{}".to_string(), None, 5_000, 11).unwrap();
    assert_eq!(registry.get_triggers(None).len(), 2);
    registry.cleanup_triggers_at(2_000, 6_000);
    let left = registry.get_triggers(Some(id));
    assert_eq!(left.len(), 1);
    assert_eq!(left[0].triggered_at, 5_000);
}
