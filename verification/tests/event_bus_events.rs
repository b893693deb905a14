use dag_engine::event_bus::{EventBus, WorkflowEvent, WorkflowTrigger};
use dag_engine::node::{Node, NodeKind};
use dag_engine::workflow::{Workflow, WorkflowMetadata};
use uuid::Uuid;

#[test]
fn test_event_creation() {
    let event = WorkflowEvent::new("test.event".to_string(), Uuid::new_v4().as_u128(), "{\"key\": \"value\"}".to_string());
    assert_eq!(event.event_type, "test.event");
    assert!(event.execution_id.is_none());
}

#[test]
fn test_trigger_matching() {
    let workflow = Workflow {
        metadata: WorkflowMetadata::new("Test".to_string()),
        nodes: vec![Node::new("Start".to_string(), NodeKind::Start), Node::new("End".to_string(), NodeKind::End)],
        edges: vec![],
    };
    let trigger = WorkflowTrigger::new("user.created".to_string(), workflow);
    let matching_event = WorkflowEvent::new("user.created".to_string(), Uuid::new_v4().as_u128(), "{}".to_string());
    let non_matching_event = WorkflowEvent::new("user.deleted".to_string(), Uuid::new_v4().as_u128(), "{}".to_string());
    assert!(trigger.matches(&matching_event));
    assert!(!trigger.matches(&non_matching_event));
}

#[test]
fn filtered_trigger_needs_the_payload_field() {
    let trigger = WorkflowTrigger::new_with("user.created".to_string(), Workflow::new("W".to_string()), 1)
        .with_filter("plan=pro".to_string());
    let pro = WorkflowEvent::new_at("user.created".to_string(), 5, "{\"plan\": \"pro\"}".to_string(), 2, 0);
    let free = WorkflowEvent::new_at("user.created".to_string(), 5, "{\"plan\": \"free\"}".to_string(), 3, 0);
    assert!(trigger.matches(&pro));
    assert!(!trigger.matches(&free));
}

#[test]
fn lifecycle_events_carry_their_ids() {
    let e = WorkflowEvent::workflow_started(1, 2);
    assert_eq!(e.workflow_id, 1);
    assert_eq!(e.execution_id, Some(2));
    let f = WorkflowEvent::workflow_failed(1, 2, "boom");
    let v: serde_json::Value = serde_json::from_str(&f.payload).unwrap();
    assert_eq!(v["error"], "boom");
}

#[test]
fn registered_trigger_is_checked_then_unregistered_once() {
    let mut bus = EventBus::new(1000);
    let t1 = WorkflowTrigger::new_with("user.created".to_string(), Workflow::new("A".to_string()), 10);
    let t2 = WorkflowTrigger::new_with("user.deleted".to_string(), Workflow::new("B".to_string()), 20);
    let t3 = WorkflowTrigger::new_with("user.created".to_string(), Workflow::new("C".to_string()), 30)
        .with_filter("plan=pro".to_string());
    assert_eq!(bus.register_trigger(t1), 10);
    assert_eq!(bus.register_trigger(t2), 20);
    assert_eq!(bus.register_trigger(t3), 30);
    assert_eq!(bus.list_triggers().len(), 3);

    let pro = WorkflowEvent::new_at("user.created".to_string(), 5, "{\"plan\": \"pro\"}".to_string(), 2, 0);
    let free = WorkflowEvent::new_at("user.created".to_string(), 5, "{\"plan\": \"free\"}".to_string(), 3, 0);
    assert_eq!(bus.check_triggers(&pro), vec![10, 30]);
    assert_eq!(bus.check_triggers(&free), vec![10]);

    assert!(bus.unregister_trigger(10));
    assert!(!bus.unregister_trigger(10));
    assert_eq!(bus.list_triggers().len(), 2);
    assert_eq!(bus.check_triggers(&pro), vec![30]);
}

#[test]
fn registering_the_same_id_replaces_the_trigger() {
    let mut bus = EventBus::new(10);
    bus.register_trigger(WorkflowTrigger::new_with("a".to_string(), Workflow::new("A".to_string()), 1));
    bus.register_trigger(WorkflowTrigger::new_with("b".to_string(), Workflow::new("B".to_string()), 1));
    let ts = bus.list_triggers();
    assert_eq!(ts.len(), 1);
    assert_eq!(ts[0].event_type, "b");
}

#[test]
fn failure_text_is_written_as_an_escaped_json_string() {
    let e = WorkflowEvent::workflow_failed(1, 2, "bad \"input\"\n\tline\u{1}");
    assert_eq!(
        e.payload,
        "{\"error\":\"bad \\\"input\\\"\\n\\tline\\u0001\",\"status\":\"failed\"}"
    );
}
