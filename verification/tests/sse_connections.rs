use dag_engine::sse::{SseConnectionManager, SseEventType};

#[test]
fn test_sse_connection_manager_register() {
    let mut manager = SseConnectionManager::new(5);
    let conn = manager.register("user1".to_string(), "exec1".to_string());
    assert!(conn.is_some());
    let conn = conn.unwrap();
    assert_eq!(conn.user_id, "user1");
    assert_eq!(conn.execution_id, "exec1");
    assert_eq!(manager.connection_count(), 1);
}

#[test]
fn test_sse_connection_manager_max_connections() {
    let mut manager = SseConnectionManager::new(2);
    assert!(manager.register("user1".to_string(), "exec1".to_string()).is_some());
    assert!(manager.register("user1".to_string(), "exec2".to_string()).is_some());
    assert!(manager.register("user1".to_string(), "exec3".to_string()).is_none());
    assert_eq!(manager.connection_count(), 2);
    // Another user is counted apart.
    assert!(manager.register("user2".to_string(), "exec4".to_string()).is_some());
}

#[test]
fn test_sse_connection_manager_unregister() {
    let mut manager = SseConnectionManager::new(5);
    let conn = manager.register("user1".to_string(), "exec1".to_string()).unwrap();
    assert_eq!(manager.connection_count(), 1);
    manager.unregister(conn.id);
    assert_eq!(manager.connection_count(), 0);
}

#[test]
fn test_sse_connection_manager_user_connections() {
    let mut manager = SseConnectionManager::new(5);
    manager.register("user1".to_string(), "exec1".to_string()).unwrap();
    manager.register("user1".to_string(), "exec2".to_string()).unwrap();
    manager.register("user2".to_string(), "exec3".to_string()).unwrap();
    assert_eq!(manager.user_connections("user1").len(), 2);
    assert_eq!(manager.user_connections("user2").len(), 1);
}

#[test]
fn connection_ids_count_up_from_one() {
    let mut manager = SseConnectionManager::new(5);
    let a = manager.register_at("u".to_string(), "e".to_string(), 10).unwrap();
    let b = manager.register_at("u".to_string(), "e".to_string(), 20).unwrap();
    assert_eq!((a.id, a.connected_at), (1, 10));
    assert_eq!((b.id, b.connected_at), (2, 20));
}

#[test]
fn event_names() {
    assert_eq!(SseEventType::NodeStarted { node_id: "n".to_string(), timestamp: 0 }.event_name(), "node_started");
    assert_eq!(
        SseEventType::NodeCompleted { node_id: "n".to_string(), duration_ms: 1, timestamp: 0 }.event_name(),
        "node_completed"
    );
    assert_eq!(
        SseEventType::WorkflowFailed { execution_id: "e".to_string(), error: "x".to_string(), timestamp: 0 }
            .event_name(),
        "workflow_failed"
    );
    assert_eq!(SseEventType::Heartbeat { timestamp: 0 }.event_name(), "heartbeat");
}
