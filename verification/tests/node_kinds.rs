use dag_engine::node::{
    LoopConfig, LoopType, Node, NodeKind, ParallelConfig, ParallelStrategy, ParallelTask, RetryConfig, ServiceAuth,
    ServiceConfig, SwitchCase, SwitchConfig, TimeoutAction, TimeoutConfig,
};

#[test]
fn test_service_node() {
    let config = ServiceConfig {
        url: "https://api.example.com/data".to_string(),
        method: "POST".to_string(),
        headers: vec![("Content-Type".to_string(), "application/json".to_string())],
        body: Some("{\"key\": \"value\"}".to_string()),
        query_params: vec![("page".to_string(), "1".to_string())],
        auth: ServiceAuth::Bearer { token: "tok_xxx".to_string() },
        timeout_secs: 15,
    };
    let node = Node::new("API Call".to_string(), NodeKind::Service(config));
    assert_eq!(node.name, "API Call");
    if let NodeKind::Service(cfg) = &node.kind {
        assert_eq!(cfg.url, "https://api.example.com/data");
        assert_eq!(cfg.method, "POST");
        assert!(matches!(cfg.auth, ServiceAuth::Bearer { .. }));
    } else {
        panic!("Expected Service node");
    }
}

#[test]
fn test_switch_node() {
    let switch_config = SwitchConfig {
        switch_on: "{{status}}".to_string(),
        cases: vec![
            SwitchCase { match_value: "success".to_string(), action: "process_success".to_string() },
            SwitchCase { match_value: "error".to_string(), action: "handle_error".to_string() },
        ],
        default_case: Some("unknown_status".to_string()),
    };
    let node = Node::new("Status Router".to_string(), NodeKind::Switch(switch_config.clone()));
    assert_eq!(node.name, "Status Router");
    if let NodeKind::Switch(config) = &node.kind {
        assert_eq!(config.switch_on, "{{status}}");
        assert_eq!(config.cases.len(), 2);
        assert_eq!(config.default_case, Some("unknown_status".to_string()));
    } else {
        panic!("Expected Switch node");
    }
}

#[test]
fn test_parallel_node() {
    let parallel_config = ParallelConfig {
        strategy: ParallelStrategy::WaitAll,
        tasks: vec![
            ParallelTask {
                id: "task1".to_string(),
                expression: "{{query1}}".to_string(),
                description: Some("First query".to_string()),
            },
            ParallelTask {
                id: "task2".to_string(),
                expression: "{{query2}}".to_string(),
                description: Some("Second query".to_string()),
            },
        ],
        max_concurrency: Some(2),
        timeout_ms: Some(30000),
    };
    let node = Node::new("Parallel Execution".to_string(), NodeKind::Parallel(parallel_config.clone()));
    assert_eq!(node.name, "Parallel Execution");
    if let NodeKind::Parallel(config) = &node.kind {
        assert_eq!(config.strategy, ParallelStrategy::WaitAll);
        assert_eq!(config.tasks.len(), 2);
        assert_eq!(config.max_concurrency, Some(2));
        assert_eq!(config.timeout_ms, Some(30000));
    } else {
        panic!("Expected Parallel node");
    }
}

#[test]
fn test_parallel_strategy_race() {
    let parallel_config = ParallelConfig {
        strategy: ParallelStrategy::Race,
        tasks: vec![
            ParallelTask { id: "fast".to_string(), expression: "{{fast_api}}".to_string(), description: None },
            ParallelTask { id: "slow".to_string(), expression: "{{slow_api}}".to_string(), description: None },
        ],
        max_concurrency: None,
        timeout_ms: None,
    };
    let node = Node::new("Race Condition".to_string(), NodeKind::Parallel(parallel_config));
    if let NodeKind::Parallel(config) = &node.kind {
        assert_eq!(config.strategy, ParallelStrategy::Race);
    } else {
        panic!("Expected Parallel node");
    }
}

#[test]
fn test_node_with_retry_and_timeout() {
    let node = Node::new("Resilient Node".to_string(), NodeKind::Start)
        .with_retry(RetryConfig { max_retries: 5, initial_delay_ms: 500, max_delay_ms: 60000 })
        .with_timeout(TimeoutConfig {
            execution_timeout_ms: 10000,
            idle_timeout_ms: Some(5000),
            timeout_action: TimeoutAction::Skip,
        });
    assert!(node.retry_config.is_some());
    assert!(node.timeout_config.is_some());
    if let Some(retry) = &node.retry_config {
        assert_eq!(retry.max_retries, 5);
    }
    if let Some(timeout) = &node.timeout_config {
        assert_eq!(timeout.execution_timeout_ms, 10000);
        assert_eq!(timeout.timeout_action, TimeoutAction::Skip);
    }
}

#[test]
fn test_foreach_parallel_execution() {
    let loop_config = LoopConfig {
        loop_type: LoopType::ForEach {
            collection_path: "items".to_string(),
            item_variable: "item".to_string(),
            index_variable: Some("idx".to_string()),
            body_expression: "process({{item}})".to_string(),
            parallel: true,
            max_concurrency: Some(10),
        },
        max_iterations: 1000,
    };
    let node = Node::new("Parallel Loop".to_string(), NodeKind::Loop(loop_config));
    if let NodeKind::Loop(config) = &node.kind {
        if let LoopType::ForEach { parallel, max_concurrency, collection_path, item_variable, .. } = &config.loop_type {
            assert!(parallel);
            assert_eq!(*max_concurrency, Some(10));
            assert_eq!(collection_path, "items");
            assert_eq!(item_variable, "item");
        } else {
            panic!("Expected ForEach loop");
        }
    } else {
        panic!("Expected Loop node");
    }
}

#[test]
fn test_foreach_sequential_execution() {
    let loop_config = LoopConfig {
        loop_type: LoopType::ForEach {
            collection_path: "items".to_string(),
            item_variable: "item".to_string(),
            index_variable: None,
            body_expression: "process({{item}})".to_string(),
            parallel: false,
            max_concurrency: None,
        },
        max_iterations: 1000,
    };
    let node = Node::new("Sequential Loop".to_string(), NodeKind::Loop(loop_config));
    if let NodeKind::Loop(config) = &node.kind {
        if let LoopType::ForEach { parallel, max_concurrency, .. } = &config.loop_type {
            assert!(!parallel);
            assert_eq!(*max_concurrency, None);
        } else {
            panic!("Expected ForEach loop");
        }
    } else {
        panic!("Expected Loop node");
    }
}
