use dag_engine::linter::{LintCategory, LintFinding, LintResult, LintSeverity, WorkflowLinter};
use dag_engine::node::{
    Condition, LoopConfig, LoopType, Node, NodeKind, ParallelConfig, ParallelStrategy, ParallelTask, RetryConfig,
};
use dag_engine::workflow::{Edge, Workflow};

fn create_test_node(name: &str) -> Node {
    Node::new(
        name.to_string(),
        NodeKind::Loop(LoopConfig {
            loop_type: LoopType::Repeat {
                count: "1".to_string(),
                body_expression: "()".to_string(),
                index_variable: None,
            },
            max_iterations: 1,
        }),
    )
}

fn count_rule(workflow: &Workflow, rule: &str) -> usize {
    let result = WorkflowLinter::new().lint(workflow);
    result.findings.iter().filter(|f| f.rule_id == rule).count()
}

#[test]
fn test_unreachable_nodes() {
    let mut workflow = Workflow::new("test".to_string());
    let start = Node::new("start".to_string(), NodeKind::Start);
    let node1 = create_test_node("node1");
    let unreachable = create_test_node("unreachable");
    workflow.nodes = vec![start.clone(), node1.clone(), unreachable];
    workflow.edges = vec![Edge::new(start.id, node1.id)];
    assert_eq!(count_rule(&workflow, "unreachable-node"), 1);
}

#[test]
fn test_excessive_retries() {
    let mut workflow = Workflow::new("test".to_string());
    let node = create_test_node("node1").with_retry(RetryConfig { max_retries: 10, ..RetryConfig::default_config() });
    workflow.nodes = vec![node];
    let result = WorkflowLinter::new().lint(&workflow);
    let retry_findings: Vec<_> = result.findings.iter().filter(|f| f.rule_id == "excessive-retries").collect();
    assert_eq!(retry_findings.len(), 1);
    assert_eq!(retry_findings[0].severity, LintSeverity::Warning);
}

#[test]
fn test_missing_timeouts() {
    let mut workflow = Workflow::new("test".to_string());
    workflow.nodes = vec![create_test_node("node1")];
    let result = WorkflowLinter::new().lint(&workflow);
    assert!(result.findings.iter().all(|f| f.rule_id != "missing-timeout"));
}

#[test]
fn test_generic_node_names() {
    let mut workflow = Workflow::new("test".to_string());
    workflow.nodes = vec![create_test_node("node")];
    assert_eq!(count_rule(&workflow, "generic-node-name"), 1);
}

#[test]
fn test_high_loop_limits() {
    let mut workflow = Workflow::new("test".to_string());
    let foreach_node = Node::new(
        "foreach".to_string(),
        NodeKind::Loop(LoopConfig {
            loop_type: LoopType::ForEach {
                collection_path: "items".to_string(),
                item_variable: "item".to_string(),
                index_variable: Some("i".to_string()),
                body_expression: "body".to_string(),
                parallel: false,
                max_concurrency: None,
            },
            max_iterations: 15000,
        }),
    );
    workflow.nodes = vec![foreach_node];
    assert_eq!(count_rule(&workflow, "high-loop-limit"), 1);
}

#[test]
fn test_missing_error_handling() {
    let mut workflow = Workflow::new("test".to_string());
    workflow.nodes = vec![create_test_node("risky")];
    let result = WorkflowLinter::new().lint(&workflow);
    assert!(result.findings.iter().all(|f| f.rule_id != "missing-error-handling"));
}

#[test]
fn test_findings_by_severity() {
    let findings = vec![
        LintFinding::new("test1", LintSeverity::Error, LintCategory::Security, "Error"),
        LintFinding::new("test2", LintSeverity::Warning, LintCategory::Performance, "Warning"),
    ];
    let result = LintResult::new(findings);
    assert_eq!(result.findings_by_severity(LintSeverity::Error).len(), 1);
    assert_eq!(result.findings_by_severity(LintSeverity::Warning).len(), 1);
}

#[test]
fn test_findings_by_category() {
    let findings = vec![
        LintFinding::new("test1", LintSeverity::Error, LintCategory::Security, "Security issue"),
        LintFinding::new("test2", LintSeverity::Warning, LintCategory::Performance, "Performance issue"),
    ];
    let result = LintResult::new(findings);
    assert_eq!(result.findings_by_category(LintCategory::Security).len(), 1);
    assert_eq!(result.findings_by_category(LintCategory::Performance).len(), 1);
}

#[test]
fn test_long_sequential_chain() {
    let mut workflow = Workflow::new("test".to_string());
    let start = Node::new("start".to_string(), NodeKind::Start);
    let mut prev = start.clone();
    workflow.nodes.push(start);
    for i in 0..12 {
        let node = create_test_node(&format!("node{}", i));
        workflow.edges.push(Edge::new(prev.id, node.id));
        workflow.nodes.push(node.clone());
        prev = node;
    }
    assert!(count_rule(&workflow, "long-sequential-chain") > 0);
}

#[test]
fn test_deep_nesting() {
    let mut workflow = Workflow::new("test".to_string());
    let start = Node::new("start".to_string(), NodeKind::Start);
    workflow.nodes.push(start.clone());
    let mut prev = start;
    for i in 0..6 {
        let then_node = Node::new(format!("then{}", i), NodeKind::End);
        let else_node = Node::new(format!("else{}", i), NodeKind::End);
        let if_node = Node::new(
            format!("if{}", i),
            NodeKind::IfElse(Condition {
                expression: "true".to_string(),
                true_branch: then_node.id,
                false_branch: else_node.id,
            }),
        );
        workflow.edges.push(Edge::new(prev.id, if_node.id));
        workflow.nodes.push(if_node.clone());
        workflow.nodes.push(then_node);
        workflow.nodes.push(else_node);
        prev = if_node;
    }
    assert!(count_rule(&workflow, "deep-nesting") > 0);
}

#[test]
fn test_dead_end_paths() {
    let mut workflow = Workflow::new("test".to_string());
    let start = Node::new("start".to_string(), NodeKind::Start);
    let node1 = create_test_node("node1");
    let dead_end = create_test_node("dead_end");
    let end = Node::new("end".to_string(), NodeKind::End);
    workflow.nodes = vec![start.clone(), node1.clone(), dead_end.clone(), end.clone()];
    workflow.edges = vec![
        Edge::new(start.id, node1.id),
        Edge::new(node1.id, end.id),
        Edge::new(start.id, dead_end.id),
    ];
    assert_eq!(count_rule(&workflow, "dead-end-path"), 1);
}

#[test]
fn test_parallel_node_opportunity() {
    let mut workflow = Workflow::new("test".to_string());
    let start = Node::new("start".to_string(), NodeKind::Start);
    let parallel = Node::new(
        "parallel".to_string(),
        NodeKind::Parallel(ParallelConfig {
            tasks: vec![
                ParallelTask { id: "task1".to_string(), expression: "node1".to_string(), description: None },
                ParallelTask { id: "task2".to_string(), expression: "node2".to_string(), description: None },
            ],
            strategy: ParallelStrategy::WaitAll,
            max_concurrency: None,
            timeout_ms: None,
        }),
    );
    workflow.nodes = vec![start.clone(), parallel.clone()];
    workflow.edges = vec![Edge::new(start.id, parallel.id)];
    assert_eq!(count_rule(&workflow, "long-sequential-chain"), 0);
}
