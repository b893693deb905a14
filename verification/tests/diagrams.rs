use dag_engine::builder::{NodeBuilder, WorkflowBuilder};
use dag_engine::dfs::dfs_postorder;
use dag_engine::json_schema::WorkflowSchemaGenerator;
use dag_engine::node::{Node, NodeKind};
use dag_engine::visualization::{
    workflow_to_graphviz, workflow_to_mermaid, workflow_to_plantuml, DiagramOrientation, VisualizationFormat,
    VisualizationStyle, WorkflowVisualizer,
};
use dag_engine::workflow::{Edge, Workflow};

const A: u128 = 0xaaaaaaaa_0000_0000_0000_000000000001;
const B: u128 = 0xbbbbbbbb_0000_0000_0000_000000000002;

fn two_nodes() -> Workflow {
    let mut w = Workflow::new("w".to_string());
    w.add_node(Node::with_id(A, "Begin".to_string(), NodeKind::Start));
    w.add_node(Node::with_id(B, "Finish".to_string(), NodeKind::End));
    w.add_edge(Edge::new(A, B).with_label("go".to_string()));
    w
}

const CLASS_DEFS: &str = "    classDef startEnd fill:#90EE90,stroke:#228B22,stroke-width:2px\n    classDef llm fill:#87CEEB,stroke:#4682B4,stroke-width:2px\n    classDef code fill:#FFB6C1,stroke:#C71585,stroke-width:2px\n    classDef decision fill:#FFD700,stroke:#FF8C00,stroke-width:2px\n    classDef loop fill:#DDA0DD,stroke:#8B008B,stroke-width:2px\n    classDef parallel fill:#F0E68C,stroke:#BDB76B,stroke-width:2px\n";

#[test]
fn mermaid_of_two_nodes() {
    let w = two_nodes();
    let expected = format!(
        "flowchart TB\n    aaaaaaaa[\"Begin\"]\n    bbbbbbbb[\"Finish\"]\n\n    aaaaaaaa -->|\"go\"| bbbbbbbb\n\n{}    class aaaaaaaa startEnd\n    class bbbbbbbb startEnd\n",
        CLASS_DEFS
    );
    assert_eq!(workflow_to_mermaid(&w), expected);
}

#[test]
fn mermaid_plain_style() {
    let mut w = two_nodes();
    w.metadata.description = Some("demo".to_string());
    let style = VisualizationStyle {
        show_node_ids: true,
        show_edge_labels: false,
        use_colors: false,
        include_descriptions: false,
        orientation: DiagramOrientation::LeftRight,
        group_by_type: false,
    };
    let v = WorkflowVisualizer::with_style(&w, style);
    let expected = "flowchart LR\n    %%{ init: {'theme':'base', 'themeVariables': { 'primaryColor':'#ff9900'}}}%%\n    %% demo\n    aaaaaaaa[\"Begin\n(aaaaaaaa)\"]\n    bbbbbbbb[\"Finish\n(bbbbbbbb)\"]\n\n    aaaaaaaa --> bbbbbbbb\n";
    assert_eq!(v.to_mermaid(), expected);
    assert_eq!(v.export(VisualizationFormat::Mermaid), expected);
}

#[test]
fn graphviz_of_two_nodes() {
    let w = two_nodes();
    let expected = "digraph workflow {\n    rankdir=TB;\n    node [shape=box, style=\"rounded,filled\"];\n    edge [fontsize=10];\n\n    aaaaaaaa [label=\"Begin\", shape=ellipse, fillcolor=\"#90EE90\"];\n    bbbbbbbb [label=\"Finish\", shape=ellipse, fillcolor=\"#FFB6C1\"];\n\n    aaaaaaaa -> bbbbbbbb [label=\"go\"];\n}\n";
    assert_eq!(workflow_to_graphviz(&w), expected);
}

#[test]
fn graphviz_escapes_quotes() {
    let mut w = Workflow::new("w".to_string());
    w.metadata.description = Some("say \"hi\"\nnow".to_string());
    w.add_node(Node::with_id(A, "a\"b".to_string(), NodeKind::Start));
    let out = WorkflowVisualizer::new(&w).export(VisualizationFormat::Graphviz);
    assert!(out.contains("    label=\"say \\\"hi\\\"\\nnow\";\n\n"));
    assert!(out.contains("aaaaaaaa [label=\"a\\\"b\", shape=ellipse"));
}

#[test]
fn plantuml_follows_topological_order() {
    let w = two_nodes();
    assert_eq!(workflow_to_plantuml(&w), "@startuml\nstart\n\nstart\nstop\n\nstop\n@enduml\n");
}

#[test]
fn depth_first_finishing_order() {
    // 1 -> 2 -> 3, 1 -> 3, and a cycle 3 -> 1; 9 is unreachable.
    let edges = vec![(1u128, 2u128), (2, 3), (1, 3), (3, 1), (9, 1)];
    let order = dfs_postorder(&edges, &vec![1]);
    assert_eq!(order, vec![3, 2, 1]);
    let order = dfs_postorder(&edges, &vec![9, 2]);
    assert_eq!(order, vec![3, 2, 1, 9]);
    assert_eq!(dfs_postorder(&vec![], &vec![5, 5]), vec![5]);
}

#[test]
fn orientation_codes() {
    assert_eq!(DiagramOrientation::BottomTop.to_mermaid(), "BT");
    assert_eq!(DiagramOrientation::RightLeft.to_graphviz(), "RL");
    let s = VisualizationStyle::default();
    assert!(s.show_edge_labels && s.use_colors && !s.show_node_ids);
}

#[test]
fn builder_chains_nodes() {
    let w = WorkflowBuilder::new("example".to_string())
        .description("Example workflow".to_string())
        .tag("demo".to_string())
        .start("Start".to_string())
        .end("End".to_string())
        .build();
    assert_eq!(w.nodes.len(), 2);
    assert_eq!(w.edges.len(), 1);
    assert_eq!(w.edges[0].from, w.nodes[0].id);
    assert_eq!(w.edges[0].to, w.nodes[1].id);
    assert_eq!(w.metadata.description, Some("Example workflow".to_string()));
    assert_eq!(w.metadata.tags, vec!["demo".to_string()]);
}

#[test]
fn builder_connects_by_index() {
    let b = WorkflowBuilder::new("x".to_string()).start("S".to_string()).end("E".to_string());
    let first = b.node_id_at(0).unwrap();
    let last = b.last_node_id().unwrap();
    assert_eq!(b.node_id_at(5), None);
    let w = b.connect(1, 0).connect(0, 9).connect_ids(last, first).build();
    assert_eq!(w.edges.len(), 3);
    assert_eq!((w.edges[1].from, w.edges[1].to), (last, first));
    let n = NodeBuilder::new("n".to_string(), NodeKind::End).build();
    assert!(n.retry_config.is_none());
}

#[test]
fn schema_check_messages() {
    let g = WorkflowSchemaGenerator::new();
    assert!(g.include_optional && !g.include_examples && g.include_descriptions);
    let empty = Workflow::new("e".to_string());
    assert_eq!(
        g.validate_workflow(&empty),
        Err(vec![
            "Workflow must have at least one node".to_string(),
            "Workflow must have a Start node".to_string(),
            "Workflow must have an End node".to_string(),
        ])
    );
    assert_eq!(g.validate_workflow(&two_nodes()), Ok(()));
}
