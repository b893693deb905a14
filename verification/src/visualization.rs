//! Diagram export of a workflow: Mermaid flowcharts, Graphviz DOT and PlantUML
//! activity diagrams.

use vstd::prelude::*;
use crate::node::{Node, NodeId, NodeKind};
use crate::text::{chars_of, push_char, uuid_text, uuid_to_string};
use crate::workflow::{pairs_of, Edge, Workflow};
use crate::validation::{kind_ids, start_ids};
use crate::dfs::{dfs_postorder, dfs_result_ok};
use crate::graph::contains_id;

verus! {

/// The diagram languages.
#[derive(Debug, Clone, Copy, PartialEq, Eq, Structural)]
pub enum VisualizationFormat {
    Mermaid,
    Graphviz,
    PlantUML,
}

/// The direction in which a diagram is laid out.
#[derive(Debug, Clone, Copy, PartialEq, Eq, Structural)]
pub enum DiagramOrientation {
    TopBottom,
    LeftRight,
    BottomTop,
    RightLeft,
}

/// The two-letter code of an orientation, the same in Mermaid and Graphviz.
pub open spec fn orientation_code(o: DiagramOrientation) -> Seq<char> {
    match o {
        DiagramOrientation::TopBottom => "TB"@,
        DiagramOrientation::LeftRight => "LR"@,
        DiagramOrientation::BottomTop => "BT"@,
        DiagramOrientation::RightLeft => "RL"@,
    }
}

impl DiagramOrientation {
    /// The Mermaid direction code.
    pub fn to_mermaid(self) -> (r: &'static str)
        ensures
            r@ == orientation_code(self),
    {
        match self {
            DiagramOrientation::TopBottom => "TB",
            DiagramOrientation::LeftRight => "LR",
            DiagramOrientation::BottomTop => "BT",
            DiagramOrientation::RightLeft => "RL",
        }
    }

    /// The Graphviz `rankdir` value.
    pub fn to_graphviz(self) -> (r: &'static str)
        ensures
            r@ == orientation_code(self),
    {
        match self {
            DiagramOrientation::TopBottom => "TB",
            DiagramOrientation::LeftRight => "LR",
            DiagramOrientation::BottomTop => "BT",
            DiagramOrientation::RightLeft => "RL",
        }
    }
}

/// How a diagram is drawn.
#[derive(Debug, Clone, Copy, PartialEq, Eq)]
pub struct VisualizationStyle {
    pub show_node_ids: bool,
    pub show_edge_labels: bool,
    pub use_colors: bool,
    pub include_descriptions: bool,
    pub orientation: DiagramOrientation,
    pub group_by_type: bool,
}

impl VisualizationStyle {
    /// Edge labels and colours on, top to bottom, nothing else.
    pub open spec fn spec_default() -> VisualizationStyle {
        VisualizationStyle {
            show_node_ids: false,
            show_edge_labels: true,
            use_colors: true,
            include_descriptions: false,
            orientation: DiagramOrientation::TopBottom,
            group_by_type: false,
        }
    }
}

impl Default for VisualizationStyle {
    fn default() -> (r: Self)
        ensures
            r == VisualizationStyle::spec_default(),
    {
        VisualizationStyle {
            show_node_ids: false,
            show_edge_labels: true,
            use_colors: true,
            include_descriptions: false,
            orientation: DiagramOrientation::TopBottom,
            group_by_type: false,
        }
    }
}

/// An identifier usable in diagrams: hyphens become underscores, cut to eight characters.
pub open spec fn sanitize(s: Seq<char>) -> Seq<char> {
    let m = s.map_values(|c: char| if c == '-' { '_' } else { c });
    if m.len() <= 8 { m } else { m.take(8) }
}

/// The diagram identifier of a node.
pub open spec fn diagram_id(id: NodeId) -> Seq<char> {
    sanitize(uuid_text(id))
}

/// The label of a node: its name, with the first eight characters of its identifier
/// on a second line when identifiers are shown.
pub open spec fn node_label(style: VisualizationStyle, n: Node) -> Seq<char> {
    if style.show_node_ids {
        n.name@ + "\n("@ + uuid_text(n.id).take(8) + ")"@
    } else {
        n.name@
    }
}

/// Graphviz escaping: a double quote becomes `\"` and a newline `\n`.
pub open spec fn escape_graphviz(s: Seq<char>) -> Seq<char>
    decreases s.len(),
{
    if s.len() == 0 {
        s
    } else {
        let c = s.last();
        escape_graphviz(s.drop_last()) + if c == '"' {
            seq!['\\', '"']
        } else if c == '\n' {
            seq!['\\', 'n']
        } else {
            seq![c]
        }
    }
}

/// The opening and closing brackets of a node's Mermaid shape.
pub open spec fn mermaid_shape(k: NodeKind) -> (Seq<char>, Seq<char>) {
    match k {
        NodeKind::Start => ("["@, "]"@),
        NodeKind::End => ("["@, "]"@),
        NodeKind::IfElse(_) => ("{"@, "}"@),
        NodeKind::Switch(_) => ("{"@, "}"@),
        NodeKind::Parallel(_) => ("[["@, "]]"@),
        NodeKind::Loop(_) => ("{{"@, "}}"@),
        _ => ("("@, ")"@),
    }
}

/// The Mermaid definition of a node.
pub open spec fn mermaid_node(style: VisualizationStyle, n: Node) -> Seq<char> {
    diagram_id(n.id) + mermaid_shape(n.kind).0 + "\""@ + node_label(style, n) + "\""@ + mermaid_shape(n.kind).1
}

/// The Mermaid definition of an edge.
pub open spec fn mermaid_edge(style: VisualizationStyle, e: Edge) -> Seq<char> {
    if style.show_edge_labels && e.label is Some {
        diagram_id(e.from) + " -->|\""@ + e.label.unwrap()@ + "\"| "@ + diagram_id(e.to)
    } else {
        diagram_id(e.from) + " --> "@ + diagram_id(e.to)
    }
}

/// The Mermaid class of a node, for the kinds that have one.
pub open spec fn mermaid_class(k: NodeKind) -> Option<Seq<char>> {
    match k {
        NodeKind::Start => Some("startEnd"@),
        NodeKind::End => Some("startEnd"@),
        NodeKind::IfElse(_) => Some("decision"@),
        NodeKind::Switch(_) => Some("decision"@),
        NodeKind::Loop(_) => Some("loop"@),
        NodeKind::Parallel(_) => Some("parallel"@),
        NodeKind::Service(_) => Some("service"@),
        _ => None,
    }
}

/// The Mermaid node lines, each indented by four spaces.
pub open spec fn mermaid_node_lines(style: VisualizationStyle, nodes: Seq<Node>) -> Seq<char>
    decreases nodes.len(),
{
    if nodes.len() == 0 {
        Seq::empty()
    } else {
        mermaid_node_lines(style, nodes.drop_last()) + "    "@ + mermaid_node(style, nodes.last()) + "\n"@
    }
}

/// The Mermaid edge lines.
pub open spec fn mermaid_edge_lines(style: VisualizationStyle, edges: Seq<Edge>) -> Seq<char>
    decreases edges.len(),
{
    if edges.len() == 0 {
        Seq::empty()
    } else {
        mermaid_edge_lines(style, edges.drop_last()) + "    "@ + mermaid_edge(style, edges.last()) + "\n"@
    }
}

/// The class assignment lines of the styled nodes.
pub open spec fn mermaid_class_lines(nodes: Seq<Node>) -> Seq<char>
    decreases nodes.len(),
{
    if nodes.len() == 0 {
        Seq::empty()
    } else {
        mermaid_class_lines(nodes.drop_last()) + match mermaid_class(nodes.last().kind) {
            Some(c) => "    class "@ + diagram_id(nodes.last().id) + " "@ + c + "\n"@,
            None => Seq::empty(),
        }
    }
}

/// The class definitions that colour the node kinds.
pub open spec fn mermaid_class_defs() -> Seq<char> {
    "    classDef startEnd fill:#90EE90,stroke:#228B22,stroke-width:2px\n"@
        + "    classDef llm fill:#87CEEB,stroke:#4682B4,stroke-width:2px\n"@
        + "    classDef code fill:#FFB6C1,stroke:#C71585,stroke-width:2px\n"@
        + "    classDef decision fill:#FFD700,stroke:#FF8C00,stroke-width:2px\n"@
        + "    classDef loop fill:#DDA0DD,stroke:#8B008B,stroke-width:2px\n"@
        + "    classDef parallel fill:#F0E68C,stroke:#BDB76B,stroke-width:2px\n"@
}

/// The Mermaid flowchart of a workflow.
pub open spec fn mermaid_text(w: Workflow, style: VisualizationStyle) -> Seq<char> {
    "flowchart "@ + orientation_code(style.orientation) + "\n"@
        + match w.metadata.description {
            Some(d) => "    %%{ init: {'theme':'base', 'themeVariables': { 'primaryColor':'#ff9900'}}}%%\n"@
                + "    %% "@ + d@ + "\n"@,
            None => Seq::empty(),
        }
        + mermaid_node_lines(style, w.nodes@) + "\n"@ + mermaid_edge_lines(style, w.edges@)
        + if style.use_colors {
            "\n"@ + mermaid_class_defs() + mermaid_class_lines(w.nodes@)
        } else {
            Seq::empty()
        }
}

/// The Graphviz shape and fill colour of a node.
pub open spec fn graphviz_shape(k: NodeKind) -> (Seq<char>, Seq<char>) {
    match k {
        NodeKind::Start => ("ellipse"@, "#90EE90"@),
        NodeKind::End => ("ellipse"@, "#FFB6C1"@),
        NodeKind::IfElse(_) => ("diamond"@, "#FFD700"@),
        NodeKind::Switch(_) => ("diamond"@, "#FFD700"@),
        NodeKind::Loop(_) => ("hexagon"@, "#DDA0DD"@),
        NodeKind::Parallel(_) => ("parallelogram"@, "#F0E68C"@),
        NodeKind::Service(_) => ("box"@, "#87CEEB"@),
        _ => ("box"@, "#E0E0E0"@),
    }
}

/// The Graphviz definition of a node.
pub open spec fn graphviz_node(style: VisualizationStyle, n: Node) -> Seq<char> {
    let head = diagram_id(n.id) + " [label=\""@ + escape_graphviz(node_label(style, n)) + "\", shape="@
        + graphviz_shape(n.kind).0;
    if style.use_colors {
        head + ", fillcolor=\""@ + graphviz_shape(n.kind).1 + "\"]"@
    } else {
        head + "]"@
    }
}

/// The Graphviz definition of an edge.
pub open spec fn graphviz_edge(style: VisualizationStyle, e: Edge) -> Seq<char> {
    if style.show_edge_labels && e.label is Some {
        diagram_id(e.from) + " -> "@ + diagram_id(e.to) + " [label=\""@ + escape_graphviz(e.label.unwrap()@) + "\"]"@
    } else {
        diagram_id(e.from) + " -> "@ + diagram_id(e.to)
    }
}

/// The Graphviz node statements.
pub open spec fn graphviz_node_lines(style: VisualizationStyle, nodes: Seq<Node>) -> Seq<char>
    decreases nodes.len(),
{
    if nodes.len() == 0 {
        Seq::empty()
    } else {
        graphviz_node_lines(style, nodes.drop_last()) + "    "@ + graphviz_node(style, nodes.last()) + ";\n"@
    }
}

/// The Graphviz edge statements.
pub open spec fn graphviz_edge_lines(style: VisualizationStyle, edges: Seq<Edge>) -> Seq<char>
    decreases edges.len(),
{
    if edges.len() == 0 {
        Seq::empty()
    } else {
        graphviz_edge_lines(style, edges.drop_last()) + "    "@ + graphviz_edge(style, edges.last()) + ";\n"@
    }
}

/// The Graphviz DOT text of a workflow.
pub open spec fn graphviz_text(w: Workflow, style: VisualizationStyle) -> Seq<char> {
    "digraph workflow {\n"@ + "    rankdir="@ + orientation_code(style.orientation) + ";\n"@
        + "    node [shape=box, style=\"rounded,filled\"];\n"@ + "    edge [fontsize=10];\n\n"@
        + match w.metadata.description {
            Some(d) => "    labelloc=\"t\";\n"@ + "    label=\""@ + escape_graphviz(d@) + "\";\n\n"@,
            None => Seq::empty(),
        }
        + graphviz_node_lines(style, w.nodes@) + "\n"@ + graphviz_edge_lines(style, w.edges@) + "}\n"@
}

/// The PlantUML text of a node.
pub open spec fn plantuml_node(style: VisualizationStyle, n: Node) -> Seq<char> {
    let label = node_label(style, n);
    match n.kind {
        NodeKind::Start => "start"@,
        NodeKind::End => "stop"@,
        NodeKind::IfElse(_) => "if ("@ + label + ") then (yes)\n  :proceed;\nelse (no)\n  :alternative;\nendif"@,
        NodeKind::Switch(_) => "switch ("@ + label
            + ")\ncase (option 1)\n  :handle option 1;\ncase (option 2)\n  :handle option 2;\nendswitch"@,
        NodeKind::Loop(_) => "while ("@ + label + ")\n  :process;\nendwhile"@,
        _ => ":"@ + label + ";"@,
    }
}

/// `i` is the first position of a node with identifier `id`.
pub open spec fn is_first_node(nodes: Seq<Node>, id: NodeId, i: int) -> bool {
    0 <= i < nodes.len() && nodes[i].id == id && forall|j: int| 0 <= j < i ==> nodes[j].id != id
}

/// The first node with identifier `id`.
pub open spec fn first_node(nodes: Seq<Node>, id: NodeId) -> Option<Node> {
    if exists|i: int| #[trigger] is_first_node(nodes, id, i) {
        Some(nodes[choose|i: int| #[trigger] is_first_node(nodes, id, i)])
    } else {
        None
    }
}

/// The PlantUML lines of the nodes in the given order (identifiers without a node are
/// skipped).
pub open spec fn plantuml_lines(style: VisualizationStyle, nodes: Seq<Node>, order: Seq<NodeId>) -> Seq<char>
    decreases order.len(),
{
    if order.len() == 0 {
        Seq::empty()
    } else {
        plantuml_lines(style, nodes, order.drop_last()) + match first_node(nodes, order.last()) {
            Some(n) => plantuml_node(style, n) + "\n"@,
            None => Seq::empty(),
        }
    }
}

/// The PlantUML activity diagram of a workflow, its nodes listed in `order`.
pub open spec fn plantuml_text(w: Workflow, style: VisualizationStyle, order: Seq<NodeId>) -> Seq<char> {
    "@startuml\n"@ + match w.metadata.description {
        Some(d) => "title "@ + d@ + "\n"@,
        None => Seq::empty(),
    } + "start\n\n"@ + plantuml_lines(style, w.nodes@, order) + "\nstop\n"@ + "@enduml\n"@
}

/// `order` is a topological order of the workflow from its start nodes: read backwards,
/// it is a depth-first finishing order (each node reachable from a start node once,
/// every edge that closes no cycle pointing forward).
pub open spec fn topo_order(w: Workflow, order: Seq<NodeId>) -> bool {
    dfs_result_ok(pairs_of(w.edges@), start_ids(w.nodes@), order.reverse())
}

fn push_str(out: &mut String, s: &str)
    ensures
        final(out)@ == old(out)@ + s@,
{
    out.append(s);
}

fn diagram_id_exec(id: NodeId) -> (r: String)
    ensures
        r@ == diagram_id(id),
{
    let text = uuid_to_string(id);
    let v = chars_of(text.as_str());
    let ghost m = uuid_text(id).map_values(|c: char| if c == '-' { '_' } else { c });
    let mut r = String::new();
    let limit: usize = if v.len() <= 8 { v.len() } else { 8 };
    let mut i: usize = 0;
    while i < limit
        invariant
            v@ == uuid_text(id),
            m == uuid_text(id).map_values(|c: char| if c == '-' { '_' } else { c }),
            limit <= v@.len(),
            limit == if v@.len() <= 8 { v@.len() } else { 8 },
            i <= limit,
            r@ == m.take(i as int),
        decreases limit - i,
    {
        let c = v[i];
        if c == '-' {
            push_char(&mut r, '_');
        } else {
            push_char(&mut r, c);
        }
        assert(m.take(i + 1) =~= m.take(i as int).push(m[i as int]));
        i = i + 1;
    }
    assert(m.len() <= 8 ==> m.take(m.len() as int) =~= m);
    r
}

fn node_label_exec(style: &VisualizationStyle, n: &Node) -> (r: String)
    ensures
        r@ == node_label(*style, *n),
{
    if style.show_node_ids {
        let mut s = n.name.clone();
        push_str(&mut s, "\n(");
        let text = uuid_to_string(n.id);
        let v = chars_of(text.as_str());
        proof {
            crate::text::lemma_uuid_text_len(n.id);
        }
        crate::text::push_range(&mut s, &v, 0, 8);
        assert(v@.subrange(0, 8) =~= uuid_text(n.id).take(8));
        push_str(&mut s, ")");
        s
    } else {
        n.name.clone()
    }
}

fn escape_graphviz_exec(s: &str) -> (r: String)
    ensures
        r@ == escape_graphviz(s@),
{
    let v = chars_of(s);
    let mut r = String::new();
    let mut i: usize = 0;
    while i < v.len()
        invariant
            v@ == s@,
            i <= v@.len(),
            r@ == escape_graphviz(v@.take(i as int)),
        decreases v.len() - i,
    {
        let c = v[i];
        assert(v@.take(i + 1).drop_last() =~= v@.take(i as int));
        if c == '"' {
            push_char(&mut r, '\\');
            push_char(&mut r, '"');
            assert(r@ =~= escape_graphviz(v@.take(i + 1)));
        } else if c == '\n' {
            push_char(&mut r, '\\');
            push_char(&mut r, 'n');
            assert(r@ =~= escape_graphviz(v@.take(i + 1)));
        } else {
            push_char(&mut r, c);
            assert(r@ =~= escape_graphviz(v@.take(i + 1)));
        }
        i = i + 1;
    }
    assert(v@.take(v@.len() as int) =~= v@);
    r
}

fn mermaid_shape_exec(k: &NodeKind) -> (r: (&'static str, &'static str))
    ensures
        r.0@ == mermaid_shape(*k).0,
        r.1@ == mermaid_shape(*k).1,
{
    match k {
        NodeKind::Start => ("[", "]"),
        NodeKind::End => ("[", "]"),
        NodeKind::IfElse(_) => ("{", "}"),
        NodeKind::Switch(_) => ("{", "}"),
        NodeKind::Parallel(_) => ("[[", "]]"),
        NodeKind::Loop(_) => ("{{", "}}"),
        _ => ("(", ")"),
    }
}

fn mermaid_class_exec(k: &NodeKind) -> (r: Option<&'static str>)
    ensures
        match mermaid_class(*k) {
            Some(c) => r matches Some(x) && x@ == c,
            None => r is None,
        },
{
    match k {
        NodeKind::Start => Some("startEnd"),
        NodeKind::End => Some("startEnd"),
        NodeKind::IfElse(_) => Some("decision"),
        NodeKind::Switch(_) => Some("decision"),
        NodeKind::Loop(_) => Some("loop"),
        NodeKind::Parallel(_) => Some("parallel"),
        NodeKind::Service(_) => Some("service"),
        _ => None,
    }
}

fn graphviz_shape_exec(k: &NodeKind) -> (r: (&'static str, &'static str))
    ensures
        r.0@ == graphviz_shape(*k).0,
        r.1@ == graphviz_shape(*k).1,
{
    match k {
        NodeKind::Start => ("ellipse", "#90EE90"),
        NodeKind::End => ("ellipse", "#FFB6C1"),
        NodeKind::IfElse(_) => ("diamond", "#FFD700"),
        NodeKind::Switch(_) => ("diamond", "#FFD700"),
        NodeKind::Loop(_) => ("hexagon", "#DDA0DD"),
        NodeKind::Parallel(_) => ("parallelogram", "#F0E68C"),
        NodeKind::Service(_) => ("box", "#87CEEB"),
        _ => ("box", "#E0E0E0"),
    }
}

/// Renders a workflow as diagrams in a given style.
pub struct WorkflowVisualizer<'a> {
    workflow: &'a Workflow,
    style: VisualizationStyle,
}

impl<'a> WorkflowVisualizer<'a> {
    /// The workflow drawn.
    pub closed spec fn spec_workflow(&self) -> Workflow {
        *self.workflow
    }

    /// The style used.
    pub closed spec fn spec_style(&self) -> VisualizationStyle {
        self.style
    }

    /// A visualizer in the default style.
    pub fn new(workflow: &'a Workflow) -> (r: Self)
        ensures
            r.spec_workflow() == *workflow,
            r.spec_style() == VisualizationStyle::spec_default(),
    {
        WorkflowVisualizer { workflow, style: VisualizationStyle::default() }
    }

    /// A visualizer in a given style.
    pub fn with_style(workflow: &'a Workflow, style: VisualizationStyle) -> (r: Self)
        ensures
            r.spec_workflow() == *workflow,
            r.spec_style() == style,
    {
        WorkflowVisualizer { workflow, style }
    }

    fn mermaid_node_definition(&self, n: &Node) -> (r: String)
        ensures
            r@ == mermaid_node(self.style, *n),
    {
        let mut s = diagram_id_exec(n.id);
        let (open, close) = mermaid_shape_exec(&n.kind);
        push_str(&mut s, open);
        push_str(&mut s, "\"");
        let label = node_label_exec(&self.style, n);
        push_str(&mut s, label.as_str());
        push_str(&mut s, "\"");
        push_str(&mut s, close);
        s
    }

    fn mermaid_edge_definition(&self, e: &Edge) -> (r: String)
        ensures
            r@ == mermaid_edge(self.style, *e),
    {
        let from = diagram_id_exec(e.from);
        let to = diagram_id_exec(e.to);
        let mut s = from;
        if self.style.show_edge_labels {
            if let Some(label) = &e.label {
                push_str(&mut s, " -->|\"");
                push_str(&mut s, label.as_str());
                push_str(&mut s, "\"| ");
                push_str(&mut s, to.as_str());
                return s;
            }
        }
        push_str(&mut s, " --> ");
        push_str(&mut s, to.as_str());
        s
    }

    fn mermaid_styling(&self) -> (r: String)
        ensures
            r@ == mermaid_class_defs() + mermaid_class_lines(self.workflow.nodes@),
    {
        let mut s = String::new();
        push_str(&mut s, "    classDef startEnd fill:#90EE90,stroke:#228B22,stroke-width:2px\n");
        push_str(&mut s, "    classDef llm fill:#87CEEB,stroke:#4682B4,stroke-width:2px\n");
        push_str(&mut s, "    classDef code fill:#FFB6C1,stroke:#C71585,stroke-width:2px\n");
        push_str(&mut s, "    classDef decision fill:#FFD700,stroke:#FF8C00,stroke-width:2px\n");
        push_str(&mut s, "    classDef loop fill:#DDA0DD,stroke:#8B008B,stroke-width:2px\n");
        push_str(&mut s, "    classDef parallel fill:#F0E68C,stroke:#BDB76B,stroke-width:2px\n");
        let ghost defs = s@;
        assert(defs =~= mermaid_class_defs());
        let nodes = &self.workflow.nodes;
        let mut i: usize = 0;
        while i < nodes.len()
            invariant
                i <= nodes@.len(),
                s@ == defs + mermaid_class_lines(nodes@.take(i as int)),
            decreases nodes.len() - i,
        {
            let ghost before = s@;
            assert(nodes@.take(i + 1).drop_last() =~= nodes@.take(i as int));
            match mermaid_class_exec(&nodes[i].kind) {
                Some(c) => {
                    push_str(&mut s, "    class ");
                    let id = diagram_id_exec(nodes[i].id);
                    push_str(&mut s, id.as_str());
                    push_str(&mut s, " ");
                    push_str(&mut s, c);
                    push_str(&mut s, "\n");
                    assert(s@ =~= defs + mermaid_class_lines(nodes@.take(i + 1)));
                },
                None => {
                    assert(s@ =~= defs + mermaid_class_lines(nodes@.take(i + 1)));
                },
            }
            i = i + 1;
        }
        assert(nodes@.take(nodes@.len() as int) =~= nodes@);
        s
    }

    /// The Mermaid flowchart.
    pub fn to_mermaid(&self) -> (r: String)
        ensures
            r@ == mermaid_text(self.spec_workflow(), self.spec_style()),
    {
        let w = self.workflow;
        let mut out = String::new();
        push_str(&mut out, "flowchart ");
        push_str(&mut out, self.style.orientation.to_mermaid());
        push_str(&mut out, "\n");
        if let Some(desc) = &w.metadata.description {
            push_str(&mut out, "    %%{ init: {'theme':'base', 'themeVariables': { 'primaryColor':'#ff9900'}}}%%\n");
            push_str(&mut out, "    %% ");
            push_str(&mut out, desc.as_str());
            push_str(&mut out, "\n");
        }
        let ghost head = out@;
        let mut i: usize = 0;
        while i < w.nodes.len()
            invariant
                i <= w.nodes@.len(),
                out@ == head + mermaid_node_lines(self.style, w.nodes@.take(i as int)),
            decreases w.nodes.len() - i,
        {
            assert(w.nodes@.take(i + 1).drop_last() =~= w.nodes@.take(i as int));
            let d = self.mermaid_node_definition(&w.nodes[i]);
            push_str(&mut out, "    ");
            push_str(&mut out, d.as_str());
            push_str(&mut out, "\n");
            assert(out@ =~= head + mermaid_node_lines(self.style, w.nodes@.take(i + 1)));
            i = i + 1;
        }
        assert(w.nodes@.take(w.nodes@.len() as int) =~= w.nodes@);
        push_str(&mut out, "\n");
        let ghost mid = out@;
        let mut j: usize = 0;
        while j < w.edges.len()
            invariant
                j <= w.edges@.len(),
                out@ == mid + mermaid_edge_lines(self.style, w.edges@.take(j as int)),
            decreases w.edges.len() - j,
        {
            assert(w.edges@.take(j + 1).drop_last() =~= w.edges@.take(j as int));
            let d = self.mermaid_edge_definition(&w.edges[j]);
            push_str(&mut out, "    ");
            push_str(&mut out, d.as_str());
            push_str(&mut out, "\n");
            assert(out@ =~= mid + mermaid_edge_lines(self.style, w.edges@.take(j + 1)));
            j = j + 1;
        }
        assert(w.edges@.take(w.edges@.len() as int) =~= w.edges@);
        let ghost body = out@;
        if self.style.use_colors {
            push_str(&mut out, "\n");
            let st = self.mermaid_styling();
            push_str(&mut out, st.as_str());
        }
        assert(out@ =~= mermaid_text(*w, self.style));
        out
    }

    fn graphviz_node_definition(&self, n: &Node) -> (r: String)
        ensures
            r@ == graphviz_node(self.style, *n),
    {
        let mut s = diagram_id_exec(n.id);
        push_str(&mut s, " [label=\"");
        let label = node_label_exec(&self.style, n);
        let esc = escape_graphviz_exec(label.as_str());
        push_str(&mut s, esc.as_str());
        push_str(&mut s, "\", shape=");
        let (shape, color) = graphviz_shape_exec(&n.kind);
        push_str(&mut s, shape);
        if self.style.use_colors {
            push_str(&mut s, ", fillcolor=\"");
            push_str(&mut s, color);
            push_str(&mut s, "\"]");
        } else {
            push_str(&mut s, "]");
        }
        s
    }

    fn graphviz_edge_definition(&self, e: &Edge) -> (r: String)
        ensures
            r@ == graphviz_edge(self.style, *e),
    {
        let mut s = diagram_id_exec(e.from);
        push_str(&mut s, " -> ");
        let to = diagram_id_exec(e.to);
        push_str(&mut s, to.as_str());
        if self.style.show_edge_labels {
            if let Some(label) = &e.label {
                push_str(&mut s, " [label=\"");
                let esc = escape_graphviz_exec(label.as_str());
                push_str(&mut s, esc.as_str());
                push_str(&mut s, "\"]");
                return s;
            }
        }
        s
    }

    /// The Graphviz DOT text.
    pub fn to_graphviz(&self) -> (r: String)
        ensures
            r@ == graphviz_text(self.spec_workflow(), self.spec_style()),
    {
        let w = self.workflow;
        let mut out = String::new();
        push_str(&mut out, "digraph workflow {\n");
        push_str(&mut out, "    rankdir=");
        push_str(&mut out, self.style.orientation.to_graphviz());
        push_str(&mut out, ";\n");
        push_str(&mut out, "    node [shape=box, style=\"rounded,filled\"];\n");
        push_str(&mut out, "    edge [fontsize=10];\n\n");
        if let Some(desc) = &w.metadata.description {
            push_str(&mut out, "    labelloc=\"t\";\n");
            push_str(&mut out, "    label=\"");
            let esc = escape_graphviz_exec(desc.as_str());
            push_str(&mut out, esc.as_str());
            push_str(&mut out, "\";\n\n");
        }
        let ghost head = out@;
        let mut i: usize = 0;
        while i < w.nodes.len()
            invariant
                i <= w.nodes@.len(),
                out@ == head + graphviz_node_lines(self.style, w.nodes@.take(i as int)),
            decreases w.nodes.len() - i,
        {
            assert(w.nodes@.take(i + 1).drop_last() =~= w.nodes@.take(i as int));
            let d = self.graphviz_node_definition(&w.nodes[i]);
            push_str(&mut out, "    ");
            push_str(&mut out, d.as_str());
            push_str(&mut out, ";\n");
            assert(out@ =~= head + graphviz_node_lines(self.style, w.nodes@.take(i + 1)));
            i = i + 1;
        }
        assert(w.nodes@.take(w.nodes@.len() as int) =~= w.nodes@);
        push_str(&mut out, "\n");
        let ghost mid = out@;
        let mut j: usize = 0;
        while j < w.edges.len()
            invariant
                j <= w.edges@.len(),
                out@ == mid + graphviz_edge_lines(self.style, w.edges@.take(j as int)),
            decreases w.edges.len() - j,
        {
            assert(w.edges@.take(j + 1).drop_last() =~= w.edges@.take(j as int));
            let d = self.graphviz_edge_definition(&w.edges[j]);
            push_str(&mut out, "    ");
            push_str(&mut out, d.as_str());
            push_str(&mut out, ";\n");
            assert(out@ =~= mid + graphviz_edge_lines(self.style, w.edges@.take(j + 1)));
            j = j + 1;
        }
        assert(w.edges@.take(w.edges@.len() as int) =~= w.edges@);
        push_str(&mut out, "}\n");
        assert(out@ =~= graphviz_text(*w, self.style));
        out
    }
}

impl<'a> WorkflowVisualizer<'a> {
    fn topological_sort(&self) -> (r: Vec<NodeId>)
        ensures
            topo_order(*self.workflow, r@),
    {
        let starts = kind_ids(&self.workflow.nodes, true);
        let edges = self.workflow.edge_pairs();
        let done = dfs_postorder(&edges, &starts);
        let mut r: Vec<NodeId> = Vec::new();
        let mut i: usize = done.len();
        while i > 0
            invariant
                i <= done@.len(),
                r@ == done@.subrange(i as int, done@.len() as int).reverse(),
            decreases i,
        {
            i = i - 1;
            r.push(done[i]);
            assert(r@ =~= done@.subrange(i as int, done@.len() as int).reverse());
        }
        assert(r@.reverse() =~= done@);
        r
    }

    fn plantuml_node_definition(&self, n: &Node) -> (r: String)
        ensures
            r@ == plantuml_node(self.style, *n),
    {
        let label = node_label_exec(&self.style, n);
        match n.kind {
            NodeKind::Start => String::from_str("start"),
            NodeKind::End => String::from_str("stop"),
            NodeKind::IfElse(_) => {
                let mut s = String::from_str("if (");
                push_str(&mut s, label.as_str());
                push_str(&mut s, ") then (yes)\n  :proceed;\nelse (no)\n  :alternative;\nendif");
                s
            },
            NodeKind::Switch(_) => {
                let mut s = String::from_str("switch (");
                push_str(&mut s, label.as_str());
                push_str(&mut s, ")\ncase (option 1)\n  :handle option 1;\ncase (option 2)\n  :handle option 2;\nendswitch");
                s
            },
            NodeKind::Loop(_) => {
                let mut s = String::from_str("while (");
                push_str(&mut s, label.as_str());
                push_str(&mut s, ")\n  :process;\nendwhile");
                s
            },
            _ => {
                let mut s = String::from_str(":");
                push_str(&mut s, label.as_str());
                push_str(&mut s, ";");
                s
            },
        }
    }

    /// The PlantUML activity diagram, the nodes listed in a topological order from the
    /// start nodes.
    pub fn to_plantuml(&self) -> (r: String)
        ensures
            exists|order: Seq<NodeId>| #[trigger] topo_order(self.spec_workflow(), order)
                && r@ == plantuml_text(self.spec_workflow(), self.spec_style(), order),
    {
        let w = self.workflow;
        let mut out = String::new();
        push_str(&mut out, "@startuml\n");
        if let Some(desc) = &w.metadata.description {
            push_str(&mut out, "title ");
            push_str(&mut out, desc.as_str());
            push_str(&mut out, "\n");
        }
        push_str(&mut out, "start\n\n");
        let order = self.topological_sort();
        let ghost head = out@;
        let mut visited: Vec<NodeId> = Vec::new();
        let mut i: usize = 0;
        while i < order.len()
            invariant
                i <= order@.len(),
                order@.reverse().no_duplicates(),
                visited@ == order@.take(i as int),
                out@ == head + plantuml_lines(self.style, w.nodes@, order@.take(i as int)),
            decreases order.len() - i,
        {
            let id = order[i];
            assert(order@.take(i + 1).drop_last() =~= order@.take(i as int));
            if contains_id(&visited, id) {
                proof {
                    let k = choose|k: int| 0 <= k < visited@.len() && visited@[k] == id;
                    let n = order@.len();
                    assert(order@.reverse()[n - 1 - k] == order@[k]);
                    assert(order@.reverse()[n - 1 - i] == order@[i as int]);
                }
            } else {
                match w.get_node(id) {
                    Some(node) => {
                        proof {
                            let k = choose|k: int|
                                0 <= k < w.nodes@.len() && w.nodes@[k] == *node && node.id == id && forall|j: int|
                                    0 <= j < k ==> #[trigger] w.nodes@[j].id != id;
                            assert(is_first_node(w.nodes@, id, k));
                            let c = choose|c: int| #[trigger] is_first_node(w.nodes@, id, c);
                            assert(is_first_node(w.nodes@, id, c));
                            if c < k {
                                assert(w.nodes@[c].id != id);
                            } else if c > k {
                                assert(w.nodes@[k].id != id);
                            }
                            assert(first_node(w.nodes@, id) == Some(*node));
                        }
                        let d = self.plantuml_node_definition(node);
                        push_str(&mut out, d.as_str());
                        push_str(&mut out, "\n");
                        assert(out@ =~= head + plantuml_lines(self.style, w.nodes@, order@.take(i + 1)));
                    },
                    None => {
                        proof {
                            if exists|c: int| #[trigger] is_first_node(w.nodes@, id, c) {
                                let c = choose|c: int| #[trigger] is_first_node(w.nodes@, id, c);
                                assert(w.nodes@[c].id == id);
                            }
                        }
                        assert(out@ =~= head + plantuml_lines(self.style, w.nodes@, order@.take(i + 1)));
                    },
                }
            }
            visited.push(id);
            assert(visited@ =~= order@.take(i + 1));
            i = i + 1;
        }
        assert(order@.take(order@.len() as int) =~= order@);
        push_str(&mut out, "\nstop\n");
        push_str(&mut out, "@enduml\n");
        assert(out@ =~= plantuml_text(*w, self.style, order@));
        out
    }

    /// The diagram in the given format.
    pub fn export(&self, format: VisualizationFormat) -> (r: String)
        ensures
            format == VisualizationFormat::Mermaid ==> r@ == mermaid_text(self.spec_workflow(), self.spec_style()),
            format == VisualizationFormat::Graphviz ==> r@ == graphviz_text(self.spec_workflow(), self.spec_style()),
            format == VisualizationFormat::PlantUML ==> exists|order: Seq<NodeId>|
                #[trigger] topo_order(self.spec_workflow(), order)
                && r@ == plantuml_text(self.spec_workflow(), self.spec_style(), order),
    {
        match format {
            VisualizationFormat::Mermaid => self.to_mermaid(),
            VisualizationFormat::Graphviz => self.to_graphviz(),
            VisualizationFormat::PlantUML => self.to_plantuml(),
        }
    }
}

/// The Mermaid flowchart of a workflow in the default style.
pub fn workflow_to_mermaid(workflow: &Workflow) -> (r: String)
    ensures
        r@ == mermaid_text(*workflow, VisualizationStyle::spec_default()),
{
    WorkflowVisualizer::new(workflow).to_mermaid()
}

/// The Graphviz DOT text of a workflow in the default style.
pub fn workflow_to_graphviz(workflow: &Workflow) -> (r: String)
    ensures
        r@ == graphviz_text(*workflow, VisualizationStyle::spec_default()),
{
    WorkflowVisualizer::new(workflow).to_graphviz()
}

/// The PlantUML diagram of a workflow in the default style.
pub fn workflow_to_plantuml(workflow: &Workflow) -> (r: String)
    ensures
        exists|order: Seq<NodeId>| #[trigger] topo_order(*workflow, order)
            && r@ == plantuml_text(*workflow, VisualizationStyle::spec_default(), order),
{
    WorkflowVisualizer::new(workflow).to_plantuml()
}

} // verus!
