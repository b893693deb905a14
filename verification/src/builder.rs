//! Fluent construction of workflows: each node added after the first is
//! connected from the node added before it.

use vstd::prelude::*;
use crate::node::{
    Condition, LoopConfig, Node, NodeId, NodeKind, ParallelConfig, RetryConfig, SubWorkflowConfig, SwitchConfig,
    TimeoutConfig, TryCatchConfig,
};
use crate::workflow::{Edge, Workflow};

verus! {

/// An edge from `from` to `to` without label or condition.
pub open spec fn plain_edge(e: Edge, from: NodeId, to: NodeId) -> bool {
    e.from == from && e.to == to && e.label is None && e.condition is None
}

/// Builds a workflow node by node.
pub struct WorkflowBuilder {
    workflow: Workflow,
    last_node_id: Option<NodeId>,
}

impl WorkflowBuilder {
    /// The workflow built so far.
    pub closed spec fn spec_workflow(&self) -> Workflow {
        self.workflow
    }

    /// The node added last.
    pub closed spec fn spec_last(&self) -> Option<NodeId> {
        self.last_node_id
    }

    /// `b` is `a` with `node` added and, when there was a last node, an edge from it.
    pub open spec fn appended(a: WorkflowBuilder, b: WorkflowBuilder, node: Node) -> bool {
        &&& b.spec_workflow().nodes@ == a.spec_workflow().nodes@.push(node)
        &&& b.spec_workflow().metadata == a.spec_workflow().metadata
        &&& b.spec_last() == Some(node.id)
        &&& match a.spec_last() {
            Some(from) => b.spec_workflow().edges@.len() == a.spec_workflow().edges@.len() + 1
                && b.spec_workflow().edges@.drop_last() == a.spec_workflow().edges@
                && plain_edge(b.spec_workflow().edges@.last(), from, node.id),
            None => b.spec_workflow().edges@ == a.spec_workflow().edges@,
        }
    }

    /// An empty workflow with the given name.
    pub fn new(name: String) -> (r: Self)
        ensures
            r.spec_workflow().metadata.name == name,
            r.spec_workflow().nodes@.len() == 0,
            r.spec_workflow().edges@.len() == 0,
            r.spec_last() is None,
    {
        WorkflowBuilder { workflow: Workflow::new(name), last_node_id: None }
    }

    /// Set the description.
    pub fn description(self, description: String) -> (r: Self)
        ensures
            r.spec_workflow().metadata.description == Some(description),
            r.spec_workflow().nodes == self.spec_workflow().nodes,
            r.spec_workflow().edges == self.spec_workflow().edges,
            r.spec_last() == self.spec_last(),
    {
        let mut s = self;
        s.workflow.metadata.description = Some(description);
        s
    }

    /// Set the version text.
    pub fn version(self, version: String) -> (r: Self)
        ensures
            r.spec_workflow().metadata.version == version,
            r.spec_workflow().nodes == self.spec_workflow().nodes,
            r.spec_workflow().edges == self.spec_workflow().edges,
            r.spec_last() == self.spec_last(),
    {
        let mut s = self;
        s.workflow.metadata.version = version;
        s
    }

    /// Add a tag.
    pub fn tag(self, tag: String) -> (r: Self)
        ensures
            r.spec_workflow().metadata.tags@ == self.spec_workflow().metadata.tags@.push(tag),
            r.spec_workflow().nodes == self.spec_workflow().nodes,
            r.spec_workflow().edges == self.spec_workflow().edges,
            r.spec_last() == self.spec_last(),
    {
        let mut s = self;
        s.workflow.metadata.tags.push(tag);
        s
    }

    /// Add several tags, in order.
    pub fn tags(self, tags: Vec<String>) -> (r: Self)
        ensures
            r.spec_workflow().metadata.tags@ == self.spec_workflow().metadata.tags@ + tags@,
            r.spec_workflow().nodes == self.spec_workflow().nodes,
            r.spec_workflow().edges == self.spec_workflow().edges,
            r.spec_last() == self.spec_last(),
    {
        let mut s = self;
        let mut more = tags;
        s.workflow.metadata.tags.append(&mut more);
        s
    }

    /// Add a start node (not connected from anything).
    pub fn start(self, name: String) -> (r: Self)
        ensures
            r.spec_workflow().nodes@.len() == self.spec_workflow().nodes@.len() + 1,
            r.spec_workflow().nodes@.drop_last() == self.spec_workflow().nodes@,
            r.spec_workflow().nodes@.last().name == name,
            r.spec_workflow().nodes@.last().kind == NodeKind::Start,
            r.spec_workflow().edges == self.spec_workflow().edges,
            r.spec_workflow().metadata == self.spec_workflow().metadata,
            r.spec_last() == Some(r.spec_workflow().nodes@.last().id),
    {
        let node = Node::new(name, NodeKind::Start);
        let mut s = self;
        s.last_node_id = Some(node.id);
        s.workflow.add_node(node);
        assert(s.workflow.nodes@.drop_last() =~= self.workflow.nodes@);
        s
    }

    /// Add a node, connected from the node added last.
    pub fn node(self, node: Node) -> (r: Self)
        ensures
            WorkflowBuilder::appended(self, r, node),
    {
        let node_id = node.id;
        let mut s = self;
        s.workflow.add_node(node);
        match s.last_node_id {
            Some(from_id) => {
                s.workflow.add_edge(Edge::new(from_id, node_id));
                assert(s.workflow.edges@.drop_last() =~= self.workflow.edges@);
            },
            None => {},
        }
        s.last_node_id = Some(node_id);
        s
    }

    /// Add an end node, connected from the node added last.
    pub fn end(self, name: String) -> (r: Self)
        ensures
            exists|n: Node| n.name == name && n.kind == NodeKind::End && WorkflowBuilder::appended(self, r, n),
    {
        let n = Node::new(name, NodeKind::End);
        self.node(n)
    }

    /// Add an if-else node, connected from the node added last.
    pub fn if_else(self, name: String, condition: Condition) -> (r: Self)
        ensures
            exists|n: Node| n.name == name && n.kind == NodeKind::IfElse(condition) && WorkflowBuilder::appended(self, r, n),
    {
        let n = Node::new(name, NodeKind::IfElse(condition));
        self.node(n)
    }

    /// Add a loop node, connected from the node added last.
    pub fn loop_node(self, name: String, config: LoopConfig) -> (r: Self)
        ensures
            exists|n: Node| n.name == name && n.kind == NodeKind::Loop(config) && WorkflowBuilder::appended(self, r, n),
    {
        let n = Node::new(name, NodeKind::Loop(config));
        self.node(n)
    }

    /// Add a try-catch node, connected from the node added last.
    pub fn try_catch(self, name: String, config: TryCatchConfig) -> (r: Self)
        ensures
            exists|n: Node| n.name == name && n.kind == NodeKind::TryCatch(config) && WorkflowBuilder::appended(self, r, n),
    {
        let n = Node::new(name, NodeKind::TryCatch(config));
        self.node(n)
    }

    /// Add a sub-workflow node, connected from the node added last.
    pub fn sub_workflow(self, name: String, config: SubWorkflowConfig) -> (r: Self)
        ensures
            exists|n: Node| n.name == name && n.kind == NodeKind::SubWorkflow(config) && WorkflowBuilder::appended(self, r, n),
    {
        let n = Node::new(name, NodeKind::SubWorkflow(config));
        self.node(n)
    }

    /// Add a switch node, connected from the node added last.
    pub fn switch(self, name: String, config: SwitchConfig) -> (r: Self)
        ensures
            exists|n: Node| n.name == name && n.kind == NodeKind::Switch(config) && WorkflowBuilder::appended(self, r, n),
    {
        let n = Node::new(name, NodeKind::Switch(config));
        self.node(n)
    }

    /// Add a parallel node, connected from the node added last.
    pub fn parallel(self, name: String, config: ParallelConfig) -> (r: Self)
        ensures
            exists|n: Node| n.name == name && n.kind == NodeKind::Parallel(config) && WorkflowBuilder::appended(self, r, n),
    {
        let n = Node::new(name, NodeKind::Parallel(config));
        self.node(n)
    }

    /// Connect the nodes at two positions, when both exist.
    pub fn connect(self, from_index: usize, to_index: usize) -> (r: Self)
        ensures
            r.spec_workflow().nodes == self.spec_workflow().nodes,
            r.spec_workflow().metadata == self.spec_workflow().metadata,
            r.spec_last() == self.spec_last(),
            ({
                let ns = self.spec_workflow().nodes@;
                if from_index < ns.len() && to_index < ns.len() {
                    r.spec_workflow().edges@.len() == self.spec_workflow().edges@.len() + 1
                        && r.spec_workflow().edges@.drop_last() == self.spec_workflow().edges@
                        && plain_edge(r.spec_workflow().edges@.last(), ns[from_index as int].id, ns[to_index as int].id)
                } else {
                    r.spec_workflow().edges@ == self.spec_workflow().edges@
                }
            }),
    {
        let mut s = self;
        if from_index < s.workflow.nodes.len() && to_index < s.workflow.nodes.len() {
            let from_id = s.workflow.nodes[from_index].id;
            let to_id = s.workflow.nodes[to_index].id;
            s.workflow.add_edge(Edge::new(from_id, to_id));
            assert(s.workflow.edges@.drop_last() =~= self.workflow.edges@);
        }
        s
    }

    /// Connect two nodes by identifier.
    pub fn connect_ids(self, from_id: NodeId, to_id: NodeId) -> (r: Self)
        ensures
            r.spec_workflow().nodes == self.spec_workflow().nodes,
            r.spec_workflow().metadata == self.spec_workflow().metadata,
            r.spec_last() == self.spec_last(),
            r.spec_workflow().edges@.len() == self.spec_workflow().edges@.len() + 1,
            r.spec_workflow().edges@.drop_last() == self.spec_workflow().edges@,
            plain_edge(r.spec_workflow().edges@.last(), from_id, to_id),
    {
        let mut s = self;
        s.workflow.add_edge(Edge::new(from_id, to_id));
        assert(s.workflow.edges@.drop_last() =~= self.workflow.edges@);
        s
    }

    /// The node added last.
    pub fn last_node_id(&self) -> (r: Option<NodeId>)
        ensures
            r == self.spec_last(),
    {
        self.last_node_id
    }

    /// The identifier of the node at a position.
    pub fn node_id_at(&self, index: usize) -> (r: Option<NodeId>)
        ensures
            r == (if index < self.spec_workflow().nodes@.len() {
                Some(self.spec_workflow().nodes@[index as int].id)
            } else {
                None
            }),
    {
        if index < self.workflow.nodes.len() {
            Some(self.workflow.nodes[index].id)
        } else {
            None
        }
    }

    /// The workflow.
    pub fn build(self) -> (r: Workflow)
        ensures
            r == self.spec_workflow(),
    {
        self.workflow
    }
}

/// Builds one node with its retry and timeout settings.
pub struct NodeBuilder {
    node: Node,
}

impl NodeBuilder {
    /// The node so far.
    pub closed spec fn spec_node(&self) -> Node {
        self.node
    }

    /// A node with a fresh identifier.
    pub fn new(name: String, kind: NodeKind) -> (r: Self)
        ensures
            r.spec_node().name == name,
            r.spec_node().kind == kind,
            r.spec_node().retry_config is None,
            r.spec_node().timeout_config is None,
    {
        NodeBuilder { node: Node::new(name, kind) }
    }

    /// Set the retry configuration.
    pub fn retry(self, config: RetryConfig) -> (r: Self)
        ensures
            r.spec_node() == (Node { retry_config: Some(config), ..self.spec_node() }),
    {
        let mut s = self;
        s.node.retry_config = Some(config);
        s
    }

    /// Set the timeout configuration.
    pub fn timeout(self, config: TimeoutConfig) -> (r: Self)
        ensures
            r.spec_node() == (Node { timeout_config: Some(config), ..self.spec_node() }),
    {
        let mut s = self;
        s.node.timeout_config = Some(config);
        s
    }

    /// The node.
    pub fn build(self) -> (r: Node)
        ensures
            r == self.spec_node(),
    {
        self.node
    }
}

} // verus!
