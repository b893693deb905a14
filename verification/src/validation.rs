//! Structural validation of workflows: start and end nodes, edge references,
//! branch targets, node configurations, cycles, reachability and duplicates.

use vstd::prelude::*;
use crate::graph::{
    IdEdge, acyclic, bfs_closure, edges_within, is_bfs_depth, peel_levels, reaches, reverse_edges,
    reversed, contains_id,
};
use crate::node::{kind_name, kind_tag, LoopType, Node, NodeId, NodeKind, ParallelTask, SwitchCase};
use crate::text::{is_blank, is_blank_str, push_char, uuid_text, uuid_to_string};
use crate::workflow::{Workflow, ids_of, keep, pairs_of};

verus! {

/// A validation error.
#[derive(Debug, Clone, PartialEq, Eq)]
pub enum ValidationError {
    NoStartNode,
    MultipleStartNodes(String),
    NoEndNode,
    MultipleEndNodes(String),
    CycleDetected,
    UnreachableNode(NodeId),
    DeadEndNode(NodeId),
    InvalidNodeReference(NodeId),
    MissingTrueBranch(NodeId),
    MissingFalseBranch(NodeId),
    InvalidConditionalBranch(NodeId, NodeId),
    DuplicateEdge(NodeId, NodeId),
    EmptyWorkflow,
    NoEdges,
    SwitchNodeNoCases(NodeId),
    SwitchNodeEmptyExpression(NodeId),
    SwitchCaseEmptyMatch(NodeId),
    ParallelNodeNoTasks(NodeId),
    ParallelTaskEmptyExpression(NodeId, String),
    ParallelDuplicateTaskId(NodeId, String),
    LoopEmptyCollectionPath(NodeId),
    LoopEmptyBodyExpression(NodeId),
    TryCatchEmptyTryExpression(NodeId),
    SubWorkflowEmptyPath(NodeId),
}

/// The mathematical value of a [`ValidationError`]: its texts as character sequences.
pub enum ErrorView {
    NoStartNode,
    MultipleStartNodes(Seq<char>),
    NoEndNode,
    MultipleEndNodes(Seq<char>),
    CycleDetected,
    UnreachableNode(NodeId),
    DeadEndNode(NodeId),
    InvalidNodeReference(NodeId),
    MissingTrueBranch(NodeId),
    MissingFalseBranch(NodeId),
    InvalidConditionalBranch(NodeId, NodeId),
    DuplicateEdge(NodeId, NodeId),
    EmptyWorkflow,
    NoEdges,
    SwitchNodeNoCases(NodeId),
    SwitchNodeEmptyExpression(NodeId),
    SwitchCaseEmptyMatch(NodeId),
    ParallelNodeNoTasks(NodeId),
    ParallelTaskEmptyExpression(NodeId, Seq<char>),
    ParallelDuplicateTaskId(NodeId, Seq<char>),
    LoopEmptyCollectionPath(NodeId),
    LoopEmptyBodyExpression(NodeId),
    TryCatchEmptyTryExpression(NodeId),
    SubWorkflowEmptyPath(NodeId),
}

impl View for ValidationError {
    type V = ErrorView;

    open spec fn view(&self) -> ErrorView {
        match self {
            ValidationError::NoStartNode => ErrorView::NoStartNode,
            ValidationError::MultipleStartNodes(s) => ErrorView::MultipleStartNodes(s@),
            ValidationError::NoEndNode => ErrorView::NoEndNode,
            ValidationError::MultipleEndNodes(s) => ErrorView::MultipleEndNodes(s@),
            ValidationError::CycleDetected => ErrorView::CycleDetected,
            ValidationError::UnreachableNode(a) => ErrorView::UnreachableNode(*a),
            ValidationError::DeadEndNode(a) => ErrorView::DeadEndNode(*a),
            ValidationError::InvalidNodeReference(a) => ErrorView::InvalidNodeReference(*a),
            ValidationError::MissingTrueBranch(a) => ErrorView::MissingTrueBranch(*a),
            ValidationError::MissingFalseBranch(a) => ErrorView::MissingFalseBranch(*a),
            ValidationError::InvalidConditionalBranch(a, b) => ErrorView::InvalidConditionalBranch(*a, *b),
            ValidationError::DuplicateEdge(a, b) => ErrorView::DuplicateEdge(*a, *b),
            ValidationError::EmptyWorkflow => ErrorView::EmptyWorkflow,
            ValidationError::NoEdges => ErrorView::NoEdges,
            ValidationError::SwitchNodeNoCases(a) => ErrorView::SwitchNodeNoCases(*a),
            ValidationError::SwitchNodeEmptyExpression(a) => ErrorView::SwitchNodeEmptyExpression(*a),
            ValidationError::SwitchCaseEmptyMatch(a) => ErrorView::SwitchCaseEmptyMatch(*a),
            ValidationError::ParallelNodeNoTasks(a) => ErrorView::ParallelNodeNoTasks(*a),
            ValidationError::ParallelTaskEmptyExpression(a, s) => ErrorView::ParallelTaskEmptyExpression(*a, s@),
            ValidationError::ParallelDuplicateTaskId(a, s) => ErrorView::ParallelDuplicateTaskId(*a, s@),
            ValidationError::LoopEmptyCollectionPath(a) => ErrorView::LoopEmptyCollectionPath(*a),
            ValidationError::LoopEmptyBodyExpression(a) => ErrorView::LoopEmptyBodyExpression(*a),
            ValidationError::TryCatchEmptyTryExpression(a) => ErrorView::TryCatchEmptyTryExpression(*a),
            ValidationError::SubWorkflowEmptyPath(a) => ErrorView::SubWorkflowEmptyPath(*a),
        }
    }
}

/// The views of a sequence of errors.
pub open spec fn views(s: Seq<ValidationError>) -> Seq<ErrorView> {
    s.map_values(|e: ValidationError| e@)
}

/// Identifiers rendered and joined with `", "`.
pub open spec fn join_ids(ids: Seq<u128>) -> Seq<char>
    decreases ids.len(),
{
    if ids.len() == 0 {
        Seq::empty()
    } else if ids.len() == 1 {
        uuid_text(ids[0])
    } else {
        join_ids(ids.drop_last()) + ", "@ + uuid_text(ids.last())
    }
}

/// The identifiers of the nodes of a given kind predicate.
pub open spec fn start_ids(nodes: Seq<Node>) -> Seq<u128> {
    ids_of(keep(nodes, |n: Node| n.kind is Start))
}

/// The identifiers of the end nodes.
pub open spec fn end_ids(nodes: Seq<Node>) -> Seq<u128> {
    ids_of(keep(nodes, |n: Node| n.kind is End))
}

/// The outcome of the start / end node check, as a sequence of at most one error.
pub open spec fn start_end_errors(nodes: Seq<Node>) -> Seq<ErrorView> {
    let s = start_ids(nodes);
    let e = end_ids(nodes);
    if s.len() == 0 {
        seq![ErrorView::NoStartNode]
    } else if s.len() > 1 {
        seq![ErrorView::MultipleStartNodes(join_ids(s))]
    } else if e.len() == 0 {
        seq![ErrorView::NoEndNode]
    } else if e.len() > 1 {
        seq![ErrorView::MultipleEndNodes(join_ids(e))]
    } else {
        Seq::empty()
    }
}

/// The errors for edges whose endpoints are not nodes, in edge order.
pub open spec fn edge_ref_errors(ids: Seq<u128>, edges: Seq<IdEdge>) -> Seq<ErrorView>
    decreases edges.len(),
{
    if edges.len() == 0 {
        Seq::empty()
    } else {
        let e = edges.last();
        edge_ref_errors(ids, edges.drop_last()) + (if ids.contains(e.0) {
            Seq::empty()
        } else {
            seq![ErrorView::InvalidNodeReference(e.0)]
        }) + (if ids.contains(e.1) {
            Seq::empty()
        } else {
            seq![ErrorView::InvalidNodeReference(e.1)]
        })
    }
}

/// The errors for conditional nodes whose branches are not nodes, in node order.
pub open spec fn conditional_errors(ids: Seq<u128>, nodes: Seq<Node>) -> Seq<ErrorView>
    decreases nodes.len(),
{
    if nodes.len() == 0 {
        Seq::empty()
    } else {
        let n = nodes.last();
        conditional_errors(ids, nodes.drop_last()) + match n.kind {
            NodeKind::IfElse(c) => (if ids.contains(c.true_branch) {
                Seq::empty()
            } else {
                seq![ErrorView::InvalidConditionalBranch(n.id, c.true_branch)]
            }) + (if ids.contains(c.false_branch) {
                Seq::empty()
            } else {
                seq![ErrorView::InvalidConditionalBranch(n.id, c.false_branch)]
            }),
            _ => Seq::empty(),
        }
    }
}

/// The errors for the cases of a switch node.
pub open spec fn switch_case_errors(id: NodeId, cases: Seq<SwitchCase>) -> Seq<ErrorView>
    decreases cases.len(),
{
    if cases.len() == 0 {
        Seq::empty()
    } else {
        switch_case_errors(id, cases.drop_last()) + if is_blank(cases.last().match_value@) {
            seq![ErrorView::SwitchCaseEmptyMatch(id)]
        } else {
            Seq::empty()
        }
    }
}

/// Whether a task identifier occurs among the tasks.
pub open spec fn task_id_seen(tasks: Seq<ParallelTask>, tid: Seq<char>) -> bool {
    exists|j: int| 0 <= j < tasks.len() && #[trigger] tasks[j].id@ == tid
}

/// The errors for the tasks of a parallel node.
pub open spec fn task_errors(id: NodeId, tasks: Seq<ParallelTask>) -> Seq<ErrorView>
    decreases tasks.len(),
{
    if tasks.len() == 0 {
        Seq::empty()
    } else {
        let t = tasks.last();
        task_errors(id, tasks.drop_last()) + (if is_blank(t.expression@) {
            seq![ErrorView::ParallelTaskEmptyExpression(id, t.id@)]
        } else {
            Seq::empty()
        }) + (if task_id_seen(tasks.drop_last(), t.id@) {
            seq![ErrorView::ParallelDuplicateTaskId(id, t.id@)]
        } else {
            Seq::empty()
        })
    }
}

/// The configuration errors of one node.
pub open spec fn node_config_errors(n: Node) -> Seq<ErrorView> {
    match n.kind {
        NodeKind::Switch(c) => (if is_blank(c.switch_on@) {
            seq![ErrorView::SwitchNodeEmptyExpression(n.id)]
        } else {
            Seq::empty()
        }) + (if c.cases@.len() == 0 && c.default_case is None {
            seq![ErrorView::SwitchNodeNoCases(n.id)]
        } else {
            Seq::empty()
        }) + switch_case_errors(n.id, c.cases@),
        NodeKind::Parallel(c) => (if c.tasks@.len() == 0 {
            seq![ErrorView::ParallelNodeNoTasks(n.id)]
        } else {
            Seq::empty()
        }) + task_errors(n.id, c.tasks@),
        NodeKind::Loop(c) => match c.loop_type {
            LoopType::ForEach { collection_path, body_expression, .. } => (if is_blank(collection_path@) {
                seq![ErrorView::LoopEmptyCollectionPath(n.id)]
            } else {
                Seq::empty()
            }) + (if is_blank(body_expression@) {
                seq![ErrorView::LoopEmptyBodyExpression(n.id)]
            } else {
                Seq::empty()
            }),
            LoopType::While { body_expression, .. } => if is_blank(body_expression@) {
                seq![ErrorView::LoopEmptyBodyExpression(n.id)]
            } else {
                Seq::empty()
            },
            LoopType::Repeat { body_expression, .. } => if is_blank(body_expression@) {
                seq![ErrorView::LoopEmptyBodyExpression(n.id)]
            } else {
                Seq::empty()
            },
        },
        NodeKind::TryCatch(c) => if is_blank(c.try_expression@) {
            seq![ErrorView::TryCatchEmptyTryExpression(n.id)]
        } else {
            Seq::empty()
        },
        NodeKind::SubWorkflow(c) => if is_blank(c.workflow_path@) {
            seq![ErrorView::SubWorkflowEmptyPath(n.id)]
        } else {
            Seq::empty()
        },
        _ => Seq::empty(),
    }
}

/// The configuration errors of all nodes, in node order.
pub open spec fn advanced_errors(nodes: Seq<Node>) -> Seq<ErrorView>
    decreases nodes.len(),
{
    if nodes.len() == 0 {
        Seq::empty()
    } else {
        advanced_errors(nodes.drop_last()) + node_config_errors(nodes.last())
    }
}

/// Whether every edge joins two nodes of the workflow.
pub open spec fn edges_valid(w: Workflow) -> bool {
    edges_within(ids_of(w.nodes@), pairs_of(w.edges@))
}

/// The cycle check: fails when node identifiers repeat or the graph has a cycle.
pub open spec fn cycle_errors(w: Workflow) -> Seq<ErrorView> {
    if ids_of(w.nodes@).no_duplicates() && acyclic(pairs_of(w.edges@)) {
        Seq::empty()
    } else {
        seq![ErrorView::CycleDetected]
    }
}

/// All structural errors of a non-empty workflow, in the order they are checked.
pub open spec fn structural_errors(w: Workflow) -> Seq<ErrorView> {
    let ids = ids_of(w.nodes@);
    start_end_errors(w.nodes@) + edge_ref_errors(ids, pairs_of(w.edges@)) + conditional_errors(ids, w.nodes@)
        + advanced_errors(w.nodes@) + if edges_valid(w) {
        cycle_errors(w)
    } else {
        Seq::empty()
    }
}

/// The first node of the given kind predicate, if any.
pub open spec fn first_start(nodes: Seq<Node>) -> Option<u128> {
    if start_ids(nodes).len() > 0 { Some(start_ids(nodes)[0]) } else { None }
}

/// The first end node, if any.
pub open spec fn first_end(nodes: Seq<Node>) -> Option<u128> {
    if end_ids(nodes).len() > 0 { Some(end_ids(nodes)[0]) } else { None }
}

/// Warnings for nodes that cannot be reached from the start node, in node order.
pub open spec fn unreachable_warnings(w: Workflow) -> Seq<ErrorView> {
    match first_start(w.nodes@) {
        None => Seq::empty(),
        Some(s) => ids_of(keep(w.nodes@, |n: Node| !reaches(pairs_of(w.edges@), set![s], n.id))).map_values(
            |id: u128| ErrorView::UnreachableNode(id),
        ),
    }
}

/// Warnings for nodes from which the end node cannot be reached, in node order.
pub open spec fn dead_end_warnings(w: Workflow) -> Seq<ErrorView> {
    match first_end(w.nodes@) {
        None => Seq::empty(),
        Some(e) => ids_of(keep(w.nodes@, |n: Node| !reaches(reversed(pairs_of(w.edges@)), set![e], n.id))).map_values(
            |id: u128| ErrorView::DeadEndNode(id),
        ),
    }
}

/// Warnings for edges that repeat an earlier (source, target) pair, in edge order.
pub open spec fn duplicate_edge_warnings(edges: Seq<IdEdge>) -> Seq<ErrorView>
    decreases edges.len(),
{
    if edges.len() == 0 {
        Seq::empty()
    } else {
        let e = edges.last();
        duplicate_edge_warnings(edges.drop_last()) + if edges.drop_last().contains(e) {
            seq![ErrorView::DuplicateEdge(e.0, e.1)]
        } else {
            Seq::empty()
        }
    }
}

/// Number of nodes whose kind has the given variant index.
pub open spec fn count_kind(nodes: Seq<Node>, tag: int) -> nat {
    keep(nodes, |n: Node| kind_tag(n.kind) == tag).len()
}

/// Validation statistics.
#[derive(Debug, Clone)]
pub struct ValidationStats {
    pub total_nodes: usize,
    pub total_edges: usize,
    pub start_nodes: usize,
    pub end_nodes: usize,
    pub max_depth: usize,
    /// For each node kind that occurs, its name and the number of nodes of it.
    pub node_type_counts: Vec<(String, usize)>,
}

/// A successful validation: the warnings found and the statistics.
#[derive(Debug, Clone)]
pub struct ValidationReport {
    pub valid: bool,
    pub warnings: Vec<ValidationError>,
    pub stats: ValidationStats,
}

/// The breadth-first depth of the workflow from its first start node (0 without one).
pub open spec fn depth_ok(w: Workflow, d: nat) -> bool {
    match first_start(w.nodes@) {
        None => d == 0,
        Some(s) => is_bfs_depth(pairs_of(w.edges@), set![s], d),
    }
}

/// The statistics describe the workflow.
pub open spec fn stats_ok(w: Workflow, st: ValidationStats) -> bool {
    &&& st.total_nodes == w.nodes@.len()
    &&& st.total_edges == w.edges@.len()
    &&& st.start_nodes == start_ids(w.nodes@).len()
    &&& st.end_nodes == end_ids(w.nodes@).len()
    &&& depth_ok(w, st.max_depth as nat)
    &&& st.node_type_counts@.map_values(|e: (String, usize)| (e.0@, e.1 as nat)) == type_count_entries(
        w.nodes@,
        9,
    )
}

/// For the kinds with index below `t` that occur, in index order, their name and node count.
pub open spec fn type_count_entries(nodes: Seq<Node>, t: int) -> Seq<(Seq<char>, nat)>
    decreases t,
{
    if t <= 0 {
        Seq::empty()
    } else {
        let pre = type_count_entries(nodes, t - 1);
        if count_kind(nodes, t - 1) > 0 {
            pre.push((tag_name(t - 1), count_kind(nodes, t - 1)))
        } else {
            pre
        }
    }
}

/// The name of the kind with the given variant index.
pub open spec fn tag_name(t: int) -> Seq<char> {
    if t == 0 { "Start"@ } else if t == 1 { "End"@ } else if t == 2 { "IfElse"@ } else if t == 3 { "Loop"@ }
    else if t == 4 { "TryCatch"@ } else if t == 5 { "SubWorkflow"@ } else if t == 6 { "Switch"@ }
    else if t == 7 { "Parallel"@ } else { "Service"@ }
}

/// The validation outcome.
pub open spec fn validation_outcome_ok(w: Workflow, r: Result<ValidationReport, ValidationError>) -> bool {
    if w.nodes@.len() == 0 {
        r matches Err(e) && e@ == ErrorView::EmptyWorkflow
    } else if structural_errors(w).len() > 0 {
        r matches Err(e) && e@ == structural_errors(w)[0]
    } else {
        r matches Ok(rep) && rep.valid && views(rep.warnings@) == unreachable_warnings(w) + dead_end_warnings(w)
            + duplicate_edge_warnings(pairs_of(w.edges@)) && stats_ok(w, rep.stats)
    }
}

/// The workflow validator.
pub struct WorkflowValidator;

fn push_err(v: &mut Vec<ValidationError>, e: ValidationError)
    ensures
        views(final(v)@) == views(old(v)@).push(e@),
{
    v.push(e);
    assert(views(final(v)@) =~= views(old(v)@).push(e@));
}

fn append_errs(v: &mut Vec<ValidationError>, w: Vec<ValidationError>)
    ensures
        views(final(v)@) == views(old(v)@) + views(w@),
{
    let mut w = w;
    let ghost orig = w@;
    let mut i: usize = 0;
    let ghost start = views(v@);
    assert(orig.len() == w.len());
    while w.len() > 0
        invariant
            views(v@) == start + views(orig.take(i as int)),
            w@ == orig.skip(i as int),
            i + w@.len() == orig.len(),
            orig.len() <= usize::MAX,
        decreases w.len(),
    {
        let e = w.remove(0);
        proof {
            assert(orig[i as int] == e);
        }
        push_err(v, e);
        i = i + 1;
        proof {
            assert(views(orig.take(i as int)) =~= views(orig.take(i - 1)).push(e@));
            assert(w@ =~= orig.skip(i as int));
        }
    }
    assert(orig.take(i as int) =~= orig);
}

/// The identifiers of the start nodes (`start`) or of the end nodes.
pub(crate) fn kind_ids(nodes: &Vec<Node>, start: bool) -> (r: Vec<u128>)
    ensures
        r@ == (if start { start_ids(nodes@) } else { end_ids(nodes@) }),
{
    let ghost p = if start { |n: Node| n.kind is Start } else { |n: Node| n.kind is End };
    let mut r: Vec<u128> = Vec::new();
    let mut i: usize = 0;
    while i < nodes.len()
        invariant
            i <= nodes@.len(),
            p == (if start { |n: Node| n.kind is Start } else { |n: Node| n.kind is End }),
            r@ == ids_of(keep(nodes@.take(i as int), p)),
        decreases nodes.len() - i,
    {
        proof {
            assert(nodes@.take(i + 1).drop_last() =~= nodes@.take(i as int));
        }
        let hit = if start {
            matches!(nodes[i].kind, NodeKind::Start)
        } else {
            matches!(nodes[i].kind, NodeKind::End)
        };
        if hit {
            r.push(nodes[i].id);
        }
        i = i + 1;
        proof {
            assert(r@ =~= ids_of(keep(nodes@.take(i as int), p)));
        }
    }
    proof {
        assert(nodes@.take(nodes@.len() as int) =~= nodes@);
    }
    r
}

/// Render identifiers joined with `", "`.
pub fn join_ids_exec(ids: &Vec<u128>) -> (s: String)
    ensures
        s@ == join_ids(ids@),
{
    let mut s = String::new();
    let mut i: usize = 0;
    proof {
        reveal_strlit(", ");
        assert(ids@.take(0) =~= Seq::<u128>::empty());
    }
    while i < ids.len()
        invariant
            i <= ids@.len(),
            s@ == join_ids(ids@.take(i as int)),
        decreases ids.len() - i,
    {
        proof {
            assert(ids@.take(i + 1).drop_last() =~= ids@.take(i as int));
        }
        if i > 0 {
            s.append(", ");
        }
        let t = uuid_to_string(ids[i]);
        s.append(t.as_str());
        i = i + 1;
        proof {
            if i == 1 {
                assert(ids@.take(1) =~= seq![ids@[0]]);
            }
        }
    }
    proof {
        assert(ids@.take(ids@.len() as int) =~= ids@);
    }
    s
}

impl WorkflowValidator {
    /// Exactly one start node and exactly one end node.
    pub fn validate_start_end_nodes(workflow: &Workflow) -> (r: Result<(), ValidationError>)
        ensures
            r is Ok <==> start_end_errors(workflow.nodes@).len() == 0,
            r matches Err(e) ==> start_end_errors(workflow.nodes@) == seq![e@],
    {
        let starts = kind_ids(&workflow.nodes, true);
        let ends = kind_ids(&workflow.nodes, false);
        if starts.len() == 0 {
            return Err(ValidationError::NoStartNode);
        }
        if starts.len() > 1 {
            return Err(ValidationError::MultipleStartNodes(join_ids_exec(&starts)));
        }
        if ends.len() == 0 {
            return Err(ValidationError::NoEndNode);
        }
        if ends.len() > 1 {
            return Err(ValidationError::MultipleEndNodes(join_ids_exec(&ends)));
        }
        Ok(())
    }

    /// Every edge endpoint is a node.
    pub fn validate_edge_references(workflow: &Workflow) -> (r: Result<(), Vec<ValidationError>>)
        ensures
            r is Ok <==> edge_ref_errors(ids_of(workflow.nodes@), pairs_of(workflow.edges@)).len() == 0,
            r matches Err(v) ==> views(v@) == edge_ref_errors(ids_of(workflow.nodes@), pairs_of(workflow.edges@)),
    {
        let ids = workflow.node_ids();
        let pairs = workflow.edge_pairs();
        let mut errors: Vec<ValidationError> = Vec::new();
        let mut j: usize = 0;
        while j < pairs.len()
            invariant
                j <= pairs@.len(),
                views(errors@) == edge_ref_errors(ids@, pairs@.take(j as int)),
            decreases pairs.len() - j,
        {
            proof {
                assert(pairs@.take(j + 1).drop_last() =~= pairs@.take(j as int));
            }
            let (a, b) = pairs[j];
            if !contains_id(&ids, a) {
                push_err(&mut errors, ValidationError::InvalidNodeReference(a));
            }
            if !contains_id(&ids, b) {
                push_err(&mut errors, ValidationError::InvalidNodeReference(b));
            }
            j = j + 1;
            proof {
                assert(views(errors@) =~= edge_ref_errors(ids@, pairs@.take(j as int)));
            }
        }
        proof {
            assert(pairs@.take(pairs@.len() as int) =~= pairs@);
        }
        if errors.len() == 0 {
            Ok(())
        } else {
            Err(errors)
        }
    }

    /// Every conditional branch target is a node.
    pub fn validate_conditional_nodes(workflow: &Workflow) -> (r: Result<(), Vec<ValidationError>>)
        ensures
            r is Ok <==> conditional_errors(ids_of(workflow.nodes@), workflow.nodes@).len() == 0,
            r matches Err(v) ==> views(v@) == conditional_errors(ids_of(workflow.nodes@), workflow.nodes@),
    {
        let ids = workflow.node_ids();
        let mut errors: Vec<ValidationError> = Vec::new();
        let mut i: usize = 0;
        while i < workflow.nodes.len()
            invariant
                i <= workflow.nodes@.len(),
                ids@ == ids_of(workflow.nodes@),
                views(errors@) == conditional_errors(ids@, workflow.nodes@.take(i as int)),
            decreases workflow.nodes.len() - i,
        {
            proof {
                assert(workflow.nodes@.take(i + 1).drop_last() =~= workflow.nodes@.take(i as int));
            }
            let node = &workflow.nodes[i];
            if let NodeKind::IfElse(c) = &node.kind {
                if !contains_id(&ids, c.true_branch) {
                    push_err(&mut errors, ValidationError::InvalidConditionalBranch(node.id, c.true_branch));
                }
                if !contains_id(&ids, c.false_branch) {
                    push_err(&mut errors, ValidationError::InvalidConditionalBranch(node.id, c.false_branch));
                }
            }
            i = i + 1;
            proof {
                assert(views(errors@) =~= conditional_errors(ids@, workflow.nodes@.take(i as int)));
            }
        }
        proof {
            assert(workflow.nodes@.take(workflow.nodes@.len() as int) =~= workflow.nodes@);
        }
        if errors.len() == 0 {
            Ok(())
        } else {
            Err(errors)
        }
    }

    /// Configuration checks of switch, parallel, loop, try-catch and sub-workflow nodes.
    pub fn validate_advanced_nodes(workflow: &Workflow) -> (r: Result<(), Vec<ValidationError>>)
        ensures
            r is Ok <==> advanced_errors(workflow.nodes@).len() == 0,
            r matches Err(v) ==> views(v@) == advanced_errors(workflow.nodes@),
    {
        let mut errors: Vec<ValidationError> = Vec::new();
        let mut i: usize = 0;
        while i < workflow.nodes.len()
            invariant
                i <= workflow.nodes@.len(),
                views(errors@) == advanced_errors(workflow.nodes@.take(i as int)),
            decreases workflow.nodes.len() - i,
        {
            proof {
                assert(workflow.nodes@.take(i + 1).drop_last() =~= workflow.nodes@.take(i as int));
            }
            let node_errors = node_config_errors_exec(&workflow.nodes[i]);
            append_errs(&mut errors, node_errors);
            i = i + 1;
        }
        proof {
            assert(workflow.nodes@.take(workflow.nodes@.len() as int) =~= workflow.nodes@);
        }
        if errors.len() == 0 {
            Ok(())
        } else {
            Err(errors)
        }
    }

    /// The workflow has distinct node identifiers and no cycle.
    pub fn detect_cycles(workflow: &Workflow) -> (r: Result<(), ValidationError>)
        requires
            edges_valid(*workflow),
        ensures
            r is Ok <==> (ids_of(workflow.nodes@).no_duplicates() && acyclic(pairs_of(workflow.edges@))),
            r matches Err(e) ==> e@ == ErrorView::CycleDetected,
    {
        let ids = workflow.node_ids();
        let pairs = workflow.edge_pairs();
        match peel_levels(&ids, &pairs) {
            Some(_) => Ok(()),
            None => Err(ValidationError::CycleDetected),
        }
    }

    /// Warnings for the nodes that the first start node does not reach.
    pub fn find_unreachable_nodes(workflow: &Workflow) -> (r: Result<(), Vec<ValidationError>>)
        requires
            edges_valid(*workflow),
        ensures
            r is Ok <==> unreachable_warnings(*workflow).len() == 0,
            r matches Err(v) ==> views(v@) == unreachable_warnings(*workflow),
    {
        let starts = kind_ids(&workflow.nodes, true);
        if starts.len() == 0 {
            return Ok(());
        }
        let s = starts[0];
        let pairs = workflow.edge_pairs();
        let mut sources: Vec<u128> = Vec::new();
        sources.push(s);
        let (visited, _depth) = bfs_closure(&pairs, &sources);
        proof {
            assert(sources@ =~= seq![s]);
            assert forall|x: u128| sources@.contains(x) <==> x == s by {
                if x == s {
                    assert(sources@[0] == s);
                }
            }
            assert(sources@.to_set() =~= set![s]);
        }
        let errors = nodes_outside(&workflow.nodes, &visited, true);
        proof {
            assert forall|id: u128| #[trigger] visited@.contains(id) == reaches(pairs@, set![s], id) by {}
            assert((|n: Node| !visited@.contains(n.id)) =~= (|n: Node| !reaches(pairs_of(workflow.edges@), set![s], n.id)));
        }
        assert(views(errors@).len() == errors@.len());
        if errors.len() == 0 {
            Ok(())
        } else {
            Err(errors)
        }
    }

    /// Warnings for the nodes that cannot reach the first end node.
    pub fn find_dead_end_nodes(workflow: &Workflow) -> (r: Result<(), Vec<ValidationError>>)
        requires
            edges_valid(*workflow),
        ensures
            r is Ok <==> dead_end_warnings(*workflow).len() == 0,
            r matches Err(v) ==> views(v@) == dead_end_warnings(*workflow),
    {
        let ends = kind_ids(&workflow.nodes, false);
        if ends.len() == 0 {
            return Ok(());
        }
        let e = ends[0];
        let pairs = workflow.edge_pairs();
        let back = reverse_edges(&pairs);
        let mut sources: Vec<u128> = Vec::new();
        sources.push(e);
        let (visited, _depth) = bfs_closure(&back, &sources);
        proof {
            assert(sources@ =~= seq![e]);
            assert forall|x: u128| sources@.contains(x) <==> x == e by {
                if x == e {
                    assert(sources@[0] == e);
                }
            }
            assert(sources@.to_set() =~= set![e]);
        }
        let errors = nodes_outside(&workflow.nodes, &visited, false);
        proof {
            assert((|n: Node| !visited@.contains(n.id)) =~= (|n: Node| !reaches(reversed(pairs_of(workflow.edges@)), set![e], n.id)));
        }
        assert(views(errors@).len() == errors@.len());
        if errors.len() == 0 {
            Ok(())
        } else {
            Err(errors)
        }
    }

    /// Warnings for edges that repeat an earlier (source, target) pair.
    pub fn find_duplicate_edges(workflow: &Workflow) -> (r: Result<(), Vec<ValidationError>>)
        ensures
            r is Ok <==> duplicate_edge_warnings(pairs_of(workflow.edges@)).len() == 0,
            r matches Err(v) ==> views(v@) == duplicate_edge_warnings(pairs_of(workflow.edges@)),
    {
        let pairs = workflow.edge_pairs();
        let mut errors: Vec<ValidationError> = Vec::new();
        let mut j: usize = 0;
        while j < pairs.len()
            invariant
                j <= pairs@.len(),
                views(errors@) == duplicate_edge_warnings(pairs@.take(j as int)),
            decreases pairs.len() - j,
        {
            proof {
                assert(pairs@.take(j + 1).drop_last() =~= pairs@.take(j as int));
            }
            let (a, b) = pairs[j];
            let mut seen = false;
            let mut k: usize = 0;
            while k < j
                invariant
                    k <= j < pairs@.len(),
                    a == pairs@[j as int].0 && b == pairs@[j as int].1,
                    seen == exists|q: int| 0 <= q < k && #[trigger] pairs@[q] == pairs@[j as int],
                decreases j - k,
            {
                if pairs[k].0 == a && pairs[k].1 == b {
                    seen = true;
                }
                k = k + 1;
            }
            proof {
                let pre = pairs@.take(j as int);
                if seen {
                    let q = choose|q: int| 0 <= q < j && #[trigger] pairs@[q] == pairs@[j as int];
                    assert(pre[q] == pairs@[j as int]);
                }
                if pre.contains(pairs@[j as int]) {
                    let q = choose|q: int| 0 <= q < pre.len() && pre[q] == pairs@[j as int];
                    assert(pairs@[q] == pairs@[j as int]);
                }
            }
            if seen {
                push_err(&mut errors, ValidationError::DuplicateEdge(a, b));
            }
            j = j + 1;
            proof {
                assert(views(errors@) =~= duplicate_edge_warnings(pairs@.take(j as int)));
            }
        }
        proof {
            assert(pairs@.take(pairs@.len() as int) =~= pairs@);
        }
        if errors.len() == 0 {
            Ok(())
        } else {
            Err(errors)
        }
    }
}

/// Errors for the nodes whose identifier is not in `visited`: unreachable (`forward`)
/// or dead-end nodes, in node order.
fn nodes_outside(nodes: &Vec<Node>, visited: &Vec<u128>, forward: bool) -> (r: Vec<ValidationError>)
    ensures
        views(r@) == ids_of(keep(nodes@, |n: Node| !visited@.contains(n.id))).map_values(
            |id: u128| if forward { ErrorView::UnreachableNode(id) } else { ErrorView::DeadEndNode(id) },
        ),
{
    let ghost p = |n: Node| !visited@.contains(n.id);
    let ghost f = |id: u128| if forward { ErrorView::UnreachableNode(id) } else { ErrorView::DeadEndNode(id) };
    let mut r: Vec<ValidationError> = Vec::new();
    let mut i: usize = 0;
    while i < nodes.len()
        invariant
            i <= nodes@.len(),
            p == (|n: Node| !visited@.contains(n.id)),
            f == (|id: u128| if forward { ErrorView::UnreachableNode(id) } else { ErrorView::DeadEndNode(id) }),
            views(r@) == ids_of(keep(nodes@.take(i as int), p)).map_values(f),
        decreases nodes.len() - i,
    {
        proof {
            assert(nodes@.take(i + 1).drop_last() =~= nodes@.take(i as int));
        }
        let id = nodes[i].id;
        if !contains_id(visited, id) {
            if forward {
                push_err(&mut r, ValidationError::UnreachableNode(id));
            } else {
                push_err(&mut r, ValidationError::DeadEndNode(id));
            }
        }
        i = i + 1;
        proof {
            assert(views(r@) =~= ids_of(keep(nodes@.take(i as int), p)).map_values(f));
        }
    }
    proof {
        assert(nodes@.take(nodes@.len() as int) =~= nodes@);
    }
    r
}

fn case_errors_exec(id: NodeId, cases: &Vec<SwitchCase>) -> (r: Vec<ValidationError>)
    ensures
        views(r@) == switch_case_errors(id, cases@),
{
    let mut r: Vec<ValidationError> = Vec::new();
    let mut i: usize = 0;
    while i < cases.len()
        invariant
            i <= cases@.len(),
            views(r@) == switch_case_errors(id, cases@.take(i as int)),
        decreases cases.len() - i,
    {
        proof {
            assert(cases@.take(i + 1).drop_last() =~= cases@.take(i as int));
        }
        if is_blank_str(cases[i].match_value.as_str()) {
            push_err(&mut r, ValidationError::SwitchCaseEmptyMatch(id));
        }
        i = i + 1;
        proof {
            assert(views(r@) =~= switch_case_errors(id, cases@.take(i as int)));
        }
    }
    proof {
        assert(cases@.take(cases@.len() as int) =~= cases@);
    }
    r
}

fn task_errors_exec(id: NodeId, tasks: &Vec<ParallelTask>) -> (r: Vec<ValidationError>)
    ensures
        views(r@) == task_errors(id, tasks@),
{
    let mut r: Vec<ValidationError> = Vec::new();
    let mut i: usize = 0;
    while i < tasks.len()
        invariant
            i <= tasks@.len(),
            views(r@) == task_errors(id, tasks@.take(i as int)),
        decreases tasks.len() - i,
    {
        let pre = Ghost(tasks@.take(i as int));
        proof {
            assert(tasks@.take(i + 1).drop_last() =~= tasks@.take(i as int));
        }
        let t = &tasks[i];
        if is_blank_str(t.expression.as_str()) {
            push_err(&mut r, ValidationError::ParallelTaskEmptyExpression(id, t.id.clone()));
        }
        let mut seen = false;
        let mut k: usize = 0;
        while k < i
            invariant
                k <= i < tasks@.len(),
                *t == tasks@[i as int],
                seen == exists|q: int| 0 <= q < k && #[trigger] tasks@[q].id@ == t.id@,
            decreases i - k,
        {
            if tasks[k].id == t.id {
                seen = true;
            }
            k = k + 1;
        }
        proof {
            if seen {
                let q = choose|q: int| 0 <= q < i && #[trigger] tasks@[q].id@ == t.id@;
                assert(pre@[q] == tasks@[q]);
            }
            if task_id_seen(pre@, t.id@) {
                let q = choose|q: int| 0 <= q < pre@.len() && #[trigger] pre@[q].id@ == t.id@;
                assert(pre@[q] == tasks@[q]);
            }
        }
        if seen {
            push_err(&mut r, ValidationError::ParallelDuplicateTaskId(id, t.id.clone()));
        }
        i = i + 1;
        proof {
            assert(views(r@) =~= task_errors(id, tasks@.take(i as int)));
        }
    }
    proof {
        assert(tasks@.take(tasks@.len() as int) =~= tasks@);
    }
    r
}

/// The configuration errors of one node.
fn node_config_errors_exec(node: &Node) -> (r: Vec<ValidationError>)
    ensures
        views(r@) == node_config_errors(*node),
{
    let mut r: Vec<ValidationError> = Vec::new();
    let id = node.id;
    match &node.kind {
        NodeKind::Switch(c) => {
            if is_blank_str(c.switch_on.as_str()) {
                push_err(&mut r, ValidationError::SwitchNodeEmptyExpression(id));
            }
            if c.cases.len() == 0 && c.default_case.is_none() {
                push_err(&mut r, ValidationError::SwitchNodeNoCases(id));
            }
            let ce = case_errors_exec(id, &c.cases);
            append_errs(&mut r, ce);
        },
        NodeKind::Parallel(c) => {
            if c.tasks.len() == 0 {
                push_err(&mut r, ValidationError::ParallelNodeNoTasks(id));
            }
            let te = task_errors_exec(id, &c.tasks);
            append_errs(&mut r, te);
        },
        NodeKind::Loop(c) => match &c.loop_type {
            LoopType::ForEach { collection_path, body_expression, .. } => {
                if is_blank_str(collection_path.as_str()) {
                    push_err(&mut r, ValidationError::LoopEmptyCollectionPath(id));
                }
                if is_blank_str(body_expression.as_str()) {
                    push_err(&mut r, ValidationError::LoopEmptyBodyExpression(id));
                }
            },
            LoopType::While { body_expression, .. } => {
                if is_blank_str(body_expression.as_str()) {
                    push_err(&mut r, ValidationError::LoopEmptyBodyExpression(id));
                }
            },
            LoopType::Repeat { body_expression, .. } => {
                if is_blank_str(body_expression.as_str()) {
                    push_err(&mut r, ValidationError::LoopEmptyBodyExpression(id));
                }
            },
        },
        NodeKind::TryCatch(c) => {
            if is_blank_str(c.try_expression.as_str()) {
                push_err(&mut r, ValidationError::TryCatchEmptyTryExpression(id));
            }
        },
        NodeKind::SubWorkflow(c) => {
            if is_blank_str(c.workflow_path.as_str()) {
                push_err(&mut r, ValidationError::SubWorkflowEmptyPath(id));
            }
        },
        _ => {},
    }
    assert(views(r@) =~= node_config_errors(*node));
    r
}

fn tag_text(t: usize) -> (r: &'static str)
    requires
        t < 9,
    ensures
        r@ == tag_name(t as int),
{
    if t == 0 { "Start" } else if t == 1 { "End" } else if t == 2 { "IfElse" } else if t == 3 { "Loop" }
    else if t == 4 { "TryCatch" } else if t == 5 { "SubWorkflow" } else if t == 6 { "Switch" }
    else if t == 7 { "Parallel" } else { "Service" }
}

proof fn lemma_edge_refs_valid(ids: Seq<u128>, edges: Seq<IdEdge>)
    ensures
        edge_ref_errors(ids, edges).len() == 0 <==> edges_within(ids, edges),
    decreases edges.len(),
{
    if edges.len() > 0 {
        let pre = edges.drop_last();
        lemma_edge_refs_valid(ids, pre);
        if edges_within(ids, edges) {
            assert forall|j: int| 0 <= j < pre.len() implies ids.contains(#[trigger] pre[j].0) && ids.contains(pre[j].1) by {
                assert(pre[j] == edges[j]);
            }
            assert(ids.contains(edges[edges.len() - 1].0));
        }
        if edge_ref_errors(ids, edges).len() == 0 {
            assert forall|j: int| 0 <= j < edges.len() implies ids.contains(#[trigger] edges[j].0) && ids.contains(edges[j].1) by {
                if j < edges.len() - 1 {
                    assert(pre[j] == edges[j]);
                }
            }
        }
    }
}

impl WorkflowValidator {
    /// The breadth-first depth from the first start node (0 without one).
    pub fn calculate_max_depth_bfs(workflow: &Workflow) -> (r: usize)
        requires
            edges_valid(*workflow),
        ensures
            depth_ok(*workflow, r as nat),
    {
        let starts = kind_ids(&workflow.nodes, true);
        if starts.len() == 0 {
            return 0;
        }
        let s = starts[0];
        let pairs = workflow.edge_pairs();
        let mut sources: Vec<u128> = Vec::new();
        sources.push(s);
        let (_visited, depth) = bfs_closure(&pairs, &sources);
        proof {
            assert(sources@ =~= seq![s]);
            assert forall|x: u128| sources@.contains(x) <==> x == s by {
                if x == s {
                    assert(sources@[0] == s);
                }
            }
            assert(sources@.to_set() =~= set![s]);
        }
        depth
    }

    /// Statistics of a workflow whose edges are valid.
    pub fn calculate_stats(workflow: &Workflow) -> (r: ValidationStats)
        requires
            edges_valid(*workflow),
        ensures
            stats_ok(*workflow, r),
    {
        let nodes = &workflow.nodes;
        let starts = kind_ids(nodes, true);
        let ends = kind_ids(nodes, false);
        let max_depth = Self::calculate_max_depth_bfs(workflow);
        let mut counts: Vec<usize> = Vec::new();
        let mut t: usize = 0;
        while t < 9
            invariant
                t <= 9,
                counts@.len() == t,
                forall|x: int| 0 <= x < t ==> #[trigger] counts@[x] == 0,
            decreases 9 - t,
        {
            counts.push(0);
            t = t + 1;
        }
        let mut i: usize = 0;
        while i < nodes.len()
            invariant
                i <= nodes@.len(),
                counts@.len() == 9,
                forall|x: int| 0 <= x < 9 ==> #[trigger] counts@[x] == count_kind(nodes@.take(i as int), x),
                forall|x: int| 0 <= x < 9 ==> counts@[x] <= i,
            decreases nodes.len() - i,
        {
            proof {
                assert(nodes@.take(i + 1).drop_last() =~= nodes@.take(i as int));
            }
            let k = nodes[i].kind.tag() as usize;
            let c = counts[k];
            counts.set(k, c + 1);
            i = i + 1;
        }
        proof {
            assert(nodes@.take(nodes@.len() as int) =~= nodes@);
        }
        let mut entries: Vec<(String, usize)> = Vec::new();
        let mut t: usize = 0;
        while t < 9
            invariant
                t <= 9,
                counts@.len() == 9,
                forall|x: int| 0 <= x < 9 ==> #[trigger] counts@[x] == count_kind(nodes@, x),
                entries@.map_values(|e: (String, usize)| (e.0@, e.1 as nat)) == type_count_entries(nodes@, t as int),
            decreases 9 - t,
        {
            let c = counts[t];
            if c > 0 {
                entries.push((String::from_str(tag_text(t)), c));
            }
            t = t + 1;
            proof {
                assert(entries@.map_values(|e: (String, usize)| (e.0@, e.1 as nat)) =~= type_count_entries(nodes@, t as int));
            }
        }
        ValidationStats {
            total_nodes: nodes.len(),
            total_edges: workflow.edges.len(),
            start_nodes: starts.len(),
            end_nodes: ends.len(),
            max_depth,
            node_type_counts: entries,
        }
    }

    /// Validate a workflow: the first structural error, or the warnings and statistics.
    pub fn validate(workflow: &Workflow) -> (r: Result<ValidationReport, ValidationError>)
        ensures
            validation_outcome_ok(*workflow, r),
    {
        if workflow.nodes.len() == 0 {
            return Err(ValidationError::EmptyWorkflow);
        }
        let mut errors: Vec<ValidationError> = Vec::new();
        let mut warnings: Vec<ValidationError> = Vec::new();
        if let Err(e) = Self::validate_start_end_nodes(workflow) {
            push_err(&mut errors, e);
        }
        let ghost ids = ids_of(workflow.nodes@);
        let ghost pairs = pairs_of(workflow.edges@);
        let edges_ok = match Self::validate_edge_references(workflow) {
            Err(errs) => {
                append_errs(&mut errors, errs);
                false
            },
            Ok(()) => true,
        };
        proof {
            lemma_edge_refs_valid(ids, pairs);
        }
        if let Err(errs) = Self::validate_conditional_nodes(workflow) {
            append_errs(&mut errors, errs);
        }
        if let Err(errs) = Self::validate_advanced_nodes(workflow) {
            append_errs(&mut errors, errs);
        }
        if edges_ok {
            if let Err(e) = Self::detect_cycles(workflow) {
                push_err(&mut errors, e);
            }
            if let Err(errs) = Self::find_unreachable_nodes(workflow) {
                append_errs(&mut warnings, errs);
            }
            if let Err(errs) = Self::find_dead_end_nodes(workflow) {
                append_errs(&mut warnings, errs);
            }
            if let Err(errs) = Self::find_duplicate_edges(workflow) {
                append_errs(&mut warnings, errs);
            }
        }
        proof {
            assert(views(errors@) =~= structural_errors(*workflow));
        }
        if errors.len() > 0 {
            let first = errors.remove(0);
            return Err(first);
        }
        proof {
            assert(views(warnings@) =~= unreachable_warnings(*workflow) + dead_end_warnings(*workflow)
                + duplicate_edge_warnings(pairs_of(workflow.edges@)));
        }
        let stats = Self::calculate_stats(workflow);
        Ok(ValidationReport { valid: true, warnings, stats })
    }
}

/// The displayed text of an error.
pub open spec fn error_text(e: ErrorView) -> Seq<char> {
    match e {
        ErrorView::NoStartNode => "Workflow has no start node"@,
        ErrorView::MultipleStartNodes(s) => "Workflow has multiple start nodes: "@ + s,
        ErrorView::NoEndNode => "Workflow has no end node"@,
        ErrorView::MultipleEndNodes(s) => "Workflow has multiple end nodes: "@ + s,
        ErrorView::CycleDetected => "Workflow contains a cycle"@,
        ErrorView::UnreachableNode(a) => "Node "@ + uuid_text(a) + " is unreachable from start"@,
        ErrorView::DeadEndNode(a) => "Node "@ + uuid_text(a) + " cannot reach end"@,
        ErrorView::InvalidNodeReference(a) => "Edge references non-existent node: "@ + uuid_text(a),
        ErrorView::MissingTrueBranch(a) => "Conditional node "@ + uuid_text(a) + " missing true branch"@,
        ErrorView::MissingFalseBranch(a) => "Conditional node "@ + uuid_text(a) + " missing false branch"@,
        ErrorView::InvalidConditionalBranch(a, b) => "Conditional node "@ + uuid_text(a) + " has invalid branch: "@
            + uuid_text(b),
        ErrorView::DuplicateEdge(a, b) => "Duplicate edge from "@ + uuid_text(a) + " to "@ + uuid_text(b),
        ErrorView::EmptyWorkflow => "Workflow has no nodes"@,
        ErrorView::NoEdges => "Workflow has no edges"@,
        ErrorView::SwitchNodeNoCases(a) => "Switch node "@ + uuid_text(a) + " has no cases defined"@,
        ErrorView::SwitchNodeEmptyExpression(a) => "Switch node "@ + uuid_text(a) + " has empty switch expression"@,
        ErrorView::SwitchCaseEmptyMatch(a) => "Switch node "@ + uuid_text(a) + " case has empty match value"@,
        ErrorView::ParallelNodeNoTasks(a) => "Parallel node "@ + uuid_text(a) + " has no tasks defined"@,
        ErrorView::ParallelTaskEmptyExpression(a, s) => "Parallel node "@ + uuid_text(a) + " task '"@ + s
            + "' has empty expression"@,
        ErrorView::ParallelDuplicateTaskId(a, s) => "Parallel node "@ + uuid_text(a) + " has duplicate task ID: "@ + s,
        ErrorView::LoopEmptyCollectionPath(a) => "Loop node "@ + uuid_text(a) + " has empty collection path"@,
        ErrorView::LoopEmptyBodyExpression(a) => "Loop node "@ + uuid_text(a) + " has empty body expression"@,
        ErrorView::TryCatchEmptyTryExpression(a) => "TryCatch node "@ + uuid_text(a) + " has empty try expression"@,
        ErrorView::SubWorkflowEmptyPath(a) => "SubWorkflow node "@ + uuid_text(a) + " has empty workflow path"@,
    }
}

fn id_text(prefix: &str, id: u128, suffix: &str) -> (r: String)
    ensures
        r@ == prefix@ + uuid_text(id) + suffix@,
{
    let mut r = String::from_str(prefix);
    let t = uuid_to_string(id);
    r.append(t.as_str());
    r.append(suffix);
    r
}

fn id2_text(prefix: &str, a: u128, mid: &str, b: u128) -> (r: String)
    ensures
        r@ == prefix@ + uuid_text(a) + mid@ + uuid_text(b),
{
    let mut r = id_text(prefix, a, mid);
    let t = uuid_to_string(b);
    r.append(t.as_str());
    r
}

impl ValidationError {
    /// The displayed text of the error.
    pub fn message(&self) -> (r: String)
        ensures
            r@ == error_text(self@),
    {
        match self {
            ValidationError::NoStartNode => String::from_str("Workflow has no start node"),
            ValidationError::MultipleStartNodes(s) => {
                let mut r = String::from_str("Workflow has multiple start nodes: ");
                r.append(s.as_str());
                r
            },
            ValidationError::NoEndNode => String::from_str("Workflow has no end node"),
            ValidationError::MultipleEndNodes(s) => {
                let mut r = String::from_str("Workflow has multiple end nodes: ");
                r.append(s.as_str());
                r
            },
            ValidationError::CycleDetected => String::from_str("Workflow contains a cycle"),
            ValidationError::UnreachableNode(a) => id_text("Node ", *a, " is unreachable from start"),
            ValidationError::DeadEndNode(a) => id_text("Node ", *a, " cannot reach end"),
            ValidationError::InvalidNodeReference(a) => {
                let mut r = String::from_str("Edge references non-existent node: ");
                let t = uuid_to_string(*a);
                r.append(t.as_str());
                r
            },
            ValidationError::MissingTrueBranch(a) => id_text("Conditional node ", *a, " missing true branch"),
            ValidationError::MissingFalseBranch(a) => id_text("Conditional node ", *a, " missing false branch"),
            ValidationError::InvalidConditionalBranch(a, b) => id2_text(
                "Conditional node ",
                *a,
                " has invalid branch: ",
                *b,
            ),
            ValidationError::DuplicateEdge(a, b) => id2_text("Duplicate edge from ", *a, " to ", *b),
            ValidationError::EmptyWorkflow => String::from_str("Workflow has no nodes"),
            ValidationError::NoEdges => String::from_str("Workflow has no edges"),
            ValidationError::SwitchNodeNoCases(a) => id_text("Switch node ", *a, " has no cases defined"),
            ValidationError::SwitchNodeEmptyExpression(a) => id_text(
                "Switch node ",
                *a,
                " has empty switch expression",
            ),
            ValidationError::SwitchCaseEmptyMatch(a) => id_text("Switch node ", *a, " case has empty match value"),
            ValidationError::ParallelNodeNoTasks(a) => id_text("Parallel node ", *a, " has no tasks defined"),
            ValidationError::ParallelTaskEmptyExpression(a, s) => {
                let mut r = id_text("Parallel node ", *a, " task '");
                r.append(s.as_str());
                r.append("' has empty expression");
                r
            },
            ValidationError::ParallelDuplicateTaskId(a, s) => {
                let mut r = id_text("Parallel node ", *a, " has duplicate task ID: ");
                r.append(s.as_str());
                r
            },
            ValidationError::LoopEmptyCollectionPath(a) => id_text("Loop node ", *a, " has empty collection path"),
            ValidationError::LoopEmptyBodyExpression(a) => id_text("Loop node ", *a, " has empty body expression"),
            ValidationError::TryCatchEmptyTryExpression(a) => id_text(
                "TryCatch node ",
                *a,
                " has empty try expression",
            ),
            ValidationError::SubWorkflowEmptyPath(a) => id_text("SubWorkflow node ", *a, " has empty workflow path"),
        }
    }
}

impl Workflow {
    /// Validate the structure: `Ok` exactly when the validator accepts the workflow,
    /// otherwise the text of the first error.
    pub fn validate(&self) -> (r: Result<(), String>)
        ensures
            r is Ok <==> (self.nodes@.len() > 0 && structural_errors(*self).len() == 0),
            r matches Err(m) ==> (if self.nodes@.len() == 0 {
                m@ == error_text(ErrorView::EmptyWorkflow)
            } else {
                m@ == error_text(structural_errors(*self)[0])
            }),
    {
        match WorkflowValidator::validate(self) {
            Ok(_report) => Ok(()),
            Err(e) => Err(e.message()),
        }
    }
}

/// A workflow that validates has distinct node identifiers, edges between its nodes, and no cycle.
pub proof fn lemma_valid_workflow_is_dag(w: Workflow)
    requires
        w.nodes@.len() > 0,
        structural_errors(w).len() == 0,
    ensures
        edges_valid(w),
        ids_of(w.nodes@).no_duplicates(),
        acyclic(pairs_of(w.edges@)),
        start_ids(w.nodes@).len() == 1,
        end_ids(w.nodes@).len() == 1,
{
    lemma_edge_refs_valid(ids_of(w.nodes@), pairs_of(w.edges@));
}

} // verus!
