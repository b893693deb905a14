//! Workflow linting: quality and best-practice findings (unreachable nodes, retries,
//! timeouts, long chains, deep nesting, naming, loop limits, dead-end paths).

use vstd::prelude::*;
use crate::graph::{IdEdge, bfs_closure, reaches, reverse_edges, reversed};
use crate::node::{LoopType, Node, NodeKind};
use crate::text::{
    byte_len, contains_seq, decimal, lowercase, push_decimal, str_byte_len, str_contains, to_lowercase, uuid_text,
    uuid_to_string,
};
use crate::validation::{end_ids, kind_ids, start_ids};
use crate::workflow::{Workflow, keep, pairs_of};

verus! {

/// Severity of a finding, ordered `Info < Warning < Error`.
#[derive(Debug, Clone, Copy, PartialEq, Eq, Structural, PartialOrd, Ord, Hash)]
pub enum LintSeverity {
    Info,
    Warning,
    Error,
}

impl LintSeverity {
    /// The displayed text: `INFO`, `WARNING` or `ERROR`.
    pub fn as_str(&self) -> (r: &'static str)
        ensures
            r@ == match *self {
                LintSeverity::Info => "INFO"@,
                LintSeverity::Warning => "WARNING"@,
                LintSeverity::Error => "ERROR"@,
            },
    {
        match self {
            LintSeverity::Info => "INFO",
            LintSeverity::Warning => "WARNING",
            LintSeverity::Error => "ERROR",
        }
    }
}

/// Category of a finding.
#[derive(Debug, Clone, Copy, PartialEq, Eq, Structural, Hash)]
pub enum LintCategory {
    Performance,
    Security,
    Maintainability,
    ResourceUsage,
    BestPractice,
    Reliability,
}

/// One lint finding.
#[derive(Debug, Clone, PartialEq, Eq)]
pub struct LintFinding {
    pub rule_id: String,
    pub severity: LintSeverity,
    pub category: LintCategory,
    pub message: String,
    pub node_id: Option<String>,
    pub suggestion: Option<String>,
    pub line: Option<usize>,
}

/// The mathematical value of a finding.
pub struct FindingView {
    pub rule_id: Seq<char>,
    pub severity: LintSeverity,
    pub category: LintCategory,
    pub message: Seq<char>,
    pub node_id: Option<Seq<char>>,
    pub suggestion: Option<Seq<char>>,
    pub line: Option<usize>,
}

/// The view of an optional text.
pub open spec fn opt_view(s: Option<String>) -> Option<Seq<char>> {
    match s {
        Some(t) => Some(t@),
        None => None,
    }
}

impl View for LintFinding {
    type V = FindingView;

    open spec fn view(&self) -> FindingView {
        FindingView {
            rule_id: self.rule_id@,
            severity: self.severity,
            category: self.category,
            message: self.message@,
            node_id: opt_view(self.node_id),
            suggestion: opt_view(self.suggestion),
            line: self.line,
        }
    }
}

/// The views of a sequence of findings.
pub open spec fn fviews(s: Seq<LintFinding>) -> Seq<FindingView> {
    s.map_values(|f: LintFinding| f@)
}

/// A finding about a node, with a suggestion.
pub open spec fn node_finding(
    rule: Seq<char>,
    sev: LintSeverity,
    cat: LintCategory,
    msg: Seq<char>,
    node: u128,
    sugg: Seq<char>,
) -> FindingView {
    FindingView {
        rule_id: rule,
        severity: sev,
        category: cat,
        message: msg,
        node_id: Some(uuid_text(node)),
        suggestion: Some(sugg),
        line: None,
    }
}

impl LintFinding {
    /// A finding with no node, suggestion or line.
    pub fn new(rule_id: &str, severity: LintSeverity, category: LintCategory, message: &str) -> (r: Self)
        ensures
            r@ == (FindingView {
                rule_id: rule_id@,
                severity,
                category,
                message: message@,
                node_id: None,
                suggestion: None,
                line: None,
            }),
    {
        LintFinding {
            rule_id: String::from_str(rule_id),
            severity,
            category,
            message: String::from_str(message),
            node_id: None,
            suggestion: None,
            line: None,
        }
    }

    /// Attach the node.
    pub fn with_node_id(self, node_id: &str) -> (r: Self)
        ensures
            r@ == (FindingView { node_id: Some(node_id@), ..self@ }),
    {
        LintFinding { node_id: Some(String::from_str(node_id)), ..self }
    }

    /// Attach a suggestion.
    pub fn with_suggestion(self, suggestion: &str) -> (r: Self)
        ensures
            r@ == (FindingView { suggestion: Some(suggestion@), ..self@ }),
    {
        LintFinding { suggestion: Some(String::from_str(suggestion)), ..self }
    }

    /// Attach a line number.
    pub fn with_line(self, line: usize) -> (r: Self)
        ensures
            r@ == (FindingView { line: Some(line), ..self@ }),
    {
        LintFinding { line: Some(line), ..self }
    }
}

/// Finding counts.
#[derive(Debug, Clone, Copy, PartialEq, Eq)]
pub struct LintStats {
    pub total: usize,
    pub errors: usize,
    pub warnings: usize,
    pub info: usize,
}

/// The findings of a lint run with their counts.
#[derive(Debug, Clone)]
pub struct LintResult {
    pub findings: Vec<LintFinding>,
    pub stats: LintStats,
}

/// Number of findings of the severity.
pub open spec fn count_severity(fs: Seq<LintFinding>, sev: LintSeverity) -> nat {
    keep(fs, |f: LintFinding| f.severity == sev).len()
}

fn count_of(findings: &Vec<LintFinding>, sev: LintSeverity) -> (r: usize)
    ensures
        r == count_severity(findings@, sev),
{
    let r = filter_by_severity(findings, sev);
    assert(r@.map_values(|f: &LintFinding| *f).len() == r@.len());
    r.len()
}

fn filter_by_severity(findings: &Vec<LintFinding>, sev: LintSeverity) -> (r: Vec<&LintFinding>)
    ensures
        r@.map_values(|f: &LintFinding| *f) == keep(findings@, |f: LintFinding| f.severity == sev),
{
    let ghost p = |f: LintFinding| f.severity == sev;
    let mut r: Vec<&LintFinding> = Vec::new();
    let mut i: usize = 0;
    while i < findings.len()
        invariant
            i <= findings@.len(),
            p == (|f: LintFinding| f.severity == sev),
            r@.map_values(|f: &LintFinding| *f) == keep(findings@.take(i as int), p),
        decreases findings.len() - i,
    {
        proof {
            assert(findings@.take(i + 1).drop_last() =~= findings@.take(i as int));
        }
        if findings[i].severity == sev {
            r.push(&findings[i]);
        }
        i = i + 1;
        proof {
            assert(r@.map_values(|f: &LintFinding| *f) =~= keep(findings@.take(i as int), p));
        }
    }
    proof {
        assert(findings@.take(findings@.len() as int) =~= findings@);
    }
    r
}

impl LintResult {
    /// Wrap the findings and count them by severity.
    pub fn new(findings: Vec<LintFinding>) -> (r: Self)
        ensures
            r.findings == findings,
            r.stats.total == findings@.len(),
            r.stats.errors == count_severity(findings@, LintSeverity::Error),
            r.stats.warnings == count_severity(findings@, LintSeverity::Warning),
            r.stats.info == count_severity(findings@, LintSeverity::Info),
    {
        let errors = count_of(&findings, LintSeverity::Error);
        let warnings = count_of(&findings, LintSeverity::Warning);
        let info = count_of(&findings, LintSeverity::Info);
        LintResult { stats: LintStats { total: findings.len(), errors, warnings, info }, findings }
    }

    /// Whether some finding is an error.
    pub fn has_errors(&self) -> (r: bool)
        ensures
            r == (self.stats.errors > 0),
    {
        self.stats.errors > 0
    }

    /// Whether some finding is a warning.
    pub fn has_warnings(&self) -> (r: bool)
        ensures
            r == (self.stats.warnings > 0),
    {
        self.stats.warnings > 0
    }

    /// The findings of the severity, in order.
    pub fn findings_by_severity(&self, severity: LintSeverity) -> (r: Vec<&LintFinding>)
        ensures
            r@.map_values(|f: &LintFinding| *f) == keep(self.findings@, |f: LintFinding| f.severity == severity),
    {
        filter_by_severity(&self.findings, severity)
    }

    /// The findings of the category, in order.
    pub fn findings_by_category(&self, category: LintCategory) -> (r: Vec<&LintFinding>)
        ensures
            r@.map_values(|f: &LintFinding| *f) == keep(self.findings@, |f: LintFinding| f.category == category),
    {
        let ghost p = |f: LintFinding| f.category == category;
        let mut r: Vec<&LintFinding> = Vec::new();
        let mut i: usize = 0;
        while i < self.findings.len()
            invariant
                i <= self.findings@.len(),
                p == (|f: LintFinding| f.category == category),
                r@.map_values(|f: &LintFinding| *f) == keep(self.findings@.take(i as int), p),
            decreases self.findings.len() - i,
        {
            proof {
                assert(self.findings@.take(i + 1).drop_last() =~= self.findings@.take(i as int));
            }
            if self.findings[i].category == category {
                r.push(&self.findings[i]);
            }
            i = i + 1;
            proof {
                assert(r@.map_values(|f: &LintFinding| *f) =~= keep(self.findings@.take(i as int), p));
            }
        }
        proof {
            assert(self.findings@.take(self.findings@.len() as int) =~= self.findings@);
        }
        r
    }
}

/// Linter thresholds and switches.
#[derive(Debug, Clone, Copy, PartialEq, Eq)]
pub struct LinterConfig {
    pub max_retry_count: u32,
    pub max_timeout_ms: u64,
    pub max_sequential_nodes: usize,
    pub max_nesting_depth: usize,
    pub check_naming: bool,
    pub check_security: bool,
    pub check_performance: bool,
}

impl LinterConfig {
    /// The default configuration.
    pub open spec fn spec_default() -> LinterConfig {
        LinterConfig {
            max_retry_count: 5,
            max_timeout_ms: 300000,
            max_sequential_nodes: 10,
            max_nesting_depth: 4,
            check_naming: true,
            check_security: true,
            check_performance: true,
        }
    }

    /// The defaults: 5 retries, 5 minutes, 10 sequential nodes, nesting depth 4, all checks on.
    pub fn default_config() -> (r: Self)
        ensures
            r == (LinterConfig {
                max_retry_count: 5,
                max_timeout_ms: 300000,
                max_sequential_nodes: 10,
                max_nesting_depth: 4,
                check_naming: true,
                check_security: true,
                check_performance: true,
            }),
    {
        LinterConfig {
            max_retry_count: 5,
            max_timeout_ms: 300000,
            max_sequential_nodes: 10,
            max_nesting_depth: 4,
            check_naming: true,
            check_security: true,
            check_performance: true,
        }
    }
}

impl Default for LinterConfig {
    fn default() -> (r: Self)
        ensures
            r == (LinterConfig {
                max_retry_count: 5,
                max_timeout_ms: 300000,
                max_sequential_nodes: 10,
                max_nesting_depth: 4,
                check_naming: true,
                check_security: true,
                check_performance: true,
            }),
    {
        LinterConfig::default_config()
    }
}

/// The workflow linter.
pub struct WorkflowLinter {
    pub config: LinterConfig,
}

/// The findings produced node by node, concatenated in node order.
pub open spec fn per_node(nodes: Seq<Node>, f: spec_fn(Node) -> Seq<FindingView>) -> Seq<FindingView>
    decreases nodes.len(),
{
    if nodes.len() == 0 {
        Seq::empty()
    } else {
        per_node(nodes.drop_last(), f) + f(nodes.last())
    }
}

/// Kinds that open a branch: conditional, switch and parallel nodes.
pub open spec fn is_branching(k: NodeKind) -> bool {
    k is IfElse || k is Switch || k is Parallel
}

/// Kinds that add a nesting level: conditional and switch nodes.
pub open spec fn is_decision(k: NodeKind) -> bool {
    k is IfElse || k is Switch
}

/// The targets of the edges leaving `id`, in edge order.
pub open spec fn out_targets(edges: Seq<IdEdge>, id: u128) -> Seq<u128> {
    keep(edges, |e: IdEdge| e.0 == id).map_values(|e: IdEdge| e.1)
}

/// The position of the first node with the identifier.
pub open spec fn first_with_id(nodes: Seq<Node>, id: u128) -> Option<int> {
    if exists|i: int| 0 <= i < nodes.len() && #[trigger] nodes[i].id == id {
        Some(
            choose|i: int|
                0 <= i < nodes.len() && #[trigger] nodes[i].id == id && forall|j: int| 0 <= j < i ==> nodes[j].id != id,
        )
    } else {
        None
    }
}

/// The length of the sequential chain that starts after `id`: 0 unless exactly one edge
/// leaves `id`; one more per step, stopping after a branching node; `fuel` bounds the steps.
pub open spec fn chain_len(nodes: Seq<Node>, edges: Seq<IdEdge>, id: u128, fuel: nat) -> nat
    decreases fuel,
{
    if fuel == 0 {
        0
    } else {
        let outs = out_targets(edges, id);
        if outs.len() != 1 {
            0
        } else {
            let t = outs[0];
            match first_with_id(nodes, t) {
                Some(i) => if is_branching(nodes[i].kind) {
                    1
                } else {
                    1 + chain_len(nodes, edges, t, (fuel - 1) as nat)
                },
                None => 1 + chain_len(nodes, edges, t, (fuel - 1) as nat),
            }
        }
    }
}

/// The deepest nesting below `id`, starting at `cur`: the largest, over the edges leaving
/// `id` whose target is a node, of the nesting below that target, one deeper when the target
/// is a decision node; `fuel` bounds the depth of the search.
pub open spec fn nesting(nodes: Seq<Node>, edges: Seq<IdEdge>, id: u128, cur: nat, fuel: nat) -> nat
    decreases fuel, 1nat, 0nat,
{
    if fuel == 0 {
        cur
    } else {
        nesting_over(nodes, edges, out_targets(edges, id), cur, fuel)
    }
}

/// `nesting` over a list of targets, starting from `cur`.
pub open spec fn nesting_over(nodes: Seq<Node>, edges: Seq<IdEdge>, ts: Seq<u128>, cur: nat, fuel: nat) -> nat
    decreases fuel, 0nat, ts.len(),
{
    if ts.len() == 0 || fuel == 0 {
        cur
    } else {
        let m = nesting_over(nodes, edges, ts.drop_last(), cur, fuel);
        let t = ts.last();
        match first_with_id(nodes, t) {
            None => m,
            Some(i) => {
                let d = nesting(
                    nodes,
                    edges,
                    t,
                    if is_decision(nodes[i].kind) { cur + 1 } else { cur },
                    (fuel - 1) as nat,
                );
                if d > m { d } else { m }
            },
        }
    }
}

/// Whether the node is reachable from a start node.
pub open spec fn reaches_from_start(w: Workflow, id: u128) -> bool {
    reaches(pairs_of(w.edges@), start_ids(w.nodes@).to_set(), id)
}

/// Whether the node reaches an end node.
pub open spec fn reaches_an_end(w: Workflow, id: u128) -> bool {
    reaches(reversed(pairs_of(w.edges@)), end_ids(w.nodes@).to_set(), id)
}

/// `unreachable-node`: a node other than a start node that no start node reaches.
pub open spec fn unused_finding(w: Workflow, n: Node) -> Seq<FindingView> {
    if !reaches_from_start(w, n.id) && !(n.kind is Start) {
        seq![node_finding("unreachable-node"@, LintSeverity::Warning, LintCategory::Maintainability,
            "Node '"@ + n.name@ + "' is unreachable from start nodes"@, n.id,
            "Remove this node or add edges to connect it to the workflow"@)]
    } else {
        Seq::empty()
    }
}

/// `excessive-retries`: more retries than the configured maximum.
pub open spec fn retries_finding(c: LinterConfig, n: Node) -> Seq<FindingView> {
    match n.retry_config {
        Some(rc) => if rc.max_retries > c.max_retry_count {
            seq![node_finding("excessive-retries"@, LintSeverity::Warning, LintCategory::Performance,
                "Node '"@ + n.name@ + "' has "@ + decimal(rc.max_retries as nat) + " retries (recommended max: "@
                    + decimal(c.max_retry_count as nat) + ")"@, n.id,
                "Consider reducing max_retries to "@ + decimal(c.max_retry_count as nat))]
        } else {
            Seq::empty()
        },
        None => Seq::empty(),
    }
}

/// `missing-timeout`: a service node without timeout configuration.
pub open spec fn timeout_finding(n: Node) -> Seq<FindingView> {
    if n.kind is Service && n.timeout_config is None {
        seq![node_finding("missing-timeout"@, LintSeverity::Info, LintCategory::Reliability,
            "Node '"@ + n.name@ + "' has no timeout configuration"@, n.id,
            "Consider adding a timeout to prevent hanging executions"@)]
    } else {
        Seq::empty()
    }
}

/// `long-sequential-chain`: a start node followed by more sequential nodes than allowed.
pub open spec fn chain_finding(c: LinterConfig, w: Workflow, n: Node) -> Seq<FindingView> {
    let len = chain_len(w.nodes@, pairs_of(w.edges@), n.id, w.nodes@.len());
    if n.kind is Start && len > c.max_sequential_nodes {
        seq![node_finding("long-sequential-chain"@, LintSeverity::Info, LintCategory::Performance,
            "Found sequential chain of "@ + decimal(len) + " nodes starting from '"@ + n.name@ + "'"@, n.id,
            "Consider using a Parallel node to execute independent operations concurrently"@)]
    } else {
        Seq::empty()
    }
}

/// `deep-nesting`: a decision node with deeper nesting below it than allowed.
pub open spec fn nesting_finding(c: LinterConfig, w: Workflow, n: Node) -> Seq<FindingView> {
    let d = nesting(w.nodes@, pairs_of(w.edges@), n.id, 0, w.nodes@.len());
    if is_decision(n.kind) && d > c.max_nesting_depth {
        seq![node_finding("deep-nesting"@, LintSeverity::Warning, LintCategory::Maintainability,
            "Node '"@ + n.name@ + "' has nesting depth of "@ + decimal(d) + " (max recommended: "@ + decimal(
            c.max_nesting_depth as nat) + ")"@, n.id,
            "Consider refactoring into sub-workflows or flattening the structure"@)]
    } else {
        Seq::empty()
    }
}

/// Whether the lowercased name contains a generic word and is short.
pub open spec fn has_generic_name(name: Seq<char>) -> bool {
    let l = lowercase(name);
    (contains_seq(l, "node"@) || contains_seq(l, "step"@) || contains_seq(l, "task"@) || contains_seq(l, "action"@)
        || contains_seq(l, "untitled"@)) && byte_len(l) < 15
}

/// `generic-node-name` and `short-node-name`.
pub open spec fn naming_findings(n: Node) -> Seq<FindingView> {
    (if has_generic_name(n.name@) {
        seq![node_finding("generic-node-name"@, LintSeverity::Info, LintCategory::Maintainability,
            "Node has generic name: '"@ + n.name@ + "'"@, n.id,
            "Use a more descriptive name that explains what the node does"@)]
    } else {
        Seq::empty()
    }) + (if byte_len(n.name@) < 3 {
        seq![node_finding("short-node-name"@, LintSeverity::Info, LintCategory::Maintainability,
            "Node has very short name: '"@ + n.name@ + "'"@, n.id, "Use a longer, more descriptive name"@)]
    } else {
        Seq::empty()
    })
}

/// The name of a loop kind.
pub open spec fn loop_kind_label(t: LoopType) -> Seq<char> {
    match t {
        LoopType::ForEach { .. } => "ForEach"@,
        LoopType::While { .. } => "While"@,
        LoopType::Repeat { .. } => "Repeat"@,
    }
}

/// `high-loop-limit`: a loop allowed more than 10000 iterations.
pub open spec fn loop_finding(n: Node) -> Seq<FindingView> {
    match n.kind {
        NodeKind::Loop(c) => if c.max_iterations > 10000 {
            seq![node_finding("high-loop-limit"@, LintSeverity::Warning, LintCategory::Performance,
                loop_kind_label(c.loop_type) + " node '"@ + n.name@ + "' has very high iteration limit: "@
                    + decimal(c.max_iterations as nat), n.id,
                "Consider reducing max_iterations to prevent resource exhaustion"@)]
        } else {
            Seq::empty()
        },
        _ => Seq::empty(),
    }
}

/// `dead-end-path`: a node other than a start or end node that reaches no end node.
pub open spec fn dead_end_finding(w: Workflow, n: Node) -> Seq<FindingView> {
    if !(n.kind is End) && !(n.kind is Start) && !reaches_an_end(w, n.id) {
        seq![node_finding("dead-end-path"@, LintSeverity::Warning, LintCategory::Reliability,
            "Node '"@ + n.name@ + "' cannot reach any End node"@, n.id,
            "Add edges to connect this path to an End node"@)]
    } else {
        Seq::empty()
    }
}

/// The rules, each as a function from a node to its findings.
pub open spec fn unused_rule(w: Workflow) -> spec_fn(Node) -> Seq<FindingView> {
    |n: Node| unused_finding(w, n)
}

pub open spec fn retries_rule(c: LinterConfig) -> spec_fn(Node) -> Seq<FindingView> {
    |n: Node| retries_finding(c, n)
}

pub open spec fn timeout_rule() -> spec_fn(Node) -> Seq<FindingView> {
    |n: Node| timeout_finding(n)
}

pub open spec fn chain_rule(c: LinterConfig, w: Workflow) -> spec_fn(Node) -> Seq<FindingView> {
    |n: Node| chain_finding(c, w, n)
}

pub open spec fn nesting_rule(c: LinterConfig, w: Workflow) -> spec_fn(Node) -> Seq<FindingView> {
    |n: Node| nesting_finding(c, w, n)
}

pub open spec fn naming_rule() -> spec_fn(Node) -> Seq<FindingView> {
    |n: Node| naming_findings(n)
}

pub open spec fn loop_rule() -> spec_fn(Node) -> Seq<FindingView> {
    |n: Node| loop_finding(n)
}

pub open spec fn dead_end_rule(w: Workflow) -> spec_fn(Node) -> Seq<FindingView> {
    |n: Node| dead_end_finding(w, n)
}

/// All findings of a lint run, rule after rule.
pub open spec fn lint_findings(c: LinterConfig, w: Workflow) -> Seq<FindingView> {
    let ns = w.nodes@;
    per_node(ns, unused_rule(w)) + per_node(ns, retries_rule(c)) + per_node(ns, timeout_rule()) + (if c.check_performance {
        per_node(ns, chain_rule(c, w))
    } else {
        Seq::empty()
    }) + per_node(ns, nesting_rule(c, w)) + (if c.check_naming {
        per_node(ns, naming_rule())
    } else {
        Seq::empty()
    }) + per_node(ns, loop_rule()) + per_node(ns, dead_end_rule(w))
}

fn text3(a: &str, b: &str, c: &str) -> (r: String)
    ensures
        r@ == a@ + b@ + c@,
{
    let mut r = String::from_str(a);
    r.append(b);
    r.append(c);
    r
}

fn make_finding(
    rule: &str,
    sev: LintSeverity,
    cat: LintCategory,
    msg: String,
    node: u128,
    sugg: String,
) -> (r: LintFinding)
    ensures
        r@ == node_finding(rule@, sev, cat, msg@, node, sugg@),
{
    let id = uuid_to_string(node);
    LintFinding {
        rule_id: String::from_str(rule),
        severity: sev,
        category: cat,
        message: msg,
        node_id: Some(id),
        suggestion: Some(sugg),
        line: None,
    }
}

fn push_finding(v: &mut Vec<LintFinding>, f: LintFinding)
    ensures
        fviews(final(v)@) == fviews(old(v)@).push(f@),
{
    v.push(f);
    assert(fviews(final(v)@) =~= fviews(old(v)@).push(f@));
}

fn append_findings(v: &mut Vec<LintFinding>, w: Vec<LintFinding>)
    ensures
        fviews(final(v)@) == fviews(old(v)@) + fviews(w@),
{
    let mut w = w;
    let ghost orig = w@;
    let ghost start = fviews(v@);
    let mut i: usize = 0;
    assert(orig.len() == w.len());
    while w.len() > 0
        invariant
            fviews(v@) == start + fviews(orig.take(i as int)),
            w@ == orig.skip(i as int),
            i + w@.len() == orig.len(),
            orig.len() <= usize::MAX,
        decreases w.len(),
    {
        let f = w.remove(0);
        proof {
            assert(orig[i as int] == f);
        }
        push_finding(v, f);
        i = i + 1;
        proof {
            assert(fviews(orig.take(i as int)) =~= fviews(orig.take(i - 1)).push(f@));
            assert(w@ =~= orig.skip(i as int));
        }
    }
    assert(orig.take(i as int) =~= orig);
}

/// The targets of the edges leaving `id`, in edge order.
pub fn out_targets_exec(pairs: &Vec<IdEdge>, id: u128) -> (r: Vec<u128>)
    ensures
        r@ == out_targets(pairs@, id),
{
    let mut r: Vec<u128> = Vec::new();
    let mut i: usize = 0;
    while i < pairs.len()
        invariant
            i <= pairs@.len(),
            r@ == out_targets(pairs@.take(i as int), id),
        decreases pairs.len() - i,
    {
        let ghost pre = pairs@.take(i as int);
        let ghost cur = pairs@.take(i + 1);
        proof {
            assert(cur.drop_last() =~= pre);
        }
        if pairs[i].0 == id {
            r.push(pairs[i].1);
            proof {
                assert(keep(cur, |e: IdEdge| e.0 == id) == keep(pre, |e: IdEdge| e.0 == id).push(pairs@[i as int]));
                assert(out_targets(cur, id) =~= out_targets(pre, id).push(pairs@[i as int].1));
            }
        } else {
            proof {
                assert(keep(cur, |e: IdEdge| e.0 == id) == keep(pre, |e: IdEdge| e.0 == id));
            }
        }
        i = i + 1;
    }
    proof {
        assert(pairs@.take(pairs@.len() as int) =~= pairs@);
    }
    r
}

/// The position of the first node with the identifier.
pub fn find_node(nodes: &Vec<Node>, id: u128) -> (r: Option<usize>)
    ensures
        match r {
            Some(i) => first_with_id(nodes@, id) == Some(i as int) && i < nodes@.len() && nodes@[i as int].id == id,
            None => first_with_id(nodes@, id) is None,
        },
{
    let mut i: usize = 0;
    while i < nodes.len()
        invariant
            i <= nodes@.len(),
            forall|j: int| 0 <= j < i ==> #[trigger] nodes@[j].id != id,
        decreases nodes.len() - i,
    {
        if nodes[i].id == id {
            proof {
                let c = choose|c: int|
                    0 <= c < nodes@.len() && #[trigger] nodes@[c].id == id && forall|j: int|
                        0 <= j < c ==> nodes@[j].id != id;
                if c < i {
                } else if c > i {
                    assert(nodes@[i as int].id == id);
                }
            }
            return Some(i);
        }
        i = i + 1;
    }
    None
}

/// The sequential chain length after `id` (see [`chain_len`]).
pub fn chain_length(nodes: &Vec<Node>, pairs: &Vec<IdEdge>, id: u128, fuel: usize) -> (r: usize)
    ensures
        r == chain_len(nodes@, pairs@, id, fuel as nat),
        r <= fuel,
    decreases fuel,
{
    if fuel == 0 {
        return 0;
    }
    let outs = out_targets_exec(pairs, id);
    if outs.len() != 1 {
        return 0;
    }
    let t = outs[0];
    match find_node(nodes, t) {
        Some(i) => {
            if matches!(nodes[i].kind, NodeKind::IfElse(_) | NodeKind::Switch(_) | NodeKind::Parallel(_)) {
                1
            } else {
                1 + chain_length(nodes, pairs, t, fuel - 1)
            }
        },
        None => 1 + chain_length(nodes, pairs, t, fuel - 1),
    }
}

/// The nesting depth below `id` from `cur` (see [`nesting`]).
pub fn nesting_depth(nodes: &Vec<Node>, pairs: &Vec<IdEdge>, id: u128, cur: usize, fuel: usize) -> (r: usize)
    requires
        cur + fuel <= usize::MAX,
    ensures
        r == nesting(nodes@, pairs@, id, cur as nat, fuel as nat),
        cur <= r <= cur + fuel,
    decreases fuel,
{
    if fuel == 0 {
        return cur;
    }
    let ts = out_targets_exec(pairs, id);
    let mut m = cur;
    let mut i: usize = 0;
    while i < ts.len()
        invariant
            0 < fuel,
            cur + fuel <= usize::MAX,
            i <= ts@.len(),
            m == nesting_over(nodes@, pairs@, ts@.take(i as int), cur as nat, fuel as nat),
            cur <= m <= cur + fuel,
        decreases ts.len() - i,
    {
        let t = ts[i];
        let ghost ts1 = ts@.take(i + 1);
        proof {
            assert(ts1.drop_last() =~= ts@.take(i as int));
            assert(ts1.last() == t);
        }
        match find_node(nodes, t) {
            None => {
                assert(nesting_over(nodes@, pairs@, ts1, cur as nat, fuel as nat) == m);
            },
            Some(k) => {
                let c2 = if matches!(nodes[k].kind, NodeKind::IfElse(_) | NodeKind::Switch(_)) {
                    cur + 1
                } else {
                    cur
                };
                let d = nesting_depth(nodes, pairs, t, c2, fuel - 1);
                proof {
                    assert(is_decision(nodes@[k as int].kind) ==> c2 == cur + 1);
                    assert(!is_decision(nodes@[k as int].kind) ==> c2 == cur);
                    assert(nesting_over(nodes@, pairs@, ts1, cur as nat, fuel as nat) == (if d > m { d } else { m }));
                }
                if d > m {
                    m = d;
                }
            },
        }
        i = i + 1;
    }
    proof {
        assert(ts@.take(ts@.len() as int) =~= ts@);
    }
    m
}

proof fn lemma_per_node_step(nodes: Seq<Node>, f: spec_fn(Node) -> Seq<FindingView>, i: int)
    requires
        0 <= i < nodes.len(),
    ensures
        per_node(nodes.take(i + 1), f) == per_node(nodes.take(i), f) + f(nodes[i]),
{
    assert(nodes.take(i + 1).drop_last() =~= nodes.take(i));
    assert(nodes.take(i + 1).last() == nodes[i]);
}

proof fn lemma_per_node_all(nodes: Seq<Node>, f: spec_fn(Node) -> Seq<FindingView>)
    ensures
        per_node(nodes.take(nodes.len() as int), f) == per_node(nodes, f),
{
    assert(nodes.take(nodes.len() as int) =~= nodes);
}

impl WorkflowLinter {
    /// A linter with the default configuration.
    pub fn new() -> (r: Self)
        ensures
            r.config == LinterConfig::spec_default(),
    {
        WorkflowLinter { config: LinterConfig::default_config() }
    }

    /// A linter with the given configuration.
    pub fn with_config(config: LinterConfig) -> (r: Self)
        ensures
            r.config == config,
    {
        WorkflowLinter { config }
    }

    /// `unreachable-node` findings.
    pub fn check_unused_nodes(&self, workflow: &Workflow) -> (r: Vec<LintFinding>)
        ensures
            fviews(r@) == per_node(workflow.nodes@, unused_rule(*workflow)),
    {
        let nodes = &workflow.nodes;
        let starts = kind_ids(nodes, true);
        let pairs = workflow.edge_pairs();
        let (visited, _depth) = bfs_closure(&pairs, &starts);
        let mut r: Vec<LintFinding> = Vec::new();
        let mut i: usize = 0;
        while i < nodes.len()
            invariant
                i <= nodes@.len(),
                *nodes == workflow.nodes,
                forall|t: u128| visited@.contains(t) <==> reaches_from_start(*workflow, t),
                fviews(r@) == per_node(nodes@.take(i as int), unused_rule(*workflow)),
            decreases nodes.len() - i,
        {
            proof {
                lemma_per_node_step(nodes@, unused_rule(*workflow), i as int);
            }
            let n = &nodes[i];
            if !crate::graph::contains_id(&visited, n.id) && !matches!(n.kind, NodeKind::Start) {
                let msg = text3("Node '", n.name.as_str(), "' is unreachable from start nodes");
                push_finding(
                    &mut r,
                    make_finding(
                        "unreachable-node",
                        LintSeverity::Warning,
                        LintCategory::Maintainability,
                        msg,
                        n.id,
                        String::from_str("Remove this node or add edges to connect it to the workflow"),
                    ),
                );
            }
            i = i + 1;
        }
        proof {
            lemma_per_node_all(nodes@, unused_rule(*workflow));
        }
        r
    }

    /// Findings for nodes without error handling: none, since no node kind counts as risky.
    pub fn check_missing_error_handling(&self, workflow: &Workflow) -> (r: Vec<LintFinding>)
        ensures
            r@.len() == 0,
    {
        Vec::new()
    }

    /// `excessive-retries` findings.
    pub fn check_excessive_retries(&self, workflow: &Workflow) -> (r: Vec<LintFinding>)
        ensures
            fviews(r@) == per_node(workflow.nodes@, retries_rule(self.config)),
    {
        let nodes = &workflow.nodes;
        let max = self.config.max_retry_count;
        let mut r: Vec<LintFinding> = Vec::new();
        let mut i: usize = 0;
        while i < nodes.len()
            invariant
                i <= nodes@.len(),
                max == self.config.max_retry_count,
                fviews(r@) == per_node(nodes@.take(i as int), retries_rule(self.config)),
            decreases nodes.len() - i,
        {
            proof {
                lemma_per_node_step(nodes@, retries_rule(self.config), i as int);
            }
            let n = &nodes[i];
            if let Some(rc) = &n.retry_config {
                if rc.max_retries > max {
                    let mut msg = text3("Node '", n.name.as_str(), "' has ");
                    push_decimal(&mut msg, rc.max_retries as u64);
                    msg.append(" retries (recommended max: ");
                    push_decimal(&mut msg, max as u64);
                    msg.append(")");
                    let mut sugg = String::from_str("Consider reducing max_retries to ");
                    push_decimal(&mut sugg, max as u64);
                    push_finding(
                        &mut r,
                        make_finding("excessive-retries", LintSeverity::Warning, LintCategory::Performance, msg, n.id, sugg),
                    );
                }
            }
            i = i + 1;
        }
        proof {
            lemma_per_node_all(nodes@, retries_rule(self.config));
        }
        r
    }

    /// `missing-timeout` findings.
    pub fn check_missing_timeouts(&self, workflow: &Workflow) -> (r: Vec<LintFinding>)
        ensures
            fviews(r@) == per_node(workflow.nodes@, timeout_rule()),
    {
        let nodes = &workflow.nodes;
        let mut r: Vec<LintFinding> = Vec::new();
        let mut i: usize = 0;
        while i < nodes.len()
            invariant
                i <= nodes@.len(),
                fviews(r@) == per_node(nodes@.take(i as int), timeout_rule()),
            decreases nodes.len() - i,
        {
            proof {
                lemma_per_node_step(nodes@, timeout_rule(), i as int);
            }
            let n = &nodes[i];
            if matches!(n.kind, NodeKind::Service(_)) && n.timeout_config.is_none() {
                let msg = text3("Node '", n.name.as_str(), "' has no timeout configuration");
                push_finding(
                    &mut r,
                    make_finding(
                        "missing-timeout",
                        LintSeverity::Info,
                        LintCategory::Reliability,
                        msg,
                        n.id,
                        String::from_str("Consider adding a timeout to prevent hanging executions"),
                    ),
                );
            }
            i = i + 1;
        }
        proof {
            lemma_per_node_all(nodes@, timeout_rule());
        }
        r
    }

    /// `long-sequential-chain` findings (none when performance checks are off).
    pub fn check_sequential_opportunities(&self, workflow: &Workflow) -> (r: Vec<LintFinding>)
        ensures
            self.config.check_performance ==> fviews(r@) == per_node(workflow.nodes@, chain_rule(self.config, *workflow)),
            !self.config.check_performance ==> r@.len() == 0,
    {
        let mut r: Vec<LintFinding> = Vec::new();
        if !self.config.check_performance {
            return r;
        }
        let nodes = &workflow.nodes;
        let pairs = workflow.edge_pairs();
        let fuel = nodes.len();
        let mut i: usize = 0;
        while i < nodes.len()
            invariant
                i <= nodes@.len(),
                *nodes == workflow.nodes,
                pairs@ == pairs_of(workflow.edges@),
                fuel == nodes@.len(),
                fviews(r@) == per_node(nodes@.take(i as int), chain_rule(self.config, *workflow)),
            decreases nodes.len() - i,
        {
            proof {
                lemma_per_node_step(nodes@, chain_rule(self.config, *workflow), i as int);
            }
            let n = &nodes[i];
            if matches!(n.kind, NodeKind::Start) {
                let len = chain_length(nodes, &pairs, n.id, fuel);
                if len > self.config.max_sequential_nodes {
                    let mut msg = String::from_str("Found sequential chain of ");
                    push_decimal(&mut msg, len as u64);
                    msg.append(" nodes starting from '");
                    msg.append(n.name.as_str());
                    msg.append("'");
                    push_finding(
                        &mut r,
                        make_finding(
                            "long-sequential-chain",
                            LintSeverity::Info,
                            LintCategory::Performance,
                            msg,
                            n.id,
                            String::from_str(
                                "Consider using a Parallel node to execute independent operations concurrently",
                            ),
                        ),
                    );
                }
            }
            i = i + 1;
        }
        proof {
            lemma_per_node_all(nodes@, chain_rule(self.config, *workflow));
        }
        r
    }

    /// `deep-nesting` findings.
    pub fn check_deep_nesting(&self, workflow: &Workflow) -> (r: Vec<LintFinding>)
        ensures
            fviews(r@) == per_node(workflow.nodes@, nesting_rule(self.config, *workflow)),
    {
        let nodes = &workflow.nodes;
        let pairs = workflow.edge_pairs();
        let fuel = nodes.len();
        let mut r: Vec<LintFinding> = Vec::new();
        let mut i: usize = 0;
        while i < nodes.len()
            invariant
                i <= nodes@.len(),
                *nodes == workflow.nodes,
                pairs@ == pairs_of(workflow.edges@),
                fuel == nodes@.len(),
                fviews(r@) == per_node(nodes@.take(i as int), nesting_rule(self.config, *workflow)),
            decreases nodes.len() - i,
        {
            proof {
                lemma_per_node_step(nodes@, nesting_rule(self.config, *workflow), i as int);
            }
            let n = &nodes[i];
            if matches!(n.kind, NodeKind::IfElse(_) | NodeKind::Switch(_)) {
                let depth = nesting_depth(nodes, &pairs, n.id, 0, fuel);
                if depth > self.config.max_nesting_depth {
                    let mut msg = text3("Node '", n.name.as_str(), "' has nesting depth of ");
                    push_decimal(&mut msg, depth as u64);
                    msg.append(" (max recommended: ");
                    push_decimal(&mut msg, self.config.max_nesting_depth as u64);
                    msg.append(")");
                    push_finding(
                        &mut r,
                        make_finding(
                            "deep-nesting",
                            LintSeverity::Warning,
                            LintCategory::Maintainability,
                            msg,
                            n.id,
                            String::from_str("Consider refactoring into sub-workflows or flattening the structure"),
                        ),
                    );
                }
            }
            i = i + 1;
        }
        proof {
            lemma_per_node_all(nodes@, nesting_rule(self.config, *workflow));
        }
        r
    }

    /// `generic-node-name` and `short-node-name` findings (none when naming checks are off).
    pub fn check_naming_conventions(&self, workflow: &Workflow) -> (r: Vec<LintFinding>)
        ensures
            self.config.check_naming ==> fviews(r@) == per_node(workflow.nodes@, naming_rule()),
            !self.config.check_naming ==> r@.len() == 0,
    {
        let mut r: Vec<LintFinding> = Vec::new();
        if !self.config.check_naming {
            return r;
        }
        let nodes = &workflow.nodes;
        let mut i: usize = 0;
        while i < nodes.len()
            invariant
                i <= nodes@.len(),
                fviews(r@) == per_node(nodes@.take(i as int), naming_rule()),
            decreases nodes.len() - i,
        {
            proof {
                lemma_per_node_step(nodes@, naming_rule(), i as int);
            }
            let n = &nodes[i];
            let lower = to_lowercase(n.name.as_str());
            let l = lower.as_str();
            let generic = (str_contains(l, "node") || str_contains(l, "step") || str_contains(l, "task")
                || str_contains(l, "action") || str_contains(l, "untitled")) && str_byte_len(l) < 15;
            if generic {
                let msg = text3("Node has generic name: '", n.name.as_str(), "'");
                push_finding(
                    &mut r,
                    make_finding(
                        "generic-node-name",
                        LintSeverity::Info,
                        LintCategory::Maintainability,
                        msg,
                        n.id,
                        String::from_str("Use a more descriptive name that explains what the node does"),
                    ),
                );
            }
            if str_byte_len(n.name.as_str()) < 3 {
                let msg = text3("Node has very short name: '", n.name.as_str(), "'");
                push_finding(
                    &mut r,
                    make_finding(
                        "short-node-name",
                        LintSeverity::Info,
                        LintCategory::Maintainability,
                        msg,
                        n.id,
                        String::from_str("Use a longer, more descriptive name"),
                    ),
                );
            }
            proof {
                assert(fviews(r@) =~= per_node(nodes@.take(i as int), naming_rule()) + naming_findings(nodes@[i as int]));
            }
            i = i + 1;
        }
        proof {
            lemma_per_node_all(nodes@, naming_rule());
        }
        r
    }

    /// Findings for hard-coded secrets: none (the checks do not apply to these node kinds).
    pub fn check_hardcoded_values(&self, workflow: &Workflow) -> (r: Vec<LintFinding>)
        ensures
            r@.len() == 0,
    {
        Vec::new()
    }

    /// `high-loop-limit` findings.
    pub fn check_loop_safety(&self, workflow: &Workflow) -> (r: Vec<LintFinding>)
        ensures
            fviews(r@) == per_node(workflow.nodes@, loop_rule()),
    {
        let nodes = &workflow.nodes;
        let mut r: Vec<LintFinding> = Vec::new();
        let mut i: usize = 0;
        while i < nodes.len()
            invariant
                i <= nodes@.len(),
                fviews(r@) == per_node(nodes@.take(i as int), loop_rule()),
            decreases nodes.len() - i,
        {
            proof {
                lemma_per_node_step(nodes@, loop_rule(), i as int);
            }
            let n = &nodes[i];
            if let NodeKind::Loop(c) = &n.kind {
                if c.max_iterations > 10000 {
                    let kind_label: &str = match &c.loop_type {
                        LoopType::ForEach { .. } => "ForEach",
                        LoopType::While { .. } => "While",
                        LoopType::Repeat { .. } => "Repeat",
                    };
                    let mut msg = text3(kind_label, " node '", n.name.as_str());
                    msg.append("' has very high iteration limit: ");
                    push_decimal(&mut msg, c.max_iterations as u64);
                    push_finding(
                        &mut r,
                        make_finding(
                            "high-loop-limit",
                            LintSeverity::Warning,
                            LintCategory::Performance,
                            msg,
                            n.id,
                            String::from_str("Consider reducing max_iterations to prevent resource exhaustion"),
                        ),
                    );
                }
            }
            i = i + 1;
        }
        proof {
            lemma_per_node_all(nodes@, loop_rule());
        }
        r
    }

    /// `dead-end-path` findings.
    pub fn check_dead_end_paths(&self, workflow: &Workflow) -> (r: Vec<LintFinding>)
        ensures
            fviews(r@) == per_node(workflow.nodes@, dead_end_rule(*workflow)),
    {
        let nodes = &workflow.nodes;
        let ends = kind_ids(nodes, false);
        let pairs = workflow.edge_pairs();
        let back = reverse_edges(&pairs);
        let (visited, _depth) = bfs_closure(&back, &ends);
        let mut r: Vec<LintFinding> = Vec::new();
        let mut i: usize = 0;
        while i < nodes.len()
            invariant
                i <= nodes@.len(),
                *nodes == workflow.nodes,
                forall|t: u128| visited@.contains(t) <==> reaches_an_end(*workflow, t),
                fviews(r@) == per_node(nodes@.take(i as int), dead_end_rule(*workflow)),
            decreases nodes.len() - i,
        {
            proof {
                lemma_per_node_step(nodes@, dead_end_rule(*workflow), i as int);
            }
            let n = &nodes[i];
            if !matches!(n.kind, NodeKind::End | NodeKind::Start) && !crate::graph::contains_id(&visited, n.id) {
                let msg = text3("Node '", n.name.as_str(), "' cannot reach any End node");
                push_finding(
                    &mut r,
                    make_finding(
                        "dead-end-path",
                        LintSeverity::Warning,
                        LintCategory::Reliability,
                        msg,
                        n.id,
                        String::from_str("Add edges to connect this path to an End node"),
                    ),
                );
            }
            i = i + 1;
        }
        proof {
            lemma_per_node_all(nodes@, dead_end_rule(*workflow));
        }
        r
    }

    /// Run every rule and collect the findings with their counts.
    pub fn lint(&self, workflow: &Workflow) -> (r: LintResult)
        ensures
            fviews(r.findings@) == lint_findings(self.config, *workflow),
            r.stats.total == r.findings@.len(),
            r.stats.errors == count_severity(r.findings@, LintSeverity::Error),
            r.stats.warnings == count_severity(r.findings@, LintSeverity::Warning),
            r.stats.info == count_severity(r.findings@, LintSeverity::Info),
    {
        let mut findings: Vec<LintFinding> = Vec::new();
        append_findings(&mut findings, self.check_unused_nodes(workflow));
        append_findings(&mut findings, self.check_missing_error_handling(workflow));
        append_findings(&mut findings, self.check_excessive_retries(workflow));
        append_findings(&mut findings, self.check_missing_timeouts(workflow));
        append_findings(&mut findings, self.check_sequential_opportunities(workflow));
        append_findings(&mut findings, self.check_deep_nesting(workflow));
        append_findings(&mut findings, self.check_naming_conventions(workflow));
        append_findings(&mut findings, self.check_hardcoded_values(workflow));
        append_findings(&mut findings, self.check_loop_safety(workflow));
        append_findings(&mut findings, self.check_dead_end_paths(workflow));
        proof {
            assert(fviews(findings@) =~= lint_findings(self.config, *workflow));
        }
        LintResult::new(findings)
    }
}

} // verus!
