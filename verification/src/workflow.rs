//! Workflows: metadata, nodes and edges, with versioning.

use vstd::prelude::*;
use crate::graph::IdEdge;
use crate::ids::{clock_reading, new_id, now_millis};
use crate::node::{copy_nodes, copy_opt_text, nodes_same, Node, NodeId, NodeKind};
use crate::text::{chars_of, push_decimal, push_range, decimal};

verus! {

/// Identifier of an edge.
pub type EdgeId = u128;

/// Identifier of a workflow.
pub type WorkflowId = u128;

/// An edge from one node to another.
#[derive(Debug, Clone)]
pub struct Edge {
    /// Unique edge identifier.
    pub id: EdgeId,
    /// Source node.
    pub from: NodeId,
    /// Target node.
    pub to: NodeId,
    /// Optional label.
    pub label: Option<String>,
    /// Optional condition.
    pub condition: Option<String>,
}

impl Edge {
    /// An edge with a fresh identifier and no label or condition.
    pub fn new(from: NodeId, to: NodeId) -> (r: Self)
        ensures
            r.from == from,
            r.to == to,
            r.label is None,
            r.condition is None,
    {
        Edge { id: new_id(), from, to, label: None, condition: None }
    }

    /// Set the label.
    pub fn with_label(self, label: String) -> (r: Self)
        ensures
            r == (Edge { label: Some(label), ..self }),
    {
        Edge { label: Some(label), ..self }
    }

    /// Set the condition.
    pub fn with_condition(self, condition: String) -> (r: Self)
        ensures
            r == (Edge { condition: Some(condition), ..self }),
    {
        Edge { condition: Some(condition), ..self }
    }
}

/// Scheduling configuration of a workflow.
#[derive(Debug, Clone)]
pub struct WorkflowSchedule {
    /// Cron expression.
    pub cron: String,
    /// Time zone name.
    pub timezone: String,
    /// Whether the schedule is enabled.
    pub enabled: bool,
    /// Largest number of concurrent runs.
    pub max_concurrent_runs: Option<u32>,
    /// Whether failed runs are retried.
    pub retry_on_failure: bool,
    /// No run before this time (milliseconds since the UNIX epoch).
    pub start_date: Option<i64>,
    /// No run after this time (milliseconds since the UNIX epoch).
    pub end_date: Option<i64>,
}

/// The time zone of a schedule unless configured otherwise.
pub fn default_timezone() -> (r: String)
    ensures
        r@ == "UTC"@,
{
    String::from_str("UTC")
}

/// Whether a schedule is enabled unless configured otherwise.
pub fn default_enabled() -> (r: bool)
    ensures
        r,
{
    true
}

/// A schedule is valid at `now` when enabled and `now` lies within its date range.
pub open spec fn schedule_valid_at(s: WorkflowSchedule, now: i64) -> bool {
    &&& s.enabled
    &&& (s.start_date matches Some(start) ==> now >= start)
    &&& (s.end_date matches Some(end) ==> now <= end)
}

impl WorkflowSchedule {
    /// An enabled UTC schedule with the given cron expression.
    pub fn new(cron: String) -> (r: Self)
        ensures
            r.cron == cron,
            r.timezone@ == "UTC"@,
            r.enabled,
            r.max_concurrent_runs is None,
            !r.retry_on_failure,
            r.start_date is None,
            r.end_date is None,
    {
        WorkflowSchedule {
            cron,
            timezone: default_timezone(),
            enabled: true,
            max_concurrent_runs: None,
            retry_on_failure: false,
            start_date: None,
            end_date: None,
        }
    }

    /// Set the time zone.
    pub fn with_timezone(self, timezone: String) -> (r: Self)
        ensures
            r == (WorkflowSchedule { timezone, ..self }),
    {
        WorkflowSchedule { timezone, ..self }
    }

    /// Enable or disable.
    pub fn set_enabled(self, enabled: bool) -> (r: Self)
        ensures
            r == (WorkflowSchedule { enabled, ..self }),
    {
        WorkflowSchedule { enabled, ..self }
    }

    /// Set the largest number of concurrent runs.
    pub fn with_max_concurrent_runs(self, max: u32) -> (r: Self)
        ensures
            r == (WorkflowSchedule { max_concurrent_runs: Some(max), ..self }),
    {
        WorkflowSchedule { max_concurrent_runs: Some(max), ..self }
    }

    /// Set the date range.
    pub fn with_date_range(self, start: i64, end: i64) -> (r: Self)
        ensures
            r == (WorkflowSchedule { start_date: Some(start), end_date: Some(end), ..self }),
    {
        WorkflowSchedule { start_date: Some(start), end_date: Some(end), ..self }
    }

    /// Whether the schedule is valid at the given time.
    pub fn is_valid_at(&self, now: i64) -> (r: bool)
        ensures
            r == schedule_valid_at(*self, now),
    {
        if !self.enabled {
            return false;
        }
        if let Some(start) = self.start_date {
            if now < start {
                return false;
            }
        }
        if let Some(end) = self.end_date {
            if now > end {
                return false;
            }
        }
        true
    }

    /// Whether the schedule is valid at the current time.
    pub fn is_valid_now(&self) -> (r: bool)
        ensures
            !self.enabled ==> !r,
            exists|now: i64| #[trigger] clock_reading(now) && r == schedule_valid_at(*self, now),
    {
        let now = now_millis();
        self.is_valid_at(now)
    }
}

/// Metadata of a workflow.
#[derive(Debug, Clone)]
pub struct WorkflowMetadata {
    /// Unique workflow identifier.
    pub id: WorkflowId,
    /// Display name.
    pub name: String,
    /// Description.
    pub description: Option<String>,
    /// Version string (`major.minor.patch`).
    pub version: String,
    /// Creation time (milliseconds since the UNIX epoch).
    pub created_at: i64,
    /// Last modification time (milliseconds since the UNIX epoch).
    pub updated_at: i64,
    /// Tags.
    pub tags: Vec<String>,
    /// Workflow this one is a version of.
    pub parent_id: Option<WorkflowId>,
    /// What changed in this version.
    pub change_description: Option<String>,
    /// Scheduling configuration.
    pub schedule: Option<WorkflowSchedule>,
}

/// Split a text at every `c`, as `str::split` does with a character pattern.
pub open spec fn split_on(s: Seq<char>, c: char) -> Seq<Seq<char>>
    decreases s.len(),
{
    if s.len() == 0 {
        seq![Seq::<char>::empty()]
    } else {
        let pre = split_on(s.drop_last(), c);
        if s.last() == c {
            pre.push(Seq::<char>::empty())
        } else {
            pre.update(pre.len() - 1, pre.last().push(s.last()))
        }
    }
}

/// Whether `c` is an ASCII digit.
pub open spec fn is_digit(c: char) -> bool {
    '0' <= c <= '9'
}

/// The value of a sequence of ASCII digits.
pub open spec fn digits_value(d: Seq<char>) -> nat
    decreases d.len(),
{
    if d.len() == 0 {
        0
    } else {
        digits_value(d.drop_last()) * 10 + ((d.last() as u32) - ('0' as u32)) as nat
    }
}

/// The text after an optional leading `+`.
pub open spec fn unsigned_digits(p: Seq<char>) -> Seq<char> {
    if p.len() > 0 && p[0] == '+' { p.skip(1) } else { p }
}

/// Every character is an ASCII digit.
pub open spec fn all_digits(d: Seq<char>) -> bool {
    forall|i: int| 0 <= i < d.len() ==> is_digit(#[trigger] d[i])
}

/// `u32::from_str`: an optional `+`, then one or more ASCII digits, with a value that fits.
pub open spec fn parse_u32(p: Seq<char>) -> Option<u32> {
    let d = unsigned_digits(p);
    if d.len() == 0 || !all_digits(d) {
        None
    } else if digits_value(d) > u32::MAX {
        None
    } else {
        Some(digits_value(d) as u32)
    }
}

/// The outcome of parsing a version string as `major.minor.patch`.
pub open spec fn parse_version_spec(v: Seq<char>) -> Result<(u32, u32, u32), Seq<char>> {
    let parts = split_on(v, '.');
    if parts.len() != 3 {
        Err("Invalid version format: "@ + v)
    } else if parse_u32(parts[0]) is None {
        Err("Invalid major version: "@ + parts[0])
    } else if parse_u32(parts[1]) is None {
        Err("Invalid minor version: "@ + parts[1])
    } else if parse_u32(parts[2]) is None {
        Err("Invalid patch version: "@ + parts[2])
    } else {
        Ok((parse_u32(parts[0])->0, parse_u32(parts[1])->0, parse_u32(parts[2])->0))
    }
}

/// The text `major.minor.patch`.
pub open spec fn version_text(major: nat, minor: nat, patch: nat) -> Seq<char> {
    decimal(major) + seq!['.'] + decimal(minor) + seq!['.'] + decimal(patch)
}

/// Split a character vector at every `c`.
pub fn split_chars(s: &Vec<char>, c: char) -> (r: Vec<Vec<char>>)
    ensures
        r@.map_values(|p: Vec<char>| p@) == split_on(s@, c),
{
    let mut parts: Vec<Vec<char>> = Vec::new();
    parts.push(Vec::new());
    let mut i: usize = 0;
    proof {
        assert(s@.take(0) =~= Seq::<char>::empty());
        assert(parts@.map_values(|p: Vec<char>| p@) =~= split_on(s@.take(0), c));
    }
    while i < s.len()
        invariant
            i <= s@.len(),
            parts@.len() > 0,
            parts@.map_values(|p: Vec<char>| p@) == split_on(s@.take(i as int), c),
        decreases s.len() - i,
    {
        let ch = s[i];
        let ghost before = parts@.map_values(|p: Vec<char>| p@);
        proof {
            assert(s@.take(i + 1).drop_last() =~= s@.take(i as int));
            assert(s@.take(i + 1).last() == ch);
        }
        if ch == c {
            parts.push(Vec::new());
            proof {
                assert(parts@.map_values(|p: Vec<char>| p@) =~= before.push(Seq::<char>::empty()));
            }
        } else {
            let last = parts.len() - 1;
            let mut cur = parts.pop().unwrap();
            cur.push(ch);
            parts.push(cur);
            proof {
                assert(parts@.map_values(|p: Vec<char>| p@) =~= before.update(
                    before.len() - 1,
                    before.last().push(ch),
                ));
            }
        }
        i = i + 1;
    }
    proof {
        assert(s@.take(s@.len() as int) =~= s@);
    }
    parts
}

proof fn lemma_digits_value_bound(d: Seq<char>)
    requires
        forall|i: int| 0 <= i < d.len() ==> is_digit(#[trigger] d[i]),
    ensures
        digits_value(d) < pow10(d.len()),
    decreases d.len(),
{
    if d.len() > 0 {
        lemma_digits_value_bound(d.drop_last());
        assert(is_digit(d[d.len() - 1]));
    }
}

spec fn pow10(n: nat) -> nat
    decreases n,
{
    if n == 0 { 1 } else { 10 * pow10((n - 1) as nat) }
}

/// Parse a `u32` as `u32::from_str` does.
pub fn parse_u32_chars(p: &Vec<char>) -> (r: Option<u32>)
    ensures
        r == parse_u32(p@),
{
    let start: usize = if p.len() > 0 && p[0] == '+' { 1 } else { 0 };
    let ghost d = if p@.len() > 0 && p@[0] == '+' { p@.skip(1) } else { p@ };
    if start >= p.len() {
        assert(d.len() == 0);
        assert(parse_u32(p@) is None);
        return None;
    }
    assert(d.len() == p@.len() - start);
    let mut value: u64 = 0;
    let mut i: usize = start;
    while i < p.len()
        invariant
            start <= i <= p@.len(),
            start < p@.len(),
            d == p@.skip(start as int),
            d.len() == p@.len() - start,
            d == (if p@.len() > 0 && p@[0] == '+' { p@.skip(1) } else { p@ }),
            forall|k: int| 0 <= k < i - start ==> is_digit(#[trigger] d[k]),
            value == digits_value(d.take(i - start)),
            value <= u32::MAX,
        decreases p.len() - i,
    {
        let ch = p[i];
        proof {
            assert(d[i - start] == ch);
        }
        if !('0' <= ch && ch <= '9') {
            proof {
                assert(!is_digit(d[i - start]));
                lemma_parse_nondigit(p@, i - start);
            }
            return None;
        }
        proof {
            assert(d.take(i - start + 1).drop_last() =~= d.take(i - start));
            assert(d.take(i - start + 1).last() == ch);
        }
        let digit: u64 = ((ch as u32) - ('0' as u32)) as u64;
        let next: u64 = value * 10 + digit;
        if next > 4294967295 {
            // Every longer run of digits only grows the value.
            proof {
                assert(value == digits_value(d.take(i - start)));
                assert(next == digits_value(d.take(i - start + 1)));
            }
            let mut j = i + 1;
            while j < p.len()
                invariant
                    i < j <= p@.len(),
                    start <= i,
                    d == p@.skip(start as int),
                    d.len() == p@.len() - start,
                    d == (if p@.len() > 0 && p@[0] == '+' { p@.skip(1) } else { p@ }),
                    digits_value(d.take(i - start + 1)) > u32::MAX,
                    forall|k: int| 0 <= k < j - start ==> is_digit(#[trigger] d[k]),
                decreases p.len() - j,
            {
                let cj = p[j];
                proof {
                    assert(d[j - start] == cj);
                }
                if !('0' <= cj && cj <= '9') {
                    proof {
                        assert(!is_digit(d[j - start]));
                        lemma_parse_nondigit(p@, j - start);
                    }
                    return None;
                }
                j = j + 1;
            }
            proof {
                assert(forall|k: int| 0 <= k < d.len() ==> is_digit(#[trigger] d[k]));
                lemma_digits_prefix_mono(d, i - start + 1);
            }
            return None;
        }
        value = next;
        i = i + 1;
    }
    proof {
        assert(d.take(d.len() as int) =~= d);
    }
    Some(value as u32)
}

proof fn lemma_parse_nondigit(p: Seq<char>, k: int)
    requires
        0 <= k < (if p.len() > 0 && p[0] == '+' { p.skip(1) } else { p }).len(),
        !is_digit((if p.len() > 0 && p[0] == '+' { p.skip(1) } else { p })[k]),
    ensures
        parse_u32(p) is None,
{
    let d = if p.len() > 0 && p[0] == '+' { p.skip(1) } else { p };
    assert(!is_digit(d[k]));
}

proof fn lemma_digits_prefix_mono(d: Seq<char>, n: int)
    requires
        0 <= n <= d.len(),
        forall|k: int| 0 <= k < d.len() ==> is_digit(#[trigger] d[k]),
        digits_value(d.take(n)) > u32::MAX,
    ensures
        digits_value(d) > u32::MAX,
    decreases d.len() - n,
{
    if n < d.len() {
        assert(d.take(n + 1).drop_last() =~= d.take(n));
        assert(is_digit(d[n]));
        lemma_digits_prefix_mono(d, n + 1);
    } else {
        assert(d.take(n) =~= d);
    }
}

fn error_with(prefix: &str, v: &Vec<char>) -> (s: String)
    ensures
        s@ == prefix@ + v@,
{
    let mut s = String::from_str(prefix);
    push_range(&mut s, v, 0, v.len());
    assert(v@.subrange(0, v@.len() as int) =~= v@);
    s
}

/// Render `major.minor.patch`.
pub fn format_version(major: u64, minor: u64, patch: u64) -> (s: String)
    ensures
        s@ == version_text(major as nat, minor as nat, patch as nat),
{
    proof {
        reveal_strlit(".");
    }
    let mut s = String::new();
    push_decimal(&mut s, major);
    s.append(".");
    push_decimal(&mut s, minor);
    s.append(".");
    push_decimal(&mut s, patch);
    assert(s@ =~= version_text(major as nat, minor as nat, patch as nat));
    s
}

/// Parse a version string as `major.minor.patch`.
pub fn parse_version_str(version: &str) -> (r: Result<(u32, u32, u32), String>)
    ensures
        match (r, parse_version_spec(version@)) {
            (Ok(t), Ok(u)) => t == u,
            (Err(m), Err(n)) => m@ == n,
            _ => false,
        },
{
    let v = chars_of(version);
    let parts = split_chars(&v, '.');
    let ghost ps = parts@.map_values(|p: Vec<char>| p@);
    if parts.len() != 3 {
        return Err(error_with("Invalid version format: ", &v));
    }
    assert(ps[0] == parts@[0]@ && ps[1] == parts@[1]@ && ps[2] == parts@[2]@);
    let major = match parse_u32_chars(&parts[0]) {
        Some(x) => x,
        None => {
            return Err(error_with("Invalid major version: ", &parts[0]));
        },
    };
    let minor = match parse_u32_chars(&parts[1]) {
        Some(x) => x,
        None => {
            return Err(error_with("Invalid minor version: ", &parts[1]));
        },
    };
    let patch = match parse_u32_chars(&parts[2]) {
        Some(x) => x,
        None => {
            return Err(error_with("Invalid patch version: ", &parts[2]));
        },
    };
    Ok((major, minor, patch))
}

impl WorkflowMetadata {
    /// Fresh metadata: new identifier, version `0.1.0`, created and updated now.
    pub fn new(name: String) -> (r: Self)
        ensures
            r.name == name,
            r.description is None,
            r.version@ == "0.1.0"@,
            r.created_at == r.updated_at,
            r.tags@.len() == 0,
            r.parent_id is None,
            r.change_description is None,
            r.schedule is None,
    {
        let now = now_millis();
        WorkflowMetadata {
            id: new_id(),
            name,
            description: None,
            version: String::from_str("0.1.0"),
            created_at: now,
            updated_at: now,
            tags: Vec::new(),
            parent_id: None,
            change_description: None,
            schedule: None,
        }
    }

    /// Parse the version as `major.minor.patch`.
    pub fn parse_version(&self) -> (r: Result<(u32, u32, u32), String>)
        ensures
            match (r, parse_version_spec(self.version@)) {
                (Ok(t), Ok(u)) => t == u,
                (Err(m), Err(n)) => m@ == n,
                _ => false,
            },
    {
        parse_version_str(self.version.as_str())
    }

    /// Increment the major version (`x.y.z` becomes `x+1.0.0`) and touch the update time;
    /// a version that does not parse is left unchanged.
    pub fn bump_major(&mut self)
        requires
            parse_version_spec(old(self).version@) matches Ok(t) ==> t.0 < u32::MAX,
        ensures
            match parse_version_spec(old(self).version@) {
                Ok((ma, _, _)) => final(self).version@ == version_text((ma + 1) as nat, 0, 0) && *final(self)
                    == (WorkflowMetadata { version: final(self).version, updated_at: final(self).updated_at, ..*old(self) }),
                Err(_) => *final(self) == *old(self),
            },
    {
        if let Ok((major, _minor, _patch)) = self.parse_version() {
            self.version = format_version(major as u64 + 1, 0, 0);
            self.updated_at = now_millis();
        }
    }

    /// Increment the minor version (`x.y.z` becomes `x.y+1.0`) and touch the update time;
    /// a version that does not parse is left unchanged.
    pub fn bump_minor(&mut self)
        requires
            parse_version_spec(old(self).version@) matches Ok(t) ==> t.1 < u32::MAX,
        ensures
            match parse_version_spec(old(self).version@) {
                Ok((ma, mi, _)) => final(self).version@ == version_text(ma as nat, (mi + 1) as nat, 0) && *final(self)
                    == (WorkflowMetadata { version: final(self).version, updated_at: final(self).updated_at, ..*old(self) }),
                Err(_) => *final(self) == *old(self),
            },
    {
        if let Ok((major, minor, _patch)) = self.parse_version() {
            self.version = format_version(major as u64, minor as u64 + 1, 0);
            self.updated_at = now_millis();
        }
    }

    /// Increment the patch version (`x.y.z` becomes `x.y.z+1`) and touch the update time;
    /// a version that does not parse is left unchanged.
    pub fn bump_patch(&mut self)
        requires
            parse_version_spec(old(self).version@) matches Ok(t) ==> t.2 < u32::MAX,
        ensures
            match parse_version_spec(old(self).version@) {
                Ok((ma, mi, pa)) => final(self).version@ == version_text(ma as nat, mi as nat, (pa + 1) as nat) && *final(self)
                    == (WorkflowMetadata { version: final(self).version, updated_at: final(self).updated_at, ..*old(self) }),
                Err(_) => *final(self) == *old(self),
            },
    {
        if let Ok((major, minor, patch)) = self.parse_version() {
            self.version = format_version(major as u64, minor as u64, patch as u64 + 1);
            self.updated_at = now_millis();
        }
    }
}

/// A complete workflow definition.
#[derive(Debug, Clone)]
pub struct Workflow {
    /// Metadata.
    pub metadata: WorkflowMetadata,
    /// Nodes.
    pub nodes: Vec<Node>,
    /// Edges.
    pub edges: Vec<Edge>,
}

/// The kinds of version bump.
#[derive(Debug, Clone, Copy, PartialEq, Eq)]
pub enum VersionBump {
    /// Breaking changes: `1.0.0` to `2.0.0`.
    Major,
    /// New features: `1.0.0` to `1.1.0`.
    Minor,
    /// Bug fixes: `1.0.0` to `1.0.1`.
    Patch,
}

/// The identifiers of the nodes, in order.
pub open spec fn ids_of(nodes: Seq<Node>) -> Seq<u128> {
    Seq::new(nodes.len(), |i: int| nodes[i].id)
}

/// The (source, target) pairs of the edges, in order.
pub open spec fn pairs_of(edges: Seq<Edge>) -> Seq<IdEdge> {
    Seq::new(edges.len(), |j: int| (edges[j].from, edges[j].to))
}

/// The elements of `s` that satisfy `p`, in order.
pub open spec fn keep<T>(s: Seq<T>, p: spec_fn(T) -> bool) -> Seq<T>
    decreases s.len(),
{
    if s.len() == 0 {
        Seq::empty()
    } else {
        let pre = keep(s.drop_last(), p);
        if p(s.last()) {
            pre.push(s.last())
        } else {
            pre
        }
    }
}

/// Whether some node has the identifier.
pub open spec fn has_node_id(nodes: Seq<Node>, id: NodeId) -> bool {
    exists|i: int| 0 <= i < nodes.len() && #[trigger] nodes[i].id == id
}

/// The version after a bump of the given kind (unchanged when it does not parse).
pub open spec fn bumped_version(v: Seq<char>, b: VersionBump) -> Seq<char> {
    match parse_version_spec(v) {
        Ok((ma, mi, pa)) => match b {
            VersionBump::Major => version_text((ma + 1) as nat, 0, 0),
            VersionBump::Minor => version_text(ma as nat, (mi + 1) as nat, 0),
            VersionBump::Patch => version_text(ma as nat, mi as nat, (pa + 1) as nat),
        },
        Err(_) => v,
    }
}

/// `a` is strictly newer than `b` in lexicographic (major, minor, patch) order.
pub open spec fn version_newer(a: (u32, u32, u32), b: (u32, u32, u32)) -> bool {
    a.0 > b.0 || (a.0 == b.0 && a.1 > b.1) || (a.0 == b.0 && a.1 == b.1 && a.2 > b.2)
}

impl Workflow {
    /// An empty workflow with fresh metadata.
    pub fn new(name: String) -> (r: Self)
        ensures
            r.metadata.name == name,
            r.metadata.version@ == "0.1.0"@,
            r.nodes@.len() == 0,
            r.edges@.len() == 0,
    {
        Workflow { metadata: WorkflowMetadata::new(name), nodes: Vec::new(), edges: Vec::new() }
    }

    /// Add a node.
    pub fn add_node(&mut self, node: Node)
        ensures
            final(self).nodes@ == old(self).nodes@.push(node),
            final(self).edges == old(self).edges,
            final(self).metadata == old(self).metadata,
    {
        self.nodes.push(node);
    }

    /// Add an edge.
    pub fn add_edge(&mut self, edge: Edge)
        ensures
            final(self).edges@ == old(self).edges@.push(edge),
            final(self).nodes == old(self).nodes,
            final(self).metadata == old(self).metadata,
    {
        self.edges.push(edge);
    }

    /// The first node with the identifier.
    pub fn get_node(&self, id: NodeId) -> (r: Option<&Node>)
        ensures
            r is None <==> !has_node_id(self.nodes@, id),
            r matches Some(n) ==> exists|i: int|
                0 <= i < self.nodes@.len() && self.nodes@[i] == *n && n.id == id && forall|j: int|
                    0 <= j < i ==> #[trigger] self.nodes@[j].id != id,
    {
        let mut i: usize = 0;
        while i < self.nodes.len()
            invariant
                i <= self.nodes@.len(),
                forall|j: int| 0 <= j < i ==> #[trigger] self.nodes@[j].id != id,
            decreases self.nodes.len() - i,
        {
            if self.nodes[i].id == id {
                return Some(&self.nodes[i]);
            }
            i = i + 1;
        }
        None
    }

    /// The nodes whose kind is the same variant as `kind`.
    pub fn find_nodes_by_kind(&self, kind: &NodeKind) -> (r: Vec<&Node>)
        ensures
            r@.map_values(|n: &Node| *n) == keep(
                self.nodes@,
                |n: Node| crate::node::kind_tag(n.kind) == crate::node::kind_tag(*kind),
            ),
    {
        let t = kind.tag();
        let ghost p = |n: Node| crate::node::kind_tag(n.kind) == crate::node::kind_tag(*kind);
        let mut r: Vec<&Node> = Vec::new();
        let mut i: usize = 0;
        while i < self.nodes.len()
            invariant
                i <= self.nodes@.len(),
                t == crate::node::kind_tag(*kind),
                p == (|n: Node| crate::node::kind_tag(n.kind) == crate::node::kind_tag(*kind)),
                r@.map_values(|n: &Node| *n) == keep(self.nodes@.take(i as int), p),
            decreases self.nodes.len() - i,
        {
            proof {
                assert(self.nodes@.take(i + 1).drop_last() =~= self.nodes@.take(i as int));
            }
            if self.nodes[i].kind.tag() == t {
                r.push(&self.nodes[i]);
            }
            i = i + 1;
            proof {
                assert(r@.map_values(|n: &Node| *n) =~= keep(self.nodes@.take(i as int), p));
            }
        }
        proof {
            assert(self.nodes@.take(self.nodes@.len() as int) =~= self.nodes@);
        }
        r
    }

    /// The first start node.
    pub fn get_start_node(&self) -> (r: Option<&Node>)
        ensures
            r is None <==> forall|i: int| 0 <= i < self.nodes@.len() ==> !(#[trigger] self.nodes@[i].kind is Start),
            r matches Some(n) ==> exists|i: int|
                0 <= i < self.nodes@.len() && self.nodes@[i] == *n && n.kind is Start && forall|j: int|
                    0 <= j < i ==> !(#[trigger] self.nodes@[j].kind is Start),
    {
        let mut i: usize = 0;
        while i < self.nodes.len()
            invariant
                i <= self.nodes@.len(),
                forall|j: int| 0 <= j < i ==> !(#[trigger] self.nodes@[j].kind is Start),
            decreases self.nodes.len() - i,
        {
            if matches!(self.nodes[i].kind, NodeKind::Start) {
                return Some(&self.nodes[i]);
            }
            i = i + 1;
        }
        None
    }

    /// All end nodes, in order.
    pub fn get_end_nodes(&self) -> (r: Vec<&Node>)
        ensures
            r@.map_values(|n: &Node| *n) == keep(self.nodes@, |n: Node| n.kind is End),
    {
        let ghost p = |n: Node| n.kind is End;
        let mut r: Vec<&Node> = Vec::new();
        let mut i: usize = 0;
        while i < self.nodes.len()
            invariant
                i <= self.nodes@.len(),
                p == (|n: Node| n.kind is End),
                r@.map_values(|n: &Node| *n) == keep(self.nodes@.take(i as int), p),
            decreases self.nodes.len() - i,
        {
            proof {
                assert(self.nodes@.take(i + 1).drop_last() =~= self.nodes@.take(i as int));
            }
            if matches!(self.nodes[i].kind, NodeKind::End) {
                r.push(&self.nodes[i]);
            }
            i = i + 1;
            proof {
                assert(r@.map_values(|n: &Node| *n) =~= keep(self.nodes@.take(i as int), p));
            }
        }
        proof {
            assert(self.nodes@.take(self.nodes@.len() as int) =~= self.nodes@);
        }
        r
    }

    /// Remove every node with the identifier and every edge that touches it.
    /// Returns whether such a node existed; when none did, nothing changes.
    pub fn remove_node(&mut self, id: NodeId) -> (r: bool)
        ensures
            r == has_node_id(old(self).nodes@, id),
            r ==> final(self).nodes@ == keep(old(self).nodes@, |n: Node| n.id != id),
            r ==> final(self).edges@ == keep(old(self).edges@, |e: Edge| e.from != id && e.to != id),
            !r ==> final(self).nodes@ == old(self).nodes@ && final(self).edges@ == old(self).edges@,
            final(self).metadata == old(self).metadata,
    {
        let mut existed = false;
        let mut i: usize = 0;
        while i < self.nodes.len()
            invariant
                i <= self.nodes@.len(),
                existed == exists|j: int| 0 <= j < i && #[trigger] self.nodes@[j].id == id,
            decreases self.nodes.len() - i,
        {
            if self.nodes[i].id == id {
                existed = true;
            }
            i = i + 1;
        }
        if !existed {
            return false;
        }
        let ghost orig_nodes = self.nodes@;
        let ghost orig_edges = self.edges@;
        let mut old_nodes: Vec<Node> = Vec::new();
        std::mem::swap(&mut old_nodes, &mut self.nodes);
        self.nodes = keep_nodes_without(old_nodes, id);
        let mut old_edges: Vec<Edge> = Vec::new();
        std::mem::swap(&mut old_edges, &mut self.edges);
        self.edges = keep_edges_without(old_edges, id);
        true
    }

    /// Remove every edge from `from` to `to`; returns whether any was removed.
    pub fn remove_edge(&mut self, from: NodeId, to: NodeId) -> (r: bool)
        ensures
            final(self).edges@ == keep(old(self).edges@, |e: Edge| e.from != from || e.to != to),
            r == (final(self).edges@.len() < old(self).edges@.len()),
            final(self).nodes == old(self).nodes,
            final(self).metadata == old(self).metadata,
    {
        let count = self.edges.len();
        let mut old_edges: Vec<Edge> = Vec::new();
        std::mem::swap(&mut old_edges, &mut self.edges);
        self.edges = keep_edges_not_between(old_edges, from, to);
        self.edges.len() < count
    }

    /// Number of nodes.
    pub fn node_count(&self) -> (r: usize)
        ensures
            r == self.nodes@.len(),
    {
        self.nodes.len()
    }

    /// Number of edges.
    pub fn edge_count(&self) -> (r: usize)
        ensures
            r == self.edges@.len(),
    {
        self.edges.len()
    }

    /// The edges leaving the node, in order.
    pub fn get_outgoing_edges(&self, node_id: NodeId) -> (r: Vec<&Edge>)
        ensures
            r@.map_values(|e: &Edge| *e) == keep(self.edges@, |e: Edge| e.from == node_id),
    {
        let ghost p = |e: Edge| e.from == node_id;
        let mut r: Vec<&Edge> = Vec::new();
        let mut i: usize = 0;
        while i < self.edges.len()
            invariant
                i <= self.edges@.len(),
                p == (|e: Edge| e.from == node_id),
                r@.map_values(|e: &Edge| *e) == keep(self.edges@.take(i as int), p),
            decreases self.edges.len() - i,
        {
            proof {
                assert(self.edges@.take(i + 1).drop_last() =~= self.edges@.take(i as int));
            }
            if self.edges[i].from == node_id {
                r.push(&self.edges[i]);
            }
            i = i + 1;
            proof {
                assert(r@.map_values(|e: &Edge| *e) =~= keep(self.edges@.take(i as int), p));
            }
        }
        proof {
            assert(self.edges@.take(self.edges@.len() as int) =~= self.edges@);
        }
        r
    }

    /// The edges entering the node, in order.
    pub fn get_incoming_edges(&self, node_id: NodeId) -> (r: Vec<&Edge>)
        ensures
            r@.map_values(|e: &Edge| *e) == keep(self.edges@, |e: Edge| e.to == node_id),
    {
        let ghost p = |e: Edge| e.to == node_id;
        let mut r: Vec<&Edge> = Vec::new();
        let mut i: usize = 0;
        while i < self.edges.len()
            invariant
                i <= self.edges@.len(),
                p == (|e: Edge| e.to == node_id),
                r@.map_values(|e: &Edge| *e) == keep(self.edges@.take(i as int), p),
            decreases self.edges.len() - i,
        {
            proof {
                assert(self.edges@.take(i + 1).drop_last() =~= self.edges@.take(i as int));
            }
            if self.edges[i].to == node_id {
                r.push(&self.edges[i]);
            }
            i = i + 1;
            proof {
                assert(r@.map_values(|e: &Edge| *e) =~= keep(self.edges@.take(i as int), p));
            }
        }
        proof {
            assert(self.edges@.take(self.edges@.len() as int) =~= self.edges@);
        }
        r
    }

    /// The node identifiers, in order.
    pub fn node_ids(&self) -> (r: Vec<u128>)
        ensures
            r@ == ids_of(self.nodes@),
    {
        let mut r: Vec<u128> = Vec::new();
        let mut i: usize = 0;
        while i < self.nodes.len()
            invariant
                i <= self.nodes@.len(),
                r@ == ids_of(self.nodes@).take(i as int),
            decreases self.nodes.len() - i,
        {
            r.push(self.nodes[i].id);
            i = i + 1;
            assert(r@ =~= ids_of(self.nodes@).take(i as int));
        }
        assert(r@ =~= ids_of(self.nodes@));
        r
    }

    /// The (source, target) pairs of the edges, in order.
    pub fn edge_pairs(&self) -> (r: Vec<IdEdge>)
        ensures
            r@ == pairs_of(self.edges@),
    {
        let mut r: Vec<IdEdge> = Vec::new();
        let mut i: usize = 0;
        while i < self.edges.len()
            invariant
                i <= self.edges@.len(),
                r@ == pairs_of(self.edges@).take(i as int),
            decreases self.edges.len() - i,
        {
            r.push((self.edges[i].from, self.edges[i].to));
            i = i + 1;
            assert(r@ =~= pairs_of(self.edges@).take(i as int));
        }
        assert(r@ =~= pairs_of(self.edges@));
        r
    }

    /// Whether this workflow's version is strictly newer than the other's.
    pub fn is_newer_than(&self, other: &Workflow) -> (r: Result<bool, String>)
        ensures
            match (parse_version_spec(self.metadata.version@), parse_version_spec(other.metadata.version@)) {
                (Ok(a), Ok(b)) => r == Ok::<bool, String>(version_newer(a, b)),
                (Err(m), _) => r matches Err(e) && e@ == m,
                (Ok(_), Err(m)) => r matches Err(e) && e@ == m,
            },
    {
        let (sa, sb, sc) = self.metadata.parse_version()?;
        let (oa, ob, oc) = other.metadata.parse_version()?;
        Ok(sa > oa || (sa == oa && sb > ob) || (sa == oa && sb == ob && sc > oc))
    }

    /// A new version of this workflow: fresh identifier, this workflow as its parent,
    /// the change description, created now, and the version bumped as asked; the rest is
    /// copied.
    pub fn create_new_version(&self, change_description: String, version_type: VersionBump) -> (r: Self)
        requires
            parse_version_spec(self.metadata.version@) matches Ok(t) ==> t.0 < u32::MAX && t.1 < u32::MAX && t.2
                < u32::MAX,
        ensures
            r.metadata.parent_id == Some(self.metadata.id),
            r.metadata.change_description == Some(change_description),
            r.metadata.name == self.metadata.name,
            r.metadata.description == self.metadata.description,
            r.metadata.tags@ == self.metadata.tags@,
            r.metadata.version@ == bumped_version(self.metadata.version@, version_type),
            r.metadata.schedule == self.metadata.schedule,
            nodes_same(r.nodes@, self.nodes@),
            r.edges@ == self.edges@,
    {
        let now = now_millis();
        let description = match &self.metadata.description {
            Some(d) => Some(d.clone()),
            None => None,
        };
        let mut metadata = WorkflowMetadata {
            id: new_id(),
            name: self.metadata.name.clone(),
            description,
            version: self.metadata.version.clone(),
            created_at: now,
            updated_at: now,
            tags: crate::rest::copy_strings(&self.metadata.tags),
            parent_id: Some(self.metadata.id),
            change_description: Some(change_description),
            schedule: match &self.metadata.schedule {
                Some(sc) => Some(copy_schedule(sc)),
                None => None,
            },
        };
        match version_type {
            VersionBump::Major => metadata.bump_major(),
            VersionBump::Minor => metadata.bump_minor(),
            VersionBump::Patch => metadata.bump_patch(),
        }
        Workflow { metadata, nodes: copy_nodes(&self.nodes), edges: copy_edges(&self.edges) }
    }

    /// The first node with the identifier, to be changed in place.
    pub fn get_node_mut(&mut self, id: NodeId) -> (r: Option<&mut Node>)
        ensures
            r is None <==> !has_node_id(old(self).nodes@, id),
            r is None ==> *final(self) == *old(self),
            r matches Some(n) ==> exists|i: int|
                {
                    &&& 0 <= i < old(self).nodes@.len()
                    &&& old(self).nodes@[i] == *n
                    &&& n.id == id
                    &&& (forall|j: int| 0 <= j < i ==> #[trigger] old(self).nodes@[j].id != id)
                    &&& final(self).nodes@ == old(self).nodes@.update(i, *final(n))
                    &&& final(self).edges == old(self).edges
                    &&& final(self).metadata == old(self).metadata
                },
    {
        let mut i: usize = 0;
        while i < self.nodes.len()
            invariant
                i <= self.nodes@.len(),
                *self == *old(self),
                forall|j: int| 0 <= j < i ==> #[trigger] self.nodes@[j].id != id,
            decreases self.nodes.len() - i,
        {
            if self.nodes[i].id == id {
                return Some(&mut self.nodes[i]);
            }
            i = i + 1;
        }
        None
    }

    /// The version as a (major, minor, patch) tuple.
    pub fn version_tuple(&self) -> (r: Result<(u32, u32, u32), String>)
        ensures
            match (r, parse_version_spec(self.metadata.version@)) {
                (Ok(t), Ok(u)) => t == u,
                (Err(m), Err(n)) => m@ == n,
                _ => false,
            },
    {
        self.metadata.parse_version()
    }
}

fn keep_nodes_without(v: Vec<Node>, id: NodeId) -> (r: Vec<Node>)
    ensures
        r@ == keep(v@, |n: Node| n.id != id),
{
    let ghost p = |n: Node| n.id != id;
    let ghost orig = v@;
    let mut v = v;
    let mut r: Vec<Node> = Vec::new();
    let mut consumed: usize = 0;
    assert(orig.len() == v.len());
    while v.len() > 0
        invariant
            p == (|n: Node| n.id != id),
            consumed <= orig.len(),
            consumed + v@.len() == orig.len(),
            orig.len() <= usize::MAX,
            v@ == orig.skip(consumed as int),
            r@ == keep(orig.take(consumed as int), p),
        decreases v.len(),
    {
        let n = v.remove(0);
        proof {
            assert(orig.take(consumed + 1).drop_last() =~= orig.take(consumed as int));
            assert(orig.take(consumed + 1).last() == n);
        }
        if n.id != id {
            r.push(n);
        }
        consumed = consumed + 1;
        proof {
            assert(v@ =~= orig.skip(consumed as int));
        }
    }
    proof {
        assert(orig.take(consumed as int) =~= orig);
    }
    r
}

fn keep_edges_without(v: Vec<Edge>, id: NodeId) -> (r: Vec<Edge>)
    ensures
        r@ == keep(v@, |e: Edge| e.from != id && e.to != id),
{
    let ghost p = |e: Edge| e.from != id && e.to != id;
    let ghost orig = v@;
    let mut v = v;
    let mut r: Vec<Edge> = Vec::new();
    let mut consumed: usize = 0;
    assert(orig.len() == v.len());
    while v.len() > 0
        invariant
            p == (|e: Edge| e.from != id && e.to != id),
            consumed <= orig.len(),
            consumed + v@.len() == orig.len(),
            orig.len() <= usize::MAX,
            v@ == orig.skip(consumed as int),
            r@ == keep(orig.take(consumed as int), p),
        decreases v.len(),
    {
        let e = v.remove(0);
        proof {
            assert(orig.take(consumed + 1).drop_last() =~= orig.take(consumed as int));
            assert(orig.take(consumed + 1).last() == e);
        }
        if e.from != id && e.to != id {
            r.push(e);
        }
        consumed = consumed + 1;
        proof {
            assert(v@ =~= orig.skip(consumed as int));
        }
    }
    proof {
        assert(orig.take(consumed as int) =~= orig);
    }
    r
}

fn keep_edges_not_between(v: Vec<Edge>, from: NodeId, to: NodeId) -> (r: Vec<Edge>)
    ensures
        r@ == keep(v@, |e: Edge| e.from != from || e.to != to),
        r@.len() <= v@.len(),
{
    let ghost p = |e: Edge| e.from != from || e.to != to;
    let ghost orig = v@;
    let mut v = v;
    let mut r: Vec<Edge> = Vec::new();
    let mut consumed: usize = 0;
    assert(orig.len() == v.len());
    while v.len() > 0
        invariant
            p == (|e: Edge| e.from != from || e.to != to),
            consumed <= orig.len(),
            consumed + v@.len() == orig.len(),
            orig.len() <= usize::MAX,
            v@ == orig.skip(consumed as int),
            r@ == keep(orig.take(consumed as int), p),
            r@.len() <= consumed,
        decreases v.len(),
    {
        let e = v.remove(0);
        proof {
            assert(orig.take(consumed + 1).drop_last() =~= orig.take(consumed as int));
            assert(orig.take(consumed + 1).last() == e);
        }
        if e.from != from || e.to != to {
            r.push(e);
        }
        consumed = consumed + 1;
        proof {
            assert(v@ =~= orig.skip(consumed as int));
        }
    }
    proof {
        assert(orig.take(consumed as int) =~= orig);
    }
    r
}

/// A copy of a schedule.
fn copy_schedule(s: &WorkflowSchedule) -> (r: WorkflowSchedule)
    ensures
        r == *s,
{
    WorkflowSchedule {
        cron: s.cron.clone(),
        timezone: s.timezone.clone(),
        enabled: s.enabled,
        max_concurrent_runs: s.max_concurrent_runs,
        retry_on_failure: s.retry_on_failure,
        start_date: s.start_date,
        end_date: s.end_date,
    }
}

/// Copies of the edges, in order.
pub(crate) fn copy_edges(v: &Vec<Edge>) -> (r: Vec<Edge>)
    ensures
        r@ == v@,
{
    let mut out: Vec<Edge> = Vec::new();
    let mut i: usize = 0;
    while i < v.len()
        invariant
            i <= v@.len(),
            out@ == v@.take(i as int),
        decreases v.len() - i,
    {
        let e = &v[i];
        out.push(
            Edge {
                id: e.id,
                from: e.from,
                to: e.to,
                label: copy_opt_text(&e.label),
                condition: copy_opt_text(&e.condition),
            },
        );
        assert(out@ =~= v@.take(i + 1));
        i = i + 1;
    }
    assert(v@.take(v@.len() as int) =~= v@);
    out
}

/// Equal metadata, the tags compared by their contents.
pub open spec fn metadata_same(a: WorkflowMetadata, b: WorkflowMetadata) -> bool {
    &&& a.id == b.id
    &&& a.name == b.name
    &&& a.description == b.description
    &&& a.version == b.version
    &&& a.created_at == b.created_at
    &&& a.updated_at == b.updated_at
    &&& a.tags@ == b.tags@
    &&& a.parent_id == b.parent_id
    &&& a.change_description == b.change_description
    &&& a.schedule == b.schedule
}

/// Equal workflows, the lists inside compared by their contents.
pub open spec fn workflow_same(a: Workflow, b: Workflow) -> bool {
    &&& metadata_same(a.metadata, b.metadata)
    &&& nodes_same(a.nodes@, b.nodes@)
    &&& a.edges@ == b.edges@
}

/// A copy of a workflow.
pub(crate) fn copy_workflow(w: &Workflow) -> (r: Workflow)
    ensures
        workflow_same(r, *w),
{
    let m = &w.metadata;
    let metadata = WorkflowMetadata {
        id: m.id,
        name: m.name.clone(),
        description: copy_opt_text(&m.description),
        version: m.version.clone(),
        created_at: m.created_at,
        updated_at: m.updated_at,
        tags: crate::rest::copy_strings(&m.tags),
        parent_id: m.parent_id,
        change_description: copy_opt_text(&m.change_description),
        schedule: match &m.schedule {
            Some(sc) => Some(copy_schedule(sc)),
            None => None,
        },
    };
    Workflow { metadata, nodes: copy_nodes(&w.nodes), edges: copy_edges(&w.edges) }
}

} // verus!
