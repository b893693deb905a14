//! The record of one workflow run: its state, the results of its nodes, its
//! variables and the checkpoints it can be resumed from.

use vstd::prelude::*;
use crate::ids::{clock_reading, new_id, now_millis};
use crate::node::NodeId;
use crate::rest::{pair_views, upsert, upsert_pair};

verus! {

/// Where a run stands.
#[derive(Debug, Clone, PartialEq, Eq)]
pub enum ExecutionState {
    Running,
    Completed,
    Failed(String),
    Cancelled,
    Paused,
}

/// The outcome of one node; a success carries its output as JSON text.
#[derive(Debug, Clone, PartialEq, Eq)]
pub enum ExecutionResult {
    Pending,
    Success(String),
    Failure(String),
    Skipped,
}

/// Tokens spent by a language-model node.
#[derive(Debug, Clone, Copy, PartialEq, Eq, Default)]
pub struct TokenUsage {
    pub input_tokens: u32,
    pub output_tokens: u32,
    pub total_tokens: u32,
    pub cached_tokens: Option<u32>,
}

impl TokenUsage {
    /// A record whose total is the sum of input and output tokens.
    pub fn new(input_tokens: u32, output_tokens: u32) -> (r: Self)
        requires
            input_tokens + output_tokens <= u32::MAX,
        ensures
            r == (TokenUsage {
                input_tokens,
                output_tokens,
                total_tokens: (input_tokens + output_tokens) as u32,
                cached_tokens: None,
            }),
    {
        TokenUsage { input_tokens, output_tokens, total_tokens: input_tokens + output_tokens, cached_tokens: None }
    }
}

/// Measurements of one node run (custom metrics as name and JSON text).
#[derive(Debug, Clone, PartialEq, Eq)]
pub struct NodeMetrics {
    pub duration_ms: Option<u64>,
    pub token_usage: Option<TokenUsage>,
    pub api_calls: u32,
    pub bytes_transferred: u64,
    pub memory_bytes: Option<u64>,
    pub custom: Vec<(String, String)>,
}

impl Default for NodeMetrics {
    /// No measurement.
    fn default() -> (r: Self)
        ensures
            r.duration_ms.is_none(),
            r.token_usage.is_none(),
            r.api_calls == 0,
            r.bytes_transferred == 0,
            r.memory_bytes.is_none(),
            r.custom@.len() == 0,
    {
        NodeMetrics::empty()
    }
}

impl NodeMetrics {
    /// No measurement.
    pub fn empty() -> (r: Self)
        ensures
            r.duration_ms.is_none(),
            r.token_usage.is_none(),
            r.api_calls == 0,
            r.bytes_transferred == 0,
            r.memory_bytes.is_none(),
            r.custom@.len() == 0,
    {
        NodeMetrics {
            duration_ms: None,
            token_usage: None,
            api_calls: 0,
            bytes_transferred: 0,
            memory_bytes: None,
            custom: Vec::new(),
        }
    }
}

/// The result of running one node; times are milliseconds since the UNIX epoch.
#[derive(Debug, Clone, PartialEq, Eq)]
pub struct NodeExecutionResult {
    pub started_at: i64,
    pub completed_at: Option<i64>,
    pub result: ExecutionResult,
    pub retry_count: u32,
    pub metrics: Option<NodeMetrics>,
}

/// The duration recorded when a node started at `started` completes at `now`
/// (the millisecond difference taken as `u64`, as a cast does).
pub open spec fn elapsed_u64(started: i64, now: i64) -> u64 {
    (now as int - started as int) as u64
}

impl NodeExecutionResult {
    /// A pending result started at `now`.
    pub fn new_at(now: i64) -> (r: Self)
        ensures
            r == (NodeExecutionResult {
                started_at: now,
                completed_at: None,
                result: ExecutionResult::Pending,
                retry_count: 0,
                metrics: None,
            }),
    {
        NodeExecutionResult { started_at: now, completed_at: None, result: ExecutionResult::Pending, retry_count: 0, metrics: None }
    }

    /// A pending result started now.
    pub fn new() -> (r: Self)
        ensures
            r.completed_at.is_none(),
            r.result == ExecutionResult::Pending,
            r.retry_count == 0,
            r.metrics.is_none(),
            clock_reading(r.started_at),
    {
        NodeExecutionResult::new_at(now_millis())
    }

    /// Complete at `now` with `result`, recording the duration in the metrics.
    pub fn complete_at(self, result: ExecutionResult, now: i64) -> (r: Self)
        ensures
            r.started_at == self.started_at,
            r.completed_at == Some(now),
            r.result == result,
            r.retry_count == self.retry_count,
            r.metrics.is_some(),
            r.metrics.unwrap().duration_ms == Some(elapsed_u64(self.started_at, now)),
            self.metrics.is_some() ==> r.metrics.unwrap() == (NodeMetrics {
                duration_ms: Some(elapsed_u64(self.started_at, now)),
                ..self.metrics.unwrap()
            }),
            self.metrics.is_none() ==> r.metrics.unwrap() == (NodeMetrics {
                duration_ms: Some(elapsed_u64(self.started_at, now)),
                token_usage: None,
                api_calls: 0,
                bytes_transferred: 0,
                memory_bytes: None,
                custom: r.metrics.unwrap().custom,
            }) && r.metrics.unwrap().custom@.len() == 0,
    {
        let wide: i128 = (now as i128) - (self.started_at as i128);
        let duration: u64 = wide as u64;
        let mut s = self;
        s.completed_at = Some(now);
        s.result = result;
        match s.metrics {
            Some(m) => {
                s.metrics = Some(NodeMetrics { duration_ms: Some(duration), ..m });
            },
            None => {
                let mut m = NodeMetrics::empty();
                m.duration_ms = Some(duration);
                s.metrics = Some(m);
            },
        }
        s
    }

    /// Complete now with `result`.
    pub fn complete(self, result: ExecutionResult) -> (r: Self)
        ensures
            r.started_at == self.started_at,
            r.completed_at.is_some(),
            r.result == result,
            r.retry_count == self.retry_count,
            r.metrics.is_some(),
            r.metrics.unwrap().duration_ms == Some(elapsed_u64(self.started_at, r.completed_at.unwrap())),
            clock_reading(r.completed_at.unwrap()),
    {
        let now = now_millis();
        self.complete_at(result, now)
    }

    /// Replace the metrics.
    pub fn with_metrics(self, metrics: NodeMetrics) -> (r: Self)
        ensures
            r == (NodeExecutionResult { metrics: Some(metrics), ..self }),
    {
        NodeExecutionResult { metrics: Some(metrics), ..self }
    }

    /// Record token usage in the metrics, creating them when there are none.
    pub fn with_token_usage(self, usage: TokenUsage) -> (r: Self)
        ensures
            r.started_at == self.started_at,
            r.completed_at == self.completed_at,
            r.result == self.result,
            r.retry_count == self.retry_count,
            r.metrics.is_some(),
            r.metrics.unwrap().token_usage == Some(usage),
            self.metrics.is_some() ==> r.metrics.unwrap() == (NodeMetrics {
                token_usage: Some(usage),
                ..self.metrics.unwrap()
            }),
            self.metrics.is_none() ==> r.metrics.unwrap().duration_ms.is_none()
                && r.metrics.unwrap().api_calls == 0 && r.metrics.unwrap().bytes_transferred == 0
                && r.metrics.unwrap().memory_bytes.is_none() && r.metrics.unwrap().custom@.len() == 0,
    {
        let mut s = self;
        match s.metrics {
            Some(m) => {
                s.metrics = Some(NodeMetrics { token_usage: Some(usage), ..m });
            },
            None => {
                let mut m = NodeMetrics::empty();
                m.token_usage = Some(usage);
                s.metrics = Some(m);
            },
        }
        s
    }

    /// The recorded duration, if any.
    pub fn duration_ms(&self) -> (r: Option<u64>)
        ensures
            r == match self.metrics {
                Some(m) => m.duration_ms,
                None => None,
            },
    {
        match &self.metrics {
            Some(m) => m.duration_ms,
            None => None,
        }
    }

    /// The recorded total token count, if any.
    pub fn total_tokens(&self) -> (r: Option<u32>)
        ensures
            r == match self.metrics {
                Some(m) => match m.token_usage {
                    Some(t) => Some(t.total_tokens),
                    None => None,
                },
                None => None,
            },
    {
        match &self.metrics {
            Some(m) => match &m.token_usage {
                Some(t) => Some(t.total_tokens),
                None => None,
            },
            None => None,
        }
    }
}

/// A saved point of a run: the completed nodes, the variables and the state.
#[derive(Debug, Clone, PartialEq, Eq)]
pub struct ExecutionCheckpoint {
    pub timestamp: i64,
    pub completed_nodes: Vec<NodeId>,
    pub variables: Vec<(String, String)>,
    pub state: ExecutionState,
}

/// Two checkpoints hold the same time, nodes, variables and state.
pub open spec fn same_checkpoint(a: ExecutionCheckpoint, b: ExecutionCheckpoint) -> bool {
    &&& a.timestamp == b.timestamp
    &&& a.completed_nodes@ == b.completed_nodes@
    &&& a.variables@ == b.variables@
    &&& a.state == b.state
}

/// `i` is the first position of an entry with key `k`.
pub open spec fn first_at<V>(s: Seq<(NodeId, V)>, k: NodeId, i: int) -> bool {
    0 <= i < s.len() && s[i].0 == k && forall|j: int| 0 <= j < i ==> s[j].0 != k
}

/// Set the value of key `k`: replace the first entry with that key, or add one at the end.
pub open spec fn put<V>(s: Seq<(NodeId, V)>, k: NodeId, v: V) -> Seq<(NodeId, V)> {
    if exists|i: int| #[trigger] first_at(s, k, i) {
        s.update(choose|i: int| #[trigger] first_at(s, k, i), (k, v))
    } else {
        s.push((k, v))
    }
}

/// The value of the first entry with key `k`.
pub open spec fn lookup<V>(s: Seq<(NodeId, V)>, k: NodeId) -> Option<V> {
    if exists|i: int| #[trigger] first_at(s, k, i) {
        Some(s[choose|i: int| #[trigger] first_at(s, k, i)].1)
    } else {
        None
    }
}

/// The value of the first entry named `k` in a list of (name, value) pairs.
pub open spec fn lookup_text(s: Seq<(Seq<char>, Seq<char>)>, k: Seq<char>) -> Option<Seq<char>> {
    if exists|i: int| #[trigger] crate::rest::is_first_key(s, k, i) {
        Some(s[choose|i: int| #[trigger] crate::rest::is_first_key(s, k, i)].1)
    } else {
        None
    }
}

fn put_entry<V>(v: &mut Vec<(NodeId, V)>, k: NodeId, val: V)
    ensures
        final(v)@ == put(old(v)@, k, val),
{
    let mut i: usize = 0;
    while i < v.len()
        invariant
            i <= v@.len(),
            v@ == old(v)@,
            forall|j: int| 0 <= j < i ==> #[trigger] v@[j].0 != k,
        decreases v.len() - i,
    {
        if v[i].0 == k {
            proof {
                let s = v@;
                assert(first_at(s, k, i as int));
                let c = choose|c: int| #[trigger] first_at(s, k, c);
                assert(first_at(s, k, c));
                if c < i {
                    assert(s[c].0 != k);
                } else if c > i {
                    assert(s[i as int].0 != k);
                }
            }
            v.set(i, (k, val));
            return;
        }
        i = i + 1;
    }
    proof {
        assert(!exists|c: int| #[trigger] first_at(v@, k, c));
    }
    v.push((k, val));
}

fn find_entry<V>(v: &Vec<(NodeId, V)>, k: NodeId) -> (r: Option<&V>)
    ensures
        r == match lookup(v@, k) {
            Some(x) => Some(&x),
            None => None::<&V>,
        },
{
    let mut i: usize = 0;
    while i < v.len()
        invariant
            i <= v@.len(),
            forall|j: int| 0 <= j < i ==> #[trigger] v@[j].0 != k,
        decreases v.len() - i,
    {
        if v[i].0 == k {
            proof {
                let s = v@;
                assert(first_at(s, k, i as int));
                let c = choose|c: int| #[trigger] first_at(s, k, c);
                assert(first_at(s, k, c));
                if c < i {
                    assert(s[c].0 != k);
                } else if c > i {
                    assert(s[i as int].0 != k);
                }
            }
            return Some(&v[i].1);
        }
        i = i + 1;
    }
    proof {
        assert(!exists|c: int| #[trigger] first_at(v@, k, c));
    }
    None
}

/// The keys of a list of entries, in order.
pub open spec fn keys_of<V>(s: Seq<(NodeId, V)>) -> Seq<NodeId> {
    s.map_values(|e: (NodeId, V)| e.0)
}

fn collect_keys<V>(v: &Vec<(NodeId, V)>) -> (r: Vec<NodeId>)
    ensures
        r@ == keys_of(v@),
{
    let mut out: Vec<NodeId> = Vec::new();
    let mut i: usize = 0;
    while i < v.len()
        invariant
            i <= v@.len(),
            out@ == keys_of(v@.take(i as int)),
        decreases v.len() - i,
    {
        out.push(v[i].0);
        proof {
            assert(keys_of(v@.take(i + 1)) =~= keys_of(v@.take(i as int)).push(v@[i as int].0));
        }
        i = i + 1;
    }
    assert(v@.take(v@.len() as int) =~= v@);
    out
}

fn clone_pairs(v: &Vec<(String, String)>) -> (r: Vec<(String, String)>)
    ensures
        r@ == v@,
{
    let mut out: Vec<(String, String)> = Vec::new();
    let mut i: usize = 0;
    while i < v.len()
        invariant
            i <= v@.len(),
            out@ == v@.take(i as int),
        decreases v.len() - i,
    {
        let a = v[i].0.clone();
        let b = v[i].1.clone();
        out.push((a, b));
        assert(out@ =~= v@.take(i + 1));
        i = i + 1;
    }
    assert(v@.take(v@.len() as int) =~= v@);
    out
}

fn clone_state(s: &ExecutionState) -> (r: ExecutionState)
    ensures
        r == *s,
{
    match s {
        ExecutionState::Running => ExecutionState::Running,
        ExecutionState::Completed => ExecutionState::Completed,
        ExecutionState::Failed(m) => ExecutionState::Failed(m.clone()),
        ExecutionState::Cancelled => ExecutionState::Cancelled,
        ExecutionState::Paused => ExecutionState::Paused,
    }
}

/// The record of a run; times are milliseconds since the UNIX epoch, variables hold
/// JSON text by name.
#[derive(Debug, Clone)]
pub struct ExecutionContext {
    pub execution_id: u128,
    pub workflow_id: u128,
    pub started_at: i64,
    pub completed_at: Option<i64>,
    pub state: ExecutionState,
    pub node_results: Vec<(NodeId, NodeExecutionResult)>,
    pub variables: Vec<(String, String)>,
    pub checkpoint: Option<ExecutionCheckpoint>,
}

impl ExecutionContext {
    /// A running context with the given identity and start time, and nothing recorded.
    pub fn new_with(workflow_id: u128, execution_id: u128, now: i64) -> (r: Self)
        ensures
            r.execution_id == execution_id,
            r.workflow_id == workflow_id,
            r.started_at == now,
            r.completed_at.is_none(),
            r.state == ExecutionState::Running,
            r.node_results@.len() == 0,
            r.variables@.len() == 0,
            r.checkpoint.is_none(),
    {
        ExecutionContext {
            execution_id,
            workflow_id,
            started_at: now,
            completed_at: None,
            state: ExecutionState::Running,
            node_results: Vec::new(),
            variables: Vec::new(),
            checkpoint: None,
        }
    }

    /// A running context for `workflow_id`, with a fresh identifier, started now.
    pub fn new(workflow_id: u128) -> (r: Self)
        ensures
            r.workflow_id == workflow_id,
            r.completed_at.is_none(),
            r.state == ExecutionState::Running,
            r.node_results@.len() == 0,
            r.variables@.len() == 0,
            r.checkpoint.is_none(),
            clock_reading(r.started_at),
    {
        let id = new_id();
        let now = now_millis();
        ExecutionContext::new_with(workflow_id, id, now)
    }

    /// Save, at `now`, the completed nodes, the variables and the state, keep the
    /// checkpoint and return it.
    pub fn create_checkpoint_at(&mut self, now: i64) -> (r: ExecutionCheckpoint)
        ensures
            r.timestamp == now,
            r.completed_nodes@ == keys_of(old(self).node_results@),
            r.variables@ == old(self).variables@,
            r.state == old(self).state,
            final(self).checkpoint.is_some(),
            same_checkpoint(final(self).checkpoint.unwrap(), r),
            final(self).execution_id == old(self).execution_id,
            final(self).workflow_id == old(self).workflow_id,
            final(self).started_at == old(self).started_at,
            final(self).completed_at == old(self).completed_at,
            final(self).state == old(self).state,
            final(self).node_results@ == old(self).node_results@,
            final(self).variables@ == old(self).variables@,
    {
        let cp = ExecutionCheckpoint {
            timestamp: now,
            completed_nodes: collect_keys(&self.node_results),
            variables: clone_pairs(&self.variables),
            state: clone_state(&self.state),
        };
        let kept = ExecutionCheckpoint {
            timestamp: cp.timestamp,
            completed_nodes: clone_ids(&cp.completed_nodes),
            variables: clone_pairs(&cp.variables),
            state: clone_state(&cp.state),
        };
        self.checkpoint = Some(kept);
        cp
    }

    /// `create_checkpoint_at` the current time.
    pub fn create_checkpoint(&mut self) -> (r: ExecutionCheckpoint)
        ensures
            r.completed_nodes@ == keys_of(old(self).node_results@),
            r.variables@ == old(self).variables@,
            r.state == old(self).state,
            final(self).checkpoint.is_some(),
            same_checkpoint(final(self).checkpoint.unwrap(), r),
            final(self).state == old(self).state,
            final(self).node_results@ == old(self).node_results@,
            final(self).variables@ == old(self).variables@,
    {
        let now = now_millis();
        self.create_checkpoint_at(now)
    }

    /// A context resumed from a checkpoint: its variables and state, started at the
    /// checkpoint's time, with no node results yet.
    pub fn resume_from_checkpoint_with(checkpoint: ExecutionCheckpoint, workflow_id: u128, execution_id: u128) -> (r: Self)
        ensures
            r.execution_id == execution_id,
            r.workflow_id == workflow_id,
            r.started_at == checkpoint.timestamp,
            r.completed_at.is_none(),
            r.state == checkpoint.state,
            r.node_results@.len() == 0,
            r.variables@ == checkpoint.variables@,
            r.checkpoint == Some(checkpoint),
    {
        let variables = clone_pairs(&checkpoint.variables);
        let state = clone_state(&checkpoint.state);
        ExecutionContext {
            execution_id,
            workflow_id,
            started_at: checkpoint.timestamp,
            completed_at: None,
            state,
            node_results: Vec::new(),
            variables,
            checkpoint: Some(checkpoint),
        }
    }

    /// `resume_from_checkpoint_with` a fresh identifier.
    pub fn resume_from_checkpoint(checkpoint: ExecutionCheckpoint, workflow_id: u128) -> (r: Self)
        ensures
            r.workflow_id == workflow_id,
            r.started_at == checkpoint.timestamp,
            r.completed_at.is_none(),
            r.state == checkpoint.state,
            r.node_results@.len() == 0,
            r.variables@ == checkpoint.variables@,
            r.checkpoint == Some(checkpoint),
    {
        let id = new_id();
        ExecutionContext::resume_from_checkpoint_with(checkpoint, workflow_id, id)
    }

    /// A run can be resumed when it is paused and has a checkpoint.
    pub fn can_resume(&self) -> (r: bool)
        ensures
            r == (self.checkpoint.is_some() && self.state == ExecutionState::Paused),
    {
        self.checkpoint.is_some() && matches!(self.state, ExecutionState::Paused)
    }

    /// Pause at `now`, saving a checkpoint of the paused run.
    pub fn pause_at(&mut self, now: i64)
        ensures
            final(self).state == ExecutionState::Paused,
            final(self).checkpoint.is_some(),
            final(self).checkpoint.unwrap().timestamp == now,
            final(self).checkpoint.unwrap().state == ExecutionState::Paused,
            final(self).checkpoint.unwrap().completed_nodes@ == keys_of(old(self).node_results@),
            final(self).node_results@ == old(self).node_results@,
            final(self).variables@ == old(self).variables@,
            final(self).completed_at == old(self).completed_at,
    {
        self.state = ExecutionState::Paused;
        let _ = self.create_checkpoint_at(now);
    }

    /// Pause now.
    pub fn pause(&mut self)
        ensures
            final(self).state == ExecutionState::Paused,
            final(self).checkpoint.is_some(),
            final(self).checkpoint.unwrap().state == ExecutionState::Paused,
            final(self).node_results@ == old(self).node_results@,
            final(self).variables@ == old(self).variables@,
            final(self).completed_at == old(self).completed_at,
    {
        let now = now_millis();
        self.pause_at(now);
    }

    /// A paused run goes back to running; any other state stays.
    pub fn resume(&mut self)
        ensures
            old(self).state == ExecutionState::Paused ==> final(self).state == ExecutionState::Running,
            old(self).state != ExecutionState::Paused ==> final(self).state == old(self).state,
            final(self).checkpoint == old(self).checkpoint,
            final(self).completed_at == old(self).completed_at,
            final(self).node_results@ == old(self).node_results@,
            final(self).variables@ == old(self).variables@,
    {
        if matches!(self.state, ExecutionState::Paused) {
            self.state = ExecutionState::Running;
        }
    }

    /// Record the completion time `now`, unless one is recorded already.
    pub fn mark_completed_at(&mut self, now: i64)
        ensures
            final(self).completed_at == match old(self).completed_at {
                Some(t) => Some(t),
                None => Some(now),
            },
            final(self).state == old(self).state,
            final(self).checkpoint == old(self).checkpoint,
            final(self).node_results@ == old(self).node_results@,
            final(self).variables@ == old(self).variables@,
    {
        if self.completed_at.is_none() {
            self.completed_at = Some(now);
        }
    }

    /// `mark_completed_at` the current time.
    pub fn mark_completed(&mut self)
        ensures
            final(self).completed_at.is_some(),
            old(self).completed_at.is_some() ==> final(self).completed_at == old(self).completed_at,
            final(self).state == old(self).state,
            final(self).checkpoint == old(self).checkpoint,
            final(self).node_results@ == old(self).node_results@,
            final(self).variables@ == old(self).variables@,
    {
        let now = now_millis();
        self.mark_completed_at(now);
    }

    /// Cancel at `now`: the state becomes cancelled and the run is marked completed.
    pub fn cancel_at(&mut self, now: i64)
        ensures
            final(self).state == ExecutionState::Cancelled,
            final(self).completed_at == match old(self).completed_at {
                Some(t) => Some(t),
                None => Some(now),
            },
            final(self).checkpoint == old(self).checkpoint,
            final(self).node_results@ == old(self).node_results@,
            final(self).variables@ == old(self).variables@,
    {
        self.state = ExecutionState::Cancelled;
        self.mark_completed_at(now);
    }

    /// Cancel now.
    pub fn cancel(&mut self)
        ensures
            final(self).state == ExecutionState::Cancelled,
            final(self).completed_at.is_some(),
            old(self).completed_at.is_some() ==> final(self).completed_at == old(self).completed_at,
            final(self).checkpoint == old(self).checkpoint,
            final(self).node_results@ == old(self).node_results@,
            final(self).variables@ == old(self).variables@,
    {
        let now = now_millis();
        self.cancel_at(now);
    }

    /// Record the result of a node, replacing an earlier one.
    pub fn record_node_result(&mut self, node_id: NodeId, result: NodeExecutionResult)
        ensures
            final(self).node_results@ == put(old(self).node_results@, node_id, result),
            final(self).state == old(self).state,
            final(self).variables@ == old(self).variables@,
            final(self).checkpoint == old(self).checkpoint,
            final(self).completed_at == old(self).completed_at,
    {
        put_entry(&mut self.node_results, node_id, result);
    }

    /// The recorded result of a node.
    pub fn get_node_result(&self, node_id: &NodeId) -> (r: Option<&NodeExecutionResult>)
        ensures
            r == match lookup(self.node_results@, *node_id) {
                Some(x) => Some(&x),
                None => None::<&NodeExecutionResult>,
            },
    {
        find_entry(&self.node_results, *node_id)
    }

    /// Set a variable to a JSON text, replacing an earlier value.
    pub fn set_variable(&mut self, key: String, value: String)
        ensures
            pair_views(final(self).variables@) == upsert(pair_views(old(self).variables@), key@, value@),
            final(self).state == old(self).state,
            final(self).node_results@ == old(self).node_results@,
            final(self).checkpoint == old(self).checkpoint,
            final(self).completed_at == old(self).completed_at,
    {
        upsert_pair(&mut self.variables, key, value);
    }

    /// The JSON text of a variable.
    pub fn get_variable(&self, key: &str) -> (r: Option<&String>)
        ensures
            match r {
                Some(v) => lookup_text(pair_views(self.variables@), key@) == Some(v@),
                None => lookup_text(pair_views(self.variables@), key@).is_none(),
            },
    {
        let mut i: usize = 0;
        let ghost s = pair_views(self.variables@);
        while i < self.variables.len()
            invariant
                i <= self.variables@.len(),
                s == pair_views(self.variables@),
                forall|j: int| 0 <= j < i ==> #[trigger] s[j].0 != key@,
            decreases self.variables.len() - i,
        {
            if str_eq(self.variables[i].0.as_str(), key) {
                proof {
                    assert(crate::rest::is_first_key(s, key@, i as int));
                    let c = choose|c: int| #[trigger] crate::rest::is_first_key(s, key@, c);
                    assert(crate::rest::is_first_key(s, key@, c));
                    if c < i {
                        assert(s[c].0 != key@);
                    } else if c > i {
                        assert(s[i as int].0 != key@);
                    }
                }
                return Some(&self.variables[i].1);
            }
            i = i + 1;
        }
        proof {
            assert(!exists|c: int| #[trigger] crate::rest::is_first_key(s, key@, c));
        }
        None
    }
}

fn clone_ids(v: &Vec<NodeId>) -> (r: Vec<NodeId>)
    ensures
        r@ == v@,
{
    let mut out: Vec<NodeId> = Vec::new();
    let mut i: usize = 0;
    while i < v.len()
        invariant
            i <= v@.len(),
            out@ == v@.take(i as int),
        decreases v.len() - i,
    {
        out.push(v[i]);
        assert(out@ =~= v@.take(i + 1));
        i = i + 1;
    }
    assert(v@.take(v@.len() as int) =~= v@);
    out
}

/// Two texts are equal.
pub fn str_eq(a: &str, b: &str) -> (r: bool)
    ensures
        r == (a@ == b@),
{
    let av = crate::text::chars_of(a);
    let bv = crate::text::chars_of(b);
    if av.len() != bv.len() {
        return false;
    }
    let mut i: usize = 0;
    while i < av.len()
        invariant
            av@ == a@,
            bv@ == b@,
            av@.len() == bv@.len(),
            i <= av@.len(),
            forall|j: int| 0 <= j < i ==> av@[j] == bv@[j],
        decreases av.len() - i,
    {
        if av[i] != bv[i] {
            return false;
        }
        i = i + 1;
    }
    assert(av@ =~= bv@);
    true
}

} // verus!
