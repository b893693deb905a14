//! Execution planning: configuration, errors, the level-by-level execution plan,
//! pause / cancel control and the decisions taken between node runs.

use vstd::prelude::*;
use std::collections::HashMap;
use crate::graph::{acyclic, is_peeling, peel_levels};
use crate::node::NodeId;
use crate::text::uuid_text;
use crate::validation::edges_valid;
use crate::workflow::{Workflow, ids_of, pairs_of};
use crate::execution::{put, ExecutionContext, ExecutionResult, ExecutionState, NodeExecutionResult};

verus! {

broadcast use vstd::std_specs::hash::group_hash_axioms;

/// Errors of the execution engine.
#[derive(Debug, Clone, PartialEq, Eq)]
pub enum EngineError {
    ValidationError(String),
    NodeNotFound(NodeId),
    ExecutionError(String),
    CycleDetected,
    VariableNotFound(String),
    TemplateError(String),
    Timeout(String),
    ExecutionPaused,
    ExecutionCancelled,
}

impl EngineError {
    /// The displayed text of the error.
    pub fn message(&self) -> (r: String)
        ensures
            r@ == match *self {
                EngineError::ValidationError(s) => "Workflow validation failed: "@ + s@,
                EngineError::NodeNotFound(id) => "Node not found: "@ + uuid_text(id),
                EngineError::ExecutionError(s) => "Execution error: "@ + s@,
                EngineError::CycleDetected => "Cycle detected in workflow"@,
                EngineError::VariableNotFound(s) => "Variable not found: "@ + s@,
                EngineError::TemplateError(s) => "Template error: "@ + s@,
                EngineError::Timeout(s) => "Timeout: "@ + s@,
                EngineError::ExecutionPaused => "Execution paused"@,
                EngineError::ExecutionCancelled => "Execution cancelled"@,
            },
    {
        match self {
            EngineError::ValidationError(s) => {
                let mut r = String::from_str("Workflow validation failed: ");
                r.append(s.as_str());
                r
            },
            EngineError::NodeNotFound(id) => {
                let mut r = String::from_str("Node not found: ");
                let t = crate::text::uuid_to_string(*id);
                r.append(t.as_str());
                r
            },
            EngineError::ExecutionError(s) => {
                let mut r = String::from_str("Execution error: ");
                r.append(s.as_str());
                r
            },
            EngineError::CycleDetected => String::from_str("Cycle detected in workflow"),
            EngineError::VariableNotFound(s) => {
                let mut r = String::from_str("Variable not found: ");
                r.append(s.as_str());
                r
            },
            EngineError::TemplateError(s) => {
                let mut r = String::from_str("Template error: ");
                r.append(s.as_str());
                r
            },
            EngineError::Timeout(s) => {
                let mut r = String::from_str("Timeout: ");
                r.append(s.as_str());
                r
            },
            EngineError::ExecutionPaused => String::from_str("Execution paused"),
            EngineError::ExecutionCancelled => String::from_str("Execution cancelled"),
        }
    }
}

/// Configuration of one execution.
#[derive(Debug, Clone, Copy, PartialEq, Eq)]
pub struct ExecutionConfig {
    /// Whether execution events are published.
    pub emit_events: bool,
    /// Timeout of each node run, in milliseconds.
    pub node_timeout_ms: Option<u64>,
    /// Largest number of nodes of one level run at once.
    pub max_concurrent_nodes: Option<usize>,
    /// Whether a failed node is recorded as a failure instead of ending the execution.
    pub continue_on_error: bool,
}

impl ExecutionConfig {
    /// The defaults: no events, no timeout, no concurrency limit, stop on error.
    pub fn new() -> (r: Self)
        ensures
            r == (ExecutionConfig {
                emit_events: false,
                node_timeout_ms: None,
                max_concurrent_nodes: None,
                continue_on_error: false,
            }),
    {
        ExecutionConfig { emit_events: false, node_timeout_ms: None, max_concurrent_nodes: None, continue_on_error: false }
    }

    /// Publish execution events.
    pub fn with_events(self) -> (r: Self)
        ensures
            r == (ExecutionConfig { emit_events: true, ..self }),
    {
        ExecutionConfig { emit_events: true, ..self }
    }

    /// Set the node timeout.
    pub fn with_node_timeout(self, t: u64) -> (r: Self)
        ensures
            r == (ExecutionConfig { node_timeout_ms: Some(t), ..self }),
    {
        ExecutionConfig { node_timeout_ms: Some(t), ..self }
    }

    /// Set the concurrency limit.
    pub fn with_max_concurrent(self, m: usize) -> (r: Self)
        ensures
            r == (ExecutionConfig { max_concurrent_nodes: Some(m), ..self }),
    {
        ExecutionConfig { max_concurrent_nodes: Some(m), ..self }
    }

    /// Record failures and go on.
    pub fn with_continue_on_error(self) -> (r: Self)
        ensures
            r == (ExecutionConfig { continue_on_error: true, ..self }),
    {
        ExecutionConfig { continue_on_error: true, ..self }
    }
}

/// The level-by-level execution plan of a workflow whose edges join its nodes:
/// level 0 holds the nodes without predecessors, each later level the nodes whose
/// predecessors all lie in earlier levels, each level in node order.
/// Fails with `CycleDetected` exactly when node identifiers repeat or the graph has a cycle.
pub fn compute_execution_levels(workflow: &Workflow) -> (r: Result<Vec<Vec<NodeId>>, EngineError>)
    requires
        edges_valid(*workflow),
    ensures
        r is Ok <==> (ids_of(workflow.nodes@).no_duplicates() && acyclic(pairs_of(workflow.edges@))),
        r matches Err(e) ==> e == EngineError::CycleDetected,
        r matches Ok(levels) ==> is_peeling(
            ids_of(workflow.nodes@),
            pairs_of(workflow.edges@),
            levels@.map_values(|l: Vec<NodeId>| l@),
        ),
{
    let ids = workflow.node_ids();
    let pairs = workflow.edge_pairs();
    match peel_levels(&ids, &pairs) {
        Some(levels) => Ok(levels),
        None => Err(EngineError::CycleDetected),
    }
}

/// How many nodes of a level of `level_len` nodes run at once: the configured limit,
/// capped at the level size; the whole level when no limit is set.
pub fn chunk_size(config: &ExecutionConfig, level_len: usize) -> (r: usize)
    ensures
        r == match config.max_concurrent_nodes {
            Some(m) => if m < level_len { m } else { level_len },
            None => level_len,
        },
{
    let m = match config.max_concurrent_nodes {
        Some(m) => m,
        None => level_len,
    };
    if m < level_len {
        m
    } else {
        level_len
    }
}

/// Split a level into consecutive batches of `size` nodes (the last may be shorter).
pub fn chunk_level(level: &Vec<NodeId>, size: usize) -> (r: Vec<Vec<NodeId>>)
    requires
        size > 0,
    ensures
        forall|k: int| 0 <= k < r@.len() ==> #[trigger] r@[k]@ == level@.subrange(
            k * size,
            if (k + 1) * size < level@.len() { (k + 1) * size } else { level@.len() as int },
        ),
        r@.len() * size >= level@.len(),
        r@.len() > 0 ==> (r@.len() - 1) * size < level@.len(),
{
    let mut r: Vec<Vec<NodeId>> = Vec::new();
    let mut start: usize = 0;
    assert(r@.len() * size == 0) by (nonlinear_arith)
        requires
            r@.len() == 0,
    ;
    while start < level.len()
        invariant
            size > 0,
            start == r@.len() * size,
            start <= level@.len(),
            r@.len() > 0 ==> (r@.len() - 1) * size < level@.len(),
            forall|k: int| 0 <= k < r@.len() ==> #[trigger] r@[k]@ == level@.subrange(
                k * size,
                if (k + 1) * size < level@.len() { (k + 1) * size } else { level@.len() as int },
            ),
        decreases level@.len() - start,
    {
        let end: usize = if level.len() - start > size { start + size } else { level.len() };
        let mut chunk: Vec<NodeId> = Vec::new();
        let mut i = start;
        while i < end
            invariant
                start <= i <= end <= level@.len(),
                chunk@ == level@.subrange(start as int, i as int),
            decreases end - i,
        {
            chunk.push(level[i]);
            i = i + 1;
            assert(chunk@ =~= level@.subrange(start as int, i as int));
        }
        let ghost k = r@.len() as int;
        proof {
            assert(start == k * size);
            assert((k + 1) * size == start + size) by (nonlinear_arith)
                requires
                    start == k * size,
            ;
        }
        r.push(chunk);
        proof {
            assert(r@[k]@ == level@.subrange(
                k * size,
                if (k + 1) * size < level@.len() { (k + 1) * size } else { level@.len() as int },
            ));
            assert((r@.len() - 1) * size == start) by (nonlinear_arith)
                requires
                    r@.len() == k + 1,
                    start == k * size,
            ;
            assert(r@.len() * size == start + size) by (nonlinear_arith)
                requires
                    r@.len() == k + 1,
                    start == k * size,
            ;
        }
        if end == level.len() {
            return r;
        }
        start = end;
    }
    r
}

/// What the engine does with the outcome of one node run.
#[derive(Debug, Clone, Copy, PartialEq, Eq)]
pub enum NodeOutcomeAction {
    /// Record the successful result.
    RecordSuccess,
    /// Record the failure and continue with the other nodes.
    RecordFailure,
    /// Stop the execution with the error.
    Abort,
}

/// The decision for a node run: successes are recorded; failures are recorded when
/// the configuration continues on error, and end the execution otherwise.
pub fn node_outcome_action(config: &ExecutionConfig, succeeded: bool) -> (r: NodeOutcomeAction)
    ensures
        succeeded ==> r == NodeOutcomeAction::RecordSuccess,
        !succeeded && config.continue_on_error ==> r == NodeOutcomeAction::RecordFailure,
        !succeeded && !config.continue_on_error ==> r == NodeOutcomeAction::Abort,
{
    if succeeded {
        NodeOutcomeAction::RecordSuccess
    } else if config.continue_on_error {
        NodeOutcomeAction::RecordFailure
    } else {
        NodeOutcomeAction::Abort
    }
}

/// After the `attempt`-th failed run (counting from 1) of a node allowed `max_retries`
/// retries, whether the node is run again.
pub fn should_retry(attempt: u32, max_retries: u32) -> (r: bool)
    ensures
        r == (attempt <= max_retries),
{
    attempt <= max_retries
}

/// Pause and cancellation flags of executions.
pub struct Engine {
    pause_flag: HashMap<u128, bool>,
    cancel_flag: HashMap<u128, bool>,
}

impl Engine {
    /// The pause flags by execution identifier.
    pub closed spec fn paused(&self) -> Map<u128, bool> {
        self.pause_flag@
    }

    /// The cancellation flags by execution identifier.
    pub closed spec fn cancelled(&self) -> Map<u128, bool> {
        self.cancel_flag@
    }

    /// An engine with no flags set.
    pub fn new() -> (r: Self)
        ensures
            r.paused() == Map::<u128, bool>::empty(),
            r.cancelled() == Map::<u128, bool>::empty(),
    {
        Engine { pause_flag: HashMap::new(), cancel_flag: HashMap::new() }
    }

    /// Mark the execution paused.
    pub fn pause_execution(&mut self, id: u128)
        ensures
            final(self).paused() == old(self).paused().insert(id, true),
            final(self).cancelled() == old(self).cancelled(),
    {
        self.pause_flag.insert(id, true);
    }

    /// Mark the execution not paused.
    pub fn resume_execution(&mut self, id: u128)
        ensures
            final(self).paused() == old(self).paused().insert(id, false),
            final(self).cancelled() == old(self).cancelled(),
    {
        self.pause_flag.insert(id, false);
    }

    /// Whether the execution is paused (unknown executions are not).
    pub fn is_paused(&self, id: u128) -> (r: bool)
        ensures
            r == (self.paused().contains_key(id) && self.paused()[id]),
    {
        match self.pause_flag.get(&id) {
            Some(b) => *b,
            None => false,
        }
    }

    /// Mark the execution cancelled.
    pub fn cancel_execution(&mut self, id: u128)
        ensures
            final(self).cancelled() == old(self).cancelled().insert(id, true),
            final(self).paused() == old(self).paused(),
    {
        self.cancel_flag.insert(id, true);
    }

    /// Whether the execution is cancelled (unknown executions are not).
    pub fn is_cancelled(&self, id: u128) -> (r: bool)
        ensures
            r == (self.cancelled().contains_key(id) && self.cancelled()[id]),
    {
        match self.cancel_flag.get(&id) {
            Some(b) => *b,
            None => false,
        }
    }

    /// Forget the cancellation of the execution.
    pub fn clear_cancellation(&mut self, id: u128)
        ensures
            final(self).cancelled() == old(self).cancelled().remove(id),
            final(self).paused() == old(self).paused(),
    {
        self.cancel_flag.remove(&id);
    }
}

impl Engine {
    /// The check before each level of an execution: a cancelled execution has its
    /// cancellation cleared and stops; a paused one stops; otherwise it goes on.
    pub fn level_gate(&mut self, execution_id: u128) -> (r: Result<(), EngineError>)
        ensures
            flag_set(old(self).cancelled(), execution_id) ==> r == Err::<(), EngineError>(
                EngineError::ExecutionCancelled,
            ),
            flag_set(old(self).cancelled(), execution_id) ==> final(self).cancelled() == old(self).cancelled().remove(
                execution_id,
            ),
            !flag_set(old(self).cancelled(), execution_id) ==> final(self).cancelled() == old(self).cancelled(),
            !flag_set(old(self).cancelled(), execution_id) && flag_set(old(self).paused(), execution_id) ==> r
                == Err::<(), EngineError>(EngineError::ExecutionPaused),
            !flag_set(old(self).cancelled(), execution_id) && !flag_set(old(self).paused(), execution_id) ==> r
                is Ok,
            final(self).paused() == old(self).paused(),
    {
        if self.is_cancelled(execution_id) {
            self.clear_cancellation(execution_id);
            return Err(EngineError::ExecutionCancelled);
        }
        if self.is_paused(execution_id) {
            return Err(EngineError::ExecutionPaused);
        }
        Ok(())
    }
}

/// Record the outcome of one node run in the context: a result is recorded; an error
/// is recorded at `now` as a failed result when the configuration continues on error,
/// and otherwise ends the execution.
pub fn record_node_outcome(
    ctx: &mut ExecutionContext,
    node_id: NodeId,
    outcome: Result<NodeExecutionResult, EngineError>,
    config: &ExecutionConfig,
    now: i64,
) -> (r: Result<(), EngineError>)
    ensures
        final(ctx).state == old(ctx).state,
        final(ctx).variables@ == old(ctx).variables@,
        final(ctx).completed_at == old(ctx).completed_at,
        match outcome {
            Ok(res) => r is Ok && final(ctx).node_results@ == put(old(ctx).node_results@, node_id, res),
            Err(e) => if config.continue_on_error {
                r is Ok && exists|f: NodeExecutionResult|
                    final(ctx).node_results@ == put(old(ctx).node_results@, node_id, f) && f.started_at == now
                        && f.completed_at == Some(now) && f.retry_count == 0
                        && (f.result matches ExecutionResult::Failure(m) && m@ == engine_error_text(e))
            } else {
                r == Err::<(), EngineError>(e) && final(ctx).node_results@ == old(ctx).node_results@
            },
        },
{
    match outcome {
        Ok(res) => {
            ctx.record_node_result(node_id, res);
            Ok(())
        },
        Err(e) => {
            if config.continue_on_error {
                let f = NodeExecutionResult::new_at(now).complete_at(ExecutionResult::Failure(e.message()), now);
                ctx.record_node_result(node_id, f);
                Ok(())
            } else {
                Err(e)
            }
        },
    }
}

/// The flag of an execution is set (unknown executions have none).
pub open spec fn flag_set(flags: Map<u128, bool>, id: u128) -> bool {
    flags.contains_key(id) && flags[id]
}

/// The displayed text of an engine error.
pub open spec fn engine_error_text(e: EngineError) -> Seq<char> {
    match e {
        EngineError::ValidationError(s) => "Workflow validation failed: "@ + s@,
        EngineError::NodeNotFound(id) => "Node not found: "@ + uuid_text(id),
        EngineError::ExecutionError(s) => "Execution error: "@ + s@,
        EngineError::CycleDetected => "Cycle detected in workflow"@,
        EngineError::VariableNotFound(s) => "Variable not found: "@ + s@,
        EngineError::TemplateError(s) => "Template error: "@ + s@,
        EngineError::Timeout(s) => "Timeout: "@ + s@,
        EngineError::ExecutionPaused => "Execution paused"@,
        EngineError::ExecutionCancelled => "Execution cancelled"@,
    }
}

/// Close a finished execution at `now`: completed, with its completion time.
pub fn finish_execution(ctx: &mut ExecutionContext, now: i64)
    ensures
        final(ctx).state == ExecutionState::Completed,
        final(ctx).completed_at == match old(ctx).completed_at {
            Some(t) => Some(t),
            None => Some(now),
        },
        final(ctx).node_results@ == old(ctx).node_results@,
        final(ctx).variables@ == old(ctx).variables@,
{
    ctx.state = ExecutionState::Completed;
    ctx.mark_completed_at(now);
}

/// The result of a node whose runs all failed: `attempts` runs, the last error shown
/// after the number of retries allowed.
pub fn exhausted_result(attempts: u32, max_retries: u32, last_error: &EngineError, now: i64) -> (r: NodeExecutionResult)
    requires
        attempts >= 1,
    ensures
        r.started_at == now,
        r.completed_at == Some(now),
        r.retry_count == attempts - 1,
        r.result matches ExecutionResult::Failure(m) && m@ == "Failed after "@ + crate::text::decimal(max_retries as nat)
            + " retries: "@ + engine_error_text(*last_error),
{
    let mut base = NodeExecutionResult::new_at(now);
    base.retry_count = attempts - 1;
    let mut m = String::from_str("Failed after ");
    let n = crate::text::u64_to_string(max_retries as u64);
    m.append(n.as_str());
    m.append(" retries: ");
    let em = last_error.message();
    m.append(em.as_str());
    base.complete_at(ExecutionResult::Failure(m), now)
}

} // verus!
