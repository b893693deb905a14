//! Server-sent event streams: the events pushed to clients, and the registry of open
//! connections with its per-user limit. Times are milliseconds since the UNIX epoch.

use vstd::prelude::*;
use crate::ids::{clock_reading, now_millis};

verus! {

/// An update pushed to the clients that follow an execution.
#[derive(Debug, Clone, PartialEq, Eq)]
pub enum SseEventType {
    NodeStarted { node_id: String, timestamp: i64 },
    NodeCompleted { node_id: String, duration_ms: u64, timestamp: i64 },
    WorkflowFailed { execution_id: String, error: String, timestamp: i64 },
    Heartbeat { timestamp: i64 },
}

impl SseEventType {
    /// The name of the event on the stream.
    pub fn event_name(&self) -> (r: &'static str)
        ensures
            r@ == match *self {
                SseEventType::NodeStarted { .. } => "node_started"@,
                SseEventType::NodeCompleted { .. } => "node_completed"@,
                SseEventType::WorkflowFailed { .. } => "workflow_failed"@,
                SseEventType::Heartbeat { .. } => "heartbeat"@,
            },
    {
        match self {
            SseEventType::NodeStarted { .. } => "node_started",
            SseEventType::NodeCompleted { .. } => "node_completed",
            SseEventType::WorkflowFailed { .. } => "workflow_failed",
            SseEventType::Heartbeat { .. } => "heartbeat",
        }
    }
}

/// An open stream: its identifier, the user, the execution followed and when it opened.
#[derive(Debug, Clone, PartialEq, Eq)]
pub struct SseConnection {
    pub id: u64,
    pub user_id: String,
    pub execution_id: String,
    pub connected_at: i64,
}

/// How many of the connections belong to a user.
pub open spec fn user_count(s: Seq<SseConnection>, user: Seq<char>) -> nat
    decreases s.len(),
{
    if s.len() == 0 {
        0
    } else {
        user_count(s.drop_last(), user) + if s.last().user_id@ == user { 1nat } else { 0nat }
    }
}

/// The connections with identifier other than `id`, in order.
pub open spec fn without_id(s: Seq<SseConnection>, id: u64) -> Seq<SseConnection>
    decreases s.len(),
{
    if s.len() == 0 {
        s
    } else if s.last().id == id {
        without_id(s.drop_last(), id)
    } else {
        without_id(s.drop_last(), id).push(s.last())
    }
}

/// The connections of a user, in order.
pub open spec fn of_user(s: Seq<SseConnection>, user: Seq<char>) -> Seq<SseConnection>
    decreases s.len(),
{
    if s.len() == 0 {
        s
    } else if s.last().user_id@ == user {
        of_user(s.drop_last(), user).push(s.last())
    } else {
        of_user(s.drop_last(), user)
    }
}

/// The open connections, the next identifier to hand out and the per-user limit.
pub struct SseConnectionManager {
    pub connections: Vec<SseConnection>,
    pub next_id: u64,
    pub max_connections_per_user: usize,
}

fn copy_connection(c: &SseConnection) -> (r: SseConnection)
    ensures
        r == *c,
{
    SseConnection {
        id: c.id,
        user_id: c.user_id.clone(),
        execution_id: c.execution_id.clone(),
        connected_at: c.connected_at,
    }
}

impl SseConnectionManager {
    /// No connection; identifiers start at 1.
    pub fn new(max_connections_per_user: usize) -> (r: Self)
        ensures
            r.connections@.len() == 0,
            r.next_id == 1,
            r.max_connections_per_user == max_connections_per_user,
    {
        SseConnectionManager { connections: Vec::new(), next_id: 1, max_connections_per_user }
    }

    fn count_user(&self, user_id: &str) -> (r: usize)
        ensures
            r == user_count(self.connections@, user_id@),
    {
        let mut n: usize = 0;
        let mut i: usize = 0;
        while i < self.connections.len()
            invariant
                i <= self.connections@.len(),
                n == user_count(self.connections@.take(i as int), user_id@),
                n <= i,
            decreases self.connections.len() - i,
        {
            assert(self.connections@.take(i + 1).drop_last() =~= self.connections@.take(i as int));
            if crate::execution::str_eq(self.connections[i].user_id.as_str(), user_id) {
                n = n + 1;
            }
            i = i + 1;
        }
        assert(self.connections@.take(self.connections@.len() as int) =~= self.connections@);
        n
    }

    /// Open a connection at `now` for a user below the limit: it takes the next
    /// identifier and joins the registry; a user at the limit is refused.
    pub fn register_at(&mut self, user_id: String, execution_id: String, now: i64) -> (r: Option<SseConnection>)
        requires
            old(self).next_id < u64::MAX,
        ensures
            r is None <==> user_count(old(self).connections@, user_id@) >= old(self).max_connections_per_user,
            r is None ==> final(self).connections@ == old(self).connections@ && final(self).next_id == old(self).next_id,
            r matches Some(c) ==> c == (SseConnection { id: old(self).next_id, user_id, execution_id, connected_at: now })
                && final(self).connections@ == old(self).connections@.push(c) && final(self).next_id == old(self).next_id
                + 1,
            final(self).max_connections_per_user == old(self).max_connections_per_user,
    {
        let n = self.count_user(user_id.as_str());
        if n >= self.max_connections_per_user {
            return None;
        }
        let c = SseConnection { id: self.next_id, user_id, execution_id, connected_at: now };
        self.next_id = self.next_id + 1;
        self.connections.push(copy_connection(&c));
        Some(c)
    }

    /// Open a connection now (see [`Self::register_at`]).
    pub fn register(&mut self, user_id: String, execution_id: String) -> (r: Option<SseConnection>)
        requires
            old(self).next_id < u64::MAX,
        ensures
            r is None <==> user_count(old(self).connections@, user_id@) >= old(self).max_connections_per_user,
            r is None ==> final(self).connections@ == old(self).connections@ && final(self).next_id == old(self).next_id,
            r matches Some(c) ==> c.id == old(self).next_id && c.user_id == user_id && c.execution_id == execution_id
                && clock_reading(c.connected_at) && final(self).connections@ == old(self).connections@.push(c)
                && final(self).next_id == old(self).next_id + 1,
            final(self).max_connections_per_user == old(self).max_connections_per_user,
    {
        let now = now_millis();
        self.register_at(user_id, execution_id, now)
    }

    /// Close a connection.
    pub fn unregister(&mut self, connection_id: u64)
        ensures
            final(self).connections@ == without_id(old(self).connections@, connection_id),
            final(self).next_id == old(self).next_id,
            final(self).max_connections_per_user == old(self).max_connections_per_user,
    {
        let mut kept: Vec<SseConnection> = Vec::new();
        let mut i: usize = 0;
        while i < self.connections.len()
            invariant
                i <= self.connections@.len(),
                kept@ == without_id(self.connections@.take(i as int), connection_id),
            decreases self.connections.len() - i,
        {
            assert(self.connections@.take(i + 1).drop_last() =~= self.connections@.take(i as int));
            if self.connections[i].id != connection_id {
                kept.push(copy_connection(&self.connections[i]));
            }
            i = i + 1;
        }
        assert(self.connections@.take(self.connections@.len() as int) =~= self.connections@);
        self.connections = kept;
    }

    /// The number of open connections.
    pub fn connection_count(&self) -> (r: usize)
        ensures
            r == self.connections@.len(),
    {
        self.connections.len()
    }

    /// The connections of a user, in order.
    pub fn user_connections(&self, user_id: &str) -> (r: Vec<SseConnection>)
        ensures
            r@ == of_user(self.connections@, user_id@),
    {
        let mut out: Vec<SseConnection> = Vec::new();
        let mut i: usize = 0;
        while i < self.connections.len()
            invariant
                i <= self.connections@.len(),
                out@ == of_user(self.connections@.take(i as int), user_id@),
            decreases self.connections.len() - i,
        {
            assert(self.connections@.take(i + 1).drop_last() =~= self.connections@.take(i as int));
            if crate::execution::str_eq(self.connections[i].user_id.as_str(), user_id) {
                out.push(copy_connection(&self.connections[i]));
            }
            i = i + 1;
        }
        assert(self.connections@.take(self.connections@.len() as int) =~= self.connections@);
        out
    }
}

} // verus!
