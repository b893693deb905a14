//! Execution events (their kinds and JSON payloads) and the triggers that start a
//! workflow when a matching event is published.

use vstd::prelude::*;
use crate::auth::{json_str_content};
use crate::ids::{clock_reading, new_id, now_millis};
use crate::node::NodeId;
use crate::templating::{json_quoted, quote_json};
use crate::text::{decimal, trim_seq, trim_text, u64_to_string, uuid_text, uuid_to_string};
use crate::webhook::{get_field, json_field};
use crate::workflow::Workflow;

verus! {

/// One member of a JSON object payload: `"key":value`, the value as JSON text.
pub open spec fn member(key: Seq<char>, value: Seq<char>) -> Seq<char> {
    "\""@ + key + "\":"@ + value
}

/// A JSON object of the members, in the given (sorted) order.
pub open spec fn object_text(members: Seq<Seq<char>>) -> Seq<char>
    decreases members.len(),
{
    if members.len() == 0 {
        "{}"@
    } else if members.len() == 1 {
        "{"@ + members[0] + "}"@
    } else {
        object_text(members.drop_last()).drop_last() + ","@ + members.last() + "}"@
    }
}

pub(crate) fn object_exec(members: &Vec<String>) -> (r: String)
    ensures
        r@ == object_text(members@.map_values(|m: String| m@)),
{
    let ghost mv = members@.map_values(|m: String| m@);
    if members.len() == 0 {
        return String::from_str("{}");
    }
    let mut body = String::new();
    let mut i: usize = 0;
    while i < members.len()
        invariant
            i <= members@.len(),
            members@.len() > 0,
            mv == members@.map_values(|m: String| m@),
            i > 0 ==> body@ + "}"@ == object_text(mv.take(i as int)) && body@.len() >= 1 && body@[0] == '{',
            i == 0 ==> body@.len() == 0,
        decreases members.len() - i,
    {
        let ghost prev = body@;
        assert(mv.take(i + 1).drop_last() =~= mv.take(i as int));
        if i == 0 {
            body.append("{");
            body.append(members[i].as_str());
            assert(mv.take(1) =~= seq![mv[0]]);
        } else {
            body.append(",");
            body.append(members[i].as_str());
            proof {
                let t = object_text(mv.take(i as int));
                assert(t == prev + "}"@);
                assert(t.drop_last() =~= prev) by {
                    assert(("}"@).len() == 1) by {
                        reveal_strlit("}");
                    }
                }
            }
        }
        proof {
            reveal_strlit("{");
            assert(body@[0] == '{');
        }
        i = i + 1;
    }
    assert(mv.take(mv.len() as int) =~= mv);
    body.append("}");
    body
}

pub(crate) fn member_exec(key: &str, value: &str) -> (r: String)
    ensures
        r@ == member(key@, value@),
{
    let mut s = String::from_str("\"");
    s.append(key);
    s.append("\":");
    s.append(value);
    s
}

fn quoted_id(id: NodeId) -> (r: String)
    ensures
        r@ == json_quoted(uuid_text(id)),
{
    let t = uuid_to_string(id);
    quote_json(t.as_str())
}

/// An execution event; times in milliseconds since the UNIX epoch, the payload as JSON
/// text.
#[derive(Debug, Clone)]
pub struct WorkflowEvent {
    pub id: u128,
    pub event_type: String,
    pub workflow_id: u128,
    pub execution_id: Option<u128>,
    pub payload: String,
    pub timestamp: i64,
    pub source: String,
}

/// The payload of an event of the workflow's own status.
pub open spec fn status_payload(status: Seq<char>) -> Seq<char> {
    object_text(seq![member("status"@, json_quoted(status))])
}

impl WorkflowEvent {
    /// An event with identifier `id` at `now`, from the engine.
    pub fn new_at(event_type: String, workflow_id: u128, payload: String, id: u128, now: i64) -> (r: Self)
        ensures
            r.id == id,
            r.event_type == event_type,
            r.workflow_id == workflow_id,
            r.execution_id is None,
            r.payload == payload,
            r.timestamp == now,
            r.source@ == "oxify-engine"@,
    {
        WorkflowEvent {
            id,
            event_type,
            workflow_id,
            execution_id: None,
            payload,
            timestamp: now,
            source: String::from_str("oxify-engine"),
        }
    }

    /// An event with a fresh identifier, now.
    pub fn new(event_type: String, workflow_id: u128, payload: String) -> (r: Self)
        ensures
            r.event_type == event_type,
            r.workflow_id == workflow_id,
            r.execution_id is None,
            r.payload == payload,
            r.source@ == "oxify-engine"@,
            clock_reading(r.timestamp),
    {
        let id = new_id();
        let now = now_millis();
        WorkflowEvent::new_at(event_type, workflow_id, payload, id, now)
    }

    /// Attach the execution.
    pub fn with_execution(self, execution_id: u128) -> (r: Self)
        ensures
            r.execution_id == Some(execution_id),
            r.id == self.id,
            r.event_type == self.event_type,
            r.workflow_id == self.workflow_id,
            r.payload == self.payload,
            r.timestamp == self.timestamp,
            r.source == self.source,
    {
        WorkflowEvent { execution_id: Some(execution_id), ..self }
    }

    /// Set the source.
    pub fn with_source(self, source: String) -> (r: Self)
        ensures
            r.source == source,
            r.id == self.id,
            r.event_type == self.event_type,
            r.workflow_id == self.workflow_id,
            r.execution_id == self.execution_id,
            r.payload == self.payload,
            r.timestamp == self.timestamp,
    {
        WorkflowEvent { source, ..self }
    }

    fn status_event(kind: &str, status: &str, workflow_id: u128, execution_id: u128) -> (r: Self)
        ensures
            r.event_type@ == kind@,
            r.workflow_id == workflow_id,
            r.execution_id == Some(execution_id),
            r.payload@ == status_payload(status@),
    {
        let mut m: Vec<String> = Vec::new();
        let q = quote_json(status);
        m.push(member_exec("status", q.as_str()));
        let p = object_exec(&m);
        assert(m@.map_values(|x: String| x@) =~= seq![member("status"@, json_quoted(status@))]);
        WorkflowEvent::new(String::from_str(kind), workflow_id, p).with_execution(execution_id)
    }

    /// `workflow.started`.
    pub fn workflow_started(workflow_id: u128, execution_id: u128) -> (r: Self)
        ensures
            r.event_type@ == "workflow.started"@,
            r.workflow_id == workflow_id,
            r.execution_id == Some(execution_id),
            r.payload@ == status_payload("started"@),
    {
        Self::status_event("workflow.started", "started", workflow_id, execution_id)
    }

    /// `workflow.resumed`.
    pub fn workflow_resumed(workflow_id: u128, execution_id: u128) -> (r: Self)
        ensures
            r.event_type@ == "workflow.resumed"@,
            r.workflow_id == workflow_id,
            r.execution_id == Some(execution_id),
            r.payload@ == status_payload("resumed"@),
    {
        Self::status_event("workflow.resumed", "resumed", workflow_id, execution_id)
    }

    /// `workflow.completed`, with the node count and duration.
    pub fn workflow_completed(workflow_id: u128, execution_id: u128, node_count: u64, duration_ms: u64) -> (r: Self)
        ensures
            r.event_type@ == "workflow.completed"@,
            r.workflow_id == workflow_id,
            r.execution_id == Some(execution_id),
            r.payload@ == object_text(
                seq![
                    member("duration_ms"@, decimal(duration_ms as nat)),
                    member("node_count"@, decimal(node_count as nat)),
                    member("status"@, json_quoted("completed"@)),
                ],
            ),
    {
        let mut m: Vec<String> = Vec::new();
        let d = u64_to_string(duration_ms);
        m.push(member_exec("duration_ms", d.as_str()));
        let n = u64_to_string(node_count);
        m.push(member_exec("node_count", n.as_str()));
        let q = quote_json("completed");
        m.push(member_exec("status", q.as_str()));
        let p = object_exec(&m);
        assert(m@.map_values(|x: String| x@) =~= seq![
            member("duration_ms"@, decimal(duration_ms as nat)),
            member("node_count"@, decimal(node_count as nat)),
            member("status"@, json_quoted("completed"@)),
        ]);
        WorkflowEvent::new(String::from_str("workflow.completed"), workflow_id, p).with_execution(execution_id)
    }

    /// `workflow.failed`, with the error.
    pub fn workflow_failed(workflow_id: u128, execution_id: u128, error: &str) -> (r: Self)
        ensures
            r.event_type@ == "workflow.failed"@,
            r.workflow_id == workflow_id,
            r.execution_id == Some(execution_id),
            r.payload@ == object_text(
                seq![member("error"@, json_quoted(error@)), member("status"@, json_quoted("failed"@))],
            ),
    {
        let mut m: Vec<String> = Vec::new();
        let e = quote_json(error);
        m.push(member_exec("error", e.as_str()));
        let q = quote_json("failed");
        m.push(member_exec("status", q.as_str()));
        let p = object_exec(&m);
        assert(m@.map_values(|x: String| x@) =~= seq![
            member("error"@, json_quoted(error@)),
            member("status"@, json_quoted("failed"@)),
        ]);
        WorkflowEvent::new(String::from_str("workflow.failed"), workflow_id, p).with_execution(execution_id)
    }

    /// `workflow.paused`, with the reason.
    pub fn workflow_paused(workflow_id: u128, execution_id: u128, reason: &str) -> (r: Self)
        ensures
            r.event_type@ == "workflow.paused"@,
            r.workflow_id == workflow_id,
            r.execution_id == Some(execution_id),
            r.payload@ == object_text(
                seq![member("reason"@, json_quoted(reason@)), member("status"@, json_quoted("paused"@))],
            ),
    {
        let mut m: Vec<String> = Vec::new();
        let e = quote_json(reason);
        m.push(member_exec("reason", e.as_str()));
        let q = quote_json("paused");
        m.push(member_exec("status", q.as_str()));
        let p = object_exec(&m);
        assert(m@.map_values(|x: String| x@) =~= seq![
            member("reason"@, json_quoted(reason@)),
            member("status"@, json_quoted("paused"@)),
        ]);
        WorkflowEvent::new(String::from_str("workflow.paused"), workflow_id, p).with_execution(execution_id)
    }

    /// `node.started`.
    pub fn node_started(workflow_id: u128, execution_id: u128, node_id: NodeId, node_name: &str) -> (r: Self)
        ensures
            r.event_type@ == "node.started"@,
            r.workflow_id == workflow_id,
            r.execution_id == Some(execution_id),
            r.payload@ == object_text(
                seq![
                    member("node_id"@, json_quoted(uuid_text(node_id))),
                    member("node_name"@, json_quoted(node_name@)),
                    member("status"@, json_quoted("started"@)),
                ],
            ),
    {
        let mut m: Vec<String> = Vec::new();
        let i = quoted_id(node_id);
        m.push(member_exec("node_id", i.as_str()));
        let n = quote_json(node_name);
        m.push(member_exec("node_name", n.as_str()));
        let q = quote_json("started");
        m.push(member_exec("status", q.as_str()));
        let p = object_exec(&m);
        assert(m@.map_values(|x: String| x@) =~= seq![
            member("node_id"@, json_quoted(uuid_text(node_id))),
            member("node_name"@, json_quoted(node_name@)),
            member("status"@, json_quoted("started"@)),
        ]);
        WorkflowEvent::new(String::from_str("node.started"), workflow_id, p).with_execution(execution_id)
    }

    /// `node.completed`, with the duration.
    pub fn node_completed(workflow_id: u128, execution_id: u128, node_id: NodeId, node_name: &str, duration_ms: u64) -> (r: Self)
        ensures
            r.event_type@ == "node.completed"@,
            r.workflow_id == workflow_id,
            r.execution_id == Some(execution_id),
            r.payload@ == object_text(
                seq![
                    member("duration_ms"@, decimal(duration_ms as nat)),
                    member("node_id"@, json_quoted(uuid_text(node_id))),
                    member("node_name"@, json_quoted(node_name@)),
                    member("status"@, json_quoted("completed"@)),
                ],
            ),
    {
        let mut m: Vec<String> = Vec::new();
        let d = u64_to_string(duration_ms);
        m.push(member_exec("duration_ms", d.as_str()));
        let i = quoted_id(node_id);
        m.push(member_exec("node_id", i.as_str()));
        let n = quote_json(node_name);
        m.push(member_exec("node_name", n.as_str()));
        let q = quote_json("completed");
        m.push(member_exec("status", q.as_str()));
        let p = object_exec(&m);
        assert(m@.map_values(|x: String| x@) =~= seq![
            member("duration_ms"@, decimal(duration_ms as nat)),
            member("node_id"@, json_quoted(uuid_text(node_id))),
            member("node_name"@, json_quoted(node_name@)),
            member("status"@, json_quoted("completed"@)),
        ]);
        WorkflowEvent::new(String::from_str("node.completed"), workflow_id, p).with_execution(execution_id)
    }

    /// `node.failed`, with the error.
    pub fn node_failed(workflow_id: u128, execution_id: u128, node_id: NodeId, node_name: &str, error: &str) -> (r: Self)
        ensures
            r.event_type@ == "node.failed"@,
            r.workflow_id == workflow_id,
            r.execution_id == Some(execution_id),
            r.payload@ == object_text(
                seq![
                    member("error"@, json_quoted(error@)),
                    member("node_id"@, json_quoted(uuid_text(node_id))),
                    member("node_name"@, json_quoted(node_name@)),
                    member("status"@, json_quoted("failed"@)),
                ],
            ),
    {
        let mut m: Vec<String> = Vec::new();
        let e = quote_json(error);
        m.push(member_exec("error", e.as_str()));
        let i = quoted_id(node_id);
        m.push(member_exec("node_id", i.as_str()));
        let n = quote_json(node_name);
        m.push(member_exec("node_name", n.as_str()));
        let q = quote_json("failed");
        m.push(member_exec("status", q.as_str()));
        let p = object_exec(&m);
        assert(m@.map_values(|x: String| x@) =~= seq![
            member("error"@, json_quoted(error@)),
            member("node_id"@, json_quoted(uuid_text(node_id))),
            member("node_name"@, json_quoted(node_name@)),
            member("status"@, json_quoted("failed"@)),
        ]);
        WorkflowEvent::new(String::from_str("node.failed"), workflow_id, p).with_execution(execution_id)
    }

    /// `node.retry`, with the attempt and the retries allowed.
    pub fn node_retry(
        workflow_id: u128,
        execution_id: u128,
        node_id: NodeId,
        node_name: &str,
        attempt: u32,
        max_retries: u32,
    ) -> (r: Self)
        ensures
            r.event_type@ == "node.retry"@,
            r.workflow_id == workflow_id,
            r.execution_id == Some(execution_id),
            r.payload@ == object_text(
                seq![
                    member("attempt"@, decimal(attempt as nat)),
                    member("max_retries"@, decimal(max_retries as nat)),
                    member("node_id"@, json_quoted(uuid_text(node_id))),
                    member("node_name"@, json_quoted(node_name@)),
                ],
            ),
    {
        let mut m: Vec<String> = Vec::new();
        let a = u64_to_string(attempt as u64);
        m.push(member_exec("attempt", a.as_str()));
        let x = u64_to_string(max_retries as u64);
        m.push(member_exec("max_retries", x.as_str()));
        let i = quoted_id(node_id);
        m.push(member_exec("node_id", i.as_str()));
        let n = quote_json(node_name);
        m.push(member_exec("node_name", n.as_str()));
        let p = object_exec(&m);
        assert(m@.map_values(|y: String| y@) =~= seq![
            member("attempt"@, decimal(attempt as nat)),
            member("max_retries"@, decimal(max_retries as nat)),
            member("node_id"@, json_quoted(uuid_text(node_id))),
            member("node_name"@, json_quoted(node_name@)),
        ]);
        WorkflowEvent::new(String::from_str("node.retry"), workflow_id, p).with_execution(execution_id)
    }

    /// `level.started`, with the level and its node count.
    pub fn level_started(workflow_id: u128, execution_id: u128, level: u64, node_count: u64) -> (r: Self)
        ensures
            r.event_type@ == "level.started"@,
            r.workflow_id == workflow_id,
            r.execution_id == Some(execution_id),
            r.payload@ == object_text(
                seq![member("level"@, decimal(level as nat)), member("node_count"@, decimal(node_count as nat))],
            ),
    {
        let mut m: Vec<String> = Vec::new();
        let l = u64_to_string(level);
        m.push(member_exec("level", l.as_str()));
        let n = u64_to_string(node_count);
        m.push(member_exec("node_count", n.as_str()));
        let p = object_exec(&m);
        assert(m@.map_values(|y: String| y@) =~= seq![
            member("level"@, decimal(level as nat)),
            member("node_count"@, decimal(node_count as nat)),
        ]);
        WorkflowEvent::new(String::from_str("level.started"), workflow_id, p).with_execution(execution_id)
    }

    /// `level.completed`.
    pub fn level_completed(workflow_id: u128, execution_id: u128, level: u64) -> (r: Self)
        ensures
            r.event_type@ == "level.completed"@,
            r.workflow_id == workflow_id,
            r.execution_id == Some(execution_id),
            r.payload@ == object_text(seq![member("level"@, decimal(level as nat))]),
    {
        let mut m: Vec<String> = Vec::new();
        let l = u64_to_string(level);
        m.push(member_exec("level", l.as_str()));
        let p = object_exec(&m);
        assert(m@.map_values(|y: String| y@) =~= seq![member("level"@, decimal(level as nat))]);
        WorkflowEvent::new(String::from_str("level.completed"), workflow_id, p).with_execution(execution_id)
    }

    /// `checkpoint.created`, with the checkpoint and level.
    pub fn checkpoint_created(workflow_id: u128, execution_id: u128, checkpoint_id: u128, level: u64) -> (r: Self)
        ensures
            r.event_type@ == "checkpoint.created"@,
            r.workflow_id == workflow_id,
            r.execution_id == Some(execution_id),
            r.payload@ == object_text(
                seq![
                    member("checkpoint_id"@, json_quoted(uuid_text(checkpoint_id))),
                    member("level"@, decimal(level as nat)),
                ],
            ),
    {
        let mut m: Vec<String> = Vec::new();
        let c = quoted_id(checkpoint_id);
        m.push(member_exec("checkpoint_id", c.as_str()));
        let l = u64_to_string(level);
        m.push(member_exec("level", l.as_str()));
        let p = object_exec(&m);
        assert(m@.map_values(|y: String| y@) =~= seq![
            member("checkpoint_id"@, json_quoted(uuid_text(checkpoint_id))),
            member("level"@, decimal(level as nat)),
        ]);
        WorkflowEvent::new(String::from_str("checkpoint.created"), workflow_id, p).with_execution(execution_id)
    }
}

/// Starts a workflow when a matching event is published.
#[derive(Debug, Clone)]
pub struct WorkflowTrigger {
    pub id: u128,
    pub event_type: String,
    pub workflow: Workflow,
    pub filter: Option<String>,
    pub enabled: bool,
}

/// The text before and after the first `=`, if there is one.
pub open spec fn split_once_eq(s: Seq<char>) -> Option<(Seq<char>, Seq<char>)> {
    if exists|i: int| 0 <= i < s.len() && #[trigger] s[i] == '=' {
        let i = choose|i: int| 0 <= i < s.len() && #[trigger] s[i] == '=' && forall|j: int| 0 <= j < i ==> s[j] != '=';
        Some((s.take(i), s.skip(i + 1)))
    } else {
        None
    }
}

/// Whether an event matches a trigger: enabled, same type, and, for a `key=value`
/// filter, a string field `key` of the payload equal to the trimmed value.
pub open spec fn trigger_matches(
    enabled: bool,
    trigger_type: Seq<char>,
    filter: Option<Seq<char>>,
    event_type: Seq<char>,
    payload: Seq<char>,
) -> bool {
    if !enabled || event_type != trigger_type {
        false
    } else {
        match filter {
            None => true,
            Some(f) => match split_once_eq(f) {
                None => true,
                Some((k, v)) => match json_field(payload, k) {
                    None => false,
                    Some(x) => json_str_content(x) == Some(trim_seq(v)),
                },
            },
        }
    }
}

fn find_eq(v: &Vec<char>) -> (r: Option<usize>)
    ensures
        match r {
            Some(i) => i < v@.len() && v@[i as int] == '=' && forall|j: int| 0 <= j < i ==> v@[j] != '=',
            None => forall|j: int| 0 <= j < v@.len() ==> v@[j] != '=',
        },
{
    let mut i: usize = 0;
    while i < v.len()
        invariant
            i <= v@.len(),
            forall|j: int| 0 <= j < i ==> v@[j] != '=',
        decreases v.len() - i,
    {
        if v[i] == '=' {
            return Some(i);
        }
        i = i + 1;
    }
    None
}

impl WorkflowTrigger {
    /// An enabled trigger without filter, with identifier `id`.
    pub fn new_with(event_type: String, workflow: Workflow, id: u128) -> (r: Self)
        ensures
            r.id == id,
            r.event_type == event_type,
            r.filter is None,
            r.enabled,
    {
        WorkflowTrigger { id, event_type, workflow, filter: None, enabled: true }
    }

    /// An enabled trigger without filter, with a fresh identifier.
    pub fn new(event_type: String, workflow: Workflow) -> (r: Self)
        ensures
            r.event_type == event_type,
            r.filter is None,
            r.enabled,
    {
        WorkflowTrigger::new_with(event_type, workflow, new_id())
    }

    /// Set the filter.
    pub fn with_filter(self, filter: String) -> (r: Self)
        ensures
            r.filter == Some(filter),
            r.id == self.id,
            r.event_type == self.event_type,
            r.enabled == self.enabled,
    {
        WorkflowTrigger { filter: Some(filter), ..self }
    }

    /// Whether an event matches the trigger.
    pub fn matches(&self, event: &WorkflowEvent) -> (r: bool)
        ensures
            r == trigger_matches(
                self.enabled,
                self.event_type@,
                match self.filter {
                    Some(f) => Some(f@),
                    None => None,
                },
                event.event_type@,
                event.payload@,
            ),
    {
        if !self.enabled {
            return false;
        }
        if !crate::execution::str_eq(event.event_type.as_str(), self.event_type.as_str()) {
            return false;
        }
        match &self.filter {
            None => true,
            Some(f) => {
                let v = crate::text::chars_of(f.as_str());
                match find_eq(&v) {
                    None => {
                        proof {
                            if exists|i: int| 0 <= i < v@.len() && #[trigger] v@[i] == '=' {
                                let i = choose|i: int| 0 <= i < v@.len() && #[trigger] v@[i] == '=';
                                assert(v@[i] != '=');
                            }
                        }
                        true
                    },
                    Some(i) => {
                        let mut key = String::new();
                        crate::text::push_range(&mut key, &v, 0, i);
                        let mut value = String::new();
                        crate::text::push_range(&mut value, &v, i + 1, v.len());
                        proof {
                            let s = v@;
                            assert(s[i as int] == '=');
                            let c = choose|c: int|
                                0 <= c < s.len() && #[trigger] s[c] == '=' && forall|j: int| 0 <= j < c ==> s[j] != '=';
                            if c < i {
                                assert(s[c] != '=');
                            } else if c > i {
                                assert(s[i as int] != '=');
                            }
                            assert(s.subrange(0, i as int) =~= s.take(i as int));
                            assert(s.subrange(i + 1, s.len() as int) =~= s.skip(i + 1));
                        }
                        let want = trim_text(value.as_str());
                        match get_field(event.payload.as_str(), key.as_str()) {
                            None => false,
                            Some(x) => match crate::auth::json_as_str(x.as_str()) {
                                Some(s) => crate::execution::str_eq(s.as_str(), want.as_str()),
                                None => false,
                            },
                        }
                    },
                }
            },
        }
    }
}


/// The triggers of the event bus and the capacity of its channel. Its identifiers are
/// distinct, so it stands for a map from identifier to trigger.
pub struct EventBus {
    pub capacity: usize,
    pub triggers: Vec<WorkflowTrigger>,
}

/// The identifiers of a list of triggers, in order.
pub open spec fn trigger_ids(s: Seq<WorkflowTrigger>) -> Seq<u128> {
    s.map_values(|t: WorkflowTrigger| t.id)
}

/// The registered triggers, by identifier.
pub open spec fn trigger_map(s: Seq<WorkflowTrigger>) -> Map<u128, WorkflowTrigger>
    decreases s.len(),
{
    if s.len() == 0 {
        Map::empty()
    } else {
        trigger_map(s.drop_last()).insert(s.last().id, s.last())
    }
}

/// The identifiers of the triggers of `s` that match an event, in order.
pub open spec fn matching_ids(s: Seq<WorkflowTrigger>, event_type: Seq<char>, payload: Seq<char>) -> Seq<u128>
    decreases s.len(),
{
    if s.len() == 0 {
        Seq::empty()
    } else {
        let t = s.last();
        let rest = matching_ids(s.drop_last(), event_type, payload);
        if trigger_matches(
            t.enabled,
            t.event_type@,
            match t.filter {
                Some(f) => Some(f@),
                None => None,
            },
            event_type,
            payload,
        ) {
            rest.push(t.id)
        } else {
            rest
        }
    }
}

proof fn lemma_map_without(s: Seq<WorkflowTrigger>, i: int)
    requires
        0 <= i < s.len(),
        trigger_ids(s).no_duplicates(),
    ensures
        trigger_map(s.remove(i)) == trigger_map(s).remove(s[i].id),
        trigger_ids(s.remove(i)).no_duplicates(),
    decreases s.len(),
{
    assert(trigger_ids(s.remove(i)) =~= trigger_ids(s).remove(i));
    if i == s.len() - 1 {
        assert(s.remove(i) =~= s.drop_last());
        assert(trigger_ids(s.drop_last()) =~= trigger_ids(s).drop_last());
        if trigger_ids(s.drop_last()).contains(s[i].id) {
            let k = choose|k: int| 0 <= k < trigger_ids(s.drop_last()).len() && trigger_ids(s.drop_last())[k] == s[i].id;
            assert(trigger_ids(s)[k] == trigger_ids(s)[i]);
        }
        lemma_map_absent(s.drop_last(), s[i].id);
        assert(trigger_map(s.drop_last()) =~= trigger_map(s).remove(s[i].id));
    } else {
        assert(trigger_ids(s.drop_last()) =~= trigger_ids(s).drop_last());
        lemma_map_without(s.drop_last(), i);
        assert(s.remove(i).drop_last() =~= s.drop_last().remove(i));
        assert(s.remove(i).last() == s.last());
        assert(trigger_ids(s)[i] != trigger_ids(s)[s.len() - 1]);
        assert(trigger_map(s.remove(i)) =~= trigger_map(s).remove(s[i].id));
    }
}

proof fn lemma_map_absent(s: Seq<WorkflowTrigger>, id: u128)
    requires
        !trigger_ids(s).contains(id),
    ensures
        !trigger_map(s).dom().contains(id),
    decreases s.len(),
{
    if s.len() > 0 {
        assert(trigger_ids(s.drop_last()) =~= trigger_ids(s).drop_last());
        assert(trigger_ids(s)[s.len() - 1] == s.last().id);
        if trigger_ids(s.drop_last()).contains(id) {
            let k = choose|k: int| 0 <= k < trigger_ids(s.drop_last()).len() && trigger_ids(s.drop_last())[k] == id;
            assert(trigger_ids(s)[k] == id);
        }
        lemma_map_absent(s.drop_last(), id);
    }
}

proof fn lemma_map_present(s: Seq<WorkflowTrigger>, i: int)
    requires
        0 <= i < s.len(),
        trigger_ids(s).no_duplicates(),
    ensures
        trigger_map(s).dom().contains(s[i].id),
        trigger_map(s)[s[i].id] == s[i],
    decreases s.len(),
{
    if i < s.len() - 1 {
        assert(trigger_ids(s.drop_last()) =~= trigger_ids(s).drop_last());
        assert(trigger_ids(s)[i] != trigger_ids(s)[s.len() - 1]);
        lemma_map_present(s.drop_last(), i);
    }
}

proof fn lemma_map_set(s: Seq<WorkflowTrigger>, i: int, t: WorkflowTrigger)
    requires
        0 <= i < s.len(),
        s[i].id == t.id,
        trigger_ids(s).no_duplicates(),
    ensures
        trigger_map(s.update(i, t)) == trigger_map(s).insert(t.id, t),
        trigger_ids(s.update(i, t)) == trigger_ids(s),
    decreases s.len(),
{
    assert(trigger_ids(s.update(i, t)) =~= trigger_ids(s));
    if i == s.len() - 1 {
        assert(s.update(i, t).drop_last() =~= s.drop_last());
        assert(trigger_map(s.update(i, t)) =~= trigger_map(s).insert(t.id, t));
    } else {
        assert(trigger_ids(s.drop_last()) =~= trigger_ids(s).drop_last());
        lemma_map_set(s.drop_last(), i, t);
        assert(s.update(i, t).drop_last() =~= s.drop_last().update(i, t));
        assert(trigger_ids(s)[i] != trigger_ids(s)[s.len() - 1]);
        assert(trigger_map(s.update(i, t)) =~= trigger_map(s).insert(t.id, t));
    }
}

fn find_trigger(triggers: &Vec<WorkflowTrigger>, id: u128) -> (r: Option<usize>)
    ensures
        match r {
            Some(i) => i < triggers@.len() && triggers@[i as int].id == id,
            None => !trigger_ids(triggers@).contains(id),
        },
{
    let mut i: usize = 0;
    while i < triggers.len()
        invariant
            i <= triggers@.len(),
            forall|j: int| 0 <= j < i ==> triggers@[j].id != id,
        decreases triggers.len() - i,
    {
        if triggers[i].id == id {
            return Some(i);
        }
        i = i + 1;
    }
    proof {
        if trigger_ids(triggers@).contains(id) {
            let k = choose|k: int| 0 <= k < trigger_ids(triggers@).len() && trigger_ids(triggers@)[k] == id;
            assert(triggers@[k].id == id);
        }
    }
    None
}

impl EventBus {
    /// Distinct identifiers.
    pub open spec fn wf(&self) -> bool {
        trigger_ids(self.triggers@).no_duplicates()
    }

    /// The registered triggers, by identifier.
    pub open spec fn view(&self) -> Map<u128, WorkflowTrigger> {
        trigger_map(self.triggers@)
    }

    /// No trigger yet.
    pub fn new(capacity: usize) -> (r: Self)
        ensures
            r.wf(),
            r.view() == Map::<u128, WorkflowTrigger>::empty(),
            r.capacity == capacity,
    {
        let r = EventBus { capacity, triggers: Vec::new() };
        assert(trigger_ids(r.triggers@) =~= Seq::<u128>::empty());
        r
    }

    /// Register a trigger (replacing one with the same identifier); its identifier.
    pub fn register_trigger(&mut self, trigger: WorkflowTrigger) -> (r: u128)
        requires
            old(self).wf(),
        ensures
            final(self).wf(),
            r == trigger.id,
            final(self).view() == old(self).view().insert(trigger.id, trigger),
            final(self).capacity == old(self).capacity,
    {
        let id = trigger.id;
        match find_trigger(&self.triggers, id) {
            Some(i) => {
                proof {
                    lemma_map_set(self.triggers@, i as int, trigger);
                }
                self.triggers.set(i, trigger);
            },
            None => {
                let ghost before = self.triggers@;
                self.triggers.push(trigger);
                proof {
                    assert(self.triggers@.drop_last() =~= before);
                    assert(trigger_ids(self.triggers@) =~= trigger_ids(before).push(id));
                }
            },
        }
        id
    }

    /// Remove a trigger; whether one was registered under that identifier.
    pub fn unregister_trigger(&mut self, trigger_id: u128) -> (r: bool)
        requires
            old(self).wf(),
        ensures
            final(self).wf(),
            r == old(self).view().dom().contains(trigger_id),
            final(self).view() == old(self).view().remove(trigger_id),
            final(self).capacity == old(self).capacity,
    {
        match find_trigger(&self.triggers, trigger_id) {
            Some(i) => {
                proof {
                    lemma_map_present(self.triggers@, i as int);
                    lemma_map_without(self.triggers@, i as int);
                }
                let _ = self.triggers.remove(i);
                true
            },
            None => {
                proof {
                    lemma_map_absent(self.triggers@, trigger_id);
                    assert(self.view().remove(trigger_id) =~= self.view());
                }
                false
            },
        }
    }

    /// The registered triggers.
    pub fn list_triggers(&self) -> (r: Vec<&WorkflowTrigger>)
        ensures
            r@.len() == self.triggers@.len(),
            forall|i: int| 0 <= i < r@.len() ==> *r@[i] == self.triggers@[i],
    {
        let mut r: Vec<&WorkflowTrigger> = Vec::new();
        let mut i: usize = 0;
        while i < self.triggers.len()
            invariant
                i <= self.triggers@.len(),
                r@.len() == i,
                forall|j: int| 0 <= j < i ==> *r@[j] == self.triggers@[j],
            decreases self.triggers.len() - i,
        {
            r.push(&self.triggers[i]);
            i = i + 1;
        }
        r
    }

    /// The identifiers of the triggers that an event starts, in order of registration.
    pub fn check_triggers(&self, event: &WorkflowEvent) -> (r: Vec<u128>)
        ensures
            r@ == matching_ids(self.triggers@, event.event_type@, event.payload@),
    {
        let mut r: Vec<u128> = Vec::new();
        let mut i: usize = 0;
        while i < self.triggers.len()
            invariant
                i <= self.triggers@.len(),
                r@ == matching_ids(self.triggers@.take(i as int), event.event_type@, event.payload@),
            decreases self.triggers.len() - i,
        {
            proof {
                assert(self.triggers@.take(i + 1).drop_last() =~= self.triggers@.take(i as int));
            }
            if self.triggers[i].matches(event) {
                r.push(self.triggers[i].id);
            }
            i = i + 1;
        }
        proof {
            assert(self.triggers@.take(i as int) =~= self.triggers@);
        }
        r
    }
}

} // verus!
