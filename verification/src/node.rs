//! Nodes of a workflow DAG and their configurations.

use vstd::prelude::*;
use crate::ids::new_id;

verus! {

/// Identifier of a node.
pub type NodeId = u128;

/// A node of the workflow DAG.
#[derive(Debug, Clone)]
pub struct Node {
    /// Unique node identifier.
    pub id: NodeId,
    /// Display name.
    pub name: String,
    /// Type and configuration.
    pub kind: NodeKind,
    /// Retry configuration, if any.
    pub retry_config: Option<RetryConfig>,
    /// Timeout configuration, if any.
    pub timeout_config: Option<TimeoutConfig>,
}

/// Retry configuration for a node.
#[derive(Debug, Clone, Copy, PartialEq, Eq)]
pub struct RetryConfig {
    /// Maximum number of retry attempts.
    pub max_retries: u32,
    /// Delay before the first retry, in milliseconds.
    pub initial_delay_ms: u64,
    /// Largest delay between retries, in milliseconds.
    pub max_delay_ms: u64,
}

impl RetryConfig {
    /// The defaults: 3 retries, 1 s initial delay, 30 s largest delay.
    pub fn default_config() -> (r: Self)
        ensures
            r.max_retries == 3,
            r.initial_delay_ms == 1000,
            r.max_delay_ms == 30000,
    {
        RetryConfig { max_retries: 3, initial_delay_ms: 1000, max_delay_ms: 30000 }
    }
}

/// Timeout configuration for a node.
#[derive(Debug, Clone, PartialEq, Eq)]
pub struct TimeoutConfig {
    /// Maximum execution time in milliseconds.
    pub execution_timeout_ms: u64,
    /// Largest time without progress, in milliseconds.
    pub idle_timeout_ms: Option<u64>,
    /// What happens on timeout.
    pub timeout_action: TimeoutAction,
}

impl TimeoutConfig {
    /// The defaults: one minute, no idle timeout, fail on timeout.
    pub fn default_config() -> (r: Self)
        ensures
            r.execution_timeout_ms == 60000,
            r.idle_timeout_ms is None,
            r.timeout_action is Fail,
    {
        TimeoutConfig { execution_timeout_ms: 60000, idle_timeout_ms: None, timeout_action: TimeoutAction::Fail }
    }
}

/// Action taken when a timeout occurs.
#[derive(Debug, Clone, PartialEq, Eq)]
pub enum TimeoutAction {
    /// Fail the node execution.
    Fail,
    /// Skip the node and continue with empty output.
    Skip,
    /// Use the given default value as output.
    UseDefault(String),
}

/// The types of node, each with its configuration.
#[derive(Debug, Clone)]
pub enum NodeKind {
    /// Entry point of the workflow.
    Start,
    /// Exit point of the workflow.
    End,
    /// Conditional branching.
    IfElse(Condition),
    /// Iteration.
    Loop(LoopConfig),
    /// Error handling (try / catch / finally).
    TryCatch(TryCatchConfig),
    /// Execution of another workflow.
    SubWorkflow(SubWorkflowConfig),
    /// Multi-branch routing.
    Switch(SwitchConfig),
    /// Fan-out / fan-in execution.
    Parallel(ParallelConfig),
    /// HTTP service call.
    Service(ServiceConfig),
}

/// Configuration of a conditional node.
#[derive(Debug, Clone)]
pub struct Condition {
    /// Expression to evaluate.
    pub expression: String,
    /// Node executed when the expression holds.
    pub true_branch: NodeId,
    /// Node executed otherwise.
    pub false_branch: NodeId,
}

/// Configuration of a loop node.
#[derive(Debug, Clone)]
pub struct LoopConfig {
    /// The kind of loop.
    pub loop_type: LoopType,
    /// Safety limit on iterations.
    pub max_iterations: usize,
}

/// The number of iterations a loop allows unless configured otherwise.
pub fn default_max_iterations() -> (r: usize)
    ensures
        r == 1000,
{
    1000
}

/// The kinds of loop.
#[derive(Debug, Clone)]
pub enum LoopType {
    /// Iterate over a collection.
    ForEach {
        collection_path: String,
        item_variable: String,
        index_variable: Option<String>,
        body_expression: String,
        parallel: bool,
        max_concurrency: Option<usize>,
    },
    /// Iterate while a condition holds.
    While { condition: String, body_expression: String, counter_variable: Option<String> },
    /// Repeat a number of times.
    Repeat { count: String, body_expression: String, index_variable: Option<String> },
}

/// Configuration of a try-catch node.
#[derive(Debug, Clone)]
pub struct TryCatchConfig {
    /// Expression tried first.
    pub try_expression: String,
    /// Expression run when the try fails.
    pub catch_expression: Option<String>,
    /// Expression always run afterwards.
    pub finally_expression: Option<String>,
    /// Whether the error is raised again after the catch.
    pub rethrow: bool,
    /// Variable that holds the error in the catch.
    pub error_variable: String,
}

/// The name of the variable that holds a caught error unless configured otherwise.
pub fn default_error_variable() -> (r: String)
    ensures
        r@ == "error"@,
{
    String::from_str("error")
}

/// Configuration of a sub-workflow node.
#[derive(Debug, Clone)]
pub struct SubWorkflowConfig {
    /// Path of the workflow definition to run.
    pub workflow_path: String,
    /// Sub-workflow variable name and the template that fills it.
    pub input_mappings: Vec<(String, String)>,
    /// Variable extracted from the sub-workflow results.
    pub output_variable: Option<String>,
    /// Whether the parent variables are passed on.
    pub inherit_context: bool,
}

/// Configuration of a switch node.
#[derive(Debug, Clone)]
pub struct SwitchConfig {
    /// Expression whose value selects the case.
    pub switch_on: String,
    /// The cases, in order.
    pub cases: Vec<SwitchCase>,
    /// Action taken when no case matches.
    pub default_case: Option<String>,
}

/// One case of a switch.
#[derive(Debug, Clone)]
pub struct SwitchCase {
    /// Value to match.
    pub match_value: String,
    /// Action taken on a match.
    pub action: String,
}

/// Configuration of a parallel node.
#[derive(Debug, Clone)]
pub struct ParallelConfig {
    /// How the task results are awaited.
    pub strategy: ParallelStrategy,
    /// The tasks.
    pub tasks: Vec<ParallelTask>,
    /// Largest number of concurrent tasks.
    pub max_concurrency: Option<usize>,
    /// Timeout for all tasks, in milliseconds.
    pub timeout_ms: Option<u64>,
}

/// How a parallel node awaits its tasks.
#[derive(Debug, Clone, Copy, PartialEq, Eq)]
pub enum ParallelStrategy {
    /// Wait for all; fail if any fails.
    WaitAll,
    /// Take the first success.
    Race,
    /// Wait for all and collect successes and failures.
    AllSettled,
}

/// One task of a parallel node.
#[derive(Debug, Clone)]
pub struct ParallelTask {
    /// Task identifier.
    pub id: String,
    /// Expression to run.
    pub expression: String,
    /// Description of the task.
    pub description: Option<String>,
}

/// Configuration of an HTTP service node.
#[derive(Debug, Clone)]
pub struct ServiceConfig {
    /// Request URL (may hold `{{variable}}` placeholders).
    pub url: String,
    /// HTTP method.
    pub method: String,
    /// Request headers.
    pub headers: Vec<(String, String)>,
    /// Request body as JSON text.
    pub body: Option<String>,
    /// Query parameters.
    pub query_params: Vec<(String, String)>,
    /// Authentication.
    pub auth: ServiceAuth,
    /// Request timeout in seconds.
    pub timeout_secs: u64,
}

/// The HTTP method of a service node unless configured otherwise.
pub fn default_service_method() -> (r: String)
    ensures
        r@ == "GET"@,
{
    String::from_str("GET")
}

/// The timeout of a service node, in seconds, unless configured otherwise.
pub fn default_service_timeout() -> (r: u64)
    ensures
        r == 30,
{
    30
}

/// Authentication of a service node.
#[derive(Debug, Clone)]
pub enum ServiceAuth {
    /// No authentication.
    NoAuth,
    /// Bearer token.
    Bearer { token: String },
    /// API key in a header or a query parameter.
    ApiKey { key: String, value: String, in_header: bool },
    /// Basic authentication.
    Basic { username: String, password: String },
    /// OAuth2 client credentials.
    OAuth2 { client_id: String, client_secret: String, token_url: String, scopes: Vec<String> },
}

impl Node {
    /// A node with a fresh identifier and no retry or timeout configuration.
    pub fn new(name: String, kind: NodeKind) -> (r: Self)
        ensures
            r.name == name,
            r.kind == kind,
            r.retry_config is None,
            r.timeout_config is None,
    {
        Node { id: new_id(), name, kind, retry_config: None, timeout_config: None }
    }

    /// A node with the given identifier.
    pub fn with_id(id: NodeId, name: String, kind: NodeKind) -> (r: Self)
        ensures
            r.id == id,
            r.name == name,
            r.kind == kind,
            r.retry_config is None,
            r.timeout_config is None,
    {
        Node { id, name, kind, retry_config: None, timeout_config: None }
    }

    /// Set the retry configuration.
    pub fn with_retry(self, retry_config: RetryConfig) -> (r: Self)
        ensures
            r == (Node { retry_config: Some(retry_config), ..self }),
    {
        Node { retry_config: Some(retry_config), ..self }
    }

    /// Set the timeout configuration.
    pub fn with_timeout(self, timeout_config: TimeoutConfig) -> (r: Self)
        ensures
            r == (Node { timeout_config: Some(timeout_config), ..self }),
    {
        Node { timeout_config: Some(timeout_config), ..self }
    }
}

/// The name of a node kind, as the validation statistics count it.
pub open spec fn kind_name(k: NodeKind) -> Seq<char> {
    match k {
        NodeKind::Start => "Start"@,
        NodeKind::End => "End"@,
        NodeKind::IfElse(_) => "IfElse"@,
        NodeKind::Loop(_) => "Loop"@,
        NodeKind::TryCatch(_) => "TryCatch"@,
        NodeKind::SubWorkflow(_) => "SubWorkflow"@,
        NodeKind::Switch(_) => "Switch"@,
        NodeKind::Parallel(_) => "Parallel"@,
        NodeKind::Service(_) => "Service"@,
    }
}

/// The variant index of a node kind.
pub open spec fn kind_tag(k: NodeKind) -> int {
    match k {
        NodeKind::Start => 0,
        NodeKind::End => 1,
        NodeKind::IfElse(_) => 2,
        NodeKind::Loop(_) => 3,
        NodeKind::TryCatch(_) => 4,
        NodeKind::SubWorkflow(_) => 5,
        NodeKind::Switch(_) => 6,
        NodeKind::Parallel(_) => 7,
        NodeKind::Service(_) => 8,
    }
}

impl NodeKind {
    /// The variant index (`std::mem::discriminant` as a number).
    pub fn tag(&self) -> (r: u8)
        ensures
            r == kind_tag(*self),
    {
        match self {
            NodeKind::Start => 0,
            NodeKind::End => 1,
            NodeKind::IfElse(_) => 2,
            NodeKind::Loop(_) => 3,
            NodeKind::TryCatch(_) => 4,
            NodeKind::SubWorkflow(_) => 5,
            NodeKind::Switch(_) => 6,
            NodeKind::Parallel(_) => 7,
            NodeKind::Service(_) => 8,
        }
    }

    /// The name of the variant.
    pub fn name(&self) -> (r: &'static str)
        ensures
            r@ == kind_name(*self),
    {
        match self {
            NodeKind::Start => "Start",
            NodeKind::End => "End",
            NodeKind::IfElse(_) => "IfElse",
            NodeKind::Loop(_) => "Loop",
            NodeKind::TryCatch(_) => "TryCatch",
            NodeKind::SubWorkflow(_) => "SubWorkflow",
            NodeKind::Switch(_) => "Switch",
            NodeKind::Parallel(_) => "Parallel",
            NodeKind::Service(_) => "Service",
        }
    }
}

/// Equal authentication settings, the scopes compared by their contents.
pub open spec fn auth_same(a: ServiceAuth, b: ServiceAuth) -> bool {
    match (a, b) {
        (
            ServiceAuth::OAuth2 { client_id: c1, client_secret: s1, token_url: t1, scopes: x1 },
            ServiceAuth::OAuth2 { client_id: c2, client_secret: s2, token_url: t2, scopes: x2 },
        ) => c1 == c2 && s1 == s2 && t1 == t2 && x1@ == x2@,
        (ServiceAuth::OAuth2 { .. }, _) => false,
        (_, ServiceAuth::OAuth2 { .. }) => false,
        _ => a == b,
    }
}

/// Equal node kinds, the lists inside compared by their contents.
pub open spec fn kind_same(a: NodeKind, b: NodeKind) -> bool {
    match (a, b) {
        (NodeKind::Start, NodeKind::Start) => true,
        (NodeKind::End, NodeKind::End) => true,
        (NodeKind::IfElse(x), NodeKind::IfElse(y)) => x == y,
        (NodeKind::Loop(x), NodeKind::Loop(y)) => x == y,
        (NodeKind::TryCatch(x), NodeKind::TryCatch(y)) => x == y,
        (NodeKind::SubWorkflow(x), NodeKind::SubWorkflow(y)) => {
            &&& x.workflow_path == y.workflow_path
            &&& x.input_mappings@ == y.input_mappings@
            &&& x.output_variable == y.output_variable
            &&& x.inherit_context == y.inherit_context
        },
        (NodeKind::Switch(x), NodeKind::Switch(y)) => {
            &&& x.switch_on == y.switch_on
            &&& x.cases@ == y.cases@
            &&& x.default_case == y.default_case
        },
        (NodeKind::Parallel(x), NodeKind::Parallel(y)) => {
            &&& x.strategy == y.strategy
            &&& x.tasks@ == y.tasks@
            &&& x.max_concurrency == y.max_concurrency
            &&& x.timeout_ms == y.timeout_ms
        },
        (NodeKind::Service(x), NodeKind::Service(y)) => {
            &&& x.url == y.url
            &&& x.method == y.method
            &&& x.headers@ == y.headers@
            &&& x.body == y.body
            &&& x.query_params@ == y.query_params@
            &&& auth_same(x.auth, y.auth)
            &&& x.timeout_secs == y.timeout_secs
        },
        _ => false,
    }
}

/// Equal nodes, the lists inside compared by their contents.
pub open spec fn node_same(a: Node, b: Node) -> bool {
    &&& a.id == b.id
    &&& a.name == b.name
    &&& kind_same(a.kind, b.kind)
    &&& a.retry_config == b.retry_config
    &&& a.timeout_config == b.timeout_config
}

/// Equal lists of nodes, place by place.
pub open spec fn nodes_same(a: Seq<Node>, b: Seq<Node>) -> bool {
    a.len() == b.len() && forall|i: int| 0 <= i < a.len() ==> node_same(#[trigger] a[i], b[i])
}

/// A copy of an optional text.
pub(crate) fn copy_opt_text(o: &Option<String>) -> (r: Option<String>)
    ensures
        r == *o,
{
    match o {
        Some(t) => Some(t.clone()),
        None => None,
    }
}

fn copy_loop_type(t: &LoopType) -> (r: LoopType)
    ensures
        r == *t,
{
    match t {
        LoopType::ForEach {
            collection_path,
            item_variable,
            index_variable,
            body_expression,
            parallel,
            max_concurrency,
        } => LoopType::ForEach {
            collection_path: collection_path.clone(),
            item_variable: item_variable.clone(),
            index_variable: copy_opt_text(index_variable),
            body_expression: body_expression.clone(),
            parallel: *parallel,
            max_concurrency: *max_concurrency,
        },
        LoopType::While { condition, body_expression, counter_variable } => LoopType::While {
            condition: condition.clone(),
            body_expression: body_expression.clone(),
            counter_variable: copy_opt_text(counter_variable),
        },
        LoopType::Repeat { count, body_expression, index_variable } => LoopType::Repeat {
            count: count.clone(),
            body_expression: body_expression.clone(),
            index_variable: copy_opt_text(index_variable),
        },
    }
}

fn copy_cases(v: &Vec<SwitchCase>) -> (r: Vec<SwitchCase>)
    ensures
        r@ == v@,
{
    let mut out: Vec<SwitchCase> = Vec::new();
    let mut i: usize = 0;
    while i < v.len()
        invariant
            i <= v@.len(),
            out@ == v@.take(i as int),
        decreases v.len() - i,
    {
        out.push(SwitchCase { match_value: v[i].match_value.clone(), action: v[i].action.clone() });
        assert(out@ =~= v@.take(i + 1));
        i = i + 1;
    }
    assert(v@.take(v@.len() as int) =~= v@);
    out
}

fn copy_tasks(v: &Vec<ParallelTask>) -> (r: Vec<ParallelTask>)
    ensures
        r@ == v@,
{
    let mut out: Vec<ParallelTask> = Vec::new();
    let mut i: usize = 0;
    while i < v.len()
        invariant
            i <= v@.len(),
            out@ == v@.take(i as int),
        decreases v.len() - i,
    {
        out.push(
            ParallelTask {
                id: v[i].id.clone(),
                expression: v[i].expression.clone(),
                description: copy_opt_text(&v[i].description),
            },
        );
        assert(out@ =~= v@.take(i + 1));
        i = i + 1;
    }
    assert(v@.take(v@.len() as int) =~= v@);
    out
}

fn copy_auth(a: &ServiceAuth) -> (r: ServiceAuth)
    ensures
        auth_same(r, *a),
{
    match a {
        ServiceAuth::NoAuth => ServiceAuth::NoAuth,
        ServiceAuth::Bearer { token } => ServiceAuth::Bearer { token: token.clone() },
        ServiceAuth::ApiKey { key, value, in_header } => ServiceAuth::ApiKey {
            key: key.clone(),
            value: value.clone(),
            in_header: *in_header,
        },
        ServiceAuth::Basic { username, password } => ServiceAuth::Basic {
            username: username.clone(),
            password: password.clone(),
        },
        ServiceAuth::OAuth2 { client_id, client_secret, token_url, scopes } => ServiceAuth::OAuth2 {
            client_id: client_id.clone(),
            client_secret: client_secret.clone(),
            token_url: token_url.clone(),
            scopes: crate::rest::copy_strings(scopes),
        },
    }
}

fn copy_kind(k: &NodeKind) -> (r: NodeKind)
    ensures
        kind_same(r, *k),
{
    match k {
        NodeKind::Start => NodeKind::Start,
        NodeKind::End => NodeKind::End,
        NodeKind::IfElse(c) => NodeKind::IfElse(
            Condition { expression: c.expression.clone(), true_branch: c.true_branch, false_branch: c.false_branch },
        ),
        NodeKind::Loop(l) => NodeKind::Loop(
            LoopConfig { loop_type: copy_loop_type(&l.loop_type), max_iterations: l.max_iterations },
        ),
        NodeKind::TryCatch(t) => NodeKind::TryCatch(
            TryCatchConfig {
                try_expression: t.try_expression.clone(),
                catch_expression: copy_opt_text(&t.catch_expression),
                finally_expression: copy_opt_text(&t.finally_expression),
                rethrow: t.rethrow,
                error_variable: t.error_variable.clone(),
            },
        ),
        NodeKind::SubWorkflow(w) => NodeKind::SubWorkflow(
            SubWorkflowConfig {
                workflow_path: w.workflow_path.clone(),
                input_mappings: crate::executors::clone_vars(&w.input_mappings),
                output_variable: copy_opt_text(&w.output_variable),
                inherit_context: w.inherit_context,
            },
        ),
        NodeKind::Switch(w) => NodeKind::Switch(
            SwitchConfig {
                switch_on: w.switch_on.clone(),
                cases: copy_cases(&w.cases),
                default_case: copy_opt_text(&w.default_case),
            },
        ),
        NodeKind::Parallel(p) => NodeKind::Parallel(
            ParallelConfig {
                strategy: p.strategy,
                tasks: copy_tasks(&p.tasks),
                max_concurrency: p.max_concurrency,
                timeout_ms: p.timeout_ms,
            },
        ),
        NodeKind::Service(c) => NodeKind::Service(
            ServiceConfig {
                url: c.url.clone(),
                method: c.method.clone(),
                headers: crate::executors::clone_vars(&c.headers),
                body: copy_opt_text(&c.body),
                query_params: crate::executors::clone_vars(&c.query_params),
                auth: copy_auth(&c.auth),
                timeout_secs: c.timeout_secs,
            },
        ),
    }
}

fn copy_timeout(t: &TimeoutConfig) -> (r: TimeoutConfig)
    ensures
        r == *t,
{
    TimeoutConfig {
        execution_timeout_ms: t.execution_timeout_ms,
        idle_timeout_ms: t.idle_timeout_ms,
        timeout_action: match &t.timeout_action {
            TimeoutAction::Fail => TimeoutAction::Fail,
            TimeoutAction::Skip => TimeoutAction::Skip,
            TimeoutAction::UseDefault(v) => TimeoutAction::UseDefault(v.clone()),
        },
    }
}

/// A copy of a node.
pub(crate) fn copy_node(n: &Node) -> (r: Node)
    ensures
        node_same(r, *n),
{
    Node {
        id: n.id,
        name: n.name.clone(),
        kind: copy_kind(&n.kind),
        retry_config: n.retry_config,
        timeout_config: match &n.timeout_config {
            Some(t) => Some(copy_timeout(t)),
            None => None,
        },
    }
}

/// Copies of the nodes, in order.
pub(crate) fn copy_nodes(v: &Vec<Node>) -> (r: Vec<Node>)
    ensures
        nodes_same(r@, v@),
{
    let mut out: Vec<Node> = Vec::new();
    let mut i: usize = 0;
    while i < v.len()
        invariant
            i <= v@.len(),
            out@.len() == i,
            forall|j: int| 0 <= j < i ==> node_same(#[trigger] out@[j], v@[j]),
        decreases v.len() - i,
    {
        out.push(copy_node(&v[i]));
        i = i + 1;
    }
    out
}

} // verus!
