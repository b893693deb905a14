//! What running one node computes, by its kind: the result of a start, end, branch,
//! switch, loop, try / catch or parallel node, the file of a sub-workflow to load, or
//! that the kind is not run here.

use vstd::prelude::*;
use crate::conditional::{
    all_json, eval_bindings, bindings_map, boolean_value, evaluator_bindings, names_distinct, outputs_of, resolve_references,
    ConditionalEvaluator,
};
use crate::engine::{engine_error_text, EngineError};
use crate::event_bus::{member, member_exec, object_exec, object_text};
use crate::execution::{ExecutionContext, ExecutionResult};
use crate::executors::{loop_outcome, try_catch_spec, LoopExecutor, TryCatchExecutor, TryCatchResult};
use crate::node::{Node, NodeKind};
use crate::rest::pair_views;
use crate::templating::{compact_json, expr_view, json_compact, json_quoted, quote_json, ExprValue};

verus! {

/// What a node's run comes to.
#[derive(Debug, Clone, PartialEq, Eq)]
pub enum NodeStep {
    /// The node's result.
    Done(ExecutionResult),
    /// A sub-workflow: the file holding it is to be loaded and run.
    LoadSubWorkflow(String),
    /// A kind that the engine does not run.
    Unsupported,
}

/// `true` or `false`.
pub open spec fn bool_text(b: bool) -> Seq<char> {
    if b { "true"@ } else { "false"@ }
}

/// A value as JSON: a JSON text written compactly, other text as a JSON string.
pub open spec fn value_json(v: (bool, Seq<char>)) -> Seq<char> {
    if v.0 { json_compact(v.1) } else { json_quoted(v.1) }
}

/// An optional value as JSON, `null` when absent.
pub open spec fn opt_value_json(v: Option<(bool, Seq<char>)>) -> Seq<char> {
    match v {
        Some(x) => value_json(x),
        None => "null"@,
    }
}

/// The items joined by commas.
pub open spec fn joined(items: Seq<Seq<char>>) -> Seq<char>
    decreases items.len(),
{
    if items.len() == 0 {
        Seq::empty()
    } else if items.len() == 1 {
        items[0]
    } else {
        joined(items.drop_last()) + ","@ + items.last()
    }
}

/// A JSON array of the items.
pub open spec fn list_text(items: Seq<Seq<char>>) -> Seq<char> {
    "["@ + joined(items) + "]"@
}

/// What a boolean expression gives over a run's variables and node outputs, the
/// error as the engine error displays it.
pub open spec fn eval_result(expr: Seq<char>, ctx: ExecutionContext) -> Result<bool, Seq<char>> {
    match resolve_references(expr, pair_views(ctx.variables@), outputs_of(ctx.node_results@)) {
        Err(m) => Err("Template error: "@ + m),
        Ok(t) => match boolean_value(t, eval_bindings(evaluator_bindings(ctx))) {
            Ok(b) => Ok(b),
            Err(e) => Err("Execution error: "@ + ("Expression evaluation failed: "@ + e)),
        },
    }
}

/// The evaluator of the run can be made: no name twice and every value JSON.
pub open spec fn evaluator_ok(ctx: ExecutionContext) -> bool {
    names_distinct(evaluator_bindings(ctx)) && all_json(evaluator_bindings(ctx))
}

/// The step of a branch or switch node whose expression is evaluated into `key`.
pub open spec fn condition_step(r: Result<NodeStep, EngineError>, key: Seq<char>, expr: Seq<char>, ctx: ExecutionContext) -> bool {
    let exact = match eval_result(expr, ctx) {
        Ok(b) => r matches Ok(NodeStep::Done(ExecutionResult::Success(t))) && t@ == object_text(seq![member(key, bool_text(b))]),
        Err(m) => r matches Err(EngineError::ExecutionError(x)) && x@ == m,
    };
    &&& evaluator_ok(ctx) ==> exact
    &&& exact || (r matches Err(EngineError::ExecutionError(x)) && exists|y: Seq<char>| x@ == "Execution error: "@ + y)
}

/// The step of a loop node from the loop's own outcome.
pub open spec fn loop_step(r: Result<NodeStep, EngineError>, lr: Result<Vec<ExprValue>, EngineError>) -> bool {
    match lr {
        Ok(vs) => r matches Ok(NodeStep::Done(ExecutionResult::Success(t))) && t@ == object_text(
            seq![member("loop_result"@, list_text(vs@.map_values(|e: ExprValue| value_json(expr_view(e)))))],
        ),
        Err(e) => r matches Err(EngineError::ExecutionError(x)) && x@ == engine_error_text(e),
    }
}

/// The JSON object of a try / catch / finally outcome, its members in name order.
pub open spec fn try_catch_text(
    v: (Option<(bool, Seq<char>)>, Option<(bool, Seq<char>)>, Option<(bool, Seq<char>)>, Option<Seq<char>>, bool),
) -> Seq<char> {
    object_text(
        seq![
            member("catch_result"@, opt_value_json(v.1)),
            member("error"@, match v.3 { Some(e) => json_quoted(e), None => "null"@ }),
            member("finally_result"@, opt_value_json(v.2)),
            member("succeeded"@, bool_text(v.4)),
            member("try_result"@, opt_value_json(v.0)),
        ],
    )
}

/// What the step of a node is, by its kind.
pub open spec fn node_step_ok(r: Result<NodeStep, EngineError>, node: Node, ctx: ExecutionContext) -> bool {
    match node.kind {
        NodeKind::Start => r matches Ok(NodeStep::Done(ExecutionResult::Success(t))) && t@ == "{}"@,
        NodeKind::End => r matches Ok(NodeStep::Done(ExecutionResult::Success(t))) && t@ == "{}"@,
        NodeKind::IfElse(c) => condition_step(r, "condition_result"@, c.expression@, ctx),
        NodeKind::Switch(c) => condition_step(r, "switch_result"@, c.switch_on@, ctx),
        NodeKind::Loop(c) => exists|lr: Result<Vec<ExprValue>, EngineError>| #[trigger] loop_outcome(lr, c, ctx) && loop_step(r, lr),
        NodeKind::TryCatch(c) => r matches Ok(NodeStep::Done(ExecutionResult::Success(t))) && t@ == try_catch_text(
            try_catch_spec(c, pair_views(ctx.variables@)),
        ),
        NodeKind::Parallel(_) => r matches Ok(NodeStep::Done(ExecutionResult::Success(t))) && t@ == object_text(
            seq![member("parallel"@, "true"@)],
        ),
        NodeKind::SubWorkflow(c) => r == Ok::<NodeStep, EngineError>(NodeStep::LoadSubWorkflow(c.workflow_path)),
        NodeKind::Service(_) => r == Ok::<NodeStep, EngineError>(NodeStep::Unsupported),
    }
}

fn bool_exec(b: bool) -> (r: &'static str)
    ensures
        r@ == bool_text(b),
{
    if b { "true" } else { "false" }
}

fn value_exec(v: &ExprValue) -> (r: String)
    ensures
        r@ == value_json(expr_view(*v)),
{
    match v {
        ExprValue::Json(t) => compact_json(t.as_str()),
        ExprValue::Text(s) => quote_json(s.as_str()),
    }
}

fn opt_value_exec(v: &Option<ExprValue>) -> (r: String)
    ensures
        r@ == opt_value_json(crate::executors::opt_view(*v)),
{
    match v {
        Some(x) => value_exec(x),
        None => String::from_str("null"),
    }
}

fn list_exec(vs: &Vec<ExprValue>) -> (r: String)
    ensures
        r@ == list_text(vs@.map_values(|e: ExprValue| value_json(expr_view(e)))),
{
    let ghost items = vs@.map_values(|e: ExprValue| value_json(expr_view(e)));
    let mut body = String::new();
    let mut i: usize = 0;
    while i < vs.len()
        invariant
            i <= vs@.len(),
            items == vs@.map_values(|e: ExprValue| value_json(expr_view(e))),
            body@ == joined(items.take(i as int)),
        decreases vs.len() - i,
    {
        assert(items.take(i + 1).drop_last() =~= items.take(i as int));
        let t = value_exec(&vs[i]);
        if i == 0 {
            assert(items.take(1) =~= seq![items[0]]);
            body.append(t.as_str());
            assert(body@ =~= t@);
        } else {
            body.append(",");
            body.append(t.as_str());
        }
        i = i + 1;
    }
    assert(items.take(vs@.len() as int) =~= items);
    let mut r = String::from_str("[");
    r.append(body.as_str());
    r.append("]");
    r
}

fn object1(key: &str, value: &str) -> (r: String)
    ensures
        r@ == object_text(seq![member(key@, value@)]),
{
    let m = member_exec(key, value);
    let mut v: Vec<String> = Vec::new();
    v.push(m);
    let r = object_exec(&v);
    assert(v@.map_values(|m: String| m@) =~= seq![member(key@, value@)]);
    r
}

fn condition_exec(key: &str, expr: &str, ctx: &ExecutionContext) -> (r: Result<NodeStep, EngineError>)
    ensures
        condition_step(r, key@, expr@, *ctx),
{
    let evaluator = match ConditionalEvaluator::new(ctx) {
        Ok(e) => e,
        Err(e) => {
            let m = e.message();
            proof {
                if let EngineError::ExecutionError(y) = e {
                    assert(m@ == "Execution error: "@ + y@);
                }
            }
            return Err(EngineError::ExecutionError(m));
        },
    };
    match evaluator.evaluate(expr) {
        Ok(b) => {
            let t = object1(key, bool_exec(b));
            Ok(NodeStep::Done(ExecutionResult::Success(t)))
        },
        Err(e) => {
            let m = e.message();
            proof {
                match resolve_references(expr@, pair_views(ctx.variables@), outputs_of(ctx.node_results@)) {
                    Err(x) => {
                        assert(m@ == "Template error: "@ + x);
                    },
                    Ok(t) => {},
                }
            }
            Err(EngineError::ExecutionError(m))
        },
    }
}

fn try_catch_exec(r: &TryCatchResult) -> (t: String)
    ensures
        t@ == try_catch_text(crate::executors::try_catch_view(*r)),
{
    let mut v: Vec<String> = Vec::new();
    let c = opt_value_exec(&r.catch_result);
    v.push(member_exec("catch_result", c.as_str()));
    let e = match &r.error {
        Some(x) => quote_json(x.as_str()),
        None => String::from_str("null"),
    };
    v.push(member_exec("error", e.as_str()));
    let f = opt_value_exec(&r.finally_result);
    v.push(member_exec("finally_result", f.as_str()));
    v.push(member_exec("succeeded", bool_exec(r.succeeded)));
    let tr = opt_value_exec(&r.try_result);
    v.push(member_exec("try_result", tr.as_str()));
    let out = object_exec(&v);
    let ghost w = crate::executors::try_catch_view(*r);
    assert(v@.map_values(|m: String| m@) =~= seq![
        member("catch_result"@, opt_value_json(w.1)),
        member("error"@, match w.3 { Some(e) => json_quoted(e), None => "null"@ }),
        member("finally_result"@, opt_value_json(w.2)),
        member("succeeded"@, bool_text(w.4)),
        member("try_result"@, opt_value_json(w.0)),
    ]);
    out
}

/// What running a node computes, by its kind; a sub-workflow's file is handed back to
/// be loaded, and a service node is not run here.
pub fn node_step(node: &Node, ctx: &ExecutionContext) -> (r: Result<NodeStep, EngineError>)
    ensures
        node_step_ok(r, *node, *ctx),
{
    match &node.kind {
        NodeKind::Start | NodeKind::End => Ok(NodeStep::Done(ExecutionResult::Success(String::from_str("{}")))),
        NodeKind::IfElse(c) => condition_exec("condition_result", c.expression.as_str(), ctx),
        NodeKind::Switch(c) => condition_exec("switch_result", c.switch_on.as_str(), ctx),
        NodeKind::Loop(c) => {
            let lr = LoopExecutor::execute_loop(c, ctx);
            match &lr {
                Ok(vs) => {
                    let l = list_exec(vs);
                    let t = object1("loop_result", l.as_str());
                    Ok(NodeStep::Done(ExecutionResult::Success(t)))
                },
                Err(e) => Err(EngineError::ExecutionError(e.message())),
            }
        },
        NodeKind::TryCatch(c) => {
            match TryCatchExecutor::execute(c, &ctx.variables) {
                Ok(x) => Ok(NodeStep::Done(ExecutionResult::Success(try_catch_exec(&x)))),
                Err(e) => Err(EngineError::ExecutionError(e.message())),
            }
        },
        NodeKind::Parallel(_) => Ok(NodeStep::Done(ExecutionResult::Success(object1("parallel", "true")))),
        NodeKind::SubWorkflow(c) => Ok(NodeStep::LoadSubWorkflow(c.workflow_path.clone())),
        NodeKind::Service(_) => Ok(NodeStep::Unsupported),
    }
}

} // verus!
