//! Control-flow nodes evaluated over the variables of a run: try / catch / finally,
//! loops over a collection or a count, and the variables handed to a sub-workflow.

use vstd::prelude::*;
use crate::code_executor::var_value;
use crate::engine::{engine_error_text, EngineError};
use crate::code_executor::node_bindings;
use crate::conditional::{eval_bindings, bindings_map, boolean_value, outputs_of, resolve_references, ConditionalEvaluator, names_distinct, all_json};
use crate::execution::{ExecutionContext, NodeExecutionResult};
use crate::node::NodeId;
use crate::node::{LoopConfig, LoopType, SubWorkflowConfig, TryCatchConfig};
use crate::rest::{pair_views, upsert, upsert_pair};
use crate::templating::{
    array_items, captures_view, captures_well_formed, compact_json, execute_expression, expr_spec, expr_view,
    find_variable, is_failure, json_array_items, json_compact, json_quoted, quote_json, regex_captures,
    regex_captures_of, resolve_spec, resolve_template, value_outcome, whole_placeholder_pattern, ExprValue,
    Failure,
};
use crate::text::{decimal, push_char, trim_seq, trim_text, u64_to_string};

verus! {

/// The text of a failure, as the engine error displays it.
pub open spec fn failure_text(f: Failure) -> Seq<char> {
    match f {
        Failure::Template(m) => "Template error: "@ + m,
        Failure::Missing(m) => "Variable not found: "@ + m,
        Failure::Exec(m) => "Execution error: "@ + m,
    }
}

/// Runs try / catch / finally blocks.
#[derive(Debug, Clone, Copy, PartialEq, Eq)]
pub struct TryCatchExecutor;

/// What a try / catch / finally block gave.
#[derive(Debug, Clone, PartialEq, Eq)]
pub struct TryCatchResult {
    pub try_result: Option<ExprValue>,
    pub catch_result: Option<ExprValue>,
    pub finally_result: Option<ExprValue>,
    pub error: Option<String>,
    pub succeeded: bool,
}

/// The view of an optional value.
pub open spec fn opt_view(v: Option<ExprValue>) -> Option<(bool, Seq<char>)> {
    match v {
        Some(x) => Some(expr_view(x)),
        None => None,
    }
}

/// The view of a try / catch / finally result.
pub open spec fn try_catch_view(r: TryCatchResult) -> (
    Option<(bool, Seq<char>)>,
    Option<(bool, Seq<char>)>,
    Option<(bool, Seq<char>)>,
    Option<Seq<char>>,
    bool,
) {
    (
        opt_view(r.try_result),
        opt_view(r.catch_result),
        opt_view(r.finally_result),
        match r.error {
            Some(e) => Some(e@),
            None => None,
        },
        r.succeeded,
    )
}

/// The outcome of the try and catch blocks: try result, catch result, error, success.
pub open spec fn try_and_catch(c: TryCatchConfig, vars: Seq<(Seq<char>, Seq<char>)>) -> (
    Option<(bool, Seq<char>)>,
    Option<(bool, Seq<char>)>,
    Option<Seq<char>>,
    bool,
) {
    match expr_spec(c.try_expression@, vars) {
        Ok(v) => (Some(v), None, None, true),
        Err(f) => match c.catch_expression {
            None => (None, None, Some(failure_text(f)), false),
            Some(ce) => {
                let cvars = upsert(vars, c.error_variable@, json_quoted(failure_text(f)));
                match expr_spec(ce@, cvars) {
                    Ok(v) => (None, Some(v), Some(failure_text(f)), !c.rethrow),
                    Err(cf) => (
                        None,
                        None,
                        Some("Try failed: "@ + failure_text(f) + ". Catch also failed: "@ + failure_text(cf)),
                        false,
                    ),
                }
            },
        },
    }
}

/// The outcome of a whole try / catch / finally block; the finally block runs with the
/// original variables.
pub open spec fn try_catch_spec(c: TryCatchConfig, vars: Seq<(Seq<char>, Seq<char>)>) -> (
    Option<(bool, Seq<char>)>,
    Option<(bool, Seq<char>)>,
    Option<(bool, Seq<char>)>,
    Option<Seq<char>>,
    bool,
) {
    let (t, k, e, s) = try_and_catch(c, vars);
    match c.finally_expression {
        None => (t, k, None, e, s),
        Some(fe) => match expr_spec(fe@, vars) {
            Ok(v) => (t, k, Some(v), e, s),
            Err(ff) => (
                t,
                k,
                None,
                Some(
                    match e {
                        Some(x) => x,
                        None => Seq::empty(),
                    } + ". Finally block failed: "@ + failure_text(ff),
                ),
                false,
            ),
        },
    }
}

fn failure_message(e: &EngineError, Ghost(f): Ghost<Failure>) -> (r: String)
    requires
        is_failure(*e, f),
    ensures
        r@ == failure_text(f),
{
    e.message()
}

pub(crate) fn push_str(out: &mut String, s: &str)
    ensures
        final(out)@ == old(out)@ + s@,
{
    out.append(s);
}

pub(crate) fn clone_vars(v: &Vec<(String, String)>) -> (r: Vec<(String, String)>)
    ensures
        r@ == v@,
{
    let mut out: Vec<(String, String)> = Vec::new();
    let mut i: usize = 0;
    while i < v.len()
        invariant
            i <= v@.len(),
            out@ == v@.take(i as int),
        decreases v.len() - i,
    {
        out.push((v[i].0.clone(), v[i].1.clone()));
        assert(out@ =~= v@.take(i + 1));
        i = i + 1;
    }
    assert(v@.take(v@.len() as int) =~= v@);
    out
}

impl TryCatchExecutor {
    /// Run the try expression; on failure, run the catch expression (if any) with the
    /// error text bound to the error variable, succeeding unless the error is raised
    /// again; then always run the finally expression, whose failure fails the block.
    pub fn execute(config: &TryCatchConfig, vars: &Vec<(String, String)>) -> (r: Result<TryCatchResult, EngineError>)
        ensures
            r matches Ok(x) && try_catch_view(x) == try_catch_spec(*config, pair_views(vars@)),
    {
        let ghost pv = pair_views(vars@);
        let mut result = TryCatchResult {
            try_result: None,
            catch_result: None,
            finally_result: None,
            error: None,
            succeeded: false,
        };
        let tr = execute_expression(config.try_expression.as_str(), vars);
        match tr {
            Ok(value) => {
                result.try_result = Some(value);
                result.succeeded = true;
            },
            Err(e) => {
                let ghost f = match expr_spec(config.try_expression@, pv) {
                    Err(f) => f,
                    Ok(_) => Failure::Template(Seq::empty()),
                };
                let msg = failure_message(&e, Ghost(f));
                match &config.catch_expression {
                    None => {
                        result.error = Some(msg);
                    },
                    Some(catch_expr) => {
                        let mut cvars = clone_vars(vars);
                        let quoted = quote_json(msg.as_str());
                        upsert_pair(&mut cvars, config.error_variable.clone(), quoted);
                        match execute_expression(catch_expr.as_str(), &cvars) {
                            Ok(value) => {
                                result.catch_result = Some(value);
                                result.error = Some(msg);
                                if !config.rethrow {
                                    result.succeeded = true;
                                }
                            },
                            Err(ce) => {
                                let ghost cf = match expr_spec(catch_expr@, pair_views(cvars@)) {
                                    Err(f) => f,
                                    Ok(_) => Failure::Template(Seq::empty()),
                                };
                                let cmsg = failure_message(&ce, Ghost(cf));
                                let mut m = String::from_str("Try failed: ");
                                push_str(&mut m, msg.as_str());
                                push_str(&mut m, ". Catch also failed: ");
                                push_str(&mut m, cmsg.as_str());
                                result.error = Some(m);
                            },
                        }
                    },
                }
            },
        }
        assert((
            opt_view(result.try_result),
            opt_view(result.catch_result),
            match result.error {
                Some(e) => Some(e@),
                None => None,
            },
            result.succeeded,
        ) == try_and_catch(*config, pv));
        match &config.finally_expression {
            None => {},
            Some(finally_expr) => {
                match execute_expression(finally_expr.as_str(), vars) {
                    Ok(value) => {
                        result.finally_result = Some(value);
                    },
                    Err(fe) => {
                        let ghost ff = match expr_spec(finally_expr@, pv) {
                            Err(f) => f,
                            Ok(_) => Failure::Template(Seq::empty()),
                        };
                        let fmsg = failure_message(&fe, Ghost(ff));
                        let mut m = match &result.error {
                            Some(prev) => prev.clone(),
                            None => String::new(),
                        };
                        push_str(&mut m, ". Finally block failed: ");
                        push_str(&mut m, fmsg.as_str());
                        result.error = Some(m);
                        result.succeeded = false;
                    },
                }
            },
        }
        Ok(result)
    }
}

/// Evaluates loop nodes.
#[derive(Debug, Clone, Copy, PartialEq, Eq)]
pub struct LoopExecutor;

/// The variables of one iteration: the item (if any) and the index (if named) set.
pub open spec fn iteration_vars(
    vars: Seq<(Seq<char>, Seq<char>)>,
    item: Option<(Seq<char>, Seq<char>)>,
    index_var: Option<Seq<char>>,
    idx: nat,
) -> Seq<(Seq<char>, Seq<char>)> {
    let v1 = match item {
        Some(p) => upsert(vars, p.0, p.1),
        None => vars,
    };
    match index_var {
        Some(iv) => upsert(v1, iv, decimal(idx)),
        None => v1,
    }
}

/// The body's values for the first `n` iterations, or the first failure.
pub open spec fn loop_results(
    body: Seq<char>,
    vars: Seq<(Seq<char>, Seq<char>)>,
    items: Option<(Seq<char>, Seq<Seq<char>>)>,
    index_var: Option<Seq<char>>,
    n: nat,
) -> Result<Seq<(bool, Seq<char>)>, Failure>
    decreases n,
{
    if n == 0 {
        Ok(Seq::empty())
    } else {
        match loop_results(body, vars, items, index_var, (n - 1) as nat) {
            Err(f) => Err(f),
            Ok(prev) => {
                let item = match items {
                    Some(p) => Some((p.0, p.1[n - 1])),
                    None => None,
                };
                match expr_spec(body, iteration_vars(vars, item, index_var, (n - 1) as nat)) {
                    Err(f) => Err(f),
                    Ok(v) => Ok(prev.push(v)),
                }
            },
        }
    }
}

/// A loop over the items of an array variable.
pub open spec fn foreach_spec(
    path: Seq<char>,
    item_var: Seq<char>,
    index_var: Option<Seq<char>>,
    body: Seq<char>,
    vars: Seq<(Seq<char>, Seq<char>)>,
    max: nat,
) -> Result<Seq<(bool, Seq<char>)>, Failure> {
    match var_value(vars, path) {
        None => Err(Failure::Missing(path)),
        Some(coll) => match json_array_items(coll) {
            None => Err(Failure::Exec("Variable '"@ + path + "' is not an array (got: "@ + json_compact(coll) + ")"@)),
            Some(items) => if items.len() > max {
                Err(Failure::Exec("Collection size "@ + decimal(items.len()) + " exceeds max_iterations "@ + decimal(max)))
            } else {
                loop_results(body, vars, Some((item_var, items)), index_var, items.len())
            },
        },
    }
}

/// What `usize::from_str` makes of a text: the value, or the kind of error (0 empty,
/// 1 invalid digit, 2 too large).
pub open spec fn parse_usize_spec(s: Seq<char>) -> Result<nat, nat> {
    if s.len() == 0 {
        Err(0)
    } else if s[0] == '+' && s.len() == 1 {
        Err(1)
    } else if s[0] == '+' {
        scan_digits(s.skip(1), 0, 0)
    } else {
        scan_digits(s, 0, 0)
    }
}

/// The digits of `d` from position `i` on, read into `acc`, stopping at the first
/// non-digit or at overflow.
pub open spec fn scan_digits(d: Seq<char>, i: nat, acc: nat) -> Result<nat, nat>
    decreases d.len() - i,
{
    if i >= d.len() {
        Ok(acc)
    } else if !('0' <= d[i as int] <= '9') {
        Err(1)
    } else {
        let next = acc * 10 + ((d[i as int] as u32) - ('0' as u32)) as nat;
        if next > usize::MAX {
            Err(2)
        } else {
            scan_digits(d, i + 1, next)
        }
    }
}

/// The display text of a parse error kind.
pub open spec fn parse_error_text(kind: nat) -> Seq<char> {
    if kind == 0 {
        "cannot parse integer from empty string"@
    } else if kind == 1 {
        "invalid digit found in string"@
    } else {
        "number too large to fit in target type"@
    }
}

/// A loop repeated the number of times its count template gives.
pub open spec fn repeat_spec(
    count_expr: Seq<char>,
    body: Seq<char>,
    index_var: Option<Seq<char>>,
    vars: Seq<(Seq<char>, Seq<char>)>,
    max: nat,
) -> Result<Seq<(bool, Seq<char>)>, Failure> {
    match resolve_spec(count_expr, vars) {
        Err(f) => Err(f),
        Ok(cs) => match parse_usize_spec(cs) {
            Err(k) => Err(Failure::Exec("Failed to parse count '"@ + cs + "' as integer: "@ + parse_error_text(k))),
            Ok(count) => if count > max {
                Err(Failure::Exec("Repeat count "@ + decimal(count) + " exceeds max_iterations "@ + decimal(max)))
            } else {
                loop_results(body, vars, None, index_var, count)
            },
        },
    }
}

/// Results of a loop meet a specified outcome.
pub open spec fn results_outcome(r: Result<Vec<ExprValue>, EngineError>, s: Result<Seq<(bool, Seq<char>)>, Failure>) -> bool {
    match s {
        Ok(x) => r matches Ok(v) && v@.map_values(|e: ExprValue| expr_view(e)) == x,
        Err(f) => r matches Err(e) && is_failure(e, f),
    }
}

/// The decision before an iteration of a `while` loop.
#[derive(Debug, Clone, Copy, PartialEq, Eq, Structural)]
pub enum WhileStep {
    /// The iteration limit is reached: the loop fails.
    LimitExceeded,
    /// The condition no longer holds: the loop ends with its results.
    Finish,
    /// Run the body once more.
    RunBody,
}

proof fn lemma_scan_bounds(d: Seq<char>, i: nat, acc: nat)
    requires
        acc <= usize::MAX,
    ensures
        match scan_digits(d, i, acc) {
            Ok(v) => v <= usize::MAX,
            Err(k) => k == 1 || k == 2,
        },
    decreases d.len() - i,
{
    if i < d.len() && '0' <= d[i as int] <= '9' {
        let next = acc * 10 + ((d[i as int] as u32) - ('0' as u32)) as nat;
        if next <= usize::MAX {
            lemma_scan_bounds(d, i + 1, next);
        }
    }
}

proof fn lemma_parse_bounds(s: Seq<char>)
    ensures
        match parse_usize_spec(s) {
            Ok(v) => v <= usize::MAX,
            Err(k) => k <= 2,
        },
{
    if s.len() > 0 {
        lemma_scan_bounds(s.skip(1), 0, 0);
        lemma_scan_bounds(s, 0, 0);
    }
}

fn parse_usize_text(s: &str) -> (r: Result<usize, u8>)
    ensures
        match parse_usize_spec(s@) {
            Ok(n) => n <= usize::MAX && r == Ok::<usize, u8>(n as usize),
            Err(k) => k <= 2 && r == Err::<usize, u8>(k as u8),
        },
{
    proof {
        lemma_parse_bounds(s@);
    }
    let v = crate::text::chars_of(s);
    if v.len() == 0 {
        return Err(0);
    }
    if v[0] == '+' && v.len() == 1 {
        return Err(1);
    }
    let start: usize = if v[0] == '+' { 1 } else { 0 };
    let ghost d = if v@[0] == '+' { v@.skip(1) } else { v@ };
    assert(d.len() == v@.len() - start);
    let mut acc: usize = 0;
    let mut i: usize = start;
    while i < v.len()
        invariant
            v@ == s@,
            v@.len() > 0,
            start <= i <= v@.len(),
            d == (if v@[0] == '+' { v@.skip(1) } else { v@ }),
            d.len() == v@.len() - start,
            start == (if v@[0] == '+' { 1usize } else { 0usize }),
            scan_digits(d, 0, 0) == scan_digits(d, (i - start) as nat, acc as nat),
        decreases v.len() - i,
    {
        let c = v[i];
        assert(d[(i - start) as int] == c);
        if !('0' <= c && c <= '9') {
            return Err(1);
        }
        let digit: usize = ((c as u32) - ('0' as u32)) as usize;
        if acc > (usize::MAX - digit) / 10 {
            assert(acc * 10 + digit > usize::MAX) by (nonlinear_arith)
                requires
                    acc > (usize::MAX - digit) / 10,
                    digit <= 9,
            ;
            return Err(2);
        }
        assert(acc * 10 + digit <= usize::MAX) by (nonlinear_arith)
            requires
                acc <= (usize::MAX - digit) / 10,
                digit <= 9,
        ;
        acc = acc * 10 + digit;
        i = i + 1;
    }
    Ok(acc)
}

fn loop_body_run(
    body: &str,
    vars: &Vec<(String, String)>,
    item: Option<(&String, &String)>,
    index_var: Option<&String>,
    idx: usize,
) -> (r: Result<ExprValue, EngineError>)
    ensures
        value_outcome(
            r,
            expr_spec(
                body@,
                iteration_vars(
                    pair_views(vars@),
                    match item {
                        Some(p) => Some((p.0@, p.1@)),
                        None => None,
                    },
                    match index_var {
                        Some(iv) => Some(iv@),
                        None => None,
                    },
                    idx as nat,
                ),
            ),
        ),
{
    let mut lv = clone_vars(vars);
    match item {
        Some((k, v)) => {
            upsert_pair(&mut lv, k.clone(), v.clone());
        },
        None => {},
    }
    match index_var {
        Some(iv) => {
            upsert_pair(&mut lv, iv.clone(), u64_to_string(idx as u64));
        },
        None => {},
    }
    execute_expression(body, &lv)
}

proof fn lemma_loop_err_prefix(
    body: Seq<char>,
    vars: Seq<(Seq<char>, Seq<char>)>,
    items: Option<(Seq<char>, Seq<Seq<char>>)>,
    index_var: Option<Seq<char>>,
    k: nat,
    n: nat,
)
    requires
        k <= n,
        loop_results(body, vars, items, index_var, k) is Err,
    ensures
        loop_results(body, vars, items, index_var, n) == loop_results(body, vars, items, index_var, k),
    decreases n - k,
{
    if k < n {
        lemma_loop_err_prefix(body, vars, items, index_var, k, (n - 1) as nat);
    }
}

impl LoopExecutor {
    fn run_iterations(
        body: &str,
        vars: &Vec<(String, String)>,
        item_var: Option<&String>,
        items: &Vec<String>,
        index_var: Option<&String>,
        count: usize,
    ) -> (r: Result<Vec<ExprValue>, EngineError>)
        requires
            item_var is Some ==> count <= items@.len(),
        ensures
            results_outcome(
                r,
                loop_results(
                    body@,
                    pair_views(vars@),
                    match item_var {
                        Some(iv) => Some((iv@, items@.map_values(|s: String| s@))),
                        None => None,
                    },
                    match index_var {
                        Some(iv) => Some(iv@),
                        None => None,
                    },
                    count as nat,
                ),
            ),
    {
        let ghost iv_view = match item_var {
            Some(iv) => Some((iv@, items@.map_values(|s: String| s@))),
            None => None,
        };
        let ghost ix_view = match index_var {
            Some(iv) => Some(iv@),
            None => None,
        };
        let ghost pv = pair_views(vars@);
        let mut results: Vec<ExprValue> = Vec::new();
        let mut idx: usize = 0;
        assert(results@.map_values(|e: ExprValue| expr_view(e)) =~= Seq::<(bool, Seq<char>)>::empty());
        while idx < count
            invariant
                idx <= count,
                item_var is Some ==> count <= items@.len(),
                iv_view == (match item_var {
                    Some(iv) => Some((iv@, items@.map_values(|s: String| s@))),
                    None => None,
                }),
                ix_view == (match index_var {
                    Some(iv) => Some(iv@),
                    None => None,
                }),
                pv == pair_views(vars@),
                loop_results(body@, pv, iv_view, ix_view, idx as nat) == Ok::<Seq<(bool, Seq<char>)>, Failure>(
                    results@.map_values(|e: ExprValue| expr_view(e)),
                ),
            decreases count - idx,
        {
            let item = match item_var {
                Some(iv) => Some((iv, &items[idx])),
                None => None,
            };
            let out = loop_body_run(body, vars, item, index_var, idx);
            match out {
                Ok(v) => {
                    let ghost prev = results@;
                    results.push(v);
                    assert(results@.map_values(|e: ExprValue| expr_view(e)) =~= prev.map_values(
                        |e: ExprValue| expr_view(e),
                    ).push(expr_view(v)));
                },
                Err(e) => {
                    proof {
                        lemma_loop_err_prefix(body@, pv, iv_view, ix_view, (idx + 1) as nat, count as nat);
                    }
                    return Err(e);
                },
            }
            idx = idx + 1;
        }
        Ok(results)
    }

    /// Evaluate the body once per item of the array variable at `path`, with the item
    /// (and its index, if named) bound; more items than the limit is an error.
    pub fn execute_foreach(
        collection_path: &str,
        item_variable: &String,
        index_variable: Option<&String>,
        body_expression: &str,
        vars: &Vec<(String, String)>,
        max_iterations: usize,
    ) -> (r: Result<Vec<ExprValue>, EngineError>)
        ensures
            results_outcome(
                r,
                foreach_spec(
                    collection_path@,
                    item_variable@,
                    match index_variable {
                        Some(iv) => Some(iv@),
                        None => None,
                    },
                    body_expression@,
                    pair_views(vars@),
                    max_iterations as nat,
                ),
            ),
    {
        let coll = match find_variable(vars, collection_path) {
            Some(c) => c,
            None => {
                return Err(EngineError::VariableNotFound(String::from_str(collection_path)));
            },
        };
        let items = match array_items(coll.as_str()) {
            Some(items) => items,
            None => {
                let mut m = String::from_str("Variable '");
                push_str(&mut m, collection_path);
                push_str(&mut m, "' is not an array (got: ");
                let shown = compact_json(coll.as_str());
                push_str(&mut m, shown.as_str());
                push_str(&mut m, ")");
                return Err(EngineError::ExecutionError(m));
            },
        };
        if items.len() > max_iterations {
            let mut m = String::from_str("Collection size ");
            let a = u64_to_string(items.len() as u64);
            push_str(&mut m, a.as_str());
            push_str(&mut m, " exceeds max_iterations ");
            let b = u64_to_string(max_iterations as u64);
            push_str(&mut m, b.as_str());
            return Err(EngineError::ExecutionError(m));
        }
        Self::run_iterations(body_expression, vars, Some(item_variable), &items, index_variable, items.len())
    }

    /// Evaluate the body the number of times the count template gives (an index bound if
    /// named); a count that does not parse or exceeds the limit is an error.
    pub fn execute_repeat(
        count_expr: &str,
        body_expression: &str,
        index_variable: Option<&String>,
        vars: &Vec<(String, String)>,
        max_iterations: usize,
    ) -> (r: Result<Vec<ExprValue>, EngineError>)
        ensures
            results_outcome(
                r,
                repeat_spec(
                    count_expr@,
                    body_expression@,
                    match index_variable {
                        Some(iv) => Some(iv@),
                        None => None,
                    },
                    pair_views(vars@),
                    max_iterations as nat,
                ),
            ),
    {
        let count_str = match resolve_template(count_expr, vars) {
            Ok(s) => s,
            Err(e) => {
                return Err(e);
            },
        };
        let count = match parse_usize_text(count_str.as_str()) {
            Ok(n) => n,
            Err(k) => {
                let mut m = String::from_str("Failed to parse count '");
                push_str(&mut m, count_str.as_str());
                push_str(&mut m, "' as integer: ");
                if k == 0 {
                    push_str(&mut m, "cannot parse integer from empty string");
                } else if k == 1 {
                    push_str(&mut m, "invalid digit found in string");
                } else {
                    push_str(&mut m, "number too large to fit in target type");
                }
                return Err(EngineError::ExecutionError(m));
            },
        };
        if count > max_iterations {
            let mut m = String::from_str("Repeat count ");
            let a = u64_to_string(count as u64);
            push_str(&mut m, a.as_str());
            push_str(&mut m, " exceeds max_iterations ");
            let b = u64_to_string(max_iterations as u64);
            push_str(&mut m, b.as_str());
            return Err(EngineError::ExecutionError(m));
        }
        let no_items: Vec<String> = Vec::new();
        Self::run_iterations(body_expression, vars, None, &no_items, index_variable, count)
    }

    /// Before iteration `counter` of a `while` loop with limit `max`: fail at the limit,
    /// finish when the condition no longer holds, otherwise run the body.
    pub fn while_step(counter: usize, max_iterations: usize, condition_met: bool) -> (r: WhileStep)
        ensures
            r == (if counter >= max_iterations {
                WhileStep::LimitExceeded
            } else if !condition_met {
                WhileStep::Finish
            } else {
                WhileStep::RunBody
            }),
    {
        if counter >= max_iterations {
            WhileStep::LimitExceeded
        } else if !condition_met {
            WhileStep::Finish
        } else {
            WhileStep::RunBody
        }
    }

    /// The error of a `while` loop that reached its limit.
    pub fn while_limit_error(max_iterations: usize) -> (r: EngineError)
        ensures
            is_failure(r, Failure::Exec("While loop exceeded max_iterations "@ + decimal(max_iterations as nat))),
    {
        let mut m = String::from_str("While loop exceeded max_iterations ");
        let a = u64_to_string(max_iterations as u64);
        push_str(&mut m, a.as_str());
        EngineError::ExecutionError(m)
    }

    /// The variables of iteration `counter` of a `while` loop: the counter bound if named.
    pub fn while_vars(vars: &Vec<(String, String)>, counter_variable: Option<&String>, counter: usize) -> (r: Vec<(String, String)>)
        ensures
            pair_views(r@) == iteration_vars(
                pair_views(vars@),
                None,
                match counter_variable {
                    Some(c) => Some(c@),
                    None => None,
                },
                counter as nat,
            ),
    {
        let mut lv = clone_vars(vars);
        match counter_variable {
            Some(c) => {
                upsert_pair(&mut lv, c.clone(), u64_to_string(counter as u64));
            },
            None => {},
        }
        lv
    }
}

/// What the condition of a `while` loop gives over one iteration's variables and the
/// run's node results, with the error as the loop reports it.
pub open spec fn condition_result(
    cond: Seq<char>,
    vars: Seq<(Seq<char>, Seq<char>)>,
    results: Seq<(NodeId, NodeExecutionResult)>,
) -> Result<bool, Failure> {
    match resolve_references(cond, vars, outputs_of(results)) {
        Err(m) => Err(Failure::Exec("Condition evaluation failed: "@ + ("Template error: "@ + m))),
        Ok(t) => match boolean_value(t, eval_bindings(vars + node_bindings(results))) {
            Ok(b) => Ok(b),
            Err(e) => Err(
                Failure::Exec(
                    "Condition evaluation failed: "@ + ("Execution error: "@ + ("Expression evaluation failed: "@ + e)),
                ),
            ),
        },
    }
}

/// A `while` loop from iteration `k` on, with the values `acc` of the iterations before:
/// at the limit it fails; a false condition ends it; otherwise the body runs once more.
pub open spec fn while_spec(
    cond: Seq<char>,
    body: Seq<char>,
    vars: Seq<(Seq<char>, Seq<char>)>,
    results: Seq<(NodeId, NodeExecutionResult)>,
    counter_var: Option<Seq<char>>,
    max: nat,
    k: nat,
    acc: Seq<(bool, Seq<char>)>,
) -> Result<Seq<(bool, Seq<char>)>, Failure>
    decreases max - k,
{
    if k >= max {
        Err(Failure::Exec("While loop exceeded max_iterations "@ + decimal(max)))
    } else {
        let vk = iteration_vars(vars, None, counter_var, k);
        match condition_result(cond, vk, results) {
            Err(f) => Err(f),
            Ok(false) => Ok(acc),
            Ok(true) => match expr_spec(body, vk) {
                Err(f) => Err(f),
                Ok(v) => while_spec(cond, body, vars, results, counter_var, max, k + 1, acc.push(v)),
            },
        }
    }
}

/// Every iteration's evaluator can be made: no name twice and every value JSON.
pub open spec fn evaluators_ok(
    vars: Seq<(Seq<char>, Seq<char>)>,
    results: Seq<(NodeId, NodeExecutionResult)>,
    counter_var: Option<Seq<char>>,
    max: nat,
) -> bool {
    forall|k: nat| k < max ==> #[trigger] iteration_ok(vars, results, counter_var, k)
}

/// The evaluator of iteration `k` can be made: no name twice and every value JSON.
pub open spec fn iteration_ok(
    vars: Seq<(Seq<char>, Seq<char>)>,
    results: Seq<(NodeId, NodeExecutionResult)>,
    counter_var: Option<Seq<char>>,
    k: nat,
) -> bool {
    let b = iteration_vars(vars, None, counter_var, k) + node_bindings(results);
    names_distinct(b) && all_json(b)
}

/// An error of the evaluator's construction, as a `while` loop reports it.
pub open spec fn evaluator_failure(r: Result<Vec<ExprValue>, EngineError>) -> bool {
    r matches Err(EngineError::ExecutionError(m)) && exists|x: Seq<char>| m@ == "Failed to create evaluator: "@ + x
}

/// The outcome of a loop node over the variables and node results of a run.
pub open spec fn loop_outcome(r: Result<Vec<ExprValue>, EngineError>, config: LoopConfig, ctx: ExecutionContext) -> bool {
    let vars = pair_views(ctx.variables@);
    let max = config.max_iterations as nat;
    match config.loop_type {
        LoopType::ForEach { collection_path, item_variable, index_variable, body_expression, .. } => results_outcome(
            r,
            foreach_spec(
                collection_path@,
                item_variable@,
                match index_variable {
                    Some(iv) => Some(iv@),
                    None => None,
                },
                body_expression@,
                vars,
                max,
            ),
        ),
        LoopType::Repeat { count, body_expression, index_variable } => results_outcome(
            r,
            repeat_spec(
                count@,
                body_expression@,
                match index_variable {
                    Some(iv) => Some(iv@),
                    None => None,
                },
                vars,
                max,
            ),
        ),
        LoopType::While { condition, body_expression, counter_variable } => {
            let cv = match counter_variable {
                Some(c) => Some(c@),
                None => None,
            };
            let s = while_spec(condition@, body_expression@, vars, ctx.node_results@, cv, max, 0, Seq::empty());
            &&& (results_outcome(r, s) || evaluator_failure(r))
            &&& (evaluators_ok(vars, ctx.node_results@, cv, max) ==> results_outcome(r, s))
        },
    }
}

impl LoopExecutor {
    /// Run a `while` loop: before each iteration the limit is checked and the condition
    /// evaluated over the variables with the counter bound (if named); the body runs
    /// while it holds.
    pub fn execute_while(
        condition: &str,
        body_expression: &str,
        counter_variable: Option<&String>,
        ctx: &ExecutionContext,
        max_iterations: usize,
    ) -> (r: Result<Vec<ExprValue>, EngineError>)
        ensures
            ({
                let cv = match counter_variable {
                    Some(c) => Some(c@),
                    None => None,
                };
                let vars = pair_views(ctx.variables@);
                let s = while_spec(
                    condition@,
                    body_expression@,
                    vars,
                    ctx.node_results@,
                    cv,
                    max_iterations as nat,
                    0,
                    Seq::empty(),
                );
                &&& (results_outcome(r, s) || evaluator_failure(r))
                &&& (evaluators_ok(vars, ctx.node_results@, cv, max_iterations as nat) ==> results_outcome(r, s))
            }),
    {
        let ghost cv = match counter_variable {
            Some(c) => Some(c@),
            None => None,
        };
        let ghost vars = pair_views(ctx.variables@);
        let ghost max = max_iterations as nat;
        let ghost whole = while_spec(condition@, body_expression@, vars, ctx.node_results@, cv, max, 0, Seq::empty());
        let mut results: Vec<ExprValue> = Vec::new();
        let mut counter: usize = 0;
        assert(results@.map_values(|e: ExprValue| expr_view(e)) =~= Seq::<(bool, Seq<char>)>::empty());
        while counter < max_iterations
            invariant
                counter <= max_iterations,
                whole == while_spec(
                    condition@,
                    body_expression@,
                    vars,
                    ctx.node_results@,
                    cv,
                    max,
                    counter as nat,
                    results@.map_values(|e: ExprValue| expr_view(e)),
                ),
                vars == pair_views(ctx.variables@),
                max == max_iterations as nat,
                whole == while_spec(condition@, body_expression@, vars, ctx.node_results@, cv, max, 0, Seq::empty()),
                cv == match counter_variable {
                    Some(c) => Some(c@),
                    None => None,
                },
            decreases max_iterations - counter,
        {
            let ghost acc = results@.map_values(|e: ExprValue| expr_view(e));
            let lv = Self::while_vars(&ctx.variables, counter_variable, counter);
            let ghost vk = iteration_vars(vars, None, cv, counter as nat);
            assert(pair_views(lv@) == vk);
            let evaluator = match ConditionalEvaluator::from_parts(&lv, &ctx.node_results) {
                Ok(ev) => ev,
                Err(e) => {
                    let mut m = String::from_str("Failed to create evaluator: ");
                    let em = e.message();
                    push_str(&mut m, em.as_str());
                    proof {
                        assert(m@ == "Failed to create evaluator: "@ + em@);
                        if evaluators_ok(vars, ctx.node_results@, cv, max) {
                            assert(iteration_ok(vars, ctx.node_results@, cv, counter as nat));
                        }
                    }
                    return Err(EngineError::ExecutionError(m));
                },
            };
            let met = match evaluator.evaluate(condition) {
                Ok(b) => b,
                Err(e) => {
                    let mut m = String::from_str("Condition evaluation failed: ");
                    let em = e.message();
                    push_str(&mut m, em.as_str());
                    proof {
                        let rr = resolve_references(condition@, vk, outputs_of(ctx.node_results@));
                        match rr {
                            Err(x) => {
                                assert(m@ =~= "Condition evaluation failed: "@ + ("Template error: "@ + x));
                            },
                            Ok(t) => {
                                match boolean_value(t, eval_bindings(vk + node_bindings(ctx.node_results@))) {
                                    Err(x) => {
                                        assert(m@ =~= "Condition evaluation failed: "@ + ("Execution error: "@ + (
                                        "Expression evaluation failed: "@ + x)));
                                    },
                                    Ok(_) => {},
                                }
                            },
                        }
                        assert(condition_result(condition@, vk, ctx.node_results@) == Err::<bool, Failure>(
                            Failure::Exec(m@),
                        ));
                        assert(whole == Err::<Seq<(bool, Seq<char>)>, Failure>(Failure::Exec(m@)));
                    }
                    return Err(EngineError::ExecutionError(m));
                },
            };
            assert(pair_views(evaluator.variables@) == vk);
            assert(condition_result(condition@, vk, ctx.node_results@) == Ok::<bool, Failure>(met));
            if !met {
                assert(whole == Ok::<Seq<(bool, Seq<char>)>, Failure>(acc));
                return Ok(results);
            }
            let v = match execute_expression(body_expression, &lv) {
                Ok(v) => v,
                Err(e) => {
                    proof {
                        match expr_spec(body_expression@, vk) {
                            Err(f) => {
                                assert(whole == Err::<Seq<(bool, Seq<char>)>, Failure>(f));
                            },
                            Ok(_) => {},
                        }
                    }
                    return Err(e);
                },
            };
            results.push(v);
            proof {
                assert(results@.map_values(|e: ExprValue| expr_view(e)) =~= acc.push(expr_view(v)));
            }
            counter = counter + 1;
        }
        Err(Self::while_limit_error(max_iterations))
    }

    /// Run a loop node over the variables and node results of a run.
    pub fn execute_loop(config: &LoopConfig, ctx: &ExecutionContext) -> (r: Result<Vec<ExprValue>, EngineError>)
        ensures
            loop_outcome(r, *config, *ctx),
    {
        match &config.loop_type {
            LoopType::ForEach { collection_path, item_variable, index_variable, body_expression, .. } => {
                Self::execute_foreach(
                    collection_path.as_str(),
                    item_variable,
                    index_variable.as_ref(),
                    body_expression.as_str(),
                    &ctx.variables,
                    config.max_iterations,
                )
            },
            LoopType::Repeat { count, body_expression, index_variable } => Self::execute_repeat(
                count.as_str(),
                body_expression.as_str(),
                index_variable.as_ref(),
                &ctx.variables,
                config.max_iterations,
            ),
            LoopType::While { condition, body_expression, counter_variable } => Self::execute_while(
                condition.as_str(),
                body_expression.as_str(),
                counter_variable.as_ref(),
                ctx,
                config.max_iterations,
            ),
        }
    }
}

/// Runs nested workflows.
#[derive(Debug, Clone, Copy, PartialEq, Eq)]
pub struct SubWorkflowExecutor;

/// The value of an input mapping: the variable itself (its JSON text) when the template
/// is exactly one placeholder, else the resolved text as a JSON string.
pub open spec fn mapping_value_spec(template: Seq<char>, vars: Seq<(Seq<char>, Seq<char>)>) -> Result<Seq<char>, Failure> {
    match regex_captures_of(whole_placeholder_pattern(), template) {
        Err(e) => Err(Failure::Template(e)),
        Ok(caps) => if caps.len() > 0 && caps[0].len() >= 2 && caps[0][1] is Some {
            let name = trim_seq(caps[0][1].unwrap());
            match var_value(vars, name) {
                Some(v) => Ok(v),
                None => Err(Failure::Missing(name)),
            }
        } else {
            match resolve_spec(template, vars) {
                Err(f) => Err(f),
                Ok(t) => Ok(json_quoted(t)),
            }
        },
    }
}

/// The variables given to a sub-workflow: the parent's when inherited, then each input
/// mapping set in order.
pub open spec fn sub_vars_spec(
    mappings: Seq<(Seq<char>, Seq<char>)>,
    parent: Seq<(Seq<char>, Seq<char>)>,
    inherit: bool,
) -> Result<Seq<(Seq<char>, Seq<char>)>, Failure>
    decreases mappings.len(),
{
    if mappings.len() == 0 {
        Ok(if inherit { parent } else { Seq::empty() })
    } else {
        match sub_vars_spec(mappings.drop_last(), parent, inherit) {
            Err(f) => Err(f),
            Ok(vs) => match mapping_value_spec(mappings.last().1, parent) {
                Err(f) => Err(f),
                Ok(v) => Ok(upsert(vs, mappings.last().0, v)),
            },
        }
    }
}

proof fn lemma_sub_vars_err_prefix(
    mappings: Seq<(Seq<char>, Seq<char>)>,
    parent: Seq<(Seq<char>, Seq<char>)>,
    inherit: bool,
    n: int,
)
    requires
        0 <= n <= mappings.len(),
        sub_vars_spec(mappings.take(n), parent, inherit) is Err,
    ensures
        sub_vars_spec(mappings, parent, inherit) == sub_vars_spec(mappings.take(n), parent, inherit),
    decreases mappings.len() - n,
{
    if n < mappings.len() {
        assert(mappings.take(n + 1).drop_last() =~= mappings.take(n));
        lemma_sub_vars_err_prefix(mappings, parent, inherit, n + 1);
    } else {
        assert(mappings.take(n) =~= mappings);
    }
}

impl SubWorkflowExecutor {
    /// The value of one input mapping over the parent's variables.
    pub fn resolve_mapping(template: &str, vars: &Vec<(String, String)>) -> (r: Result<String, EngineError>)
        ensures
            crate::templating::text_outcome(r, mapping_value_spec(template@, pair_views(vars@))),
    {
        let pattern = "^\\{\\{([^}]+)\\}\\}$";
        let caps = match regex_captures(pattern, template) {
            Err(e) => {
                return Err(EngineError::TemplateError(e));
            },
            Ok(c) => c,
        };
        proof {
            if caps@.len() > 0 {
                assert(captures_view(caps@)[0] == crate::templating::groups_view(caps@[0]@));
                if caps@[0]@.len() >= 2 {
                    assert(crate::templating::groups_view(caps@[0]@)[1] == (match caps@[0]@[1] {
                        Some(s) => Some(s@),
                        None => None::<Seq<char>>,
                    }));
                }
            }
        }
        if caps.len() > 0 && caps[0].len() >= 2 && caps[0][1].is_some() {
            let inner = match &caps[0][1] {
                Some(s) => s,
                None => {
                    return Err(EngineError::TemplateError(String::new()));
                },
            };
            let name = trim_text(inner.as_str());
            match find_variable(vars, name.as_str()) {
                Some(v) => Ok(v),
                None => Err(EngineError::VariableNotFound(name)),
            }
        } else {
            match resolve_template(template, vars) {
                Err(e) => Err(e),
                Ok(t) => Ok(quote_json(t.as_str())),
            }
        }
    }

    /// The variables a sub-workflow starts with: the parent's when inherited, then
    /// each input mapping, resolved over the parent's variables.
    pub fn sub_variables(config: &SubWorkflowConfig, parent: &Vec<(String, String)>) -> (r: Result<Vec<(String, String)>, EngineError>)
        ensures
            match sub_vars_spec(pair_views(config.input_mappings@), pair_views(parent@), config.inherit_context) {
                Ok(x) => r matches Ok(v) && pair_views(v@) == x,
                Err(f) => r matches Err(e) && is_failure(e, f),
            },
    {
        let ghost ms = pair_views(config.input_mappings@);
        let ghost pv = pair_views(parent@);
        let mut vars: Vec<(String, String)> = if config.inherit_context {
            clone_vars(parent)
        } else {
            Vec::new()
        };
        assert(ms.take(0) =~= Seq::<(Seq<char>, Seq<char>)>::empty());
        assert(!config.inherit_context ==> pair_views(vars@) =~= Seq::<(Seq<char>, Seq<char>)>::empty());
        let mut i: usize = 0;
        while i < config.input_mappings.len()
            invariant
                i <= config.input_mappings@.len(),
                ms == pair_views(config.input_mappings@),
                pv == pair_views(parent@),
                sub_vars_spec(ms.take(i as int), pv, config.inherit_context) == Ok::<
                    Seq<(Seq<char>, Seq<char>)>,
                    Failure,
                >(pair_views(vars@)),
            decreases config.input_mappings.len() - i,
        {
            proof {
                assert(ms.take(i + 1).drop_last() =~= ms.take(i as int));
                assert(ms.take(i + 1).last() == ms[i as int]);
            }
            match Self::resolve_mapping(config.input_mappings[i].1.as_str(), parent) {
                Ok(v) => {
                    upsert_pair(&mut vars, config.input_mappings[i].0.clone(), v);
                },
                Err(e) => {
                    proof {
                        lemma_sub_vars_err_prefix(ms, pv, config.inherit_context, i + 1);
                    }
                    return Err(e);
                },
            }
            i = i + 1;
        }
        assert(ms.take(ms.len() as int) =~= ms);
        Ok(vars)
    }

    /// The output of a finished sub-workflow: its named variable (JSON `null` when it is
    /// missing), or `None` when all its variables are returned.
    pub fn output_of(config: &SubWorkflowConfig, result_vars: &Vec<(String, String)>) -> (r: Option<String>)
        ensures
            match config.output_variable {
                Some(name) => r matches Some(v) && v@ == match var_value(pair_views(result_vars@), name@) {
                    Some(x) => x,
                    None => "null"@,
                },
                None => r is None,
            },
    {
        match &config.output_variable {
            Some(name) => match find_variable(result_vars, name.as_str()) {
                Some(v) => Some(v),
                None => Some(String::from_str("null")),
            },
            None => None,
        }
    }
}

} // verus!
