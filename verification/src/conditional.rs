//! Boolean conditions over a run's variables and node outputs: `$name.path`
//! references are replaced by the values they point to (through a JSONPath query), and
//! the resulting text is evaluated by `evalexpr` against the run's variables.

use vstd::prelude::*;
use evalexpr::ContextWithMutableVariables;
use crate::auth::{json_as_str, json_str_content};
use crate::code_executor::{find_var, node_bindings, node_var_name_exec, var_value};
use crate::engine::EngineError;
use crate::execution::{first_at, lookup, ExecutionContext, ExecutionResult, NodeExecutionResult};
use crate::executors::{clone_vars, push_str};
use crate::ids::{parse_uuid, uuid_parsed};
use crate::node::NodeId;
use crate::rest::{pair_views, replace_all, replace_text};
use crate::templating::{captures_view, compact_json, groups_view, json_compact, regex_captures, regex_captures_of};
use crate::template::{json_kind, json_kind_of, JsonKind};
use crate::text::{chars_of, push_char, push_range};

verus! {

broadcast use vstd::string::group_string_axioms;

/// An `evalexpr::HashMapContext`, held whole: Verus is not given its type parameter's
/// trait, so the context is known only through `context_bindings`.
#[verifier::external_body]
pub struct EvalContext {
    inner: evalexpr::HashMapContext,
}

/// A value of an `evalexpr` context: empty, a boolean, an integer, the float read from a
/// JSON number text, or a string.
pub enum EvalValue {
    Empty,
    Boolean(bool),
    Int(i64),
    Float(Seq<char>),
    Str(Seq<char>),
}

/// The variables of an `evalexpr` context, by name.
pub uninterp spec fn context_bindings(c: EvalContext) -> Map<Seq<char>, EvalValue>;

/// `evalexpr::HashMapContext::new`: a context that holds no variable.
#[verifier::external_body]
fn new_context() -> (r: EvalContext)
    ensures
        context_bindings(r).dom().is_empty(),
{
    EvalContext { inner: evalexpr::HashMapContext::new() }
}

/// `HashMapContext::set_value` with `Value::Empty`. The source shows that the call fails
/// only when the name holds a value of another type, and then changes nothing.
#[verifier::external_body]
fn set_empty(ctx: &mut EvalContext, name: String) -> (r: Result<(), String>)
    ensures
        r is Ok ==> context_bindings(*final(ctx)) == context_bindings(*old(ctx)).insert(name@, EvalValue::Empty),
        r is Err ==> context_bindings(*final(ctx)) == context_bindings(*old(ctx)),
        !context_bindings(*old(ctx)).dom().contains(name@) ==> r is Ok,
{
    ctx.inner.set_value(name, evalexpr::Value::Empty).map_err(|e| e.to_string())
}

/// `HashMapContext::set_value` with `Value::Boolean`.
#[verifier::external_body]
fn set_bool(ctx: &mut EvalContext, name: String, b: bool) -> (r: Result<(), String>)
    ensures
        r is Ok ==> context_bindings(*final(ctx)) == context_bindings(*old(ctx)).insert(name@, EvalValue::Boolean(b)),
        r is Err ==> context_bindings(*final(ctx)) == context_bindings(*old(ctx)),
        !context_bindings(*old(ctx)).dom().contains(name@) ==> r is Ok,
{
    ctx.inner.set_value(name, evalexpr::Value::Boolean(b)).map_err(|e| e.to_string())
}

/// `HashMapContext::set_value` with `Value::Int`.
#[verifier::external_body]
fn set_int(ctx: &mut EvalContext, name: String, i: i64) -> (r: Result<(), String>)
    ensures
        r is Ok ==> context_bindings(*final(ctx)) == context_bindings(*old(ctx)).insert(name@, EvalValue::Int(i)),
        r is Err ==> context_bindings(*final(ctx)) == context_bindings(*old(ctx)),
        !context_bindings(*old(ctx)).dom().contains(name@) ==> r is Ok,
{
    ctx.inner.set_value(name, evalexpr::Value::Int(i)).map_err(|e| e.to_string())
}

/// `HashMapContext::set_value` with `Value::String`.
#[verifier::external_body]
fn set_str(ctx: &mut EvalContext, name: String, v: String) -> (r: Result<(), String>)
    ensures
        r is Ok ==> context_bindings(*final(ctx)) == context_bindings(*old(ctx)).insert(name@, EvalValue::Str(v@)),
        r is Err ==> context_bindings(*final(ctx)) == context_bindings(*old(ctx)),
        !context_bindings(*old(ctx)).dom().contains(name@) ==> r is Ok,
{
    ctx.inner.set_value(name, evalexpr::Value::String(v)).map_err(|e| e.to_string())
}

/// `HashMapContext::set_value` with `Value::Float` of the number that a JSON text holds
/// (`Value::as_f64`); the call also fails when the text is not a JSON number.
#[verifier::external_body]
fn set_float(ctx: &mut EvalContext, name: String, number: &str) -> (r: Result<(), String>)
    ensures
        r is Ok ==> context_bindings(*final(ctx)) == context_bindings(*old(ctx)).insert(name@, EvalValue::Float(number@)),
        r is Err ==> context_bindings(*final(ctx)) == context_bindings(*old(ctx)),
        !context_bindings(*old(ctx)).dom().contains(name@) && (json_kind_of(number@) == Some(JsonKind::Integer)
            || json_kind_of(number@) == Some(JsonKind::Float)) ==> r is Ok,
{
    let x = match serde_json::from_str::<serde_json::Value>(number) {
        Ok(v) => match v.as_f64() {
            Some(x) => x,
            None => return Err("not a number".to_string()),
        },
        Err(e) => return Err(e.to_string()),
    };
    ctx.inner.set_value(name, evalexpr::Value::Float(x)).map_err(|e| e.to_string())
}

/// The boolean a JSON text holds.
pub uninterp spec fn json_bool(text: Seq<char>) -> Option<bool>;

/// `serde_json::from_str::<Value>` then `Value::as_bool`.
#[verifier::external_body]
fn json_as_bool(text: &str) -> (r: Option<bool>)
    ensures
        r == json_bool(text@),
{
    serde_json::from_str::<serde_json::Value>(text).ok().and_then(|v| v.as_bool())
}

/// The `i64` a JSON text holds.
pub uninterp spec fn json_i64(text: Seq<char>) -> Option<i64>;

/// `serde_json::from_str::<Value>` then `Value::as_i64`.
#[verifier::external_body]
fn json_as_i64(text: &str) -> (r: Option<i64>)
    ensures
        r == json_i64(text@),
{
    serde_json::from_str::<serde_json::Value>(text).ok().and_then(|v| v.as_i64())
}

/// The value a JSON text becomes in the context: a boolean, an integer that fits `i64`
/// and a string stay what they are, another number becomes a float, anything else is
/// empty; `None` for a text that is not JSON.
pub open spec fn eval_value_of(text: Seq<char>) -> Option<EvalValue> {
    match json_kind_of(text) {
        None => None,
        Some(JsonKind::Bool) => Some(
            match json_bool(text) {
                Some(b) => EvalValue::Boolean(b),
                None => EvalValue::Empty,
            },
        ),
        Some(JsonKind::Integer) => Some(
            match json_i64(text) {
                Some(i) => EvalValue::Int(i),
                None => EvalValue::Float(text),
            },
        ),
        Some(JsonKind::Float) => Some(EvalValue::Float(text)),
        Some(JsonKind::Str) => Some(
            match json_str_content(text) {
                Some(v) => EvalValue::Str(v),
                None => EvalValue::Empty,
            },
        ),
        Some(_) => Some(EvalValue::Empty),
    }
}

/// The context made from named JSON texts, later names overriding earlier ones.
pub open spec fn eval_bindings(s: Seq<(Seq<char>, Seq<char>)>) -> Map<Seq<char>, EvalValue>
    decreases s.len(),
{
    if s.len() == 0 {
        Map::empty()
    } else {
        let v = match eval_value_of(s.last().1) {
            Some(x) => x,
            None => EvalValue::Empty,
        };
        eval_bindings(s.drop_last()).insert(s.last().0, v)
    }
}

proof fn lemma_eval_dom(s: Seq<(Seq<char>, Seq<char>)>)
    ensures
        eval_bindings(s).dom() == bindings_map(s).dom(),
    decreases s.len(),
{
    if s.len() > 0 {
        lemma_eval_dom(s.drop_last());
    }
    assert(eval_bindings(s).dom() =~= bindings_map(s).dom());
}

/// Put the value a JSON text becomes under a name.
fn set_json_value(ctx: &mut EvalContext, name: String, json: &str) -> (r: Result<(), String>)
    ensures
        r is Ok ==> eval_value_of(json@) is Some && context_bindings(*final(ctx)) == context_bindings(*old(ctx)).insert(
            name@,
            eval_value_of(json@)->0,
        ),
        r is Err ==> context_bindings(*final(ctx)) == context_bindings(*old(ctx)),
        !context_bindings(*old(ctx)).dom().contains(name@) && json_kind_of(json@) is Some ==> r is Ok,
{
    match json_kind(json) {
        None => {
            let mut m = String::from_str("Invalid JSON value for variable '");
            push_str(&mut m, name.as_str());
            push_str(&mut m, "'");
            Err(m)
        },
        Some(JsonKind::Bool) => match json_as_bool(json) {
            Some(b) => set_bool(ctx, name, b),
            None => set_empty(ctx, name),
        },
        Some(JsonKind::Integer) => match json_as_i64(json) {
            Some(i) => set_int(ctx, name, i),
            None => set_float(ctx, name, json),
        },
        Some(JsonKind::Float) => set_float(ctx, name, json),
        Some(JsonKind::Str) => match json_as_str(json) {
            Some(v) => set_str(ctx, name, v),
            None => set_empty(ctx, name),
        },
        Some(_) => set_empty(ctx, name),
    }
}

/// What `evalexpr::eval_boolean_with_context` gives for an expression over the
/// context's variables, an error as its display text.
pub uninterp spec fn boolean_value(expr: Seq<char>, vars: Map<Seq<char>, EvalValue>) -> Result<bool, Seq<char>>;

/// `evalexpr::eval_boolean_with_context`.
#[verifier::external_body]
fn eval_boolean(expr: &str, ctx: &EvalContext) -> (r: Result<bool, String>)
    ensures
        match r {
            Ok(b) => boolean_value(expr@, context_bindings(*ctx)) == Ok::<bool, Seq<char>>(b),
            Err(e) => boolean_value(expr@, context_bindings(*ctx)) == Err::<bool, Seq<char>>(e@),
        },
{
    evalexpr::eval_boolean_with_context(expr, &ctx.inner).map_err(|e| e.to_string())
}

/// What a JSONPath query gives on a JSON document: the parse error's display when
/// `serde_json_path` refuses the query, else the first node found, as compact JSON text
/// (none when nothing is found or the document is not JSON).
pub uninterp spec fn json_path_query(path: Seq<char>, doc: Seq<char>) -> Result<Option<Seq<char>>, Seq<char>>;

/// `serde_json_path::JsonPath::parse`, then `query` on the parsed document and `first`.
#[verifier::external_body]
fn json_path_first(path: &str, doc: &str) -> (r: Result<Option<String>, String>)
    ensures
        match r {
            Ok(Some(x)) => json_path_query(path@, doc@) == Ok::<Option<Seq<char>>, Seq<char>>(Some(x@)),
            Ok(None) => json_path_query(path@, doc@) == Ok::<Option<Seq<char>>, Seq<char>>(None),
            Err(e) => json_path_query(path@, doc@) == Err::<Option<Seq<char>>, Seq<char>>(e@),
        },
{
    match serde_json_path::JsonPath::parse(path) {
        Err(e) => Err(e.to_string()),
        Ok(p) => Ok(serde_json::from_str::<serde_json::Value>(doc).ok().and_then(|v| p.query(&v).first().map(|x| x.to_string()))),
    }
}

/// The part of a reference before its first dot, and the part after it (empty when
/// there is no dot).
pub open spec fn split_first_dot(p: Seq<char>) -> (Seq<char>, Seq<char>)
    decreases p.len(),
{
    if p.len() == 0 {
        (Seq::empty(), Seq::empty())
    } else if p[0] == '.' {
        (Seq::empty(), p.skip(1))
    } else {
        let t = split_first_dot(p.skip(1));
        (seq![p[0]] + t.0, t.1)
    }
}

/// A text with hyphens in place of underscores.
pub open spec fn hyphenated(s: Seq<char>) -> Seq<char> {
    s.map_values(|c: char| if c == '_' { '-' } else { c })
}

/// The output of each recorded node, `None` for a node that did not succeed.
pub open spec fn outputs_of(s: Seq<(NodeId, NodeExecutionResult)>) -> Seq<(NodeId, Option<Seq<char>>)> {
    s.map_values(
        |e: (NodeId, NodeExecutionResult)|
            (
                e.0,
                match e.1.result {
                    ExecutionResult::Success(o) => Some(o@),
                    _ => None,
                },
            ),
    )
}

/// The views of stored node outputs.
pub open spec fn out_view(s: Seq<(NodeId, Option<String>)>) -> Seq<(NodeId, Option<Seq<char>>)> {
    s.map_values(
        |e: (NodeId, Option<String>)|
            (
                e.0,
                match e.1 {
                    Some(o) => Some(o@),
                    None => None,
                },
            ),
    )
}

/// The JSON text a reference root names: for `node_` and a UUID with underscores, the
/// output of that node if it succeeded; otherwise the variable of that name.
pub open spec fn reference_value(
    vars: Seq<(Seq<char>, Seq<char>)>,
    outs: Seq<(NodeId, Option<Seq<char>>)>,
    root: Seq<char>,
) -> Option<Seq<char>> {
    if root.len() >= 5 && root.take(5) == seq!['n', 'o', 'd', 'e', '_'] {
        match uuid_parsed(hyphenated(root.skip(5))) {
            Some(id) => found_output(outs, id),
            None => None,
        }
    } else {
        var_value(vars, root)
    }
}

/// The output recorded for node `id`, if its first entry holds one.
pub open spec fn found_output(outs: Seq<(NodeId, Option<Seq<char>>)>, id: NodeId) -> Option<Seq<char>> {
    match lookup(outs, id) {
        Some(o) => o,
        None => None,
    }
}

/// What a value found by a query is written as: a string in double quotes, as it is;
/// anything else as its JSON text.
pub open spec fn item_replacement(item: Seq<char>) -> Seq<char> {
    match json_str_content(item) {
        Some(s) => "\""@ + s + "\""@,
        None => item,
    }
}

/// What a whole variable is written as: a string in double quotes, as it is; anything
/// else as its compact JSON text.
pub open spec fn value_replacement(v: Seq<char>) -> Seq<char> {
    match json_str_content(v) {
        Some(s) => "\""@ + s + "\""@,
        None => json_compact(v),
    }
}

/// Replace one reference `$path` in the text: nothing changes when its root names no
/// value or its query finds nothing; a query that does not parse is an error.
pub open spec fn ref_step(
    r: Seq<char>,
    path: Seq<char>,
    vars: Seq<(Seq<char>, Seq<char>)>,
    outs: Seq<(NodeId, Option<Seq<char>>)>,
) -> Result<Seq<char>, Seq<char>> {
    let root = split_first_dot(path).0;
    let rest = split_first_dot(path).1;
    let target = "$"@ + path;
    match reference_value(vars, outs, root) {
        None => Ok(r),
        Some(v) => if rest.len() > 0 {
            match json_path_query("$."@ + rest, v) {
                Err(e) => Err("Invalid JSONPath: "@ + e),
                Ok(None) => Ok(r),
                Ok(Some(item)) => Ok(replace_all(r, target, item_replacement(item))),
            }
        } else {
            Ok(replace_all(r, target, value_replacement(v)))
        },
    }
}

/// Replace the references of the matches, one after the other; the first error ends it.
pub open spec fn resolve_refs(
    text: Seq<char>,
    caps: Seq<Seq<Option<Seq<char>>>>,
    vars: Seq<(Seq<char>, Seq<char>)>,
    outs: Seq<(NodeId, Option<Seq<char>>)>,
) -> Result<Seq<char>, Seq<char>>
    decreases caps.len(),
{
    if caps.len() == 0 {
        Ok(text)
    } else {
        match resolve_refs(text, caps.drop_last(), vars, outs) {
            Err(e) => Err(e),
            Ok(r) => ref_step(r, caps.last()[1].unwrap(), vars, outs),
        }
    }
}

/// The pattern of a reference: `$`, a name, and one or more `.name` parts.
pub open spec fn reference_pattern() -> Seq<char> {
    "\\$([a-zA-Z_][a-zA-Z0-9_]*(?:\\.[a-zA-Z_][a-zA-Z0-9_]*)+)"@
}

/// Each match has a first group.
pub open spec fn refs_well_formed(caps: Seq<Seq<Option<Seq<char>>>>) -> bool {
    forall|i: int| 0 <= i < caps.len() ==> (#[trigger] caps[i]).len() >= 2 && caps[i][1] is Some
}

/// An expression with its references replaced, or the error message.
pub open spec fn resolve_references(
    expr: Seq<char>,
    vars: Seq<(Seq<char>, Seq<char>)>,
    outs: Seq<(NodeId, Option<Seq<char>>)>,
) -> Result<Seq<char>, Seq<char>> {
    match regex_captures_of(reference_pattern(), expr) {
        Err(e) => Err(e),
        Ok(caps) => if refs_well_formed(caps) {
            resolve_refs(expr, caps, vars, outs)
        } else {
            Err("malformed reference match"@)
        },
    }
}

/// A result and a specified text or template-error message agree.
pub open spec fn reference_outcome(r: Result<String, EngineError>, s: Result<Seq<char>, Seq<char>>) -> bool {
    match s {
        Ok(t) => r matches Ok(x) && x@ == t,
        Err(m) => r matches Err(EngineError::TemplateError(x)) && x@ == m,
    }
}

/// The variables a context is filled with, later names winning.
pub open spec fn bindings_map(s: Seq<(Seq<char>, Seq<char>)>) -> Map<Seq<char>, Seq<char>>
    decreases s.len(),
{
    if s.len() == 0 {
        Map::empty()
    } else {
        bindings_map(s.drop_last()).insert(s.last().0, s.last().1)
    }
}

/// No name occurs twice.
pub open spec fn names_distinct(s: Seq<(Seq<char>, Seq<char>)>) -> bool {
    forall|i: int, j: int| 0 <= i < j < s.len() ==> (#[trigger] s[i]).0 != (#[trigger] s[j]).0
}

/// Every value is a JSON text.
pub open spec fn all_json(s: Seq<(Seq<char>, Seq<char>)>) -> bool {
    forall|i: int| 0 <= i < s.len() ==> (#[trigger] json_kind_of(s[i].1)) is Some
}

/// The variables of a run and, after them, the outputs of its successful nodes.
pub open spec fn evaluator_bindings(ctx: ExecutionContext) -> Seq<(Seq<char>, Seq<char>)> {
    parts_bindings(ctx.variables@, ctx.node_results@)
}

/// Variables and, after them, the outputs of the successful nodes among the results.
pub open spec fn parts_bindings(
    vars: Seq<(String, String)>,
    results: Seq<(NodeId, NodeExecutionResult)>,
) -> Seq<(Seq<char>, Seq<char>)> {
    pair_views(vars) + node_bindings(results)
}

proof fn lemma_bindings_dom(s: Seq<(Seq<char>, Seq<char>)>, k: Seq<char>)
    ensures
        bindings_map(s).dom().contains(k) <==> exists|j: int| 0 <= j < s.len() && (#[trigger] s[j]).0 == k,
    decreases s.len(),
{
    if s.len() > 0 {
        lemma_bindings_dom(s.drop_last(), k);
        if bindings_map(s.drop_last()).dom().contains(k) {
            let j = choose|j: int| 0 <= j < s.drop_last().len() && (#[trigger] s.drop_last()[j]).0 == k;
            assert(s[j] == s.drop_last()[j]);
        }
        if exists|j: int| 0 <= j < s.len() && (#[trigger] s[j]).0 == k {
            let j = choose|j: int| 0 <= j < s.len() && (#[trigger] s[j]).0 == k;
            if j < s.len() - 1 {
                assert(s.drop_last()[j] == s[j]);
            }
        }
    }
}

/// Split a reference at its first dot.
fn split_reference(path: &str) -> (r: (String, String))
    ensures
        r.0@ == split_first_dot(path@).0,
        r.1@ == split_first_dot(path@).1,
{
    let cs = chars_of(path);
    let mut root = String::new();
    let mut i: usize = 0;
    assert(path@.skip(0) =~= path@);
    while i < cs.len()
        invariant
            cs@ == path@,
            i <= cs@.len(),
            split_first_dot(path@) == (root@ + split_first_dot(path@.skip(i as int)).0, split_first_dot(path@.skip(i as int)).1),
        decreases cs.len() - i,
    {
        let c = cs[i];
        let ghost t = path@.skip(i as int);
        assert(t[0] == c);
        if c == '.' {
            let mut rest = String::new();
            push_range(&mut rest, &cs, i + 1, cs.len());
            assert(t.skip(1) =~= cs@.subrange(i + 1, cs@.len() as int));
            assert(root@ + Seq::<char>::empty() =~= root@);
            return (root, rest);
        }
        assert(t.skip(1) =~= path@.skip(i + 1));
        let ghost before = root@;
        push_char(&mut root, c);
        assert(before + split_first_dot(t).0 =~= root@ + split_first_dot(path@.skip(i + 1)).0);
        i = i + 1;
    }
    assert(path@.skip(i as int) =~= Seq::<char>::empty());
    assert(root@ + Seq::<char>::empty() =~= root@);
    (root, String::new())
}

/// The text with hyphens in place of underscores.
fn hyphenate(s: &str) -> (r: String)
    ensures
        r@ == hyphenated(s@),
{
    let cs = chars_of(s);
    let mut r = String::new();
    let mut i: usize = 0;
    while i < cs.len()
        invariant
            cs@ == s@,
            i <= cs@.len(),
            r@ == hyphenated(s@).take(i as int),
        decreases cs.len() - i,
    {
        if cs[i] == '_' {
            push_char(&mut r, '-');
        } else {
            push_char(&mut r, cs[i]);
        }
        assert(hyphenated(s@).take(i + 1) =~= hyphenated(s@).take(i as int).push(hyphenated(s@)[i as int]));
        i = i + 1;
    }
    assert(hyphenated(s@).take(cs@.len() as int) =~= hyphenated(s@));
    r
}

/// The output stored for node `id`, if it is recorded and succeeded.
fn find_output(outputs: &Vec<(NodeId, Option<String>)>, id: NodeId) -> (r: Option<String>)
    ensures
        match r {
            Some(o) => found_output(out_view(outputs@), id) == Some(o@),
            None => found_output(out_view(outputs@), id) is None,
        },
{
    let ghost s = out_view(outputs@);
    let mut i: usize = 0;
    while i < outputs.len()
        invariant
            i <= outputs@.len(),
            s == out_view(outputs@),
            forall|j: int| 0 <= j < i ==> #[trigger] s[j].0 != id,
        decreases outputs.len() - i,
    {
        if outputs[i].0 == id {
            proof {
                assert(first_at(s, id, i as int));
                let c = choose|c: int| #[trigger] first_at(s, id, c);
                assert(first_at(s, id, c));
                if c < i {
                    assert(s[c].0 != id);
                } else if c > i {
                    assert(s[i as int].0 != id);
                }
            }
            return match &outputs[i].1 {
                Some(o) => Some(o.clone()),
                None => None,
            };
        }
        i = i + 1;
    }
    proof {
        assert(!exists|c: int| #[trigger] first_at(s, id, c));
    }
    None
}

fn starts_with_node(cs: &Vec<char>) -> (b: bool)
    ensures
        b == (cs@.len() >= 5 && cs@.take(5) == seq!['n', 'o', 'd', 'e', '_']),
{
    if cs.len() < 5 {
        return false;
    }
    let b = cs[0] == 'n' && cs[1] == 'o' && cs[2] == 'd' && cs[3] == 'e' && cs[4] == '_';
    if b {
        assert(cs@.take(5) =~= seq!['n', 'o', 'd', 'e', '_']);
    } else {
        assert(cs@.take(5) != seq!['n', 'o', 'd', 'e', '_']) by {
            if cs@.take(5) == seq!['n', 'o', 'd', 'e', '_'] {
                assert(cs@.take(5)[0] == 'n');
                assert(cs@.take(5)[1] == 'o');
                assert(cs@.take(5)[2] == 'd');
                assert(cs@.take(5)[3] == 'e');
                assert(cs@.take(5)[4] == '_');
            }
        }
    }
    b
}

/// The JSON text a reference root names.
fn reference_value_exec(
    vars: &Vec<(String, String)>,
    outputs: &Vec<(NodeId, Option<String>)>,
    root: &str,
) -> (r: Option<String>)
    ensures
        match r {
            Some(v) => reference_value(pair_views(vars@), out_view(outputs@), root@) == Some(v@),
            None => reference_value(pair_views(vars@), out_view(outputs@), root@) is None,
        },
{
    let cs = chars_of(root);
    if starts_with_node(&cs) {
        let mut tail = String::new();
        push_range(&mut tail, &cs, 5, cs.len());
        assert(tail@ =~= root@.skip(5));
        let h = hyphenate(tail.as_str());
        match parse_uuid(h.as_str()) {
            Some(id) => find_output(outputs, id),
            None => None,
        }
    } else {
        find_var(vars, root)
    }
}

/// `"` + text + `"`.
fn quoted(s: &str) -> (r: String)
    ensures
        r@ == "\""@ + s@ + "\""@,
{
    let mut m = String::from_str("\"");
    push_str(&mut m, s);
    push_str(&mut m, "\"");
    m
}

/// Replace one reference of the text by the value it points to.
pub fn reference_step(
    r: String,
    path: &str,
    vars: &Vec<(String, String)>,
    outputs: &Vec<(NodeId, Option<String>)>,
) -> (out: Result<String, EngineError>)
    ensures
        reference_outcome(out, ref_step(r@, path@, pair_views(vars@), out_view(outputs@))),
{
    let (root, rest) = split_reference(path);
    let value = match reference_value_exec(vars, outputs, root.as_str()) {
        None => return Ok(r),
        Some(v) => v,
    };
    let mut target = String::from_str("$");
    push_str(&mut target, path);
    proof {
        reveal_strlit("$");
    }
    assert(target@.len() > 0);
    if rest.as_str().unicode_len() > 0 {
        let mut query = String::from_str("$.");
        push_str(&mut query, rest.as_str());
        match json_path_first(query.as_str(), value.as_str()) {
            Err(e) => {
                let mut m = String::from_str("Invalid JSONPath: ");
                push_str(&mut m, e.as_str());
                Err(EngineError::TemplateError(m))
            },
            Ok(None) => Ok(r),
            Ok(Some(item)) => {
                let rep = match json_as_str(item.as_str()) {
                    Some(s) => quoted(s.as_str()),
                    None => item,
                };
                Ok(replace_text(r.as_str(), target.as_str(), rep.as_str()))
            },
        }
    } else {
        let rep = match json_as_str(value.as_str()) {
            Some(s) => quoted(s.as_str()),
            None => compact_json(value.as_str()),
        };
        Ok(replace_text(r.as_str(), target.as_str(), rep.as_str()))
    }
}

fn refs_well_formed_exec(caps: &Vec<Vec<Option<String>>>) -> (r: bool)
    ensures
        r == refs_well_formed(captures_view(caps@)),
{
    let ghost cv = captures_view(caps@);
    let mut i: usize = 0;
    while i < caps.len()
        invariant
            i <= caps@.len(),
            cv == captures_view(caps@),
            forall|k: int| 0 <= k < i ==> (#[trigger] cv[k]).len() >= 2 && cv[k][1] is Some,
        decreases caps.len() - i,
    {
        let g = &caps[i];
        proof {
            assert(cv[i as int] == groups_view(g@));
        }
        if g.len() < 2 {
            return false;
        }
        proof {
            assert(groups_view(g@)[1] == (match g@[1] { Some(s) => Some(s@), None => None::<Seq<char>> }));
        }
        if g[1].is_none() {
            return false;
        }
        i = i + 1;
    }
    true
}

/// Replace the references of an expression given the regular-expression matches of
/// them, one after the other.
pub fn resolve_with_refs(
    expr: &str,
    caps: &Vec<Vec<Option<String>>>,
    vars: &Vec<(String, String)>,
    outputs: &Vec<(NodeId, Option<String>)>,
) -> (r: Result<String, EngineError>)
    requires
        refs_well_formed(captures_view(caps@)),
    ensures
        reference_outcome(r, resolve_refs(expr@, captures_view(caps@), pair_views(vars@), out_view(outputs@))),
{
    let ghost cv = captures_view(caps@);
    let ghost pv = pair_views(vars@);
    let ghost ov = out_view(outputs@);
    let mut result = String::from_str(expr);
    let mut i: usize = 0;
    while i < caps.len()
        invariant
            i <= caps@.len(),
            cv == captures_view(caps@),
            pv == pair_views(vars@),
            ov == out_view(outputs@),
            refs_well_formed(cv),
            resolve_refs(expr@, cv.take(i as int), pv, ov) == Ok::<Seq<char>, Seq<char>>(result@),
        decreases caps.len() - i,
    {
        let g = &caps[i];
        proof {
            assert(cv.take(i + 1).drop_last() =~= cv.take(i as int));
            assert(cv[i as int] == groups_view(g@));
            assert(cv.take(i + 1).last() == cv[i as int]);
            assert(cv[i as int].len() >= 2);
            assert(groups_view(g@)[1] == (match g@[1] { Some(s) => Some(s@), None => None::<Seq<char>> }));
        }
        let path = match &g[1] {
            Some(p) => p,
            None => {
                proof {
                    assert(cv[i as int][1] is Some);
                }
                return Err(EngineError::TemplateError(String::from_str("malformed reference match")));
            },
        };
        match reference_step(result, path.as_str(), vars, outputs) {
            Ok(next) => {
                result = next;
            },
            Err(e) => {
                proof {
                    lemma_refs_err_prefix(expr@, cv, pv, ov, i + 1);
                }
                return Err(e);
            },
        }
        i = i + 1;
    }
    assert(cv.take(cv.len() as int) =~= cv);
    Ok(result)
}

proof fn lemma_refs_err_prefix(
    text: Seq<char>,
    caps: Seq<Seq<Option<Seq<char>>>>,
    vars: Seq<(Seq<char>, Seq<char>)>,
    outs: Seq<(NodeId, Option<Seq<char>>)>,
    n: int,
)
    requires
        0 <= n <= caps.len(),
        resolve_refs(text, caps.take(n), vars, outs) is Err,
    ensures
        resolve_refs(text, caps, vars, outs) == resolve_refs(text, caps.take(n), vars, outs),
    decreases caps.len() - n,
{
    if n < caps.len() {
        assert(caps.take(n + 1).drop_last() =~= caps.take(n));
        lemma_refs_err_prefix(text, caps, vars, outs, n + 1);
    } else {
        assert(caps.take(n) =~= caps);
    }
}

/// Evaluates boolean conditions over the variables and node outputs of a run.
pub struct ConditionalEvaluator {
    pub context: EvalContext,
    pub variables: Vec<(String, String)>,
    pub outputs: Vec<(NodeId, Option<String>)>,
}

impl ConditionalEvaluator {
    /// An evaluator whose context holds the run's variables and, as `node_<id>` with
    /// underscores, the outputs of its successful nodes. Setting a variable can fail
    /// only when a name comes twice with values of different types, or a value is not
    /// JSON.
    pub fn new(exec_ctx: &ExecutionContext) -> (r: Result<Self, EngineError>)
        ensures
            match r {
                Ok(ev) => {
                    &&& ev.variables@ == exec_ctx.variables@
                    &&& out_view(ev.outputs@) == outputs_of(exec_ctx.node_results@)
                    &&& context_bindings(ev.context) == eval_bindings(evaluator_bindings(*exec_ctx))
                },
                Err(e) => e is ExecutionError,
            },
            names_distinct(evaluator_bindings(*exec_ctx)) && all_json(evaluator_bindings(*exec_ctx)) ==> r is Ok,
    {
        Self::from_parts(&exec_ctx.variables, &exec_ctx.node_results)
    }

    /// The same from the variables and node results of a run.
    pub fn from_parts(variables_in: &Vec<(String, String)>, results_in: &Vec<(NodeId, NodeExecutionResult)>) -> (r: Result<Self, EngineError>)
        ensures
            match r {
                Ok(ev) => {
                    &&& ev.variables@ == variables_in@
                    &&& out_view(ev.outputs@) == outputs_of(results_in@)
                    &&& context_bindings(ev.context) == eval_bindings(parts_bindings(variables_in@, results_in@))
                },
                Err(e) => e is ExecutionError,
            },
            names_distinct(parts_bindings(variables_in@, results_in@)) && all_json(parts_bindings(variables_in@, results_in@)) ==> r is Ok,
    {
        let ghost all = parts_bindings(variables_in@, results_in@);
        let variables = clone_vars(variables_in);
        let mut bindings = clone_vars(variables_in);
        let mut outputs: Vec<(NodeId, Option<String>)> = Vec::new();
        let results = results_in;
        let mut j: usize = 0;
        assert(results@.take(0) =~= Seq::<(NodeId, NodeExecutionResult)>::empty());
        assert(pair_views(bindings@) =~= pair_views(variables_in@) + node_bindings(results@.take(0)));
        while j < results.len()
            invariant
                j <= results@.len(),
                results@ == results_in@,
                pair_views(bindings@) == pair_views(variables_in@) + node_bindings(results@.take(j as int)),
                out_view(outputs@) == outputs_of(results@.take(j as int)),
            decreases results.len() - j,
        {
            let id = results[j].0;
            assert(results@.take(j + 1).drop_last() =~= results@.take(j as int));
            assert(results@.take(j + 1).last() == results@[j as int]);
            let ghost pb = pair_views(bindings@);
            let ghost po = out_view(outputs@);
            assert(outputs_of(results@.take(j + 1)) =~= outputs_of(results@.take(j as int)).push(outputs_of(results@)[j as int]));
            match &results[j].1.result {
                ExecutionResult::Success(o) => {
                    let name = node_var_name_exec(id);
                    bindings.push((name, o.clone()));
                    outputs.push((id, Some(o.clone())));
                    assert(node_bindings(results@.take(j + 1)) == node_bindings(results@.take(j as int)).push((name@, o@)));
                    assert(pair_views(bindings@) =~= pb.push((name@, o@)));
                    assert(out_view(outputs@) =~= po.push((id, Some(o@))));
                },
                _ => {
                    outputs.push((id, None));
                    assert(node_bindings(results@.take(j + 1)) == node_bindings(results@.take(j as int)));
                    assert(out_view(outputs@) =~= po.push((id, None::<Seq<char>>)));
                },
            }
            assert(pair_views(bindings@) =~= pair_views(variables_in@) + node_bindings(results@.take(j + 1)));
            assert(out_view(outputs@) =~= outputs_of(results@.take(j + 1)));
            j = j + 1;
        }
        assert(results@.take(results@.len() as int) =~= results@);
        let ghost bv = pair_views(bindings@);
        assert(bv == all);
        let mut context = new_context();
        assert(context_bindings(context) =~= Map::<Seq<char>, EvalValue>::empty());
        let mut i: usize = 0;
        assert(bv.take(0) =~= Seq::<(Seq<char>, Seq<char>)>::empty());
        while i < bindings.len()
            invariant
                i <= bindings@.len(),
                bv == pair_views(bindings@),
                bv == all,
                all == parts_bindings(variables_in@, results_in@),
                context_bindings(context) == eval_bindings(bv.take(i as int)),
            decreases bindings.len() - i,
        {
            assert(bv.take(i + 1).drop_last() =~= bv.take(i as int));
            assert(bv.take(i + 1).last() == bv[i as int]);
            proof {
                lemma_eval_dom(bv.take(i as int));
                if names_distinct(all) {
                    lemma_bindings_dom(bv.take(i as int), bv[i as int].0);
                    if bindings_map(bv.take(i as int)).dom().contains(bv[i as int].0) {
                        let k = choose|k: int| 0 <= k < bv.take(i as int).len() && (#[trigger] bv.take(i as int)[k]).0 == bv[i as int].0;
                        assert(bv[k] == bv.take(i as int)[k]);
                    }
                }
            }
            let name = bindings[i].0.clone();
            match set_json_value(&mut context, name, bindings[i].1.as_str()) {
                Ok(()) => {},
                Err(e) => {
                    proof {
                        if names_distinct(all) && all_json(all) {
                            assert(json_kind_of(bv[i as int].1) is Some);
                        }
                    }
                    return Err(EngineError::ExecutionError(e));
                },
            }
            i = i + 1;
        }
        assert(bv.take(bv.len() as int) =~= bv);
        Ok(ConditionalEvaluator { context, variables, outputs })
    }

    /// The expression with its `$root.path` references replaced by the values they
    /// point to.
    pub fn resolve_jsonpath(&self, expression: &str) -> (r: Result<String, EngineError>)
        ensures
            reference_outcome(r, resolve_references(expression@, pair_views(self.variables@), out_view(self.outputs@))),
    {
        let pattern = "\\$([a-zA-Z_][a-zA-Z0-9_]*(?:\\.[a-zA-Z_][a-zA-Z0-9_]*)+)";
        match regex_captures(pattern, expression) {
            Err(e) => Err(EngineError::TemplateError(e)),
            Ok(caps) => {
                if refs_well_formed_exec(&caps) {
                    resolve_with_refs(expression, &caps, &self.variables, &self.outputs)
                } else {
                    Err(EngineError::TemplateError(String::from_str("malformed reference match")))
                }
            },
        }
    }

    /// Evaluate a boolean expression: its references resolved, then `evalexpr` over the
    /// context's variables.
    pub fn evaluate(&self, expression: &str) -> (r: Result<bool, EngineError>)
        ensures
            match resolve_references(expression@, pair_views(self.variables@), out_view(self.outputs@)) {
                Err(m) => r matches Err(EngineError::TemplateError(x)) && x@ == m,
                Ok(t) => match boolean_value(t, context_bindings(self.context)) {
                    Ok(b) => r == Ok::<bool, EngineError>(b),
                    Err(e) => r matches Err(EngineError::ExecutionError(x)) && x@ == "Expression evaluation failed: "@ + e,
                },
            },
    {
        let resolved = match self.resolve_jsonpath(expression) {
            Err(e) => return Err(e),
            Ok(t) => t,
        };
        match eval_boolean(resolved.as_str(), &self.context) {
            Ok(b) => Ok(b),
            Err(e) => {
                let mut m = String::from_str("Expression evaluation failed: ");
                push_str(&mut m, e.as_str());
                Err(EngineError::ExecutionError(m))
            },
        }
    }
}

} // verus!
