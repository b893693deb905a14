//! `{{name}}` placeholders in node expressions: finding them with a regular
//! expression, replacing them by the values of variables, and reading the result as
//! JSON or as plain text. Variables hold JSON text.

use vstd::prelude::*;
use crate::code_executor::var_value;
use crate::auth::{json_as_str, json_str_content};
use crate::engine::EngineError;
use crate::execution::str_eq;
use crate::rest::{pair_views, replace_all, replace_text};
use crate::text::{trim_seq, trim_text};

verus! {

/// What `regex::Regex::new(pattern)` and `captures_iter(text)` give: for each match, its
/// groups (group 0 the whole match, `None` for a group that took no part), or the
/// error text of an invalid pattern.
pub uninterp spec fn regex_captures_of(pattern: Seq<char>, text: Seq<char>) -> Result<Seq<Seq<Option<Seq<char>>>>, Seq<char>>;

/// The view of captured groups.
pub open spec fn groups_view(g: Seq<Option<String>>) -> Seq<Option<Seq<char>>> {
    g.map_values(|o: Option<String>| match o {
        Some(s) => Some(s@),
        None => None,
    })
}

/// The view of a list of matches.
pub open spec fn captures_view(c: Seq<Vec<Option<String>>>) -> Seq<Seq<Option<Seq<char>>>> {
    c.map_values(|g: Vec<Option<String>>| groups_view(g@))
}

/// All matches of `pattern` in `text`, each with its groups, from the `regex` crate.
#[verifier::external_body]
pub(crate) fn regex_captures(pattern: &str, text: &str) -> (r: Result<Vec<Vec<Option<String>>>, String>)
    ensures
        match r {
            Ok(c) => regex_captures_of(pattern@, text@) == Ok::<Seq<Seq<Option<Seq<char>>>>, Seq<char>>(captures_view(c@)),
            Err(e) => regex_captures_of(pattern@, text@) == Err::<Seq<Seq<Option<Seq<char>>>>, Seq<char>>(e@),
        },
{
    match regex::Regex::new(pattern) {
        Ok(re) => Ok(
            re.captures_iter(text).map(|c| c.iter().map(|g| g.map(|m| m.as_str().to_string())).collect()).collect(),
        ),
        Err(e) => Err(e.to_string()),
    }
}

/// How `serde_json` shows a JSON text in a template: a string without its quotes,
/// anything else in compact JSON (a text that is not JSON stays as it is).
pub open spec fn json_display(text: Seq<char>) -> Seq<char> {
    match json_str_content(text) {
        Some(c) => c,
        None => if json_valid(text) {
            json_compact(text)
        } else {
            text
        },
    }
}

/// The display of a variable's JSON text.
pub(crate) fn display_json(text: &str) -> (r: String)
    ensures
        r@ == json_display(text@),
{
    match json_as_str(text) {
        Some(c) => c,
        None => if is_json(text) {
            compact_json(text)
        } else {
            String::from_str(text)
        },
    }
}

/// Whether `serde_json` parses the text as a JSON value.
pub uninterp spec fn json_valid(text: Seq<char>) -> bool;

/// `serde_json::from_str::<Value>(text).is_ok()`.
#[verifier::external_body]
pub(crate) fn is_json(text: &str) -> (r: bool)
    ensures
        r == json_valid(text@),
{
    serde_json::from_str::<serde_json::Value>(text).is_ok()
}

/// A lower-case hexadecimal digit of a value below sixteen.
pub open spec fn hex_digit(n: int) -> char {
    if n < 10 {
        (48 + n) as char
    } else {
        (87 + n) as char
    }
}

/// How `serde_json` writes one character inside a string literal: the quote, the
/// backslash and the control characters are escaped, `\b \t \n \f \r` by name and the
/// other controls as `\u00XX`; every other character stands as it is.
pub open spec fn json_escaped_char(c: char) -> Seq<char> {
    let n = c as int;
    if c == '"' {
        seq!['\\', '"']
    } else if c == '\\' {
        seq!['\\', '\\']
    } else if n == 8 {
        seq!['\\', 'b']
    } else if n == 9 {
        seq!['\\', 't']
    } else if n == 10 {
        seq!['\\', 'n']
    } else if n == 12 {
        seq!['\\', 'f']
    } else if n == 13 {
        seq!['\\', 'r']
    } else if n < 32 {
        seq!['\\', 'u', '0', '0', hex_digit(n / 16), hex_digit(n % 16)]
    } else {
        seq![c]
    }
}

/// The escaped characters of a text, in order.
pub open spec fn json_escaped(s: Seq<char>) -> Seq<char>
    decreases s.len(),
{
    if s.len() == 0 {
        Seq::empty()
    } else {
        json_escaped(s.drop_last()) + json_escaped_char(s.last())
    }
}

/// The JSON string literal of a text, as `serde_json` writes it: the escaped text
/// between double quotes.
pub open spec fn json_quoted(s: Seq<char>) -> Seq<char> {
    seq!['"'] + json_escaped(s) + seq!['"']
}

/// `Value::String(s).to_string()`.
#[verifier::external_body]
pub(crate) fn quote_json(s: &str) -> (r: String)
    ensures
        r@ == json_quoted(s@),
{
    serde_json::Value::String(s.to_string()).to_string()
}

/// The items of a JSON array text, each as compact JSON text; `None` when the text is
/// not an array.
pub uninterp spec fn json_array_items(text: Seq<char>) -> Option<Seq<Seq<char>>>;

/// `serde_json::from_str::<Value>(text)`, then `as_array`, each item written back.
#[verifier::external_body]
pub(crate) fn array_items(text: &str) -> (r: Option<Vec<String>>)
    ensures
        match r {
            Some(v) => json_array_items(text@) == Some(v@.map_values(|s: String| s@)),
            None => json_array_items(text@) is None,
        },
{
    match serde_json::from_str::<serde_json::Value>(text) {
        Ok(serde_json::Value::Array(items)) => Some(items.iter().map(|v| v.to_string()).collect()),
        Ok(_) => None,
        Err(_) => None,
    }
}

/// The compact JSON text of a JSON text (unchanged when it is not JSON).
pub uninterp spec fn json_compact(text: Seq<char>) -> Seq<char>;

/// `serde_json::from_str::<Value>(text)` written back with `Value::to_string`.
#[verifier::external_body]
pub(crate) fn compact_json(text: &str) -> (r: String)
    ensures
        r@ == json_compact(text@),
{
    match serde_json::from_str::<serde_json::Value>(text) {
        Ok(v) => v.to_string(),
        Err(_) => text.to_string(),
    }
}

/// The errors a template or an expression can end in.
pub enum Failure {
    Template(Seq<char>),
    Missing(Seq<char>),
    Exec(Seq<char>),
}

/// The failure an engine error stands for.
pub open spec fn failure_of(e: EngineError) -> Option<Failure> {
    match e {
        EngineError::TemplateError(s) => Some(Failure::Template(s@)),
        EngineError::VariableNotFound(s) => Some(Failure::Missing(s@)),
        EngineError::ExecutionError(s) => Some(Failure::Exec(s@)),
        _ => None,
    }
}

/// An engine error is the given failure.
pub open spec fn is_failure(e: EngineError, f: Failure) -> bool {
    failure_of(e) == Some(f)
}

/// The pattern of a placeholder.
pub open spec fn placeholder_pattern() -> Seq<char> {
    "\\{\\{([^}]+)\\}\\}"@
}

/// The pattern of a text that is one placeholder and nothing else.
pub open spec fn whole_placeholder_pattern() -> Seq<char> {
    "^\\{\\{([^}]+)\\}\\}$"@
}

/// Each match has a non-empty whole match and a first group.
pub open spec fn captures_well_formed(caps: Seq<Seq<Option<Seq<char>>>>) -> bool {
    forall|i: int|
        0 <= i < caps.len() ==> {
            &&& (#[trigger] caps[i]).len() >= 2
            &&& caps[i][0] is Some
            &&& caps[i][1] is Some
            &&& caps[i][0].unwrap().len() > 0
        }
}

/// Replace, match after match, every occurrence of the whole match by the display of the
/// variable named by the trimmed group; a missing variable ends it.
pub open spec fn resolve_caps(text: Seq<char>, caps: Seq<Seq<Option<Seq<char>>>>, vars: Seq<(Seq<char>, Seq<char>)>) -> Result<
    Seq<char>,
    Failure,
>
    decreases caps.len(),
{
    if caps.len() == 0 {
        Ok(text)
    } else {
        match resolve_caps(text, caps.drop_last(), vars) {
            Err(f) => Err(f),
            Ok(r) => {
                let cap = caps.last();
                let name = trim_seq(cap[1].unwrap());
                match var_value(vars, name) {
                    Some(v) => Ok(replace_all(r, cap[0].unwrap(), json_display(v))),
                    None => Err(Failure::Missing(name)),
                }
            },
        }
    }
}

/// The text of a template with its placeholders replaced.
pub open spec fn resolve_spec(template: Seq<char>, vars: Seq<(Seq<char>, Seq<char>)>) -> Result<Seq<char>, Failure> {
    match regex_captures_of(placeholder_pattern(), template) {
        Err(e) => Err(Failure::Template(e)),
        Ok(caps) => if captures_well_formed(caps) {
            resolve_caps(template, caps, vars)
        } else {
            Err(Failure::Template("malformed placeholder match"@))
        },
    }
}

/// A string result and an error meet a specified outcome.
pub open spec fn text_outcome(r: Result<String, EngineError>, s: Result<Seq<char>, Failure>) -> bool {
    match s {
        Ok(x) => r matches Ok(v) && v@ == x,
        Err(f) => r matches Err(e) && is_failure(e, f),
    }
}

fn well_formed_exec(caps: &Vec<Vec<Option<String>>>) -> (r: bool)
    ensures
        r == captures_well_formed(captures_view(caps@)),
{
    let ghost cv = captures_view(caps@);
    let mut i: usize = 0;
    while i < caps.len()
        invariant
            i <= caps@.len(),
            cv == captures_view(caps@),
            forall|k: int|
                0 <= k < i ==> {
                    &&& (#[trigger] cv[k]).len() >= 2
                    &&& cv[k][0] is Some
                    &&& cv[k][1] is Some
                    &&& cv[k][0].unwrap().len() > 0
                },
        decreases caps.len() - i,
    {
        let g = &caps[i];
        proof {
            assert(cv[i as int] == groups_view(g@));
        }
        if g.len() < 2 {
            return false;
        }
        proof {
            assert(groups_view(g@)[0] == (match g@[0] { Some(s) => Some(s@), None => None::<Seq<char>> }));
            assert(groups_view(g@)[1] == (match g@[1] { Some(s) => Some(s@), None => None::<Seq<char>> }));
        }
        match &g[0] {
            None => {
                return false;
            },
            Some(whole) => {
                if whole.as_str().unicode_len() == 0 {
                    return false;
                }
            },
        }
        if g[1].is_none() {
            return false;
        }
        i = i + 1;
    }
    true
}

/// The JSON text of the first variable named `name`.
pub fn find_variable(vars: &Vec<(String, String)>, name: &str) -> (r: Option<String>)
    ensures
        match r {
            Some(v) => var_value(pair_views(vars@), name@) == Some(v@),
            None => var_value(pair_views(vars@), name@) is None,
        },
{
    let ghost s = pair_views(vars@);
    let mut i: usize = 0;
    while i < vars.len()
        invariant
            i <= vars@.len(),
            s == pair_views(vars@),
            forall|j: int| 0 <= j < i ==> #[trigger] s[j].0 != name@,
        decreases vars.len() - i,
    {
        if str_eq(vars[i].0.as_str(), name) {
            proof {
                assert(crate::rest::is_first_key(s, name@, i as int));
                let c = choose|c: int| #[trigger] crate::rest::is_first_key(s, name@, c);
                assert(crate::rest::is_first_key(s, name@, c));
                if c < i {
                    assert(s[c].0 != name@);
                } else if c > i {
                    assert(s[i as int].0 != name@);
                }
            }
            return Some(vars[i].1.clone());
        }
        i = i + 1;
    }
    proof {
        assert(!exists|c: int| #[trigger] crate::rest::is_first_key(s, name@, c));
    }
    None
}

/// Replace the placeholders of `template` given the regular-expression matches of them:
/// each whole match, everywhere in the text, by the display of the variable its
/// trimmed name refers to. A missing variable is an error.
pub fn resolve_with_captures(template: &str, caps: &Vec<Vec<Option<String>>>, vars: &Vec<(String, String)>) -> (r: Result<String, EngineError>)
    requires
        captures_well_formed(captures_view(caps@)),
    ensures
        text_outcome(r, resolve_caps(template@, captures_view(caps@), pair_views(vars@))),
{
    let ghost cv = captures_view(caps@);
    let ghost pv = pair_views(vars@);
    let mut result = String::from_str(template);
    let mut i: usize = 0;
    while i < caps.len()
        invariant
            i <= caps@.len(),
            cv == captures_view(caps@),
            pv == pair_views(vars@),
            captures_well_formed(cv),
            resolve_caps(template@, cv.take(i as int), pv) == Ok::<Seq<char>, Failure>(result@),
        decreases caps.len() - i,
    {
        let g = &caps[i];
        proof {
            assert(cv.take(i + 1).drop_last() =~= cv.take(i as int));
            assert(cv[i as int] == groups_view(g@));
            assert(cv.take(i + 1).last() == cv[i as int]);
            assert(cv[i as int].len() >= 2);
            assert(groups_view(g@)[0] == (match g@[0] { Some(s) => Some(s@), None => None::<Seq<char>> }));
            assert(groups_view(g@)[1] == (match g@[1] { Some(s) => Some(s@), None => None::<Seq<char>> }));
        }
        let whole = match &g[0] {
            Some(w) => w,
            None => {
                proof {
                    assert(cv[i as int][0] is Some);
                }
                return Err(EngineError::TemplateError(String::from_str("malformed placeholder match")));
            },
        };
        let inner = match &g[1] {
            Some(w) => w,
            None => {
                proof {
                    assert(cv[i as int][1] is Some);
                }
                return Err(EngineError::TemplateError(String::from_str("malformed placeholder match")));
            },
        };
        let name = trim_text(inner.as_str());
        match find_variable(vars, name.as_str()) {
            Some(v) => {
                let shown = display_json(v.as_str());
                proof {
                    assert(cv[i as int][0].unwrap().len() > 0);
                }
                result = replace_text(result.as_str(), whole.as_str(), shown.as_str());
            },
            None => {
                proof {
                    assert(resolve_caps(template@, cv.take(i + 1), pv) is Err);
                    lemma_resolve_err_prefix(template@, cv, pv, i + 1);
                }
                return Err(EngineError::VariableNotFound(name));
            },
        }
        i = i + 1;
    }
    assert(cv.take(cv.len() as int) =~= cv);
    Ok(result)
}

proof fn lemma_resolve_err_prefix(text: Seq<char>, caps: Seq<Seq<Option<Seq<char>>>>, vars: Seq<(Seq<char>, Seq<char>)>, n: int)
    requires
        0 <= n <= caps.len(),
        resolve_caps(text, caps.take(n), vars) is Err,
    ensures
        resolve_caps(text, caps, vars) == resolve_caps(text, caps.take(n), vars),
    decreases caps.len() - n,
{
    if n < caps.len() {
        assert(caps.take(n + 1).drop_last() =~= caps.take(n));
        lemma_resolve_err_prefix(text, caps, vars, n + 1);
    } else {
        assert(caps.take(n) =~= caps);
    }
}

/// Replace the `{{name}}` placeholders of a template by the displays of the variables.
pub fn resolve_template(template: &str, vars: &Vec<(String, String)>) -> (r: Result<String, EngineError>)
    ensures
        text_outcome(r, resolve_spec(template@, pair_views(vars@))),
{
    let pattern = "\\{\\{([^}]+)\\}\\}";
    match regex_captures(pattern, template) {
        Err(e) => Err(EngineError::TemplateError(e)),
        Ok(caps) => {
            if well_formed_exec(&caps) {
                resolve_with_captures(template, &caps, vars)
            } else {
                Err(EngineError::TemplateError(String::from_str("malformed placeholder match")))
            }
        },
    }
}

/// The value of an expression: JSON when the resolved text parses as JSON, else text.
#[derive(Debug, Clone, PartialEq, Eq)]
pub enum ExprValue {
    Json(String),
    Text(String),
}

/// Whether a value is JSON, and its text.
pub open spec fn expr_view(v: ExprValue) -> (bool, Seq<char>) {
    match v {
        ExprValue::Json(s) => (true, s@),
        ExprValue::Text(s) => (false, s@),
    }
}

/// The value of an expression: its template resolved, read as JSON if it parses.
pub open spec fn expr_spec(expr: Seq<char>, vars: Seq<(Seq<char>, Seq<char>)>) -> Result<(bool, Seq<char>), Failure> {
    match resolve_spec(expr, vars) {
        Err(f) => Err(f),
        Ok(t) => Ok((json_valid(t), t)),
    }
}

/// A value result and an error meet a specified outcome.
pub open spec fn value_outcome(r: Result<ExprValue, EngineError>, s: Result<(bool, Seq<char>), Failure>) -> bool {
    match s {
        Ok(x) => r matches Ok(v) && expr_view(v) == x,
        Err(f) => r matches Err(e) && is_failure(e, f),
    }
}

/// Evaluate an expression: resolve its placeholders, then take the text as JSON when it
/// parses, as plain text otherwise.
pub fn execute_expression(expr: &str, vars: &Vec<(String, String)>) -> (r: Result<ExprValue, EngineError>)
    ensures
        value_outcome(r, expr_spec(expr@, pair_views(vars@))),
{
    match resolve_template(expr, vars) {
        Err(e) => Err(e),
        Ok(t) => {
            if is_json(t.as_str()) {
                Ok(ExprValue::Json(t))
            } else {
                Ok(ExprValue::Text(t))
            }
        },
    }
}

} // verus!
