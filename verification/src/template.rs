//! Workflow templates: a workflow JSON text with `{{name}}` placeholders and the
//! parameters that fill them, with the checks made on the values given.

use vstd::prelude::*;
use crate::code_executor::{find_var, var_value};
use crate::execution::str_eq;
use crate::executors::push_str;
use crate::ids::{new_id, now_millis};
use crate::rest::{pair_views, placeholder, replace_all, replace_text};
use crate::templating::{display_json, json_display, json_quoted, quote_json};
use crate::text::{byte_len, chars_of, decimal, push_range, str_byte_len, trim_seq, trim_text, u64_to_string};

verus! {

broadcast use vstd::string::group_string_axioms;

/// The type of a template parameter.
#[derive(Debug, Clone, Copy, PartialEq, Eq, Structural)]
pub enum ParameterType {
    String,
    Integer,
    Float,
    Boolean,
    Object,
    Array,
    Enum,
    Secret,
    Model,
    Collection,
}

/// The name of a parameter type, as its `Debug` output shows it.
pub open spec fn parameter_type_label(t: ParameterType) -> Seq<char> {
    match t {
        ParameterType::String => "String"@,
        ParameterType::Integer => "Integer"@,
        ParameterType::Float => "Float"@,
        ParameterType::Boolean => "Boolean"@,
        ParameterType::Object => "Object"@,
        ParameterType::Array => "Array"@,
        ParameterType::Enum => "Enum"@,
        ParameterType::Secret => "Secret"@,
        ParameterType::Model => "Model"@,
        ParameterType::Collection => "Collection"@,
    }
}

fn parameter_type_label_exec(t: ParameterType) -> (r: String)
    ensures
        r@ == parameter_type_label(t),
{
    match t {
        ParameterType::String => String::from_str("String"),
        ParameterType::Integer => String::from_str("Integer"),
        ParameterType::Float => String::from_str("Float"),
        ParameterType::Boolean => String::from_str("Boolean"),
        ParameterType::Object => String::from_str("Object"),
        ParameterType::Array => String::from_str("Array"),
        ParameterType::Enum => String::from_str("Enum"),
        ParameterType::Secret => String::from_str("Secret"),
        ParameterType::Model => String::from_str("Model"),
        ParameterType::Collection => String::from_str("Collection"),
    }
}

/// What kind of JSON value a text holds.
#[derive(Debug, Clone, Copy, PartialEq, Eq, Structural)]
pub enum JsonKind {
    Null,
    Bool,
    /// A number that is an `i64` or a `u64`.
    Integer,
    /// Any other number.
    Float,
    Str,
    Array,
    Object,
}

/// The variant of the JSON value of a text, before numbers are told apart.
#[derive(Debug, Clone, Copy, PartialEq, Eq, Structural)]
pub enum JsonVariant {
    Null,
    Bool,
    Number,
    Str,
    Array,
    Object,
}

/// The variant of the JSON value of a text, `None` when `serde_json` does not parse it.
pub uninterp spec fn json_variant_of(text: Seq<char>) -> Option<JsonVariant>;

/// `serde_json::from_str::<Value>`, then the variant.
#[verifier::external_body]
fn json_variant(text: &str) -> (r: Option<JsonVariant>)
    ensures
        r == json_variant_of(text@),
{
    match serde_json::from_str::<serde_json::Value>(text) {
        Err(_) => None,
        Ok(serde_json::Value::Null) => Some(JsonVariant::Null),
        Ok(serde_json::Value::Bool(_)) => Some(JsonVariant::Bool),
        Ok(serde_json::Value::Number(_)) => Some(JsonVariant::Number),
        Ok(serde_json::Value::String(_)) => Some(JsonVariant::Str),
        Ok(serde_json::Value::Array(_)) => Some(JsonVariant::Array),
        Ok(serde_json::Value::Object(_)) => Some(JsonVariant::Object),
    }
}

/// Whether the number of a JSON text is held as a float (`Number::is_f64`), `None` when
/// the text is not a JSON number.
pub uninterp spec fn json_float_repr(text: Seq<char>) -> Option<bool>;

/// `serde_json::from_str::<Value>`, then `Value::as_number` and `Number::is_f64`.
#[verifier::external_body]
fn json_is_f64(text: &str) -> (r: Option<bool>)
    ensures
        r == json_float_repr(text@),
{
    serde_json::from_str::<serde_json::Value>(text).ok().and_then(|v| v.as_number().map(|n| n.is_f64()))
}

/// The kind of the JSON value of a text, `None` when `serde_json` does not parse it; a
/// number not held as a float is an integer (an `i64` or a `u64`).
pub open spec fn json_kind_of(text: Seq<char>) -> Option<JsonKind> {
    match json_variant_of(text) {
        None => None,
        Some(JsonVariant::Null) => Some(JsonKind::Null),
        Some(JsonVariant::Bool) => Some(JsonKind::Bool),
        Some(JsonVariant::Number) => Some(
            if json_float_repr(text) == Some(true) {
                JsonKind::Float
            } else {
                JsonKind::Integer
            },
        ),
        Some(JsonVariant::Str) => Some(JsonKind::Str),
        Some(JsonVariant::Array) => Some(JsonKind::Array),
        Some(JsonVariant::Object) => Some(JsonKind::Object),
    }
}

/// The kind of the JSON value of a text.
pub(crate) fn json_kind(text: &str) -> (r: Option<JsonKind>)
    ensures
        r == json_kind_of(text@),
{
    match json_variant(text) {
        None => None,
        Some(JsonVariant::Null) => Some(JsonKind::Null),
        Some(JsonVariant::Bool) => Some(JsonKind::Bool),
        Some(JsonVariant::Number) => {
            if json_is_f64(text) == Some(true) {
                Some(JsonKind::Float)
            } else {
                Some(JsonKind::Integer)
            }
        },
        Some(JsonVariant::Str) => Some(JsonKind::Str),
        Some(JsonVariant::Array) => Some(JsonKind::Array),
        Some(JsonVariant::Object) => Some(JsonKind::Object),
    }
}

/// Whether the number of one JSON text is below that of another, both read as `f64`
/// (`Value::as_f64`); `None` when either is not a number.
pub uninterp spec fn json_number_less(a: Seq<char>, b: Seq<char>) -> Option<bool>;

/// `as_f64` of both texts, then `<`.
#[verifier::external_body]
pub(crate) fn number_less(a: &str, b: &str) -> (r: Option<bool>)
    ensures
        r == json_number_less(a@, b@),
{
    let x = serde_json::from_str::<serde_json::Value>(a).ok()?.as_f64()?;
    let y = serde_json::from_str::<serde_json::Value>(b).ok()?.as_f64()?;
    Some(x < y)
}

/// How an `f64` read from a JSON number text is displayed (`{}`), `None` when the text
/// is not a number.
pub uninterp spec fn json_number_shown(text: Seq<char>) -> Option<Seq<char>>;

/// `as_f64`, then `to_string`.
#[verifier::external_body]
pub(crate) fn number_shown(text: &str) -> (r: Option<String>)
    ensures
        match r {
            Some(s) => json_number_shown(text@) == Some(s@),
            None => json_number_shown(text@) is None,
        },
{
    serde_json::from_str::<serde_json::Value>(text).ok()?.as_f64().map(|x| x.to_string())
}

/// Whether two JSON texts hold equal values (`Value` equality); `false` when either
/// does not parse.
pub uninterp spec fn json_same(a: Seq<char>, b: Seq<char>) -> bool;

/// Parse both texts and compare the values.
#[verifier::external_body]
pub(crate) fn same_json(a: &str, b: &str) -> (r: bool)
    ensures
        r == json_same(a@, b@),
{
    match (serde_json::from_str::<serde_json::Value>(a), serde_json::from_str::<serde_json::Value>(b)) {
        (Ok(x), Ok(y)) => x == y,
        _ => false,
    }
}

/// The `Debug` output of a list of JSON values given as texts (a text that does not
/// parse shows as `Null`).
pub uninterp spec fn json_values_debug(items: Seq<Seq<char>>) -> Seq<char>;

/// Parse each text, then `format!("{:?}", values)`.
#[verifier::external_body]
fn values_debug(items: &Vec<String>) -> (r: String)
    ensures
        r@ == json_values_debug(items@.map_values(|s: String| s@)),
{
    let values: Vec<serde_json::Value> = items.iter().map(|t| serde_json::from_str(t).unwrap_or_default()).collect();
    format!("{:?}", values)
}

/// Range and length rules of a parameter. Numeric bounds are JSON number texts.
#[derive(Debug, Clone, Default)]
pub struct ParameterValidation {
    pub min: Option<String>,
    pub max: Option<String>,
    pub min_length: Option<usize>,
    pub max_length: Option<usize>,
    pub pattern: Option<String>,
    pub message: Option<String>,
}

/// A parameter of a template. Values are JSON texts.
#[derive(Debug, Clone)]
pub struct TemplateParameter {
    pub name: String,
    pub label: String,
    pub description: Option<String>,
    pub param_type: ParameterType,
    pub default_value: Option<String>,
    pub required: bool,
    pub validation: Option<ParameterValidation>,
    pub allowed_values: Vec<String>,
    pub group: Option<String>,
    pub order: u32,
}

/// A parameter with a name, label and type, and nothing else set.
pub open spec fn plain_parameter(p: TemplateParameter, name: Seq<char>, label: Seq<char>, t: ParameterType) -> bool {
    &&& p.name@ == name
    &&& p.label@ == label
    &&& p.description is None
    &&& p.param_type == t
    &&& p.default_value is None
    &&& !p.required
    &&& p.validation is None
    &&& p.group is None
    &&& p.order == 0
}

impl TemplateParameter {
    fn plain(name: &str, label: &str, t: ParameterType) -> (r: Self)
        ensures
            plain_parameter(r, name@, label@, t),
            r.allowed_values@.len() == 0,
    {
        TemplateParameter {
            name: String::from_str(name),
            label: String::from_str(label),
            description: None,
            param_type: t,
            default_value: None,
            required: false,
            validation: None,
            allowed_values: Vec::new(),
            group: None,
            order: 0,
        }
    }

    /// A string parameter.
    pub fn string(name: &str, label: &str) -> (r: Self)
        ensures
            plain_parameter(r, name@, label@, ParameterType::String),
            r.allowed_values@.len() == 0,
    {
        Self::plain(name, label, ParameterType::String)
    }

    /// An integer parameter.
    pub fn integer(name: &str, label: &str) -> (r: Self)
        ensures
            plain_parameter(r, name@, label@, ParameterType::Integer),
            r.allowed_values@.len() == 0,
    {
        Self::plain(name, label, ParameterType::Integer)
    }

    /// A boolean parameter.
    pub fn boolean(name: &str, label: &str) -> (r: Self)
        ensures
            plain_parameter(r, name@, label@, ParameterType::Boolean),
            r.allowed_values@.len() == 0,
    {
        Self::plain(name, label, ParameterType::Boolean)
    }

    /// A model-selection parameter.
    pub fn model(name: &str, label: &str) -> (r: Self)
        ensures
            plain_parameter(r, name@, label@, ParameterType::Model),
            r.allowed_values@.len() == 0,
    {
        Self::plain(name, label, ParameterType::Model)
    }

    /// An enumeration parameter whose allowed values are the given strings.
    pub fn enumeration(name: &str, label: &str, allowed: Vec<&str>) -> (r: Self)
        ensures
            plain_parameter(r, name@, label@, ParameterType::Enum),
            r.allowed_values@.len() == allowed@.len(),
            forall|i: int| 0 <= i < allowed@.len() ==> (#[trigger] r.allowed_values@[i])@ == json_quoted(allowed@[i]@),
    {
        let mut p = Self::plain(name, label, ParameterType::Enum);
        let mut i: usize = 0;
        while i < allowed.len()
            invariant
                i <= allowed@.len(),
                plain_parameter(p, name@, label@, ParameterType::Enum),
                p.allowed_values@.len() == i,
                forall|k: int| 0 <= k < i ==> (#[trigger] p.allowed_values@[k])@ == json_quoted(allowed@[k]@),
            decreases allowed.len() - i,
        {
            p.allowed_values.push(quote_json(allowed[i]));
            i = i + 1;
        }
        p
    }

    /// Mark as required.
    pub fn required(self) -> (r: Self)
        ensures
            r == (TemplateParameter { required: true, ..self }),
    {
        TemplateParameter { required: true, ..self }
    }

    /// Set the default value (a JSON text).
    pub fn with_default(self, value: String) -> (r: Self)
        ensures
            r == (TemplateParameter { default_value: Some(value), ..self }),
    {
        TemplateParameter { default_value: Some(value), ..self }
    }

    /// Set the description.
    pub fn with_description(self, desc: &str) -> (r: Self)
        ensures
            r.description matches Some(d) && d@ == desc@,
            r == (TemplateParameter { description: r.description, ..self }),
    {
        TemplateParameter { description: Some(String::from_str(desc)), ..self }
    }

    /// Set the validation rules.
    pub fn with_validation(self, validation: ParameterValidation) -> (r: Self)
        ensures
            r == (TemplateParameter { validation: Some(validation), ..self }),
    {
        TemplateParameter { validation: Some(validation), ..self }
    }

    /// Set the group.
    pub fn in_group(self, group: &str) -> (r: Self)
        ensures
            r.group matches Some(g) && g@ == group@,
            r == (TemplateParameter { group: r.group, ..self }),
    {
        TemplateParameter { group: Some(String::from_str(group)), ..self }
    }

    /// Set the display order.
    pub fn with_order(self, order: u32) -> (r: Self)
        ensures
            r == (TemplateParameter { order, ..self }),
    {
        TemplateParameter { order, ..self }
    }
}

/// A workflow template. Times are milliseconds since the UNIX epoch.
#[derive(Debug, Clone)]
pub struct WorkflowTemplate {
    pub id: u128,
    pub name: String,
    pub description: Option<String>,
    pub category: Option<String>,
    pub tags: Vec<String>,
    pub version: String,
    pub parameters: Vec<TemplateParameter>,
    /// The workflow JSON text with `{{name}}` placeholders.
    pub workflow_json: String,
    pub author: Option<String>,
    pub created_at: i64,
    pub updated_at: i64,
    pub usage_count: u64,
    pub is_public: bool,
    pub owner_id: Option<u128>,
}

/// Whether a value of the given kind has the parameter's type.
pub open spec fn type_accepts(t: ParameterType, k: Option<JsonKind>) -> bool {
    match t {
        ParameterType::String | ParameterType::Secret | ParameterType::Model | ParameterType::Collection => k == Some(JsonKind::Str),
        ParameterType::Integer => k == Some(JsonKind::Integer),
        ParameterType::Float => k == Some(JsonKind::Integer) || k == Some(JsonKind::Float),
        ParameterType::Boolean => k == Some(JsonKind::Bool),
        ParameterType::Object => k == Some(JsonKind::Object),
        ParameterType::Array => k == Some(JsonKind::Array),
        ParameterType::Enum => true,
    }
}

/// `Parameter '<name>'` and the rest of a message.
pub open spec fn about(name: Seq<char>, rest: Seq<char>) -> Seq<char> {
    "Parameter '"@ + name + rest
}

/// The first range or length rule a value breaks, as a message.
pub open spec fn value_problem(value: Seq<char>, v: ParameterValidation, name: Seq<char>) -> Option<Seq<char>> {
    let k = json_kind_of(value);
    let is_number = k == Some(JsonKind::Integer) || k == Some(JsonKind::Float);
    if is_number && (v.min matches Some(m) && json_number_less(value, m@) == Some(true)) {
        Some(about(name, "' must be >= "@ + shown_bound(v.min.unwrap()@)))
    } else if is_number && (v.max matches Some(m) && json_number_less(m@, value) == Some(true)) {
        Some(about(name, "' must be <= "@ + shown_bound(v.max.unwrap()@)))
    } else if k == Some(JsonKind::Str) && (v.min_length matches Some(n) && byte_len(json_str_of(value)) < n) {
        Some(about(name, "' must be at least "@ + decimal(v.min_length.unwrap() as nat) + " characters"@))
    } else if k == Some(JsonKind::Str) && (v.max_length matches Some(n) && byte_len(json_str_of(value)) > n) {
        Some(about(name, "' must be at most "@ + decimal(v.max_length.unwrap() as nat) + " characters"@))
    } else {
        None
    }
}

/// How a bound is shown in a message: as the `f64` it holds, or as written when it is
/// not a number.
pub open spec fn shown_bound(b: Seq<char>) -> Seq<char> {
    match json_number_shown(b) {
        Some(s) => s,
        None => b,
    }
}

/// The text of a JSON string value.
pub open spec fn json_str_of(value: Seq<char>) -> Seq<char> {
    json_display(value)
}

/// Whether a value is one of the allowed values.
pub open spec fn allowed_contains(allowed: Seq<Seq<char>>, value: Seq<char>) -> bool {
    exists|i: int| 0 <= i < allowed.len() && json_same(#[trigger] allowed[i], value)
}

/// The type message for a given value, if its kind does not fit.
pub open spec fn type_errors(p: TemplateParameter, value: Seq<char>) -> Seq<Seq<char>> {
    if type_accepts(p.param_type, json_kind_of(value)) {
        Seq::empty()
    } else {
        seq![about(p.name@, "' has invalid type, expected "@ + parameter_type_label(p.param_type))]
    }
}

/// The range or length message for a given value, if it breaks a rule.
pub open spec fn range_errors(p: TemplateParameter, value: Seq<char>) -> Seq<Seq<char>> {
    match p.validation {
        Some(v) => match value_problem(value, v, p.name@) {
            Some(m) => seq![m],
            None => Seq::empty(),
        },
        None => Seq::empty(),
    }
}

/// The enumeration message for a given value, if it is not allowed.
pub open spec fn enum_errors(p: TemplateParameter, value: Seq<char>) -> Seq<Seq<char>> {
    let allowed = p.allowed_values@.map_values(|s: String| s@);
    if p.param_type == ParameterType::Enum && allowed.len() > 0 && !allowed_contains(allowed, value) {
        seq![about(p.name@, "' must be one of: "@ + json_values_debug(allowed))]
    } else {
        Seq::empty()
    }
}

/// The messages for one parameter given the values.
pub open spec fn parameter_errors(p: TemplateParameter, values: Seq<(Seq<char>, Seq<char>)>) -> Seq<Seq<char>> {
    match var_value(values, p.name@) {
        None => if p.required {
            seq!["Required parameter '"@ + p.name@ + "' is missing"@]
        } else {
            Seq::empty()
        },
        Some(value) => type_errors(p, value) + range_errors(p, value) + enum_errors(p, value),
    }
}

/// The messages for all parameters, in order.
pub open spec fn validation_errors(ps: Seq<TemplateParameter>, values: Seq<(Seq<char>, Seq<char>)>) -> Seq<Seq<char>>
    decreases ps.len(),
{
    if ps.len() == 0 {
        Seq::empty()
    } else {
        validation_errors(ps.drop_last(), values) + parameter_errors(ps.last(), values)
    }
}

/// The text each parameter's placeholder is replaced by: the value given, else the
/// default, shown as a template shows JSON; the empty text when there is neither.
pub open spec fn fill_value(p: TemplateParameter, values: Seq<(Seq<char>, Seq<char>)>) -> Seq<char> {
    match var_value(values, p.name@) {
        Some(v) => json_display(v),
        None => match p.default_value {
            Some(d) => json_display(d@),
            None => Seq::empty(),
        },
    }
}

/// The workflow text with the placeholders of the parameters replaced, one parameter
/// after the other.
pub open spec fn filled(text: Seq<char>, ps: Seq<TemplateParameter>, values: Seq<(Seq<char>, Seq<char>)>) -> Seq<char>
    decreases ps.len(),
{
    if ps.len() == 0 {
        text
    } else {
        replace_all(filled(text, ps.drop_last(), values), placeholder(ps.last().name@), fill_value(ps.last(), values))
    }
}

/// The `, `-joined messages.
pub open spec fn joined(ms: Seq<Seq<char>>) -> Seq<char>
    decreases ms.len(),
{
    if ms.len() == 0 {
        Seq::empty()
    } else if ms.len() == 1 {
        ms[0]
    } else {
        joined(ms.drop_last()) + ", "@ + ms.last()
    }
}

/// The index of the first `}}` at or after `from`.
pub open spec fn first_close(c: Seq<char>, from: int) -> Option<int>
    decreases c.len() - from,
{
    if from < 0 || from + 1 >= c.len() {
        None
    } else if c[from] == '}' && c[from + 1] == '}' {
        Some(from)
    } else {
        first_close(c, from + 1)
    }
}

pub proof fn lemma_first_close_bounds(c: Seq<char>, from: int)
    ensures
        first_close(c, from) matches Some(e) ==> from <= e && e + 1 < c.len(),
    decreases c.len() - from,
{
    if from >= 0 && from + 1 < c.len() && !(c[from] == '}' && c[from + 1] == '}') {
        lemma_first_close_bounds(c, from + 1);
    }
}

/// The placeholder names found scanning from `i`: at each `{{` (before the last three
/// characters) the trimmed text up to the next `}}` is added if non-empty and new, and
/// the scan goes on after that `}}`.
pub open spec fn scan_placeholders(c: Seq<char>, i: int, acc: Seq<Seq<char>>) -> Seq<Seq<char>>
    decreases c.len() - i,
{
    if i < 0 || i >= c.len() - 3 {
        acc
    } else if c[i] == '{' && c[i + 1] == '{' {
        match first_close(c, i + 2) {
            Some(e) => {
                proof {
                    lemma_first_close_bounds(c, i + 2);
                }
                let name = trim_seq(c.subrange(i + 2, e));
                scan_placeholders(c, e + 2, if name.len() > 0 && !acc.contains(name) { acc.push(name) } else { acc })
            },
            None => acc,
        }
    } else {
        scan_placeholders(c, i + 1, acc)
    }
}

/// The views of a list of strings.
pub open spec fn str_views(s: Seq<String>) -> Seq<Seq<char>> {
    s.map_values(|x: String| x@)
}

fn contains_str(v: &Vec<String>, s: &str) -> (r: bool)
    ensures
        r == str_views(v@).contains(s@),
{
    let mut i: usize = 0;
    while i < v.len()
        invariant
            i <= v@.len(),
            forall|k: int| 0 <= k < i ==> str_views(v@)[k] != s@,
        decreases v.len() - i,
    {
        if str_eq(v[i].as_str(), s) {
            assert(str_views(v@)[i as int] == s@);
            return true;
        }
        i = i + 1;
    }
    proof {
        if str_views(v@).contains(s@) {
            let k = choose|k: int| 0 <= k < str_views(v@).len() && str_views(v@)[k] == s@;
            assert(str_views(v@)[k] != s@);
        }
    }
    false
}

fn find_close(c: &Vec<char>, start: usize) -> (r: usize)
    requires
        start < c@.len(),
    ensures
        start <= r < c@.len(),
        first_close(c@, start as int) == (if r + 1 < c@.len() { Some(r as int) } else { None::<int> }),
{
    let mut end = start;
    while end < c.len() - 1 && !(c[end] == '}' && c[end + 1] == '}')
        invariant
            start <= end < c@.len(),
            first_close(c@, start as int) == first_close(c@, end as int),
        decreases c.len() - end,
    {
        end = end + 1;
    }
    end
}

impl WorkflowTemplate {
    /// A template with the given identity and creation time, version `1.0.0`, no
    /// parameters, private and never used.
    pub fn new_with(id: u128, name: String, workflow_json: String, now: i64) -> (r: Self)
        ensures
            r.id == id,
            r.name == name,
            r.workflow_json == workflow_json,
            r.version@ == "1.0.0"@,
            r.parameters@.len() == 0,
            r.tags@.len() == 0,
            r.description is None && r.category is None && r.author is None && r.owner_id is None,
            r.created_at == now && r.updated_at == now,
            r.usage_count == 0,
            !r.is_public,
    {
        WorkflowTemplate {
            id,
            name,
            description: None,
            category: None,
            tags: Vec::new(),
            version: String::from_str("1.0.0"),
            parameters: Vec::new(),
            workflow_json,
            author: None,
            created_at: now,
            updated_at: now,
            usage_count: 0,
            is_public: false,
            owner_id: None,
        }
    }

    /// A template with a fresh identifier, created now.
    pub fn new(name: String, workflow_json: String) -> (r: Self)
        ensures
            r.name == name,
            r.workflow_json == workflow_json,
            r.version@ == "1.0.0"@,
            r.parameters@.len() == 0,
            r.tags@.len() == 0,
            r.created_at == r.updated_at,
            r.usage_count == 0,
            !r.is_public,
    {
        let id = new_id();
        let now = now_millis();
        Self::new_with(id, name, workflow_json, now)
    }

    /// Add a parameter at the end.
    pub fn add_parameter(&mut self, param: TemplateParameter)
        ensures
            final(self).parameters@ == old(self).parameters@.push(param),
            final(self).workflow_json == old(self).workflow_json,
            final(self).name == old(self).name,
    {
        self.parameters.push(param);
    }

    fn validate_value(value: &str, validation: &ParameterValidation, name: &str) -> (r: Option<String>)
        ensures
            match value_problem(value@, *validation, name@) {
                Some(m) => r matches Some(x) && x@ == m,
                None => r is None,
            },
    {
        let k = json_kind(value);
        let is_number = k == Some(JsonKind::Integer) || k == Some(JsonKind::Float);
        if is_number {
            if let Some(min) = &validation.min {
                if number_less(value, min.as_str()) == Some(true) {
                    let mut m = String::from_str("Parameter '");
                    push_str(&mut m, name);
                    push_str(&mut m, "' must be >= ");
                    match number_shown(min.as_str()) {
                        Some(s) => push_str(&mut m, s.as_str()),
                        None => push_str(&mut m, min.as_str()),
                    }
                    return Some(m);
                }
            }
            if let Some(max) = &validation.max {
                if number_less(max.as_str(), value) == Some(true) {
                    let mut m = String::from_str("Parameter '");
                    push_str(&mut m, name);
                    push_str(&mut m, "' must be <= ");
                    match number_shown(max.as_str()) {
                        Some(s) => push_str(&mut m, s.as_str()),
                        None => push_str(&mut m, max.as_str()),
                    }
                    return Some(m);
                }
            }
        }
        if k == Some(JsonKind::Str) {
            let text = display_json(value);
            let len = str_byte_len(text.as_str());
            if let Some(min_len) = validation.min_length {
                if len < min_len {
                    let mut m = String::from_str("Parameter '");
                    push_str(&mut m, name);
                    push_str(&mut m, "' must be at least ");
                    let d = u64_to_string(min_len as u64);
                    push_str(&mut m, d.as_str());
                    push_str(&mut m, " characters");
                    return Some(m);
                }
            }
            if let Some(max_len) = validation.max_length {
                if len > max_len {
                    let mut m = String::from_str("Parameter '");
                    push_str(&mut m, name);
                    push_str(&mut m, "' must be at most ");
                    let d = u64_to_string(max_len as u64);
                    push_str(&mut m, d.as_str());
                    push_str(&mut m, " characters");
                    return Some(m);
                }
            }
        }
        None
    }

    fn allowed_has(allowed: &Vec<String>, value: &str) -> (r: bool)
        ensures
            r == allowed_contains(allowed@.map_values(|s: String| s@), value@),
    {
        let ghost av = allowed@.map_values(|s: String| s@);
        let mut i: usize = 0;
        while i < allowed.len()
            invariant
                i <= allowed@.len(),
                av == allowed@.map_values(|s: String| s@),
                forall|k: int| 0 <= k < i ==> !json_same(#[trigger] av[k], value@),
            decreases allowed.len() - i,
        {
            if same_json(allowed[i].as_str(), value) {
                assert(json_same(av[i as int], value@));
                return true;
            }
            i = i + 1;
        }
        false
    }

    fn parameter_messages(p: &TemplateParameter, values: &Vec<(String, String)>) -> (r: Vec<String>)
        ensures
            str_views(r@) == parameter_errors(*p, pair_views(values@)),
    {
        let mut out: Vec<String> = Vec::new();
        match find_var(values, p.name.as_str()) {
            None => {
                if p.required {
                    let mut m = String::from_str("Required parameter '");
                    push_str(&mut m, p.name.as_str());
                    push_str(&mut m, "' is missing");
                    out.push(m);
                    assert(str_views(out@) =~= parameter_errors(*p, pair_views(values@)));
                } else {
                    assert(str_views(out@) =~= parameter_errors(*p, pair_views(values@)));
                }
                out
            },
            Some(value) => {
                let ghost vv = value@;
                let ghost name = p.name@;
                let ghost te = type_errors(*p, vv);
                let ghost re = range_errors(*p, vv);
                let ghost ee = enum_errors(*p, vv);
                let ghost allowed = p.allowed_values@.map_values(|s: String| s@);
                if !Self::type_ok(p.param_type, value.as_str()) {
                    let mut m = String::from_str("Parameter '");
                    push_str(&mut m, p.name.as_str());
                    push_str(&mut m, "' has invalid type, expected ");
                    let t = parameter_type_label_exec(p.param_type);
                    push_str(&mut m, t.as_str());
                    assert(m@ =~= about(name, "' has invalid type, expected "@ + parameter_type_label(p.param_type)));
                    out.push(m);
                }
                assert(str_views(out@) =~= te);
                if let Some(v) = &p.validation {
                    if let Some(m) = Self::validate_value(value.as_str(), v, p.name.as_str()) {
                        out.push(m);
                    }
                }
                assert(str_views(out@) =~= te + re);
                if p.param_type == ParameterType::Enum && p.allowed_values.len() > 0 && !Self::allowed_has(&p.allowed_values, value.as_str()) {
                    let mut m = String::from_str("Parameter '");
                    push_str(&mut m, p.name.as_str());
                    push_str(&mut m, "' must be one of: ");
                    let d = values_debug(&p.allowed_values);
                    push_str(&mut m, d.as_str());
                    assert(m@ =~= about(name, "' must be one of: "@ + json_values_debug(allowed)));
                    out.push(m);
                }
                assert(str_views(out@) =~= te + re + ee);
                out
            },
        }
    }

    fn type_ok(t: ParameterType, value: &str) -> (r: bool)
        ensures
            r == type_accepts(t, json_kind_of(value@)),
    {
        let k = json_kind(value);
        match t {
            ParameterType::String | ParameterType::Secret | ParameterType::Model | ParameterType::Collection => k == Some(JsonKind::Str),
            ParameterType::Integer => k == Some(JsonKind::Integer),
            ParameterType::Float => k == Some(JsonKind::Integer) || k == Some(JsonKind::Float),
            ParameterType::Boolean => k == Some(JsonKind::Bool),
            ParameterType::Object => k == Some(JsonKind::Object),
            ParameterType::Array => k == Some(JsonKind::Array),
            ParameterType::Enum => true,
        }
    }

    /// Check the values (names and JSON texts) against the parameters: a required
    /// parameter must be given; a given value must have the parameter's type, keep its
    /// range and length rules, and be one of the allowed values of an enumeration.
    pub fn validate_parameters(&self, values: &Vec<(String, String)>) -> (r: Result<(), Vec<String>>)
        ensures
            validation_errors(self.parameters@, pair_views(values@)).len() == 0 ==> r is Ok,
            validation_errors(self.parameters@, pair_views(values@)).len() > 0 ==> (r matches Err(v)
                && str_views(v@) == validation_errors(self.parameters@, pair_views(values@))),
    {
        let ghost ps = self.parameters@;
        let ghost pv = pair_views(values@);
        let mut errors: Vec<String> = Vec::new();
        let mut i: usize = 0;
        while i < self.parameters.len()
            invariant
                i <= ps.len(),
                ps == self.parameters@,
                pv == pair_views(values@),
                str_views(errors@) == validation_errors(ps.take(i as int), pv),
            decreases self.parameters.len() - i,
        {
            assert(ps.take(i + 1).drop_last() =~= ps.take(i as int));
            assert(ps.take(i + 1).last() == ps[i as int]);
            let more = Self::parameter_messages(&self.parameters[i], values);
            let ghost before = errors@;
            let mut j: usize = 0;
            while j < more.len()
                invariant
                    j <= more@.len(),
                    errors@ == before + more@.take(j as int),
                decreases more.len() - j,
            {
                errors.push(more[j].clone());
                assert(errors@ =~= before + more@.take(j + 1));
                j = j + 1;
            }
            assert(more@.take(more@.len() as int) =~= more@);
            assert(str_views(errors@) =~= str_views(before) + str_views(more@));
            i = i + 1;
        }
        assert(ps.take(ps.len() as int) =~= ps);
        if errors.len() == 0 {
            Ok(())
        } else {
            Err(errors)
        }
    }

    /// The workflow text with each parameter's `{{name}}` replaced by its value (or
    /// default), after the values pass [`Self::validate_parameters`]; otherwise the
    /// failure message. Reading the text as a workflow is left to the caller.
    pub fn instantiate_text(&self, values: &Vec<(String, String)>) -> (r: Result<String, String>)
        ensures
            validation_errors(self.parameters@, pair_views(values@)).len() == 0 ==> (r matches Ok(t) && t@ == filled(
                self.workflow_json@,
                self.parameters@,
                pair_views(values@),
            )),
            validation_errors(self.parameters@, pair_views(values@)).len() > 0 ==> (r matches Err(m) && m@
                == "Parameter validation failed: "@ + joined(validation_errors(self.parameters@, pair_views(values@)))),
    {
        match self.validate_parameters(values) {
            Err(errors) => {
                let mut m = String::from_str("Parameter validation failed: ");
                let ghost ev = str_views(errors@);
                let mut k: usize = 0;
                while k < errors.len()
                    invariant
                        k <= errors@.len(),
                        ev == str_views(errors@),
                        ev.len() > 0,
                        k == 0 ==> m@ == "Parameter validation failed: "@,
                        k > 0 ==> m@ == "Parameter validation failed: "@ + joined(ev.take(k as int)),
                    decreases errors.len() - k,
                {
                    assert(ev.take(k + 1).drop_last() =~= ev.take(k as int));
                    assert(ev.take(k + 1).last() == ev[k as int]);
                    if k > 0 {
                        push_str(&mut m, ", ");
                    }
                    push_str(&mut m, errors[k].as_str());
                    proof {
                        if k == 0 {
                            assert(joined(ev.take(1)) == ev.take(1)[0]);
                        }
                    }
                    k = k + 1;
                }
                assert(ev.take(ev.len() as int) =~= ev);
                Err(m)
            },
            Ok(()) => {
                let ghost ps = self.parameters@;
                let ghost pv = pair_views(values@);
                let mut text = self.workflow_json.clone();
                let mut i: usize = 0;
                while i < self.parameters.len()
                    invariant
                        i <= ps.len(),
                        ps == self.parameters@,
                        pv == pair_views(values@),
                        text@ == filled(self.workflow_json@, ps.take(i as int), pv),
                    decreases self.parameters.len() - i,
                {
                    assert(ps.take(i + 1).drop_last() =~= ps.take(i as int));
                    assert(ps.take(i + 1).last() == ps[i as int]);
                    let p = &self.parameters[i];
                    let mut ph = String::from_str("{{");
                    push_str(&mut ph, p.name.as_str());
                    push_str(&mut ph, "}}");
                    proof {
                        reveal_strlit("{{");
                        reveal_strlit("}}");
                        assert(ph@ =~= placeholder(p.name@));
                    }
                    let fill = match find_var(values, p.name.as_str()) {
                        Some(v) => display_json(v.as_str()),
                        None => match &p.default_value {
                            Some(d) => display_json(d.as_str()),
                            None => String::new(),
                        },
                    };
                    text = replace_text(text.as_str(), ph.as_str(), fill.as_str());
                    i = i + 1;
                }
                assert(ps.take(ps.len() as int) =~= ps);
                Ok(text)
            },
        }
    }

    /// The placeholder names of the workflow text, each once, in the order found.
    pub fn extract_placeholders(&self) -> (r: Vec<String>)
        ensures
            str_views(r@) == scan_placeholders(self.workflow_json@, 0, Seq::empty()),
    {
        let c = chars_of(self.workflow_json.as_str());
        let ghost cs = c@;
        let mut out: Vec<String> = Vec::new();
        let n = c.len();
        let limit: usize = if n >= 3 { n - 3 } else { 0 };
        let mut i: usize = 0;
        assert(str_views(out@) =~= Seq::<Seq<char>>::empty());
        while i < limit
            invariant
                cs == c@,
                cs == self.workflow_json@,
                n == cs.len(),
                limit == (if n >= 3 { n - 3 } else { 0 }),
                scan_placeholders(cs, i as int, str_views(out@)) == scan_placeholders(cs, 0, Seq::empty()),
            decreases n - i,
        {
            if c[i] == '{' && c[i + 1] == '{' {
                let start = i + 2;
                let end = find_close(&c, start);
                if end + 1 < n {
                    let mut raw = String::new();
                    push_range(&mut raw, &c, start, end);
                    let name = trim_text(raw.as_str());
                    let ghost before = str_views(out@);
                    if name.as_str().unicode_len() > 0 && !contains_str(&out, name.as_str()) {
                        out.push(name);
                        assert(str_views(out@) =~= before.push(name@));
                    }
                    i = end + 2;
                } else {
                    proof {
                        assert(scan_placeholders(cs, i as int, str_views(out@)) == str_views(out@));
                    }
                    return out;
                }
            } else {
                i = i + 1;
            }
        }
        out
    }
}

} // verus!
