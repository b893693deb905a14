//! Script nodes: the choice of runtime and the variables a script is given.

use vstd::prelude::*;
use crate::execution::{str_eq, ExecutionContext, ExecutionResult, NodeExecutionResult};
use crate::node::NodeId;
use crate::rest::{is_first_key, pair_views};
use crate::text::{lowercase, push_char, to_lowercase, uuid_text, uuid_to_string};

verus! {

/// A script to run: its runtime, its code, the variables it reads and where its output goes.
#[derive(Debug, Clone, PartialEq, Eq)]
pub struct ScriptConfig {
    pub runtime: String,
    pub code: String,
    pub inputs: Vec<String>,
    pub output: String,
}

/// Why a script could not run.
#[derive(Debug, Clone, PartialEq, Eq)]
pub enum CodeExecutionError {
    ScriptError(String),
    TimeoutExceeded,
    InputNotFound(String),
    UnsupportedRuntime(String),
    SerializationError(String),
}

impl CodeExecutionError {
    /// The display text of the error.
    pub fn message(&self) -> (r: String)
        ensures
            r@ == code_error_text(*self),
    {
        let (prefix, detail) = match self {
            CodeExecutionError::ScriptError(m) => ("Script error: ", m.as_str()),
            CodeExecutionError::TimeoutExceeded => ("Timeout exceeded", ""),
            CodeExecutionError::InputNotFound(m) => ("Input variable not found: ", m.as_str()),
            CodeExecutionError::UnsupportedRuntime(m) => ("Unsupported runtime: ", m.as_str()),
            CodeExecutionError::SerializationError(m) => ("Serialization error: ", m.as_str()),
        };
        let mut s = String::from_str(prefix);
        s.append(detail);
        s
    }
}

/// The display text of an error.
pub open spec fn code_error_text(e: CodeExecutionError) -> Seq<char> {
    match e {
        CodeExecutionError::ScriptError(m) => "Script error: "@ + m@,
        CodeExecutionError::TimeoutExceeded => "Timeout exceeded"@ + ""@,
        CodeExecutionError::InputNotFound(m) => "Input variable not found: "@ + m@,
        CodeExecutionError::UnsupportedRuntime(m) => "Unsupported runtime: "@ + m@,
        CodeExecutionError::SerializationError(m) => "Serialization error: "@ + m@,
    }
}

/// Limits for running scripts: a time limit in milliseconds and an operation budget.
#[derive(Debug, Clone, Copy, PartialEq, Eq)]
pub struct CodeExecutor {
    pub timeout_ms: u64,
    pub max_operations: u64,
}

impl CodeExecutor {
    /// Five seconds and a million operations.
    pub fn new() -> (r: Self)
        ensures
            r == (CodeExecutor { timeout_ms: 5000, max_operations: 1_000_000 }),
    {
        CodeExecutor { timeout_ms: 5000, max_operations: 1_000_000 }
    }

    /// Replace the time limit.
    pub fn with_timeout(self, timeout_ms: u64) -> (r: Self)
        ensures
            r == (CodeExecutor { timeout_ms, ..self }),
    {
        CodeExecutor { timeout_ms, ..self }
    }

    /// Replace the operation budget.
    pub fn with_max_operations(self, max_operations: u64) -> (r: Self)
        ensures
            r == (CodeExecutor { max_operations, ..self }),
    {
        CodeExecutor { max_operations, ..self }
    }
}

impl Default for CodeExecutor {
    fn default() -> (r: Self)
        ensures
            r == (CodeExecutor { timeout_ms: 5000, max_operations: 1_000_000 }),
    {
        CodeExecutor::new()
    }
}

/// The runtimes a script can run in.
#[derive(Debug, Clone, Copy, PartialEq, Eq, Structural)]
pub enum ScriptRuntime {
    Rhai,
}

/// The runtime named by a (lowercased) runtime name, or the error for it.
pub open spec fn runtime_choice(runtime: Seq<char>) -> Result<ScriptRuntime, Seq<char>> {
    let l = lowercase(runtime);
    if l == "rust"@ || l == "rhai"@ {
        Ok(ScriptRuntime::Rhai)
    } else if l == "wasm"@ || l == "webassembly"@ {
        Err("WASM support not enabled. Enable the 'wasm' feature."@)
    } else {
        Err(runtime)
    }
}

/// Choose the runtime for a script; WebAssembly is not built in, and other names are
/// unsupported.
pub fn select_runtime(config: &ScriptConfig) -> (r: Result<ScriptRuntime, CodeExecutionError>)
    ensures
        match runtime_choice(config.runtime@) {
            Ok(k) => r == Ok::<ScriptRuntime, CodeExecutionError>(k),
            Err(m) => r matches Err(CodeExecutionError::UnsupportedRuntime(x)) && x@ == m,
        },
{
    let l = to_lowercase(config.runtime.as_str());
    if str_eq(l.as_str(), "rust") || str_eq(l.as_str(), "rhai") {
        Ok(ScriptRuntime::Rhai)
    } else if str_eq(l.as_str(), "wasm") || str_eq(l.as_str(), "webassembly") {
        Err(CodeExecutionError::UnsupportedRuntime(String::from_str("WASM support not enabled. Enable the 'wasm' feature.")))
    } else {
        Err(CodeExecutionError::UnsupportedRuntime(config.runtime.clone()))
    }
}

/// The value of the first variable named `k`.
pub open spec fn var_value(vars: Seq<(Seq<char>, Seq<char>)>, k: Seq<char>) -> Option<Seq<char>> {
    if exists|i: int| #[trigger] is_first_key(vars, k, i) {
        Some(vars[choose|i: int| #[trigger] is_first_key(vars, k, i)].1)
    } else {
        None
    }
}

/// The named inputs bound to their variables' JSON texts, or the first input that has none.
pub open spec fn input_bindings(inputs: Seq<Seq<char>>, vars: Seq<(Seq<char>, Seq<char>)>) -> Result<
    Seq<(Seq<char>, Seq<char>)>,
    Seq<char>,
>
    decreases inputs.len(),
{
    if inputs.len() == 0 {
        Ok(Seq::empty())
    } else {
        match input_bindings(inputs.drop_last(), vars) {
            Err(m) => Err(m),
            Ok(b) => match var_value(vars, inputs.last()) {
                Some(v) => Ok(b.push((inputs.last(), v))),
                None => Err(inputs.last()),
            },
        }
    }
}

/// The variable name under which a node's output is given: `node_` and the identifier
/// with underscores in place of hyphens.
pub open spec fn node_var_name(id: NodeId) -> Seq<char> {
    "node_"@ + uuid_text(id).map_values(|c: char| if c == '-' { '_' } else { c })
}

/// The outputs of the successful nodes, under their variable names.
pub open spec fn node_bindings(results: Seq<(NodeId, NodeExecutionResult)>) -> Seq<(Seq<char>, Seq<char>)>
    decreases results.len(),
{
    if results.len() == 0 {
        Seq::empty()
    } else {
        let pre = node_bindings(results.drop_last());
        match results.last().1.result {
            ExecutionResult::Success(out) => pre.push((node_var_name(results.last().0), out@)),
            _ => pre,
        }
    }
}

/// The views of a list of names.
pub open spec fn name_views(s: Seq<String>) -> Seq<Seq<char>> {
    s.map_values(|x: String| x@)
}

pub(crate) fn find_var(vars: &Vec<(String, String)>, k: &str) -> (r: Option<String>)
    ensures
        match r {
            Some(v) => var_value(pair_views(vars@), k@) == Some(v@),
            None => var_value(pair_views(vars@), k@).is_none(),
        },
{
    let ghost s = pair_views(vars@);
    let mut i: usize = 0;
    while i < vars.len()
        invariant
            i <= vars@.len(),
            s == pair_views(vars@),
            forall|j: int| 0 <= j < i ==> #[trigger] s[j].0 != k@,
        decreases vars.len() - i,
    {
        if str_eq(vars[i].0.as_str(), k) {
            proof {
                assert(is_first_key(s, k@, i as int));
                let c = choose|c: int| #[trigger] is_first_key(s, k@, c);
                assert(is_first_key(s, k@, c));
                if c < i {
                    assert(s[c].0 != k@);
                } else if c > i {
                    assert(s[i as int].0 != k@);
                }
            }
            return Some(vars[i].1.clone());
        }
        i = i + 1;
    }
    proof {
        assert(!exists|c: int| #[trigger] is_first_key(s, k@, c));
    }
    None
}

pub(crate) fn node_var_name_exec(id: NodeId) -> (r: String)
    ensures
        r@ == node_var_name(id),
{
    let text = uuid_to_string(id);
    let chars = crate::text::chars_of(text.as_str());
    let mut r = String::from_str("node_");
    let ghost m = uuid_text(id).map_values(|c: char| if c == '-' { '_' } else { c });
    let mut i: usize = 0;
    while i < chars.len()
        invariant
            chars@ == uuid_text(id),
            m == uuid_text(id).map_values(|c: char| if c == '-' { '_' } else { c }),
            i <= chars@.len(),
            r@ == "node_"@ + m.take(i as int),
        decreases chars.len() - i,
    {
        let c = chars[i];
        if c == '-' {
            push_char(&mut r, '_');
        } else {
            push_char(&mut r, c);
        }
        assert(m.take(i + 1) =~= m.take(i as int).push(m[i as int]));
        i = i + 1;
    }
    assert(m.take(chars@.len() as int) =~= m);
    r
}

/// The variables a script is given: each input bound to the variable of that name (the
/// first missing one is an error), then the output of each successful node under
/// `node_<identifier>`.
pub fn script_bindings(config: &ScriptConfig, ctx: &ExecutionContext) -> (r: Result<Vec<(String, String)>, CodeExecutionError>)
    ensures
        match input_bindings(name_views(config.inputs@), pair_views(ctx.variables@)) {
            Ok(b) => r matches Ok(v) && pair_views(v@) == b + node_bindings(ctx.node_results@),
            Err(m) => r matches Err(CodeExecutionError::InputNotFound(x)) && x@ == m,
        },
{
    let ghost names = name_views(config.inputs@);
    let ghost vars = pair_views(ctx.variables@);
    let mut out: Vec<(String, String)> = Vec::new();
    let mut i: usize = 0;
    assert(names.take(0) =~= Seq::<Seq<char>>::empty());
    assert(pair_views(out@) =~= Seq::<(Seq<char>, Seq<char>)>::empty());
    while i < config.inputs.len()
        invariant
            i <= config.inputs@.len(),
            names == name_views(config.inputs@),
            vars == pair_views(ctx.variables@),
            input_bindings(names.take(i as int), vars) == Ok::<Seq<(Seq<char>, Seq<char>)>, Seq<char>>(pair_views(out@)),
        decreases config.inputs.len() - i,
    {
        let name = config.inputs[i].as_str();
        let ghost prev = out@;
        proof {
            assert(names.take(i + 1).drop_last() =~= names.take(i as int));
            assert(names.take(i + 1).last() == config.inputs@[i as int]@);
        }
        match find_var(&ctx.variables, name) {
            Some(v) => {
                out.push((config.inputs[i].clone(), v));
                proof {
                    assert(pair_views(out@) =~= pair_views(prev).push((config.inputs@[i as int]@, v@)));
                }
            },
            None => {
                proof {
                    assert(input_bindings(names.take(i + 1), vars) == Err::<Seq<(Seq<char>, Seq<char>)>, Seq<char>>(config.inputs@[i as int]@));
                    lemma_input_bindings_err_prefix(names, vars, i as int + 1);
                }
                return Err(CodeExecutionError::InputNotFound(config.inputs[i].clone()));
            },
        }
        i = i + 1;
    }
    assert(names.take(names.len() as int) =~= names);
    let ghost base = pair_views(out@);
    let mut k: usize = 0;
    while k < ctx.node_results.len()
        invariant
            k <= ctx.node_results@.len(),
            pair_views(out@) == base + node_bindings(ctx.node_results@.take(k as int)),
        decreases ctx.node_results.len() - k,
    {
        let ghost prev = out@;
        proof {
            assert(ctx.node_results@.take(k + 1).drop_last() =~= ctx.node_results@.take(k as int));
        }
        match &ctx.node_results[k].1.result {
            ExecutionResult::Success(o) => {
                let nm = node_var_name_exec(ctx.node_results[k].0);
                out.push((nm, o.clone()));
                assert(pair_views(out@) =~= pair_views(prev).push((node_var_name(ctx.node_results@[k as int].0), o@)));
            },
            _ => {},
        }
        k = k + 1;
    }
    assert(ctx.node_results@.take(ctx.node_results@.len() as int) =~= ctx.node_results@);
    Ok(out)
}

proof fn lemma_input_bindings_err_prefix(names: Seq<Seq<char>>, vars: Seq<(Seq<char>, Seq<char>)>, n: int)
    requires
        0 <= n <= names.len(),
        input_bindings(names.take(n), vars) is Err,
    ensures
        input_bindings(names, vars) == input_bindings(names.take(n), vars),
    decreases names.len() - n,
{
    if n < names.len() {
        assert(names.take(n + 1).drop_last() =~= names.take(n));
        lemma_input_bindings_err_prefix(names, vars, n + 1);
    } else {
        assert(names.take(n) =~= names);
    }
}

} // verus!
