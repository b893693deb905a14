//! Workflow test cases: what a run is expected to produce, how an output is checked
//! against it, and the settings of the runner.

use vstd::prelude::*;
use crate::auth::{json_as_str, json_str_content};
use crate::code_executor::{find_var, var_value};
use crate::executors::push_str;
use crate::rest::pair_views;
use crate::template::{json_kind, json_kind_of, json_number_less, json_number_shown, json_same, number_less, number_shown, same_json, JsonKind};
use crate::templating::{compact_json, json_compact};
use crate::ids::now_millis;
use crate::text::{decimal, u64_to_string};
use crate::workflow::Workflow;

verus! {

/// The outcome a test case expects of a run.
#[derive(Debug, Clone, Copy, PartialEq, Eq, Structural)]
pub enum ExpectedStatus {
    Success,
    Failure,
    Any,
}

impl ExpectedStatus {
    /// Whether a run that succeeded (or not) meets the expectation.
    pub fn accepts(self, succeeded: bool) -> (r: bool)
        ensures
            r == match self {
                ExpectedStatus::Success => succeeded,
                ExpectedStatus::Failure => !succeeded,
                ExpectedStatus::Any => true,
            },
    {
        match self {
            ExpectedStatus::Success => succeeded,
            ExpectedStatus::Failure => !succeeded,
            ExpectedStatus::Any => true,
        }
    }
}

/// Runs workflow test cases with a default time limit in milliseconds.
#[derive(Debug, Clone, Copy, PartialEq, Eq)]
pub struct WorkflowTestRunner {
    pub default_timeout_ms: u64,
}

impl WorkflowTestRunner {
    /// Thirty seconds per test.
    pub fn new() -> (r: Self)
        ensures
            r.default_timeout_ms == 30000,
    {
        WorkflowTestRunner { default_timeout_ms: 30000 }
    }

    /// A runner with the given time limit.
    pub fn with_timeout(timeout_ms: u64) -> (r: Self)
        ensures
            r.default_timeout_ms == timeout_ms,
    {
        WorkflowTestRunner { default_timeout_ms: timeout_ms }
    }

    /// The time limit of a test case: its own, or the runner's.
    pub fn timeout_for(&self, case_timeout_ms: Option<u64>) -> (r: u64)
        ensures
            r == match case_timeout_ms {
                Some(t) => t,
                None => self.default_timeout_ms,
            },
    {
        match case_timeout_ms {
            Some(t) => t,
            None => self.default_timeout_ms,
        }
    }
}

impl Default for WorkflowTestRunner {
    fn default() -> (r: Self)
        ensures
            r.default_timeout_ms == 30000,
    {
        WorkflowTestRunner::new()
    }
}

/// The number of `true` flags.
pub open spec fn count_true(s: Seq<bool>) -> nat
    decreases s.len(),
{
    if s.len() == 0 {
        0
    } else {
        count_true(s.drop_last()) + if s.last() { 1nat } else { 0nat }
    }
}

/// How many assertions (or tests) passed, from their pass flags.
pub fn count_passed(passed: &Vec<bool>) -> (r: usize)
    ensures
        r == count_true(passed@),
{
    let mut n: usize = 0;
    let mut i: usize = 0;
    while i < passed.len()
        invariant
            i <= passed@.len(),
            n == count_true(passed@.take(i as int)),
            n <= i,
        decreases passed.len() - i,
    {
        assert(passed@.take(i + 1).drop_last() =~= passed@.take(i as int));
        if passed[i] {
            n = n + 1;
        }
        i = i + 1;
    }
    assert(passed@.take(passed@.len() as int) =~= passed@);
    n
}

/// Whether a regular expression compiles, and if so whether it matches somewhere in a
/// text (`regex::Regex::new`, then `is_match`).
pub uninterp spec fn regex_matches(pattern: Seq<char>, text: Seq<char>) -> Option<bool>;

/// `regex::Regex::new(pattern)`, then `is_match(text)`; `None` when the pattern does not
/// compile.
#[verifier::external_body]
fn regex_is_match(pattern: &str, text: &str) -> (r: Option<bool>)
    ensures
        r == regex_matches(pattern@, text@),
{
    regex::Regex::new(pattern).ok().map(|re| re.is_match(text))
}

/// What an output of a test run is expected to be. Values are JSON texts; range bounds
/// are JSON number texts.
#[derive(Debug, Clone, PartialEq, Eq)]
pub enum ExpectedValue {
    Exact { value: String },
    Pattern { pattern: String },
    Range { min: String, max: String },
    JsonSchema { schema: String },
    Predicate { expression: String },
    Exists,
    Null,
}

/// Whether an actual value (JSON text) meets the expectation.
pub open spec fn expected_matches(e: ExpectedValue, actual: Seq<char>) -> bool {
    match e {
        ExpectedValue::Exact { value } => json_same(actual, value@),
        ExpectedValue::Pattern { pattern } => match json_str_content(actual) {
            Some(s) => regex_matches(pattern@, s) == Some(true),
            None => false,
        },
        ExpectedValue::Range { min, max } => {
            let k = json_kind_of(actual);
            (k == Some(JsonKind::Integer) || k == Some(JsonKind::Float)) && json_number_less(actual, min@) != Some(true)
                && json_number_less(max@, actual) != Some(true)
        },
        ExpectedValue::JsonSchema { .. } => true,
        ExpectedValue::Predicate { .. } => true,
        ExpectedValue::Exists => json_kind_of(actual) != Some(JsonKind::Null),
        ExpectedValue::Null => json_kind_of(actual) == Some(JsonKind::Null),
    }
}

/// A number bound as a message shows it: the `f64` it holds, or as written.
pub open spec fn shown_number(b: Seq<char>) -> Seq<char> {
    match json_number_shown(b) {
        Some(s) => s,
        None => b,
    }
}

/// The description of an expectation in a failure message.
pub open spec fn expected_description(e: ExpectedValue) -> Seq<char> {
    match e {
        ExpectedValue::Exact { value } => "equals "@ + json_compact(value@),
        ExpectedValue::Pattern { pattern } => "matches pattern /"@ + pattern@ + "/"@,
        ExpectedValue::Range { min, max } => "in range ["@ + shown_number(min@) + ", "@ + shown_number(max@) + "]"@,
        ExpectedValue::JsonSchema { .. } => "matches JSON schema"@,
        ExpectedValue::Predicate { expression } => "satisfies predicate: "@ + expression@,
        ExpectedValue::Exists => "is not null"@,
        ExpectedValue::Null => "is null"@,
    }
}

fn shown_number_exec(b: &str) -> (r: String)
    ensures
        r@ == shown_number(b@),
{
    match number_shown(b) {
        Some(s) => s,
        None => String::from_str(b),
    }
}

impl ExpectedValue {
    /// Whether an actual value (JSON text) meets the expectation: exact values compare
    /// as JSON values; a pattern must match a string; a number must lie in the range
    /// (bounds included); schema and predicate checks accept anything.
    pub fn matches(&self, actual: &str) -> (r: bool)
        ensures
            r == expected_matches(*self, actual@),
    {
        match self {
            ExpectedValue::Exact { value } => same_json(actual, value.as_str()),
            ExpectedValue::Pattern { pattern } => match json_as_str(actual) {
                Some(s) => regex_is_match(pattern.as_str(), s.as_str()) == Some(true),
                None => false,
            },
            ExpectedValue::Range { min, max } => {
                let k = json_kind(actual);
                (k == Some(JsonKind::Integer) || k == Some(JsonKind::Float)) && number_less(actual, min.as_str()) != Some(
                    true,
                ) && number_less(max.as_str(), actual) != Some(true)
            },
            ExpectedValue::JsonSchema { .. } => true,
            ExpectedValue::Predicate { .. } => true,
            ExpectedValue::Exists => json_kind(actual) != Some(JsonKind::Null),
            ExpectedValue::Null => json_kind(actual) == Some(JsonKind::Null),
        }
    }

    /// The description used in failure messages.
    pub fn describe(&self) -> (r: String)
        ensures
            r@ == expected_description(*self),
    {
        match self {
            ExpectedValue::Exact { value } => {
                let mut m = String::from_str("equals ");
                let c = compact_json(value.as_str());
                push_str(&mut m, c.as_str());
                m
            },
            ExpectedValue::Pattern { pattern } => {
                let mut m = String::from_str("matches pattern /");
                push_str(&mut m, pattern.as_str());
                push_str(&mut m, "/");
                m
            },
            ExpectedValue::Range { min, max } => {
                let mut m = String::from_str("in range [");
                let a = shown_number_exec(min.as_str());
                push_str(&mut m, a.as_str());
                push_str(&mut m, ", ");
                let b = shown_number_exec(max.as_str());
                push_str(&mut m, b.as_str());
                push_str(&mut m, "]");
                m
            },
            ExpectedValue::JsonSchema { .. } => String::from_str("matches JSON schema"),
            ExpectedValue::Predicate { expression } => {
                let mut m = String::from_str("satisfies predicate: ");
                push_str(&mut m, expression.as_str());
                m
            },
            ExpectedValue::Exists => String::from_str("is not null"),
            ExpectedValue::Null => String::from_str("is null"),
        }
    }

    /// A copy with the same contents.
    pub fn duplicate(&self) -> (r: Self)
        ensures
            r == *self,
    {
        match self {
            ExpectedValue::Exact { value } => ExpectedValue::Exact { value: value.clone() },
            ExpectedValue::Pattern { pattern } => ExpectedValue::Pattern { pattern: pattern.clone() },
            ExpectedValue::Range { min, max } => ExpectedValue::Range { min: min.clone(), max: max.clone() },
            ExpectedValue::JsonSchema { schema } => ExpectedValue::JsonSchema { schema: schema.clone() },
            ExpectedValue::Predicate { expression } => ExpectedValue::Predicate { expression: expression.clone() },
            ExpectedValue::Exists => ExpectedValue::Exists,
            ExpectedValue::Null => ExpectedValue::Null,
        }
    }
}

/// The result of checking one output.
#[derive(Debug, Clone, PartialEq, Eq)]
pub struct AssertionResult {
    pub variable: String,
    pub passed: bool,
    pub expected: ExpectedValue,
    /// The actual value, as JSON text.
    pub actual: String,
    pub message: Option<String>,
}

impl AssertionResult {
    /// A passed check.
    pub fn pass(variable: String, expected: ExpectedValue, actual: String) -> (r: Self)
        ensures
            r == (AssertionResult { variable, passed: true, expected, actual, message: None }),
    {
        AssertionResult { variable, passed: true, expected, actual, message: None }
    }

    /// A failed check with its message.
    pub fn fail(variable: String, expected: ExpectedValue, actual: String, message: String) -> (r: Self)
        ensures
            r == (AssertionResult { variable, passed: false, expected, actual, message: Some(message) }),
    {
        AssertionResult { variable, passed: false, expected, actual, message: Some(message) }
    }
}

/// A test case of a workflow: inputs and expected outputs by name (JSON texts), the
/// expected status and an optional time limit in milliseconds.
#[derive(Debug, Clone, PartialEq, Eq)]
pub struct WorkflowTestCase {
    pub name: String,
    pub description: Option<String>,
    pub inputs: Vec<(String, String)>,
    pub expected_outputs: Vec<(String, ExpectedValue)>,
    pub expected_status: ExpectedStatus,
    pub timeout_ms: Option<u64>,
}

/// The actual value of an output: the variable's JSON text, or `null` when missing.
pub open spec fn actual_of(outputs: Seq<(Seq<char>, Seq<char>)>, name: Seq<char>) -> Seq<char> {
    match var_value(outputs, name) {
        Some(v) => v,
        None => "null"@,
    }
}

/// The check of one expected output against the actual outputs.
pub open spec fn assertion_for(name: Seq<char>, e: ExpectedValue, outputs: Seq<(Seq<char>, Seq<char>)>) -> (bool, Option<Seq<char>>) {
    let actual = actual_of(outputs, name);
    if expected_matches(e, actual) {
        (true, None)
    } else {
        (false, Some("Expected "@ + expected_description(e) + " but got "@ + json_compact(actual)))
    }
}

impl WorkflowTestRunner {
    /// Check each expected output of the test case against the actual outputs (names
    /// and JSON texts), in order.
    pub fn check_outputs(&self, test_case: &WorkflowTestCase, actual_outputs: &Vec<(String, String)>) -> (r: Vec<AssertionResult>)
        ensures
            r@.len() == test_case.expected_outputs@.len(),
            forall|i: int|
                0 <= i < r@.len() ==> {
                    let (name, e) = test_case.expected_outputs@[i];
                    let a = assertion_for(name@, e, pair_views(actual_outputs@));
                    &&& (#[trigger] r@[i]).variable == name
                    &&& r@[i].expected == e
                    &&& r@[i].actual@ == actual_of(pair_views(actual_outputs@), name@)
                    &&& r@[i].passed == a.0
                    &&& (match r@[i].message {
                        Some(m) => a.1 == Some(m@),
                        None => a.1 is None,
                    })
                },
    {
        let mut out: Vec<AssertionResult> = Vec::new();
        let mut i: usize = 0;
        while i < test_case.expected_outputs.len()
            invariant
                i <= test_case.expected_outputs@.len(),
                out@.len() == i,
                forall|k: int|
                    0 <= k < i ==> {
                        let (name, e) = test_case.expected_outputs@[k];
                        let a = assertion_for(name@, e, pair_views(actual_outputs@));
                        &&& (#[trigger] out@[k]).variable == name
                        &&& out@[k].expected == e
                        &&& out@[k].actual@ == actual_of(pair_views(actual_outputs@), name@)
                        &&& out@[k].passed == a.0
                        &&& (match out@[k].message {
                            Some(m) => a.1 == Some(m@),
                            None => a.1 is None,
                        })
                    },
            decreases test_case.expected_outputs.len() - i,
        {
            let name = &test_case.expected_outputs[i].0;
            let expected = &test_case.expected_outputs[i].1;
            let actual = match find_var(actual_outputs, name.as_str()) {
                Some(v) => v,
                None => String::from_str("null"),
            };
            if expected.matches(actual.as_str()) {
                out.push(AssertionResult::pass(name.clone(), expected.duplicate(), actual));
            } else {
                let mut m = String::from_str("Expected ");
                let d = expected.describe();
                push_str(&mut m, d.as_str());
                push_str(&mut m, " but got ");
                let c = compact_json(actual.as_str());
                push_str(&mut m, c.as_str());
                out.push(AssertionResult::fail(name.clone(), expected.duplicate(), actual, m));
            }
            i = i + 1;
        }
        out
    }
}

/// Whether each check of `r` is the check of the expected output at the same place
/// against `outputs`.
pub open spec fn checks_of(
    r: Seq<AssertionResult>,
    expected: Seq<(String, ExpectedValue)>,
    outputs: Seq<(Seq<char>, Seq<char>)>,
) -> bool {
    &&& r.len() == expected.len()
    &&& forall|i: int|
        0 <= i < r.len() ==> {
            let (name, e) = expected[i];
            let a = assertion_for(name@, e, outputs);
            &&& (#[trigger] r[i]).variable == name
            &&& r[i].expected == e
            &&& r[i].actual@ == actual_of(outputs, name@)
            &&& r[i].passed == a.0
            &&& (match r[i].message {
                Some(m) => a.1 == Some(m@),
                None => a.1 is None,
            })
        }
}

/// The pass flags of a list of checks.
pub open spec fn pass_flags(s: Seq<AssertionResult>) -> Seq<bool> {
    s.map_values(|a: AssertionResult| a.passed)
}

/// The result of one test case.
#[derive(Debug, Clone)]
pub struct TestResult {
    pub test_name: String,
    pub passed: bool,
    pub assertions: Vec<AssertionResult>,
    pub execution_time_ms: u64,
    pub error: Option<String>,
}

proof fn lemma_count_true_le(s: Seq<bool>)
    ensures
        count_true(s) <= s.len(),
    decreases s.len(),
{
    if s.len() > 0 {
        lemma_count_true_le(s.drop_last());
    }
}

/// How many of the flags are false.
pub open spec fn count_false(s: Seq<bool>) -> nat
    decreases s.len(),
{
    if s.len() == 0 {
        0
    } else {
        count_false(s.drop_last()) + if s.last() { 0nat } else { 1nat }
    }
}

proof fn lemma_count_split(s: Seq<bool>)
    ensures
        count_true(s) + count_false(s) == s.len(),
    decreases s.len(),
{
    if s.len() > 0 {
        lemma_count_split(s.drop_last());
    }
}

fn count_passed_checks(a: &Vec<AssertionResult>) -> (r: usize)
    ensures
        r == count_true(pass_flags(a@)),
{
    let mut n: usize = 0;
    let mut i: usize = 0;
    while i < a.len()
        invariant
            i <= a@.len(),
            n == count_true(pass_flags(a@).take(i as int)),
            n <= i,
        decreases a.len() - i,
    {
        assert(pass_flags(a@).take(i + 1).drop_last() =~= pass_flags(a@).take(i as int));
        if a[i].passed {
            n = n + 1;
        }
        i = i + 1;
    }
    assert(pass_flags(a@).take(a@.len() as int) =~= pass_flags(a@));
    n
}

impl TestResult {
    /// How many checks passed.
    pub fn passed_assertions(&self) -> (r: usize)
        ensures
            r == count_true(pass_flags(self.assertions@)),
    {
        count_passed_checks(&self.assertions)
    }

    /// How many checks failed.
    pub fn failed_assertions(&self) -> (r: usize)
        ensures
            r == count_false(pass_flags(self.assertions@)),
    {
        let p = count_passed_checks(&self.assertions);
        proof {
            lemma_count_split(pass_flags(self.assertions@));
        }
        self.assertions.len() - p
    }

    /// `name: PASS (p/n assertions passed)`, or `FAIL` for a failed test.
    pub fn summary(&self) -> (r: String)
        ensures
            r@ == self.test_name@ + ": "@ + (if self.passed { "PASS"@ } else { "FAIL"@ }) + " ("@ + decimal(
                count_true(pass_flags(self.assertions@)),
            ) + "/"@ + decimal(self.assertions@.len()) + " assertions passed)"@,
    {
        let p = self.passed_assertions();
        proof {
            lemma_count_true_le(pass_flags(self.assertions@));
        }
        let mut r = self.test_name.clone();
        push_str(&mut r, ": ");
        if self.passed {
            push_str(&mut r, "PASS");
        } else {
            push_str(&mut r, "FAIL");
        }
        push_str(&mut r, " (");
        let ps = u64_to_string(p as u64);
        push_str(&mut r, ps.as_str());
        push_str(&mut r, "/");
        let ns = u64_to_string(self.assertions.len() as u64);
        push_str(&mut r, ns.as_str());
        push_str(&mut r, " assertions passed)");
        r
    }
}

/// A named list of test cases.
#[derive(Debug, Clone)]
pub struct TestSuite {
    pub name: String,
    pub tests: Vec<WorkflowTestCase>,
}

/// The results of a suite and the time it took in milliseconds.
#[derive(Debug, Clone)]
pub struct TestReport {
    pub suite_name: String,
    pub results: Vec<TestResult>,
    pub total_time_ms: u64,
}

/// The pass flags of a list of test results.
pub open spec fn result_flags(s: Seq<TestResult>) -> Seq<bool> {
    s.map_values(|t: TestResult| t.passed)
}

impl TestReport {
    /// How many tests passed.
    pub fn passed_tests(&self) -> (r: usize)
        ensures
            r == count_true(result_flags(self.results@)),
    {
        let mut n: usize = 0;
        let mut i: usize = 0;
        while i < self.results.len()
            invariant
                i <= self.results@.len(),
                n == count_true(result_flags(self.results@).take(i as int)),
                n <= i,
            decreases self.results.len() - i,
        {
            assert(result_flags(self.results@).take(i + 1).drop_last() =~= result_flags(self.results@).take(i as int));
            if self.results[i].passed {
                n = n + 1;
            }
            i = i + 1;
        }
        assert(result_flags(self.results@).take(self.results@.len() as int) =~= result_flags(self.results@));
        n
    }

    /// How many tests failed.
    pub fn failed_tests(&self) -> (r: usize)
        ensures
            r == count_false(result_flags(self.results@)),
    {
        let p = self.passed_tests();
        proof {
            lemma_count_split(result_flags(self.results@));
        }
        self.results.len() - p
    }
}

/// Milliseconds from `start` to `end`, none when the clock went back.
fn elapsed_since(start: i64, end: i64) -> (r: u64)
    ensures
        end >= start ==> r == end - start,
        end < start ==> r == 0,
{
    if end >= start {
        (end as i128 - start as i128) as u64
    } else {
        0
    }
}

/// Whether a test result is the result of a test case whose outputs are its inputs:
/// its checks, passed when every check passed, and no error.
pub open spec fn test_result_of(r: TestResult, test_case: WorkflowTestCase) -> bool {
    &&& r.test_name == test_case.name
    &&& checks_of(r.assertions@, test_case.expected_outputs@, pair_views(test_case.inputs@))
    &&& r.passed == (forall|i: int| 0 <= i < r.assertions@.len() ==> #[trigger] r.assertions@[i].passed)
    &&& r.error is None
}

impl WorkflowTestRunner {
    /// Run a test case: its expected outputs are checked against its inputs, and the
    /// time taken is recorded.
    pub fn run_test(&self, workflow: &Workflow, test_case: &WorkflowTestCase) -> (r: TestResult)
        ensures
            test_result_of(r, *test_case),
    {
        let start = now_millis();
        let assertions = self.check_outputs(test_case, &test_case.inputs);
        let mut passed = true;
        let mut i: usize = 0;
        while i < assertions.len()
            invariant
                i <= assertions@.len(),
                passed == (forall|j: int| 0 <= j < i ==> #[trigger] assertions@[j].passed),
            decreases assertions.len() - i,
        {
            if !assertions[i].passed {
                passed = false;
            }
            i = i + 1;
        }
        let end = now_millis();
        TestResult {
            test_name: test_case.name.clone(),
            passed,
            assertions,
            execution_time_ms: elapsed_since(start, end),
            error: None,
        }
    }

    /// Run each test case of a suite, in order.
    pub fn run_suite(&self, workflow: &Workflow, suite: &TestSuite) -> (r: TestReport)
        ensures
            r.suite_name == suite.name,
            r.results@.len() == suite.tests@.len(),
            forall|i: int| 0 <= i < r.results@.len() ==> test_result_of(#[trigger] r.results@[i], suite.tests@[i]),
    {
        let start = now_millis();
        let mut results: Vec<TestResult> = Vec::new();
        let mut i: usize = 0;
        while i < suite.tests.len()
            invariant
                i <= suite.tests@.len(),
                results@.len() == i,
                forall|j: int| 0 <= j < i ==> test_result_of(#[trigger] results@[j], suite.tests@[j]),
            decreases suite.tests.len() - i,
        {
            let t = self.run_test(workflow, &suite.tests[i]);
            results.push(t);
            i = i + 1;
        }
        let end = now_millis();
        TestReport { suite_name: suite.name.clone(), results, total_time_ms: elapsed_since(start, end) }
    }
}

} // verus!
