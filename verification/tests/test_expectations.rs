use dag_engine::testing::{AssertionResult, ExpectedStatus, ExpectedValue, TestResult, TestSuite, WorkflowTestCase, WorkflowTestRunner};
use dag_engine::workflow::Workflow;

#[test]
fn test_expected_value_exact() {
    let expected = ExpectedValue::Exact { value: "\"hello\"".to_string() };
    assert!(expected.matches("\"hello\""));
    assert!(!expected.matches("\"world\""));
}

#[test]
fn test_expected_value_pattern() {
    let expected = ExpectedValue::Pattern { pattern: "^test.*".to_string() };
    assert!(expected.matches("\"test123\""));
    assert!(!expected.matches("\"hello\""));
}

#[test]
fn test_expected_value_range() {
    let expected = ExpectedValue::Range { min: "10.0".to_string(), max: "20.0".to_string() };
    assert!(expected.matches("15"));
    assert!(!expected.matches("5"));
    assert!(!expected.matches("25"));
}

#[test]
fn test_expected_value_exists() {
    let expected = ExpectedValue::Exists;
    assert!(expected.matches("\"hello\""));
    assert!(expected.matches("42"));
    assert!(!expected.matches("null"));
}

#[test]
fn exact_compares_values_not_text() {
    let expected = ExpectedValue::Exact { value: "{\"a\": 1, \"b\": [true]}".to_string() };
    assert!(expected.matches("{\"b\":[true],\"a\":1}"));
    assert!(ExpectedValue::Null.matches("null"));
    assert!(!ExpectedValue::Pattern { pattern: "(".to_string() }.matches("\"x\""));
    assert!(ExpectedValue::Range { min: "1".to_string(), max: "2".to_string() }.matches("2.0"));
    assert!(!ExpectedValue::Range { min: "1".to_string(), max: "2".to_string() }.matches("\"1.5\""));
}

#[test]
fn outputs_are_checked_with_messages() {
    let case = WorkflowTestCase {
        name: "case".to_string(),
        description: None,
        inputs: vec![],
        expected_outputs: vec![
            ("x".to_string(), ExpectedValue::Range { min: "1.5".to_string(), max: "3".to_string() }),
            ("y".to_string(), ExpectedValue::Exists),
            ("z".to_string(), ExpectedValue::Exact { value: "[1, 2]".to_string() }),
        ],
        expected_status: ExpectedStatus::Success,
        timeout_ms: None,
    };
    let outputs = vec![("x".to_string(), "4".to_string()), ("z".to_string(), "[1,2]".to_string())];
    let results = WorkflowTestRunner::new().check_outputs(&case, &outputs);
    assert_eq!(results.len(), 3);
    assert!(!results[0].passed);
    assert_eq!(results[0].message, Some("Expected in range [1.5, 3] but got 4".to_string()));
    assert!(!results[1].passed);
    assert_eq!(results[1].actual, "null");
    assert_eq!(results[1].message, Some("Expected is not null but got null".to_string()));
    assert!(results[2].passed);
    assert_eq!(results[2].message, None);
    assert_eq!(ExpectedValue::Exact { value: "[1, 2]".to_string() }.describe(), "equals [1,2]");
}

#[test]
fn test_workflow_test_runner() {
    let runner = WorkflowTestRunner::new();
    let workflow = Workflow::new("Test".to_string());
    let test_case = WorkflowTestCase {
        name: "test1".to_string(),
        description: Some("Test workflow execution".to_string()),
        inputs: vec![("input".to_string(), "\"test\"".to_string())],
        expected_outputs: vec![("result".to_string(), ExpectedValue::Exact { value: "\"success\"".to_string() })],
        expected_status: ExpectedStatus::Success,
        timeout_ms: Some(5000),
    };
    let result = runner.run_test(&workflow, &test_case);
    assert_eq!(result.test_name, "test1");
    assert!(result.execution_time_ms < 5000);
    // The output `result` is not among the inputs, so its check fails.
    assert!(!result.passed);
    assert_eq!(result.failed_assertions(), 1);
    assert_eq!(result.summary(), "test1: FAIL (0/1 assertions passed)");
}

#[test]
fn test_test_suite_execution() {
    let runner = WorkflowTestRunner::new();
    let workflow = Workflow::new("Test".to_string());
    let case = |name: &str| WorkflowTestCase {
        name: name.to_string(),
        description: None,
        inputs: vec![],
        expected_outputs: vec![],
        expected_status: ExpectedStatus::Success,
        timeout_ms: None,
    };
    let suite = TestSuite { name: "Integration Tests".to_string(), tests: vec![case("test1"), case("test2")] };
    let report = runner.run_suite(&workflow, &suite);
    assert_eq!(report.suite_name, "Integration Tests");
    assert_eq!(report.results.len(), 2);
    assert_eq!(report.passed_tests(), 2);
    assert_eq!(report.failed_tests(), 0);
}

#[test]
fn test_result_summary_counts_passed_checks() {
    let e = ExpectedValue::Exists;
    let r = TestResult {
        test_name: "t".to_string(),
        passed: false,
        assertions: vec![
            AssertionResult::pass("a".to_string(), e.duplicate(), "1".to_string()),
            AssertionResult::fail("b".to_string(), e.duplicate(), "null".to_string(), "m".to_string()),
            AssertionResult::pass("c".to_string(), e.duplicate(), "2".to_string()),
        ],
        execution_time_ms: 3,
        error: None,
    };
    assert_eq!(r.passed_assertions(), 2);
    assert_eq!(r.failed_assertions(), 1);
    assert_eq!(r.summary(), "t: FAIL (2/3 assertions passed)");
}

#[test]
fn run_test_passes_when_inputs_meet_expectations() {
    let runner = WorkflowTestRunner::new();
    let test_case = WorkflowTestCase {
        name: "ok".to_string(),
        description: None,
        inputs: vec![("x".to_string(), "5".to_string())],
        expected_outputs: vec![("x".to_string(), ExpectedValue::Exact { value: "5".to_string() })],
        expected_status: ExpectedStatus::Success,
        timeout_ms: None,
    };
    let r = runner.run_test(&Workflow::new("W".to_string()), &test_case);
    assert!(r.passed);
    assert_eq!(r.summary(), "ok: PASS (1/1 assertions passed)");
}
