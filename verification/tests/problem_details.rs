use dag_engine::server::ProblemDetails;

#[test]
fn test_problem_details_new() {
    let problem = ProblemDetails::new(400, "Bad Request");
    assert_eq!(problem.status, 400);
    assert_eq!(problem.title, "Bad Request");
    assert_eq!(problem.problem_type, "https://httpstatuses.com/400");
}

#[test]
fn test_problem_details_with_detail() {
    let problem = ProblemDetails::bad_request("Invalid input".to_string());
    assert_eq!(problem.status, 400);
    assert_eq!(problem.detail, Some("Invalid input".to_string()));
}

#[test]
fn test_problem_details_with_instance() {
    let problem = ProblemDetails::not_found("Resource not found".to_string()).with_instance("/api/users/123".to_string());
    assert_eq!(problem.instance, Some("/api/users/123".to_string()));
}

#[test]
fn test_problem_details_with_extensions() {
    let problem = ProblemDetails::rate_limited(60);
    assert!(problem.extensions.is_some());
    if let Some(ext) = problem.extensions {
        let value: serde_json::Value = serde_json::from_str(&ext).unwrap();
        assert_eq!(value["retry_after"], 60);
    }
}

#[test]
fn test_problem_details_status_code() {
    let problem = ProblemDetails::not_found("Resource not found".to_string());
    assert_eq!(problem.status_code(), 404);
}

#[test]
fn status_page_and_odd_codes() {
    assert_eq!(ProblemDetails::payload_too_large(1024).detail, Some("Request body exceeds maximum size of 1024 bytes".to_string()));
    let odd = ProblemDetails::new(42, "Odd");
    assert_eq!(odd.problem_type, "https://httpstatuses.com/42");
    assert_eq!(odd.status_code(), 500);
}
