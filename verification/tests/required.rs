use dag_engine::db_utils::{bool_to_int, i64_to_u64_safe, int_to_bool, opt_i64_to_u64};
use dag_engine::execution::{ExecutionState, TokenUsage};
use dag_engine::linter::{LintCategory, LintFinding, LintResult, LintSeverity, LinterConfig, WorkflowLinter};
use dag_engine::node::ServiceAuth;
use dag_engine::rest::{convert_auth, AuthConfig, LoggingInterceptor};
use dag_engine::server::{sanitize_error_message, AppError, TracingConfig};
use dag_engine::storage::{
    validate_collection_size, validate_non_empty_string, validate_optional_positive, validate_positive,
    QuotaLimitValidator,
};
use dag_engine::tls::{TlsConfig, TlsError, TlsVersion};
use dag_engine::workflow::VersionBump;

#[test]
fn test_auth_config_variants() {
    let bearer = AuthConfig::bearer("token");
    assert!(matches!(bearer, AuthConfig::Bearer { .. }));

    let api_key = AuthConfig::api_key("X-API-Key", "secret");
    assert!(matches!(api_key, AuthConfig::ApiKey { .. }));

    let basic = AuthConfig::basic("user", "pass");
    assert!(matches!(basic, AuthConfig::Basic { .. }));
}

#[test]
fn test_logging_interceptor() {
    let interceptor = LoggingInterceptor::new();
    assert!(interceptor.log_request);
    assert!(interceptor.log_response);
}

#[test]
fn test_convert_auth_none() {
    let result = convert_auth(&ServiceAuth::NoAuth);
    assert!(matches!(result, AuthConfig::NoAuth));
}

#[test]
fn test_convert_auth_bearer() {
    let result = convert_auth(&ServiceAuth::Bearer { token: "tok_123".to_string() });
    assert!(matches!(result, AuthConfig::Bearer { token } if token == "tok_123"));
}

#[test]
fn test_convert_auth_basic() {
    let result = convert_auth(&ServiceAuth::Basic { username: "user".to_string(), password: "pass".to_string() });
    assert!(matches!(result, AuthConfig::Basic { .. }));
}

#[test]
fn test_convert_auth_oauth2() {
    let result = convert_auth(&ServiceAuth::OAuth2 {
        client_id: "cid".to_string(),
        client_secret: "cs".to_string(),
        token_url: "https://auth.example.com/token".to_string(),
        scopes: vec!["read".to_string()],
    });
    assert!(matches!(result, AuthConfig::OAuth2 { .. }));
}

#[test]
fn test_execution_state_variants() {
    assert_eq!(ExecutionState::Running, ExecutionState::Running);
    assert_eq!(ExecutionState::Completed, ExecutionState::Completed);
    assert_eq!(ExecutionState::Cancelled, ExecutionState::Cancelled);
    assert_eq!(ExecutionState::Paused, ExecutionState::Paused);
    assert_eq!(ExecutionState::Failed("error".to_string()), ExecutionState::Failed("error".to_string()));
}

#[test]
fn test_token_usage() {
    let token_usage = TokenUsage { input_tokens: 100, output_tokens: 50, total_tokens: 150, cached_tokens: None };

    assert_eq!(token_usage.input_tokens, 100);
    assert_eq!(token_usage.output_tokens, 50);
    assert_eq!(token_usage.total_tokens, 150);
    assert_eq!(token_usage.cached_tokens, None);
}

#[test]
fn test_linter_creation() {
    let linter = WorkflowLinter::new();
    assert_eq!(linter.config.max_retry_count, 5);

    let custom_config = LinterConfig { max_retry_count: 3, ..Default::default() };
    let custom_linter = WorkflowLinter::with_config(custom_config);
    assert_eq!(custom_linter.config.max_retry_count, 3);
}

#[test]
fn test_lint_result_stats() {
    let findings = vec![
        LintFinding::new("test1", LintSeverity::Error, LintCategory::Security, "Error"),
        LintFinding::new("test2", LintSeverity::Warning, LintCategory::Performance, "Warning"),
        LintFinding::new("test3", LintSeverity::Info, LintCategory::Maintainability, "Info"),
    ];

    let result = LintResult::new(findings);
    assert_eq!(result.stats.total, 3);
    assert_eq!(result.stats.errors, 1);
    assert_eq!(result.stats.warnings, 1);
    assert_eq!(result.stats.info, 1);
    assert!(result.has_errors());
    assert!(result.has_warnings());
}

#[test]
fn test_version_bump_enum() {
    assert_eq!(VersionBump::Major, VersionBump::Major);
    assert_ne!(VersionBump::Major, VersionBump::Minor);
    assert_ne!(VersionBump::Minor, VersionBump::Patch);
}

#[test]
fn test_i64_to_u64_safe() {
    assert_eq!(i64_to_u64_safe(100), 100);
    assert_eq!(i64_to_u64_safe(0), 0);
    assert_eq!(i64_to_u64_safe(-1), 0);
    assert_eq!(i64_to_u64_safe(-999), 0);
    assert_eq!(i64_to_u64_safe(i64::MAX), i64::MAX as u64);
}

#[test]
fn test_opt_i64_to_u64() {
    assert_eq!(opt_i64_to_u64(Some(100)), Some(100));
    assert_eq!(opt_i64_to_u64(Some(0)), Some(0));
    assert_eq!(opt_i64_to_u64(Some(-1)), Some(0));
    assert_eq!(opt_i64_to_u64(Some(-999)), Some(0));
    assert_eq!(opt_i64_to_u64(None), None);
}

#[test]
fn test_bool_to_int() {
    assert_eq!(bool_to_int(true), 1);
    assert_eq!(bool_to_int(false), 0);
}

#[test]
fn test_int_to_bool() {
    assert!(int_to_bool(1));
    assert!(!int_to_bool(0));
    assert!(int_to_bool(42));
    assert!(int_to_bool(-1));
}

#[test]
fn test_roundtrip_bool_int() {
    assert!(int_to_bool(bool_to_int(true)));
    assert!(!int_to_bool(bool_to_int(false)));
}

#[test]
fn test_validate_positive_i32() {
    assert!(validate_positive(10, "test").is_ok());
    assert!(validate_positive(1, "test").is_ok());

    let result = validate_positive(0, "test");
    assert!(result.is_err());

    let result = validate_positive(-5, "test");
    assert!(result.is_err());
}

#[test]
fn test_validate_positive_i64() {
    assert!(validate_positive(100i64, "test").is_ok());
    assert!(validate_positive(0i64, "test").is_err());
    assert!(validate_positive(-10i64, "test").is_err());
}

#[test]
fn test_validate_optional_positive() {
    assert!(validate_optional_positive(Some(10), "test").is_ok());
    assert!(validate_optional_positive(None::<i64>, "test").is_ok());
    assert!(validate_optional_positive(Some(0), "test").is_err());
    assert!(validate_optional_positive(Some(-5), "test").is_err());
}

#[test]
fn test_validate_non_empty_string() {
    assert!(validate_non_empty_string("test", "field").is_ok());
    assert!(validate_non_empty_string("a", "field").is_ok());

    let result = validate_non_empty_string("", "field");
    assert!(result.is_err());
    assert!(result.unwrap_err().message().contains("cannot be empty"));

    let result = validate_non_empty_string("   ", "field");
    assert!(result.is_err());
}

#[test]
fn test_validate_collection_size() {
    let items = vec![1, 2, 3];
    assert!(validate_collection_size(&items, 5, "items").is_ok());
    assert!(validate_collection_size(&items, 3, "items").is_ok());

    let result = validate_collection_size(&items, 2, "items");
    assert!(result.is_err());
    assert!(result.unwrap_err().message().contains("exceeds the maximum"));
}

#[test]
fn test_quota_limit_validator_valid() {
    let result = QuotaLimitValidator::new()
        .validate_limit(Some(100), "max_executions")
        .validate_limit(Some(50), "max_tokens")
        .validate_limit_i64(Some(1000), "max_cost")
        .build();
    assert!(result.is_ok());
}

#[test]
fn test_quota_limit_validator_with_none() {
    let result = QuotaLimitValidator::new()
        .validate_limit(None, "max_executions")
        .validate_limit(Some(50), "max_tokens")
        .build();
    assert!(result.is_ok());
}

#[test]
fn test_quota_limit_validator_invalid() {
    let result = QuotaLimitValidator::new()
        .validate_limit(Some(-1), "max_executions")
        .validate_limit(Some(0), "max_tokens")
        .build();

    assert!(result.is_err());
    let error_msg = result.unwrap_err().message();
    assert!(error_msg.contains("max_executions"));
    assert!(error_msg.contains("max_tokens"));
}

#[test]
fn test_quota_limit_validator_multiple_errors() {
    let result = QuotaLimitValidator::new()
        .validate_limit(Some(-1), "field1")
        .validate_limit(Some(0), "field2")
        .validate_limit_i64(Some(-100), "field3")
        .build();

    assert!(result.is_err());
    let error_msg = result.unwrap_err().message();
    assert!(error_msg.contains("field1"));
    assert!(error_msg.contains("field2"));
    assert!(error_msg.contains("field3"));
}

#[test]
fn test_app_error_variants() {
    let err = AppError::Validation("Invalid input".to_string());
    assert!(err.message().contains("Validation error"));

    let err = AppError::NotFound("User not found".to_string());
    assert!(err.message().contains("Not found"));

    let err = AppError::RateLimit { retry_after: 60 };
    assert!(err.message().contains("Rate limit exceeded"));
}

#[test]
fn test_sanitize_error_message() {
    let msg = "Database connection failed";
    assert_eq!(sanitize_error_message(msg, true), "An internal error occurred");
    assert_eq!(sanitize_error_message(msg, false), "Database connection failed");

    let msg = "Invalid user input";
    assert_eq!(sanitize_error_message(msg, true), "Invalid user input");
}

#[test]
fn test_tls_config_default() {
    let config = TlsConfig::default();
    assert!(!config.enabled);
    assert_eq!(config.min_tls_version, TlsVersion::Tls12);
    assert!(!config.client_auth);
}

#[test]
fn test_tls_config_tls13_only() {
    let config = TlsConfig::tls13_only();
    assert!(config.enabled);
    assert_eq!(config.min_tls_version, TlsVersion::Tls13);
}

#[test]
fn test_tls_version_equality() {
    assert_eq!(TlsVersion::Tls12, TlsVersion::Tls12);
    assert_eq!(TlsVersion::Tls13, TlsVersion::Tls13);
    assert_ne!(TlsVersion::Tls12, TlsVersion::Tls13);
}

#[test]
fn test_tls_config_validation_disabled() {
    let config = TlsConfig::default();
    assert!(config.validate(false, false, false).is_ok());
}

#[test]
fn test_tls_error_display() {
    let err = TlsError::CertificateNotFound("cert.pem".to_string());
    assert_eq!(err.message(), "Certificate file not found: cert.pem");

    let err = TlsError::KeyNotFound("key.pem".to_string());
    assert_eq!(err.message(), "Private key file not found: key.pem");

    let err = TlsError::MissingCaCert;
    assert_eq!(err.message(), "Client authentication enabled but CA certificate path not provided");
}

#[test]
fn test_tracing_config_default() {
    let config = TracingConfig::default();
    assert_eq!(config.service_name, "server");
    assert_eq!(config.log_level, "info");
    assert!(!config.json_format);
}

#[test]
fn test_tracing_config_builder() {
    let config = TracingConfig::new("test-service").with_log_level("debug").with_json_format(true);

    assert_eq!(config.service_name, "test-service");
    assert_eq!(config.log_level, "debug");
    assert!(config.json_format);
}
