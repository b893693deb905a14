use dag_engine::rest::{CircuitBreaker, CircuitBreakerConfig, CircuitState};
use dag_engine::text::trim_text;
use dag_engine::workflow::{format_version, parse_version_str, WorkflowMetadata};

#[test]
fn version_text_parses_back() {
    for (a, b, c) in [(0u32, 0u32, 0u32), (1, 2, 3), (10, 0, 99), (4294967295, 7, 12)] {
        let text = format_version(a as u64, b as u64, c as u64);
        assert_eq!(parse_version_str(&text), Ok((a, b, c)));
    }
    assert_eq!(format_version(1, 20, 3), "1.20.3");
}

#[test]
fn bumped_version_parses_to_next() {
    let mut m = WorkflowMetadata::new("w".to_string());
    m.bump_patch();
    assert_eq!(m.parse_version(), Ok((0, 1, 1)));
    m.bump_minor();
    assert_eq!(m.parse_version(), Ok((0, 2, 0)));
    m.bump_major();
    assert_eq!(m.parse_version(), Ok((1, 0, 0)));
}

#[test]
fn breaker_opens_at_threshold() {
    let config = CircuitBreakerConfig { failure_threshold: 3, success_threshold: 2, timeout_secs: 60, window_secs: 60 };
    let mut cb = CircuitBreaker::new_at(config, 0);
    cb.record_failure_at(1_000);
    cb.record_failure_at(1_000);
    assert_eq!(cb.get_state(), CircuitState::Closed);
    cb.record_failure_at(1_000);
    assert_eq!(cb.get_state(), CircuitState::Open);
    cb.record_failure_at(1_000);
    assert_eq!(cb.get_state(), CircuitState::Open);
    assert!(!cb.is_request_allowed_at(30_000));
    assert!(cb.is_request_allowed_at(61_000));
    assert_eq!(cb.get_state(), CircuitState::HalfOpen);
    cb.record_success_at(62_000);
    cb.record_success_at(63_000);
    assert_eq!(cb.get_state(), CircuitState::Closed);
}

#[test]
fn failures_outside_window_restart_count() {
    let config = CircuitBreakerConfig { failure_threshold: 2, success_threshold: 1, timeout_secs: 10, window_secs: 5 };
    let mut cb = CircuitBreaker::new_at(config, 0);
    cb.record_failure_at(0);
    cb.record_failure_at(6_001);
    assert_eq!(cb.get_state(), CircuitState::Closed);
    assert_eq!(cb.failure_count, 1);
}

#[test]
fn trimming_text() {
    assert_eq!(trim_text("  a b \n"), "a b");
    assert_eq!(trim_text("\t\u{3000}"), "");
    assert_eq!(trim_text("x"), "x");
}

#[test]
fn test_circuit_breaker_closed_state() {
    let config = CircuitBreakerConfig { failure_threshold: 3, success_threshold: 2, timeout_secs: 60, window_secs: 60 };
    let mut breaker = CircuitBreaker::new_at(config, 0);
    assert!(breaker.is_request_allowed_at(0));
    assert_eq!(breaker.get_state(), CircuitState::Closed);
}

#[test]
fn test_circuit_breaker_opens_after_failures() {
    let config = CircuitBreakerConfig { failure_threshold: 3, success_threshold: 2, timeout_secs: 1, window_secs: 60 };
    let mut breaker = CircuitBreaker::new_at(config, 0);
    breaker.record_failure_at(10);
    breaker.record_failure_at(20);
    breaker.record_failure_at(30);
    assert_eq!(breaker.get_state(), CircuitState::Open);
    assert!(!breaker.is_request_allowed_at(40));
}

#[test]
fn test_circuit_breaker_half_open_transition() {
    let config = CircuitBreakerConfig { failure_threshold: 2, success_threshold: 2, timeout_secs: 1, window_secs: 60 };
    let mut breaker = CircuitBreaker::new_at(config, 0);
    breaker.record_failure_at(10);
    breaker.record_failure_at(20);
    assert_eq!(breaker.get_state(), CircuitState::Open);
    // Two seconds later the timeout has passed.
    assert!(breaker.is_request_allowed_at(2_020));
    assert_eq!(breaker.get_state(), CircuitState::HalfOpen);
}

#[test]
fn test_circuit_breaker_closes_after_successes() {
    let config = CircuitBreakerConfig { failure_threshold: 2, success_threshold: 2, timeout_secs: 1, window_secs: 60 };
    let mut breaker = CircuitBreaker::new_at(config, 0);
    breaker.record_failure_at(10);
    breaker.record_failure_at(20);
    assert_eq!(breaker.get_state(), CircuitState::Open);
    assert!(breaker.is_request_allowed_at(2_020));
    breaker.record_success_at(2_030);
    breaker.record_success_at(2_040);
    assert_eq!(breaker.get_state(), CircuitState::Closed);
}

#[test]
fn test_circuit_breaker_reset() {
    let config = CircuitBreakerConfig::default_config();
    let mut breaker = CircuitBreaker::new_at(config, 0);
    for i in 0..5 {
        breaker.record_failure_at(i * 10);
    }
    assert_eq!(breaker.get_state(), CircuitState::Open);
    breaker.reset_at(100);
    assert_eq!(breaker.get_state(), CircuitState::Closed);
    assert!(breaker.is_request_allowed_at(110));
}
