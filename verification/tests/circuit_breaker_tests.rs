use rust_servicemesh::circuit_breaker::{CircuitBreaker, CircuitBreakerConfig, State};

#[test]
fn test_circuit_breaker_closed_to_open() {
    let config = CircuitBreakerConfig { failure_threshold: 3, timeout_ms: 100, success_threshold: 2 };
    let mut cb = CircuitBreaker::new(config);

    assert_eq!(cb.state(), State::Closed);
    assert!(cb.allow_request_at(0));

    cb.record_failure_at(0);
    cb.record_failure_at(0);
    cb.record_failure_at(0);

    assert_eq!(cb.state(), State::Open);
    assert!(!cb.allow_request_at(0));
}

#[test]
fn test_circuit_breaker_open_to_halfopen() {
    let config = CircuitBreakerConfig { failure_threshold: 2, timeout_ms: 50, success_threshold: 2 };
    let mut cb = CircuitBreaker::new(config);

    cb.record_failure_at(0);
    cb.record_failure_at(0);
    assert_eq!(cb.state(), State::Open);

    assert!(cb.allow_request_at(60));
    assert_eq!(cb.state(), State::HalfOpen);
}

#[test]
fn test_circuit_breaker_halfopen_to_closed() {
    let config = CircuitBreakerConfig { failure_threshold: 2, timeout_ms: 50, success_threshold: 2 };
    let mut cb = CircuitBreaker::new(config);

    cb.record_failure_at(0);
    cb.record_failure_at(0);

    assert!(cb.allow_request_at(60));

    cb.record_success();
    cb.record_success();

    assert_eq!(cb.state(), State::Closed);
}

#[test]
fn test_circuit_breaker_halfopen_to_open() {
    let config = CircuitBreakerConfig { failure_threshold: 2, timeout_ms: 50, success_threshold: 2 };
    let mut cb = CircuitBreaker::new(config);

    cb.record_failure_at(0);
    cb.record_failure_at(0);

    assert!(cb.allow_request_at(60));

    cb.record_failure_at(60);
    assert_eq!(cb.state(), State::Open);
}

#[test]
fn test_circuit_breaker_stats() {
    let config = CircuitBreakerConfig::default();
    let mut cb = CircuitBreaker::new(config);

    cb.allow_request();
    cb.allow_request();
    cb.record_failure();

    let stats = cb.stats();
    assert_eq!(stats.total_requests, 2);
    assert_eq!(stats.total_failures, 1);
}

#[test]
fn breaker_uses_real_clock() {
    let config = CircuitBreakerConfig { failure_threshold: 1, timeout_ms: 50, success_threshold: 1 };
    let mut cb = CircuitBreaker::new(config);
    cb.record_failure();
    assert_eq!(cb.state(), State::Open);
    let start = std::time::Instant::now();
    while start.elapsed() < std::time::Duration::from_millis(60) {}
    assert!(cb.allow_request());
    assert_eq!(cb.state(), State::HalfOpen);
    cb.record_success();
    assert_eq!(cb.state(), State::Closed);
}

#[test]
fn breaker_waits_exactly_the_timeout() {
    let config = CircuitBreakerConfig { failure_threshold: 1, timeout_ms: 50, success_threshold: 1 };
    let mut cb = CircuitBreaker::new(config);
    cb.record_failure_at(10);
    assert!(!cb.allow_request_at(59));
    assert_eq!(cb.state(), State::Open);
    assert!(cb.allow_request_at(60));
    assert_eq!(cb.state(), State::HalfOpen);
}

#[test]
fn breaker_success_in_closed_clears_failures() {
    let mut cb = CircuitBreaker::new(CircuitBreakerConfig::default());
    for _ in 0..4 {
        cb.record_failure_at(0);
    }
    assert_eq!(cb.stats().current_failure_count, 4);
    cb.record_success();
    assert_eq!(cb.stats().current_failure_count, 0);
    for _ in 0..4 {
        cb.record_failure_at(0);
    }
    assert_eq!(cb.state(), State::Closed);
    cb.record_failure_at(0);
    assert_eq!(cb.state(), State::Open);
    cb.reset();
    assert_eq!(cb.state(), State::Closed);
    assert_eq!(cb.stats().current_failure_count, 0);
    let d = cb.config();
    assert_eq!(d.failure_threshold, 5);
    assert_eq!(d.timeout_ms, 30_000);
    assert_eq!(d.success_threshold, 2);
}
