use rust_servicemesh::retry::{RetryConfig, RetryExecutor, RetryPolicy, RetryStep};
use std::time::Duration;

#[test]
fn test_retry_config_default() {
    let config = RetryConfig::default();
    assert_eq!(config.max_retries, 3);
    assert_eq!(Duration::from_millis(config.base_delay_ms), Duration::from_millis(100));
    assert!(config.use_jitter);
}

#[test]
fn test_retry_config_builder() {
    let config = RetryConfig::new().with_max_retries(5).with_base_delay(200).with_jitter(false);

    assert_eq!(config.max_retries, 5);
    assert_eq!(Duration::from_millis(config.base_delay_ms), Duration::from_millis(200));
    assert!(!config.use_jitter);
}

#[test]
fn test_retry_policy_has_remaining() {
    let config = RetryConfig::new().with_max_retries(2);
    let mut policy = RetryPolicy::new(config);

    assert!(policy.has_remaining_retries());
    policy.record_retry();
    assert!(policy.has_remaining_retries());
    policy.record_retry();
    assert!(!policy.has_remaining_retries());
}

#[test]
fn test_retry_policy_delay_increases() {
    let config = RetryConfig::new().with_base_delay(100).with_backoff_multiplier(2000).with_jitter(false);

    let mut policy = RetryPolicy::new(config);

    let delay1 = policy.next_delay();
    policy.record_retry();
    let delay2 = policy.next_delay();
    policy.record_retry();
    let delay3 = policy.next_delay();

    assert_eq!(Duration::from_millis(delay1), Duration::from_millis(100));
    assert_eq!(Duration::from_millis(delay2), Duration::from_millis(200));
    assert_eq!(Duration::from_millis(delay3), Duration::from_millis(400));
}

#[test]
fn test_retry_policy_max_delay() {
    let config = RetryConfig::new()
        .with_base_delay(1000)
        .with_max_delay(5000)
        .with_backoff_multiplier(10_000)
        .with_jitter(false);

    let mut policy = RetryPolicy::new(config);
    policy.record_retry();
    policy.record_retry();

    let delay = policy.next_delay();
    assert_eq!(Duration::from_millis(delay), Duration::from_secs(5));
}

#[test]
fn test_retry_policy_retryable_status() {
    let config = RetryConfig::new().with_retryable_status_codes(vec![502, 503]);
    let policy = RetryPolicy::new(config);

    assert!(policy.should_retry_status(502));
    assert!(policy.should_retry_status(503));
    assert!(!policy.should_retry_status(500));
    assert!(!policy.should_retry_status(200));
}

#[test]
fn test_retry_policy_retryable_error() {
    let config = RetryConfig::new();
    let policy = RetryPolicy::new(config);

    assert!(policy.should_retry_error("connection refused"));
    assert!(policy.should_retry_error("Connection reset by peer"));
    assert!(policy.should_retry_error("request timeout"));
    assert!(!policy.should_retry_error("invalid request"));
}

#[test]
fn test_retry_executor_success() {
    let mut executor = RetryExecutor::with_defaults();
    let mut outcomes = vec![Err("connection refused"), Ok::<i32, &str>(42)].into_iter();
    let mut calls = 0;
    let result = loop {
        calls += 1;
        match outcomes.next().unwrap() {
            Ok(v) => break Ok(v),
            Err(e) => match executor.on_error(e) {
                RetryStep::RetryAfter(_) => continue,
                RetryStep::GiveUp(n) => break Err(n),
            },
        }
    };

    assert!(result.is_ok());
    assert_eq!(result.unwrap(), 42);
    assert_eq!(calls, 2);
    assert_eq!(executor.attempt(), 1);
}

#[test]
fn test_retry_executor_exhausted() {
    let config = RetryConfig::new().with_max_retries(2);
    let mut executor = RetryExecutor::new(config);

    let mut attempts = 0;
    let step = loop {
        match executor.on_error("connection refused") {
            RetryStep::RetryAfter(_) => attempts += 1,
            other => break other,
        }
    };
    assert_eq!(attempts, 2);
    match step {
        RetryStep::GiveUp(total) => assert_eq!(total, 3),
        RetryStep::RetryAfter(_) => panic!("expected to give up"),
    }
}

#[test]
fn retry_jitter_bounds_and_exact_scaling() {
    let policy = RetryPolicy::new(RetryConfig::new().with_base_delay(100).with_jitter(true));
    assert_eq!(policy.delay_for_jitter(500), 50);
    assert_eq!(policy.delay_for_jitter(1499), 149);
    assert_eq!(policy.backoff_delay_ms(), 100);
    for _ in 0..50 {
        let d = policy.next_delay();
        assert!((50..150).contains(&d));
    }
    let plain = RetryPolicy::new(RetryConfig::new().with_base_delay(100).with_jitter(false));
    assert_eq!(plain.delay_for_jitter(500), 100);
}

#[test]
fn retry_record_retry_stops_at_limit() {
    let mut policy = RetryPolicy::new(RetryConfig::new().with_max_retries(1).with_jitter(false));
    assert_eq!(policy.record_retry(), Some(100));
    assert_eq!(policy.attempt(), 1);
    assert_eq!(policy.record_retry(), None);
    assert_eq!(policy.attempt(), 1);
    assert!(!policy.should_retry_status(503));
    assert!(!policy.should_retry_error("timeout"));
    policy.reset();
    assert_eq!(policy.attempt(), 0);
    assert!(policy.should_retry_status(503));
    assert_eq!(policy.max_retries(), 1);
}

#[test]
fn retry_executor_gives_up_on_permanent_error() {
    let mut executor = RetryExecutor::with_defaults();
    assert_eq!(executor.on_error("invalid request"), RetryStep::GiveUp(1));
    assert_eq!(executor.attempt(), 0);
}

#[test]
fn retry_zero_multiplier_and_cap() {
    let policy = RetryPolicy::new(RetryConfig::new().with_base_delay(20_000).with_jitter(false));
    assert_eq!(policy.next_delay(), 10_000);
    let mut p = RetryPolicy::new(
        RetryConfig::new().with_base_delay(100).with_backoff_multiplier(0).with_jitter(false),
    );
    assert_eq!(p.next_delay(), 100);
    p.record_retry();
    assert_eq!(p.next_delay(), 0);
    assert!(RetryConfig::default().is_retryable_status(504));
    assert!(!RetryConfig::default().is_retryable_status(500));
}

#[test]
fn retry_fractional_multiplier() {
    let mut policy = RetryPolicy::new(
        RetryConfig::new().with_base_delay(100).with_backoff_multiplier(1500).with_jitter(false),
    );
    let mut delays = Vec::new();
    for _ in 0..4 {
        delays.push(policy.next_delay());
        policy.record_retry();
    }
    assert_eq!(delays, vec![100, 150, 225, 337]);
    let shrinking = RetryPolicy::new(
        RetryConfig::new().with_base_delay(100).with_backoff_multiplier(500).with_jitter(false),
    );
    assert_eq!(shrinking.next_delay(), 100);
    assert_eq!(RetryConfig::default().backoff_multiplier_permille, 2000);
}
