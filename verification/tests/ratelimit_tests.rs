use rust_servicemesh::headers::RequestHeaders;
use rust_servicemesh::ratelimit::{
    select_client_ip, ClientIp, RateLimitConfig, RateLimitInfo, RateLimitLayer, RateLimitType,
    RateLimiter,
};
use std::sync::Arc;

fn v4(a: u8, b: u8, c: u8, d: u8) -> ClientIp {
    ClientIp::V4(u32::from_be_bytes([a, b, c, d]))
}

/// Reads dotted IPv4 text the way the program does before choosing a client.
fn parse_v4(text: &str) -> Option<ClientIp> {
    let parts: Vec<&str> = text.split('.').collect();
    if parts.len() != 4 {
        return None;
    }
    let mut bytes = [0u8; 4];
    for (i, p) in parts.iter().enumerate() {
        bytes[i] = p.parse::<u8>().ok()?;
    }
    Some(ClientIp::V4(u32::from_be_bytes(bytes)))
}

fn extract(limiter: &RateLimiter, headers: &RequestHeaders, socket: Option<ClientIp>) -> Option<ClientIp> {
    let parsed: Vec<Option<ClientIp>> =
        limiter.client_ip_candidates(headers).iter().map(|c| parse_v4(c)).collect();
    select_client_ip(&parsed, socket)
}

#[test]
fn test_token_bucket_basic() {
    let config = RateLimitConfig::new(10, 10).with_per_client(false);
    let mut limiter = RateLimiter::new(config);

    for _ in 0..10 {
        assert!(limiter.check_at(None, 0).is_ok());
    }

    assert!(limiter.check_at(None, 0).is_err());
}

#[test]
fn test_token_bucket_refill() {
    let config = RateLimitConfig::new(1000, 10).with_per_client(false);
    let mut limiter = RateLimiter::new(config);

    for _ in 0..10 {
        let _ = limiter.check_at(None, 0);
    }

    assert!(limiter.check_at(None, 100).is_ok());
    assert!(limiter.stats().global_available >= 9);
}

#[test]
fn test_rate_limiter_global() {
    let config = RateLimitConfig::new(10, 5).with_per_client(false);
    let mut limiter = RateLimiter::new(config);

    for _ in 0..5 {
        assert!(limiter.check(None).is_ok());
    }

    assert!(limiter.check(None).is_err());
}

#[test]
fn test_rate_limiter_per_client() {
    let config = RateLimitConfig::new(100, 10).with_per_client(true);
    let mut limiter = RateLimiter::new(config);

    let client1 = v4(192, 168, 1, 1);
    let client2 = v4(192, 168, 1, 2);

    for _ in 0..5 {
        assert!(limiter.check_at(Some(client1), 0).is_ok());
    }

    assert!(limiter.check_at(Some(client2), 0).is_ok());
    assert!(limiter.check_at(Some(client2), 0).is_ok());
}

#[test]
fn test_rate_limit_info() {
    let info = RateLimitInfo { limit_type: RateLimitType::Global, retry_after_ms: 500, remaining: 0 };

    assert_eq!(info.retry_after_secs(), 1);
}

#[test]
fn test_rate_limiter_stats() {
    let config = RateLimitConfig::new(100, 50);
    let limiter = RateLimiter::new(config);

    let stats = limiter.stats();
    assert_eq!(stats.requests_per_second, 100);
    assert_eq!(stats.burst_size, 50);
    assert_eq!(stats.client_count, 0);
}

#[test]
fn test_extract_client_ip_no_trust() {
    let config = RateLimitConfig::new(100, 50).with_trust_forwarded_for(false);
    let limiter = RateLimiter::new(config);

    let mut headers = RequestHeaders::new();
    headers.insert("x-forwarded-for", b"1.2.3.4");

    let socket_ip = v4(192, 168, 1, 1);
    let result = extract(&limiter, &headers, Some(socket_ip));

    assert_eq!(result, Some(socket_ip));
}

#[test]
fn test_extract_client_ip_trust_enabled() {
    let config = RateLimitConfig::new(100, 50).with_trust_forwarded_for(true);
    let limiter = RateLimiter::new(config);

    let mut headers = RequestHeaders::new();
    headers.insert("x-forwarded-for", b"1.2.3.4, 5.6.7.8");

    let socket_ip = v4(192, 168, 1, 1);
    let result = extract(&limiter, &headers, Some(socket_ip));

    assert_eq!(result, Some(v4(1, 2, 3, 4)));
}

#[test]
fn test_extract_client_ip_x_real_ip() {
    let config = RateLimitConfig::new(100, 50).with_trust_forwarded_for(true);
    let limiter = RateLimiter::new(config);

    let mut headers = RequestHeaders::new();
    headers.insert("x-real-ip", b"10.0.0.1");

    let socket_ip = v4(192, 168, 1, 1);
    let result = extract(&limiter, &headers, Some(socket_ip));

    assert_eq!(result, Some(v4(10, 0, 0, 1)));
}

#[test]
fn test_extract_client_ip_invalid_header() {
    let config = RateLimitConfig::new(100, 50).with_trust_forwarded_for(true);
    let limiter = RateLimiter::new(config);

    let mut headers = RequestHeaders::new();
    headers.insert("x-forwarded-for", b"not-an-ip");

    let socket_ip = v4(192, 168, 1, 1);
    let result = extract(&limiter, &headers, Some(socket_ip));

    assert_eq!(result, Some(socket_ip));
}

#[test]
fn test_check_with_headers() {
    let config = RateLimitConfig::new(100, 5).with_per_client(true).with_trust_forwarded_for(true);
    let mut limiter = RateLimiter::new(config);

    let mut headers = RequestHeaders::new();
    headers.insert("x-forwarded-for", b"1.2.3.4");

    for _ in 0..5 {
        let ip = extract(&limiter, &headers, None);
        assert!(limiter.check_at(ip, 0).is_ok());
    }

    let ip = extract(&limiter, &headers, None);
    assert!(limiter.check_at(ip, 0).is_err());
}

#[test]
fn ratelimit_candidates_in_order() {
    let config = RateLimitConfig::new(100, 50).with_trust_forwarded_for(true);
    let limiter = RateLimiter::new(config);
    let mut headers = RequestHeaders::new();
    headers.insert("X-Real-IP", b"  10.0.0.9 ");
    headers.insert("x-forwarded-for", b" 9.9.9.9 ,1.1.1.1");
    assert_eq!(
        limiter.client_ip_candidates(&headers),
        vec!["9.9.9.9".to_string(), "10.0.0.9".to_string()]
    );
    let parsed = vec![None, Some(v4(10, 0, 0, 9))];
    assert_eq!(select_client_ip(&parsed, None), Some(v4(10, 0, 0, 9)));
    assert_eq!(select_client_ip(&vec![], Some(v4(1, 1, 1, 1))), Some(v4(1, 1, 1, 1)));
}

#[test]
fn ratelimit_rejection_details() {
    let config = RateLimitConfig::new(2, 1).with_per_client(false);
    let mut limiter = RateLimiter::new(config);
    assert!(limiter.check_at(None, 0).is_ok());
    let err = limiter.check_at(None, 0).unwrap_err();
    assert_eq!(err.limit_type, RateLimitType::Global);
    assert_eq!(err.remaining, 0);
    assert_eq!(err.retry_after_ms, 500);
    assert_eq!(err.retry_after_secs(), 1);
    // half a second later a token has come back
    assert!(limiter.check_at(None, 500).is_ok());
}

#[test]
fn ratelimit_tracks_each_client() {
    let config = RateLimitConfig::new(1000, 5).with_per_client(true);
    let mut limiter = RateLimiter::new(config);
    assert!(limiter.check_at(Some(v4(1, 2, 3, 4)), 0).is_ok());
    assert!(limiter.check_at(Some(v4(1, 2, 3, 5)), 0).is_ok());
    assert!(limiter.check_at(Some(v4(1, 2, 3, 4)), 0).is_ok());
    assert!(limiter.check_at(None, 0).is_ok());
    assert_eq!(limiter.stats().client_count, 2);
    assert_eq!(limiter.stats().global_available, 1);
    let limiter2 = RateLimiter::new(RateLimitConfig::new(1000, 5).with_per_client(false));
    assert_eq!(limiter2.stats().client_count, 0);
}

#[test]
fn ratelimit_config_builders() {
    let c = RateLimitConfig::default();
    assert_eq!(c.requests_per_second, 100);
    assert_eq!(c.burst_size, 50);
    let c = RateLimitConfig::new(1, 2)
        .with_per_client(false)
        .with_client_ttl(5)
        .with_trust_forwarded_for(true)
        .with_max_forwarded_ips(0);
    assert!(!c.per_client);
    assert_eq!(c.client_ttl_ms, 5);
    assert!(c.trust_forwarded_for);
    assert_eq!(c.max_forwarded_ips, 1);
    let layer = RateLimitLayer::new(Arc::new(RateLimiter::new(c)));
    let copy = layer.clone();
    assert_eq!(copy.limiter().config().burst_size, 2);
}

#[test]
fn ratelimit_retry_after_rounds_down_to_seconds() {
    let info = RateLimitInfo { limit_type: RateLimitType::PerClient, retry_after_ms: 2500, remaining: 0 };
    assert_eq!(info.retry_after_secs(), 2);
}

#[test]
fn ratelimit_zero_rate_refusal_is_detected() {
    let config = RateLimitConfig::new(0, 1).with_per_client(false);
    let mut limiter = RateLimiter::new(config);
    assert!(!limiter.refusal_waits_forever(None, 0));
    assert!(limiter.check_at(None, 0).is_ok());
    assert!(limiter.refusal_waits_forever(None, 5));
    let normal = RateLimiter::new(RateLimitConfig::new(10, 1));
    assert!(!normal.refusal_waits_forever(None, 0));
}
