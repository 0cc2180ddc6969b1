use rust_servicemesh::connection::{ConnectionConfig, ConnectionLimiter};

#[test]
fn test_connection_limiter_basic() {
    let mut limiter = ConnectionLimiter::new(ConnectionConfig::new(2));

    let _guard1 = limiter.try_acquire();
    let _guard2 = limiter.try_acquire();
    assert!(_guard1.is_some());
    assert!(_guard2.is_some());
    assert_eq!(limiter.active_connections(), 2);

    assert!(limiter.try_acquire().is_none());
    assert_eq!(limiter.total_rejected(), 1);
}

#[test]
fn test_connection_guard_release() {
    let mut limiter = ConnectionLimiter::new(ConnectionConfig::new(1));

    {
        let _guard = limiter.try_acquire();
        assert_eq!(limiter.active_connections(), 1);
    }

    assert_eq!(limiter.active_connections(), 0);
    assert!(limiter.try_acquire().is_some());
}

#[test]
fn test_connection_stats() {
    let mut limiter = ConnectionLimiter::new(ConnectionConfig::new(2));

    let _guard1 = limiter.try_acquire();
    let _guard2 = limiter.try_acquire();
    let _ = limiter.try_acquire();

    let stats = limiter.stats();
    assert_eq!(stats.active, 2);
    assert_eq!(stats.total_accepted, 2);
    assert_eq!(stats.total_rejected, 1);
    assert_eq!(stats.max_connections, 2);
}

#[test]
fn connection_config_defaults() {
    let c = ConnectionConfig::default();
    assert_eq!(c.max_connections, 10_000);
    assert_eq!(c.max_connections_per_ip, 100);
    let c = ConnectionConfig::new(7).with_max_per_ip(3);
    assert_eq!(c.max_connections, 7);
    assert_eq!(c.max_connections_per_ip, 3);
    let limiter = ConnectionLimiter::with_defaults();
    assert_eq!(limiter.max_connections(), 10_000);
    assert_eq!(limiter.total_accepted(), 0);
    assert_eq!(limiter.active_connections(), 0);
}

#[test]
fn connection_zero_limit_refuses_everything() {
    let mut limiter = ConnectionLimiter::new(ConnectionConfig::new(0));
    assert!(limiter.try_acquire().is_none());
    assert!(limiter.try_acquire().is_none());
    assert_eq!(limiter.total_rejected(), 2);
    assert_eq!(limiter.total_accepted(), 0);
    assert_eq!(limiter.active_connections(), 0);
}

#[test]
fn connection_drop_frees_place() {
    let mut limiter = ConnectionLimiter::new(ConnectionConfig::new(1));
    let g = limiter.try_acquire();
    assert!(g.is_some());
    assert!(limiter.try_acquire().is_none());
    drop(g);
    assert_eq!(limiter.active_connections(), 0);
    assert!(limiter.try_acquire().is_some());
    assert_eq!(limiter.total_accepted(), 2);
    assert_eq!(limiter.total_rejected(), 1);
}
