use rust_servicemesh::router::LoadBalancingPolicy;
use rust_servicemesh::transport::{Endpoint, LoadBalancer, PoolConfig, Transport};

#[test]
fn test_endpoint_basic() {
    let endpoint = Endpoint::new("http://localhost:8080");
    assert!(endpoint.is_healthy());
    assert_eq!(endpoint.active_connections(), 0);
    assert_eq!(endpoint.weight(), 100);
}

#[test]
fn test_endpoint_with_weight() {
    let endpoint = Endpoint::with_weight("http://localhost:8080", 50);
    assert_eq!(endpoint.weight(), 50);
}

#[test]
fn test_endpoint_connections() {
    let mut endpoint = Endpoint::new("http://localhost:8080");
    endpoint.acquire_connection();
    endpoint.acquire_connection();
    assert_eq!(endpoint.active_connections(), 2);

    endpoint.release_connection();
    assert_eq!(endpoint.active_connections(), 1);
}

#[test]
fn test_endpoint_stats() {
    let mut endpoint = Endpoint::new("http://localhost:8080");
    endpoint.record_success(100_000);
    endpoint.record_success(200_000);
    endpoint.record_failure();

    let stats = endpoint.stats();
    assert_eq!(stats.total_requests, 3);
    assert_eq!(stats.successful_requests, 2);
    assert_eq!(stats.failed_requests, 1);
    let avg_ms = stats.total_response_time_us as f64 / stats.successful_requests as f64 / 1000.0;
    assert!(avg_ms > 0.0);
}

#[test]
fn test_load_balancer_round_robin() {
    let mut lb = LoadBalancer::from_addresses(
        vec![
            "http://host1:8080".to_string(),
            "http://host2:8080".to_string(),
            "http://host3:8080".to_string(),
        ],
        LoadBalancingPolicy::RoundRobin,
    );

    let ep1 = lb.select().unwrap();
    let ep2 = lb.select().unwrap();
    let ep3 = lb.select().unwrap();
    let ep4 = lb.select().unwrap();

    assert_ne!(lb.endpoint(ep1).address, lb.endpoint(ep2).address);
    assert_ne!(lb.endpoint(ep2).address, lb.endpoint(ep3).address);
    assert_eq!(lb.endpoint(ep1).address, lb.endpoint(ep4).address);
}

#[test]
fn test_load_balancer_least_connections() {
    let mut endpoints = vec![Endpoint::new("http://host1:8080"), Endpoint::new("http://host2:8080")];

    endpoints[0].acquire_connection();
    endpoints[0].acquire_connection();

    let mut lb = LoadBalancer::new(endpoints, LoadBalancingPolicy::LeastConnections);

    let selected = lb.select().unwrap();
    assert_eq!(lb.endpoint(selected).address, "http://host2:8080");
}

#[test]
fn test_load_balancer_unhealthy_skip() {
    let mut endpoints = vec![Endpoint::new("http://host1:8080"), Endpoint::new("http://host2:8080")];

    endpoints[0].set_healthy(false);

    let mut lb = LoadBalancer::new(endpoints, LoadBalancingPolicy::RoundRobin);

    for _ in 0..5 {
        let selected = lb.select().unwrap();
        assert_eq!(lb.endpoint(selected).address, "http://host2:8080");
    }
}

#[test]
fn test_transport_add_cluster() {
    let mut transport = Transport::with_defaults();
    transport.add_cluster(
        "api",
        vec!["http://api1:8080".to_string(), "http://api2:8080".to_string()],
        LoadBalancingPolicy::RoundRobin,
    );

    let cluster = transport.get_cluster("api");
    assert!(cluster.is_some());
    assert_eq!(cluster.unwrap().total_count(), 2);
}

#[test]
fn test_transport_select_endpoint() {
    let mut transport = Transport::with_defaults();
    transport.add_cluster("api", vec!["http://api1:8080".to_string()], LoadBalancingPolicy::RoundRobin);

    let endpoint = transport.select_endpoint("api");
    assert!(endpoint.is_some());
    let cluster = transport.get_cluster("api").unwrap();
    assert_eq!(cluster.endpoint(endpoint.unwrap()).address, "http://api1:8080");

    let missing = transport.select_endpoint("nonexistent");
    assert!(missing.is_none());
}

#[test]
fn transport_select_with_is_deterministic() {
    let mut lb = LoadBalancer::from_addresses(
        vec!["a".to_string(), "b".to_string(), "c".to_string()],
        LoadBalancingPolicy::Random,
    );
    let times = vec![0u64, 0, 0];
    assert_eq!(lb.select_with(&times, 4), Some(1));
    assert_eq!(lb.select_with(&times, 2), Some(2));
    let mut empty = LoadBalancer::from_addresses(vec![], LoadBalancingPolicy::RoundRobin);
    assert_eq!(empty.select(), None);
    assert_eq!(empty.healthy_count(), 0);
}

#[test]
fn transport_all_unhealthy_selects_nothing() {
    let mut endpoints = vec![Endpoint::new("a"), Endpoint::new("b")];
    endpoints[0].set_healthy(false);
    endpoints[1].set_healthy(false);
    let mut lb = LoadBalancer::new(endpoints, LoadBalancingPolicy::LeastConnections);
    assert_eq!(lb.healthy_count(), 0);
    assert_eq!(lb.total_count(), 2);
    assert_eq!(lb.select(), None);
}

#[test]
fn transport_stats_and_pool_config() {
    let mut transport = Transport::new(PoolConfig::new().with_max_idle(5).with_idle_timeout(7).with_http2_only(true));
    assert_eq!(transport.config().max_idle_per_host, 5);
    assert_eq!(transport.config().idle_timeout_ms, 7);
    assert!(transport.config().http2_only);
    transport.record_connection_created();
    transport.record_connection_created();
    transport.record_connection_closed();
    let stats = transport.stats();
    assert_eq!(stats.connections_created, 2);
    assert_eq!(stats.connections_closed, 1);
    assert_eq!(stats.active_connections, 0);
    let d = PoolConfig::default();
    assert_eq!(d.max_idle_per_host, 10);
}

#[test]
fn transport_endpoint_breaker_blocks_after_failures() {
    let mut e = Endpoint::new("a");
    for _ in 0..5 {
        e.record_failure_at(0);
    }
    assert!(!e.allow_request_at(1));
    assert!(e.allow_request_at(30_000));
    e.set_weight(7);
    assert_eq!(e.weight(), 7);
    e.release_connection();
    assert_eq!(e.active_connections(), usize::MAX);
    e.acquire_connection();
    assert_eq!(e.active_connections(), 0);
}

#[test]
fn transport_endpoint_allow_request_reads_clock() {
    let mut e = Endpoint::new("a");
    assert!(e.allow_request());
    for _ in 0..5 {
        e.record_failure();
    }
    assert!(!e.allow_request());
}
