use rust_servicemesh::config::{upstream_list, ConfigError, ConfigSources, ProxyConfig};
use std::time::Duration;

fn socket_ok() -> Result<(), String> {
    Ok(())
}

fn socket_err() -> Result<(), String> {
    Err("invalid socket address syntax".to_string())
}

#[test]
fn test_default_config() {
    let config = ProxyConfig::default();
    assert_eq!(config.listen_addr, "127.0.0.1:3000");
    assert_eq!(config.upstream_addrs.len(), 1);
    assert_eq!(config.metrics_addr, "127.0.0.1:9090");
    assert_eq!(config.max_connections, 10_000);
}

#[test]
fn test_from_env() {
    let sources = ConfigSources {
        listen_addr: None,
        upstream_addrs: None,
        metrics_addr: None,
        request_timeout_ms: None,
        max_connections: None,
    };
    let config = ProxyConfig::from_sources(sources);
    assert!(!config.listen_addr.is_empty());
    assert!(!config.upstream_addrs.is_empty());
    assert!(!config.metrics_addr.is_empty());
}

#[test]
fn test_timeout() {
    let config = ProxyConfig::default();
    assert_eq!(Duration::from_millis(config.timeout()), Duration::from_secs(30));
}

#[test]
fn test_validate_valid_config() {
    let config = ProxyConfig::default();
    assert!(config.validate(socket_ok(), socket_ok()).is_ok());
}

#[test]
fn test_validate_invalid_listen_addr() {
    let config = ProxyConfig { listen_addr: "invalid".to_string(), ..Default::default() };
    let result = config.validate(socket_err(), socket_ok());
    assert!(result.is_err());
    assert!(matches!(result.unwrap_err(), ConfigError::InvalidListenAddr { .. }));
}

#[test]
fn test_validate_invalid_metrics_addr() {
    let config = ProxyConfig { metrics_addr: "invalid".to_string(), ..Default::default() };
    let result = config.validate(socket_ok(), socket_err());
    assert!(result.is_err());
    assert!(matches!(result.unwrap_err(), ConfigError::InvalidMetricsAddr { .. }));
}

#[test]
fn test_validate_duplicate_addrs() {
    let config = ProxyConfig {
        listen_addr: "127.0.0.1:3000".to_string(),
        metrics_addr: "127.0.0.1:3000".to_string(),
        ..Default::default()
    };
    let result = config.validate(socket_ok(), socket_ok());
    assert!(result.is_err());
    assert!(matches!(result.unwrap_err(), ConfigError::DuplicateAddrs { .. }));
}

#[test]
fn test_validate_no_upstream() {
    let config = ProxyConfig { upstream_addrs: vec![], ..Default::default() };
    let result = config.validate(socket_ok(), socket_ok());
    assert!(result.is_err());
    assert!(matches!(result.unwrap_err(), ConfigError::NoUpstreamAddrs));
}

#[test]
fn test_validate_invalid_upstream() {
    let config = ProxyConfig { upstream_addrs: vec!["not-a-url".to_string()], ..Default::default() };
    let result = config.validate(socket_ok(), socket_ok());
    assert!(result.is_err());
    assert!(matches!(result.unwrap_err(), ConfigError::InvalidUpstreamAddr { .. }));
}

#[test]
fn test_validate_zero_timeout() {
    let config = ProxyConfig { request_timeout_ms: 0, ..Default::default() };
    let result = config.validate(socket_ok(), socket_ok());
    assert!(result.is_err());
    assert!(matches!(result.unwrap_err(), ConfigError::InvalidTimeout { .. }));
}

#[test]
fn test_validate_excessive_timeout() {
    let config = ProxyConfig { request_timeout_ms: 7_200_000, ..Default::default() };
    let result = config.validate(socket_ok(), socket_ok());
    assert!(result.is_err());
    assert!(matches!(result.unwrap_err(), ConfigError::InvalidTimeout { .. }));
}

#[test]
fn config_error_details() {
    let config = ProxyConfig { listen_addr: "invalid".to_string(), ..Default::default() };
    match config.validate(socket_err(), socket_ok()) {
        Err(ConfigError::InvalidListenAddr { addr, reason }) => {
            assert_eq!(addr, "invalid");
            assert_eq!(reason, "invalid socket address syntax");
        }
        other => panic!("unexpected {:?}", other),
    }
    let config = ProxyConfig { upstream_addrs: vec!["ftp://x".to_string()], ..Default::default() };
    match config.validate(socket_ok(), socket_ok()) {
        Err(ConfigError::InvalidUpstreamAddr { addr, reason }) => {
            assert_eq!(addr, "ftp://x");
            assert_eq!(reason, "must start with http:// or https://");
        }
        other => panic!("unexpected {:?}", other),
    }
    let config = ProxyConfig { upstream_addrs: vec!["http://".to_string()], ..Default::default() };
    match config.validate(socket_ok(), socket_ok()) {
        Err(ConfigError::InvalidUpstreamAddr { addr, reason }) => {
            assert_eq!(addr, "http://");
            assert_eq!(reason, "invalid URL format");
        }
        other => panic!("unexpected {:?}", other),
    }
    let config = ProxyConfig { request_timeout_ms: 0, ..Default::default() };
    match config.validate(socket_ok(), socket_ok()) {
        Err(ConfigError::InvalidTimeout { reason }) => {
            assert_eq!(reason, "timeout must be greater than zero")
        }
        other => panic!("unexpected {:?}", other),
    }
    let config = ProxyConfig { request_timeout_ms: 3_600_001, ..Default::default() };
    match config.validate(socket_ok(), socket_ok()) {
        Err(ConfigError::InvalidTimeout { reason }) => {
            assert_eq!(reason, "timeout must not exceed 1 hour")
        }
        other => panic!("unexpected {:?}", other),
    }
    let config = ProxyConfig { request_timeout_ms: 3_600_000, ..Default::default() };
    assert!(config.validate(socket_ok(), socket_ok()).is_ok());
}

#[test]
fn config_checks_in_order() {
    let config = ProxyConfig {
        listen_addr: "x".to_string(),
        metrics_addr: "x".to_string(),
        upstream_addrs: vec![],
        request_timeout_ms: 0,
        max_connections: 1,
    };
    assert!(matches!(
        config.validate(socket_err(), socket_err()),
        Err(ConfigError::InvalidListenAddr { .. })
    ));
    assert!(matches!(
        config.validate(socket_ok(), socket_err()),
        Err(ConfigError::InvalidMetricsAddr { .. })
    ));
    assert!(matches!(config.validate(socket_ok(), socket_ok()), Err(ConfigError::DuplicateAddrs { .. })));
}

#[test]
fn upstream_list_trims_and_drops_empty() {
    assert_eq!(
        upstream_list(" http://a:1 ,, http://b:2,"),
        vec!["http://a:1".to_string(), "http://b:2".to_string()]
    );
    assert_eq!(upstream_list(""), Vec::<String>::new());
    assert_eq!(upstream_list("http://only"), vec!["http://only".to_string()]);
}

#[test]
fn config_from_sources_reads_values() {
    let sources = ConfigSources {
        listen_addr: Some("0.0.0.0:80".to_string()),
        upstream_addrs: Some("http://a, http://b".to_string()),
        metrics_addr: None,
        request_timeout_ms: Some("1500".to_string()),
        max_connections: Some("not-a-number".to_string()),
    };
    let config = ProxyConfig::from_sources(sources);
    assert_eq!(config.listen_addr, "0.0.0.0:80");
    assert_eq!(config.upstream_addrs, vec!["http://a".to_string(), "http://b".to_string()]);
    assert_eq!(config.metrics_addr, "127.0.0.1:9090");
    assert_eq!(config.request_timeout_ms, 1500);
    assert_eq!(config.max_connections, 10_000);

    let sources = ConfigSources {
        listen_addr: None,
        upstream_addrs: None,
        metrics_addr: None,
        request_timeout_ms: Some("-5".to_string()),
        max_connections: Some("+42".to_string()),
    };
    let config = ProxyConfig::from_sources(sources);
    assert_eq!(config.request_timeout_ms, 30_000);
    assert_eq!(config.max_connections, 42);
}

#[test]
fn config_from_env_validated_reports() {
    let sources = ConfigSources {
        listen_addr: None,
        upstream_addrs: Some("".to_string()),
        metrics_addr: None,
        request_timeout_ms: None,
        max_connections: None,
    };
    let r = ProxyConfig::from_env_validated(sources, socket_ok(), socket_ok());
    assert!(matches!(r, Err(ConfigError::NoUpstreamAddrs)));
    let sources = ConfigSources {
        listen_addr: None,
        upstream_addrs: None,
        metrics_addr: None,
        request_timeout_ms: None,
        max_connections: None,
    };
    let r = ProxyConfig::from_env_validated(sources, socket_ok(), socket_ok());
    assert!(r.is_ok());
    let c = r.unwrap();
    assert_eq!(c.upstream_addrs_arc().as_ref(), &vec!["http://127.0.0.1:8080".to_string()]);
    let copy = c.clone();
    assert_eq!(copy.listen_addr, c.listen_addr);
}
