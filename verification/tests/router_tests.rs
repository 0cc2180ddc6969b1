use rust_servicemesh::headers::RequestHeaders;
use rust_servicemesh::router::{
    regex_verdict, HeaderMatch, MethodMatch, PathMatch, Route, RoutePriority, Router, RoutingConfig,
};
use std::collections::HashMap;

#[test]
fn test_path_match_exact() {
    let matcher = PathMatch::exact("/api/users");
    assert!(matcher.matches("/api/users"));
    assert!(!matcher.matches("/api/users/"));
    assert!(!matcher.matches("/api"));
}

#[test]
fn test_path_match_prefix() {
    let matcher = PathMatch::prefix("/api/");
    assert!(matcher.matches("/api/users"));
    assert!(matcher.matches("/api/posts"));
    assert!(!matcher.matches("/other"));
}

#[test]
fn test_path_match_regex() {
    let matcher = PathMatch::regex(r"^/api/users/\d+$");
    assert!(matcher.matches("/api/users/123"));
    assert!(matcher.matches("/api/users/456"));
    assert!(!matcher.matches("/api/users/abc"));
}

#[test]
fn test_header_match_exact() {
    let matcher = HeaderMatch::exact("content-type", "application/json");
    let mut headers = RequestHeaders::new();
    headers.insert("content-type", b"application/json");
    assert!(matcher.matches(&headers));

    headers.insert("content-type", b"text/plain");
    assert!(!matcher.matches(&headers));
}

#[test]
fn test_header_match_present() {
    let matcher = HeaderMatch::present("authorization");
    let mut headers = RequestHeaders::new();
    assert!(!matcher.matches(&headers));

    headers.insert("authorization", b"Bearer token");
    assert!(matcher.matches(&headers));
}

#[test]
fn test_route_matching() {
    let route = Route::new("api-route", PathMatch::prefix("/api/"), "api-cluster")
        .with_method(MethodMatch::Get)
        .with_header(HeaderMatch::present("authorization"));

    let mut headers = RequestHeaders::new();
    headers.insert("authorization", b"Bearer token");

    assert!(route.matches("GET", "/api/users", &headers));
    assert!(!route.matches("POST", "/api/users", &headers));

    let empty_headers = RequestHeaders::new();
    assert!(!route.matches("GET", "/api/users", &empty_headers));
}

#[test]
fn test_router_priority() {
    let mut router = Router::new();

    router.add_route(Route::new("prefix", PathMatch::prefix("/api/"), "prefix-cluster"));
    router.add_route(Route::new("exact", PathMatch::exact("/api/users"), "exact-cluster"));

    let headers = RequestHeaders::new();
    let result = router.route("GET", "/api/users", &headers);

    assert!(result.is_some());
    assert_eq!(result.unwrap().route.name, "exact");
}

#[test]
fn test_router_default_upstream() {
    let router = Router::new().with_default_upstream("default-cluster");

    let headers = RequestHeaders::new();
    let result = router.route("GET", "/unmatched", &headers);

    assert!(result.is_some());
    assert_eq!(result.unwrap().route.upstream, "default-cluster");
}

#[test]
fn test_router_no_match() {
    let router = Router::new();

    let headers = RequestHeaders::new();
    let result = router.route("GET", "/unmatched", &headers);

    assert!(result.is_none());
}

#[test]
fn test_route_rewrite() {
    let route = Route::new("rewrite", PathMatch::prefix("/old/"), "cluster").with_rewrite("/new/");

    let mut router = Router::new();
    router.add_route(route);

    let headers = RequestHeaders::new();
    let result = router.route("GET", "/old/path/to/resource", &headers);

    assert!(result.is_some());
    let route_match = result.unwrap();
    assert_eq!(route_match.rewritten_path, Some("/new/path/to/resource".to_string()));
}

#[test]
fn router_orders_by_priority_stably() {
    let router = Router::with_routes(vec![
        Route::new("r1", PathMatch::regex("^/a"), "c"),
        Route::new("p1", PathMatch::prefix("/a"), "c"),
        Route::new("e1", PathMatch::exact("/a"), "c"),
        Route::new("p2", PathMatch::prefix("/"), "c"),
    ]);
    let names: Vec<&str> = router.routes().iter().map(|r| r.name.as_str()).collect();
    assert_eq!(names, vec!["e1", "p1", "p2", "r1"]);
    assert_eq!(router.len(), 4);
    assert!(!router.is_empty());
}

#[test]
fn router_remove_route_and_priorities() {
    let mut router = Router::new();
    assert!(router.is_empty());
    router.add_route(Route::new("a", PathMatch::prefix("/a"), "ca"));
    router.add_route(Route::new("b", PathMatch::prefix("/b"), "cb"));
    let removed = router.remove_route("a");
    assert_eq!(removed.map(|r| r.name), Some("a".to_string()));
    assert!(router.remove_route("zzz").is_none());
    assert_eq!(router.len(), 1);
    assert_eq!(PathMatch::exact("/x").priority(), RoutePriority::Exact);
    assert_eq!(PathMatch::prefix("/x").priority(), RoutePriority::Prefix);
    assert_eq!(PathMatch::regex("x").priority(), RoutePriority::Regex);
    assert_eq!(RoutePriority::Exact.value(), 100);
    assert_eq!(RoutePriority::Default.value(), 0);
}

#[test]
fn router_skips_disabled_and_checks_headers() {
    let mut disabled = Route::new("off", PathMatch::prefix("/"), "off-cluster");
    disabled.enabled = false;
    let mut router = Router::new();
    router.add_route(disabled);
    router.add_route(
        Route::new("hdr", PathMatch::prefix("/"), "hdr-cluster")
            .with_header(HeaderMatch::absent("x-debug")),
    );
    let headers = RequestHeaders::new();
    assert_eq!(router.route("GET", "/x", &headers).unwrap().route.name, "hdr");
    let mut with_debug = RequestHeaders::new();
    with_debug.insert("X-Debug", b"1");
    assert!(router.route("GET", "/x", &with_debug).is_none());
}

#[test]
fn router_regex_verdict_and_bad_pattern() {
    assert!(regex_verdict(Some(true)));
    assert!(!regex_verdict(Some(false)));
    assert!(!regex_verdict(None));
    assert!(!PathMatch::regex("(").matches("("));
}

#[test]
fn router_method_and_header_case() {
    assert!(MethodMatch::Any.matches("BREW"));
    assert!(MethodMatch::Delete.matches("DELETE"));
    assert!(!MethodMatch::Delete.matches("delete"));
    let m = HeaderMatch::exact("Content-Type", "a");
    let mut headers = RequestHeaders::new();
    headers.insert("content-type", b"a");
    assert!(m.matches(&headers));
}

#[test]
fn router_build_from_config() {
    let config = RoutingConfig {
        routes: vec![
            Route::new("p", PathMatch::prefix("/"), "pc"),
            Route::new("e", PathMatch::exact("/e"), "ec"),
        ],
        upstreams: HashMap::new(),
        default_upstream: Some("dflt".to_string()),
    };
    let router = config.build_router();
    let headers = RequestHeaders::new();
    assert_eq!(router.route("GET", "/e", &headers).unwrap().route.upstream, "ec");
    assert_eq!(router.routes()[0].name, "e");
}

#[test]
fn router_config_falls_back_to_default() {
    let config = RoutingConfig {
        routes: vec![Route::new("p", PathMatch::prefix("/api/"), "pc")],
        upstreams: HashMap::new(),
        default_upstream: Some("dflt".to_string()),
    };
    let router = config.build_router();
    let headers = RequestHeaders::new();
    let m = router.route("GET", "/other", &headers).unwrap();
    assert_eq!(m.route.upstream, "dflt");
    assert_eq!(m.rewritten_path, None);
    let config = RoutingConfig { default_upstream: None, ..config };
    assert!(config.build_router().route("GET", "/other", &headers).is_none());
}
