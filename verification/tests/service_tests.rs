use rust_servicemesh::service::{
    build_upstream_uri, failure_reply, upstream_uri_string, ForwardFailure, UpstreamRotation,
};
use std::sync::Arc;

#[test]
fn service_round_robin_cycles() {
    let addrs = Arc::new(vec!["http://a".to_string(), "http://b".to_string(), "http://c".to_string()]);
    let mut rotation = UpstreamRotation::new(addrs);
    let picks: Vec<String> = (0..7).map(|_| rotation.select_upstream().unwrap()).collect();
    assert_eq!(
        picks,
        vec!["http://a", "http://b", "http://c", "http://a", "http://b", "http://c", "http://a"]
    );
}

#[test]
fn service_no_upstream() {
    let mut rotation = UpstreamRotation::new(Arc::new(vec![]));
    assert_eq!(rotation.select_upstream(), None);
    let reply = failure_reply(ForwardFailure::NoUpstream);
    assert_eq!(reply.status, 502);
    assert_eq!(reply.message, "Proxy error");
    assert!(!reply.recorded);
}

#[test]
fn service_uri_text_and_parse() {
    assert_eq!(upstream_uri_string("http://127.0.0.1:8080", Some("/a?b=1")), "http://127.0.0.1:8080/a?b=1");
    assert_eq!(upstream_uri_string("http://h", None), "http://h/");
    let uri = build_upstream_uri("http://127.0.0.1:8080", Some("/test")).unwrap();
    assert_eq!(uri.to_string(), "http://127.0.0.1:8080/test");
    assert_eq!(uri.path(), "/test");
    let uri = build_upstream_uri("http://127.0.0.1:8080", Some("/a/b?q=1")).unwrap();
    assert_eq!(uri.path_and_query().map(|pq| pq.as_str()), Some("/a/b?q=1"));
    let root = build_upstream_uri("http://h:1", None).unwrap();
    assert_eq!(root.path(), "/");
    assert!(build_upstream_uri("http://bad host", Some("/x")).is_none());
}

#[test]
fn service_failure_replies() {
    let r = failure_reply(ForwardFailure::InvalidUri);
    assert_eq!((r.status, r.message.as_str(), r.recorded), (502, "Invalid upstream URI", true));
    let r = failure_reply(ForwardFailure::UpstreamFailed);
    assert_eq!((r.status, r.message.as_str(), r.recorded), (502, "Upstream request failed", true));
    let r = failure_reply(ForwardFailure::TimedOut);
    assert_eq!((r.status, r.message.as_str(), r.recorded), (504, "Upstream request timed out", true));
}
