use rust_servicemesh::admin::{admin_route, AdminRoute, AdminService, ReadinessState};
use std::sync::Arc;

#[test]
fn test_health_response() {
    let response = AdminService::health_response();
    assert_eq!(response.status, http::StatusCode::OK.as_u16());
    assert_eq!(response.content_type.as_deref(), Some("application/json"));
}

#[test]
fn test_readiness_response_ready() {
    let state = ReadinessState::new();
    state.set_ready();
    let response = AdminService::readiness_response(&state);
    assert_eq!(response.status, http::StatusCode::OK.as_u16());
}

#[test]
fn test_readiness_response_not_ready() {
    let state = ReadinessState::new();
    let response = AdminService::readiness_response(&state);
    assert_eq!(response.status, http::StatusCode::SERVICE_UNAVAILABLE.as_u16());
}

#[test]
fn test_readiness_state() {
    let state = ReadinessState::new();
    assert!(!state.is_ready());

    state.set_ready();
    assert!(state.is_ready());

    state.set_not_ready();
    assert!(!state.is_ready());
}

#[test]
fn test_metrics_response() {
    let metrics = "test_metric 1.0".to_string();
    let response = AdminService::metrics_response(metrics);
    assert_eq!(response.status, http::StatusCode::OK.as_u16());
    assert_eq!(response.content_type.as_deref(), Some("text/plain; version=0.0.4"));
}

#[test]
fn test_error_response() {
    let response = AdminService::error_response(http::StatusCode::NOT_FOUND.as_u16(), "Not Found");
    assert_eq!(response.status, http::StatusCode::NOT_FOUND.as_u16());
}

#[test]
fn admin_routes_by_path() {
    assert_eq!(admin_route("/health"), AdminRoute::Health);
    assert_eq!(admin_route("/healthz"), AdminRoute::Health);
    assert_eq!(admin_route("/ready"), AdminRoute::Ready);
    assert_eq!(admin_route("/readyz"), AdminRoute::Ready);
    assert_eq!(admin_route("/metrics"), AdminRoute::Metrics);
    assert_eq!(admin_route("/metrics/"), AdminRoute::NotFound);
    assert_eq!(admin_route("/"), AdminRoute::NotFound);
}

#[test]
fn admin_bodies_are_exact() {
    let health = AdminService::health_response();
    assert_eq!(health.body, "{\"status\":\"healthy\"}");
    let state = ReadinessState::new();
    let not_ready = AdminService::readiness_response(&state);
    assert_eq!(not_ready.body, "{\"ready\":false,\"reason\":\"service not ready\"}");
    assert_eq!(not_ready.content_type.as_deref(), Some("application/json"));
    state.set_ready();
    let ready = AdminService::readiness_response(&state);
    assert_eq!(ready.body, "{\"ready\":true}");
    let err = AdminService::error_response(404, "Not Found");
    assert_eq!(err.content_type, None);
    assert_eq!(err.body, "Not Found");
}

#[test]
fn admin_handle_request_dispatches() {
    let state = ReadinessState::new();
    let r = AdminService::handle_request(&state, "/healthz", None);
    assert_eq!(r.status, 200);
    let r = AdminService::handle_request(&state, "/ready", None);
    assert_eq!(r.status, 503);
    let r = AdminService::handle_request(&state, "/metrics", Some("m 1".to_string()));
    assert_eq!(r.status, 200);
    assert_eq!(r.body, "m 1");
    let r = AdminService::handle_request(&state, "/metrics", None);
    assert_eq!(r.status, 500);
    assert_eq!(r.body, "Failed to encode metrics");
    let r = AdminService::handle_request(&state, "/nope", None);
    assert_eq!(r.status, 404);
    assert_eq!(r.body, "Not Found");
}

#[test]
fn admin_service_defaults_to_ready() {
    let service = AdminService::new();
    assert!(service.readiness().is_ready());
    let r = service.respond("/ready", None);
    assert_eq!(r.status, 200);
    let service = AdminService::with_readiness(Arc::new(ReadinessState::new()));
    assert!(!service.readiness().is_ready());
    assert_eq!(service.respond("/ready", None).status, 503);
    assert_eq!(service.respond("/health", None).status, 200);
}

#[test]
fn admin_readiness_is_shared() {
    let state = Arc::new(ReadinessState::new());
    let service = AdminService::with_readiness(Arc::clone(&state));
    assert!(Arc::ptr_eq(service.readiness(), &state));
    assert_eq!(service.respond("/ready", None).status, 503);
    state.set_ready();
    assert!(service.readiness().is_ready());
    assert_eq!(service.respond("/ready", None).status, 200);
    state.set_not_ready();
    assert_eq!(service.respond("/readyz", None).status, 503);
}

#[test]
fn admin_answers_for_given_flag() {
    assert_eq!(AdminService::readiness_answer(true).body, "{\"ready\":true}");
    assert_eq!(AdminService::readiness_answer(false).status, 503);
    assert_eq!(AdminService::answer(true, "/ready", None).status, 200);
    assert_eq!(AdminService::answer(false, "/health", None).status, 200);
    assert_eq!(AdminService::answer(false, "/metrics", Some("x".to_string())).body, "x");
}
