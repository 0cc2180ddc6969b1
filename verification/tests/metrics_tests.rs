use rust_servicemesh::circuit_breaker::State;
use rust_servicemesh::metrics::{
    circuit_state_name, circuit_state_value, is_error_status, CircuitBreakerLabels, HttpLabels,
};

#[test]
fn metrics_http_labels_write_status_in_decimal() {
    let l = HttpLabels::new("GET", 200, "http://upstream:8080");
    assert_eq!(l.method, "GET");
    assert_eq!(l.status, "200");
    assert_eq!(l.upstream, "http://upstream:8080");
    assert_eq!(HttpLabels::new("POST", 0, "u").status, "0");
    assert_eq!(HttpLabels::new("POST", 65535, "u").status, "65535");
    assert_eq!(HttpLabels::new("POST", 404, "u").status, "404");
}

#[test]
fn metrics_error_statuses() {
    assert!(!is_error_status(200));
    assert!(!is_error_status(399));
    assert!(is_error_status(400));
    assert!(is_error_status(404));
    assert!(is_error_status(500));
}

#[test]
fn metrics_circuit_state_values() {
    assert_eq!(circuit_state_value("closed"), 0);
    assert_eq!(circuit_state_value("open"), 1);
    assert_eq!(circuit_state_value("half_open"), 2);
    assert_eq!(circuit_state_value("weird"), 0);
    assert_eq!(circuit_state_name(State::HalfOpen), "half_open");
    assert_eq!(circuit_state_value(&circuit_state_name(State::Open)), 1);
    let l = CircuitBreakerLabels::new("http://upstream:8080", "open");
    assert_eq!(l.state, "open");
}
