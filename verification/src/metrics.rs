//! Metric labels and the decisions made when recording a metric.
//!
//! The registry that holds the counters, gauges and histograms, and its text
//! encoding, live in the program around the library: its label types need the
//! registry crate's derives.

use crate::circuit_breaker::State;
use crate::text::{decimal, decimal_string, owned};
use vstd::prelude::*;

verus! {

/// Labels for HTTP request metrics.
#[derive(Clone, Debug, PartialEq, Eq, Hash)]
pub struct HttpLabels {
    /// HTTP method (GET, POST, etc.)
    pub method: String,
    /// HTTP status code (200, 404, etc.)
    pub status: String,
    /// Upstream address
    pub upstream: String,
}

impl HttpLabels {
    /// The labels of a request: the status code is written in decimal.
    pub fn new(method: &str, status: u16, upstream: &str) -> (l: Self)
        ensures
            l.method@ == method@,
            l.status@ == decimal(status as nat),
            l.upstream@ == upstream@,
    {
        HttpLabels {
            method: owned(method),
            status: decimal_string(status as u64),
            upstream: owned(upstream),
        }
    }
}

/// Labels for circuit breaker metrics.
#[derive(Clone, Debug, PartialEq, Eq, Hash)]
pub struct CircuitBreakerLabels {
    /// Upstream or endpoint name
    pub upstream: String,
    /// Circuit breaker state (closed, open, half_open)
    pub state: String,
}

impl CircuitBreakerLabels {
    /// The labels of a circuit breaker state change.
    pub fn new(upstream: &str, state: &str) -> (l: Self)
        ensures
            l.upstream@ == upstream@,
            l.state@ == state@,
    {
        CircuitBreakerLabels { upstream: owned(upstream), state: owned(state) }
    }
}

/// Labels for rate limiter metrics.
#[derive(Clone, Debug, PartialEq, Eq, Hash)]
pub struct RateLimitLabels {
    /// Type of rate limit (global, per_client)
    pub limit_type: String,
}

/// Labels for connection metrics.
#[derive(Clone, Debug, PartialEq, Eq, Hash)]
pub struct ConnectionLabels {
    /// Connection state or type
    pub state: String,
}

/// Whether a response status counts as an error: 4xx and 5xx.
pub open spec fn spec_is_error_status(status: u16) -> bool {
    status >= 400
}

/// Whether a response status counts as an error: 4xx and 5xx.
pub fn is_error_status(status: u16) -> (r: bool)
    ensures
        r == spec_is_error_status(status),
{
    status >= 400
}

/// The gauge value recorded for a circuit breaker state name: 0 for
/// `closed`, 1 for `open`, 2 for `half_open`, and 0 for any other name.
pub open spec fn state_gauge(state: Seq<char>) -> i64 {
    if state == "open"@ {
        1
    } else if state == "half_open"@ {
        2
    } else {
        0
    }
}

/// The gauge value recorded for a circuit breaker state name.
pub fn circuit_state_value(state: &str) -> (v: i64)
    ensures
        v == state_gauge(state@),
{
    if crate::text::str_eq(state, "open") {
        1
    } else if crate::text::str_eq(state, "half_open") {
        2
    } else {
        0
    }
}

/// The name under which a circuit breaker state is recorded.
pub open spec fn state_name(s: State) -> Seq<char> {
    match s {
        State::Closed => "closed"@,
        State::Open => "open"@,
        State::HalfOpen => "half_open"@,
    }
}

/// The name under which a circuit breaker state is recorded.
pub fn circuit_state_name(s: State) -> (n: String)
    ensures
        n@ == state_name(s),
{
    match s {
        State::Closed => owned("closed"),
        State::Open => owned("open"),
        State::HalfOpen => owned("half_open"),
    }
}

/// Every state's recorded name reads back as that state's gauge value:
/// closed 0, open 1, half-open 2.
pub proof fn lemma_state_gauge_of_name()
    ensures
        state_gauge(state_name(State::Closed)) == 0,
        state_gauge(state_name(State::Open)) == 1,
        state_gauge(state_name(State::HalfOpen)) == 2,
{
    reveal_strlit("closed");
    reveal_strlit("open");
    reveal_strlit("half_open");
    assert("closed"@.len() != "open"@.len());
    assert("closed"@.len() != "half_open"@.len());
    assert("half_open"@.len() != "open"@.len());
}

} // verus!
