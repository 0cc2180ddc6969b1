//! Admin endpoints: liveness, readiness and metrics.
//!
//! The HTTP server around these endpoints lives in the program; here is what
//! each request path is answered.

use crate::text::{chars_of, chars_eq, owned};
use std::sync::atomic::AtomicBool;
use std::sync::Arc;
use vstd::prelude::*;

verus! {

/// Readiness state that can be shared across the application: every holder
/// of a reference to it sees the changes made through any other.
///
/// The flag is an atomic that any holder may change at any time, so no
/// contract states what a read returns; the answers built from it are
/// specified for the value read, through [`AdminService::readiness_answer`]
/// and [`AdminService::answer`].
#[derive(Debug)]
pub struct ReadinessState {
    ready: AtomicBool,
}

impl ReadinessState {
    /// Creates a new readiness state, initially not ready.
    pub fn new() -> Self {
        ReadinessState { ready: AtomicBool::new(false) }
    }

    /// Sets the readiness state to ready.
    pub fn set_ready(&self) {
        self.ready.store(true, std::sync::atomic::Ordering::SeqCst);
    }

    /// Sets the readiness state to not ready.
    pub fn set_not_ready(&self) {
        self.ready.store(false, std::sync::atomic::Ordering::SeqCst);
    }

    /// Checks if the service is ready.
    pub fn is_ready(&self) -> bool {
        self.ready.load(std::sync::atomic::Ordering::SeqCst)
    }
}

impl Default for ReadinessState {
    fn default() -> Self {
        Self::new()
    }
}

/// The endpoints the admin server answers.
#[derive(Debug, Clone, Copy, PartialEq, Eq, Structural)]
pub enum AdminRoute {
    /// `/health` or `/healthz`: liveness.
    Health,
    /// `/ready` or `/readyz`: readiness.
    Ready,
    /// `/metrics`: the metrics in text form.
    Metrics,
    /// Any other path.
    NotFound,
}

/// The endpoint a request path selects.
pub open spec fn route_of(path: Seq<char>) -> AdminRoute {
    if path == "/health"@ || path == "/healthz"@ {
        AdminRoute::Health
    } else if path == "/ready"@ || path == "/readyz"@ {
        AdminRoute::Ready
    } else if path == "/metrics"@ {
        AdminRoute::Metrics
    } else {
        AdminRoute::NotFound
    }
}

/// Whether the characters of `p` are those of `lit`.
fn is_path(p: &Vec<char>, lit: &str) -> (r: bool)
    ensures
        r == (p@ == lit@),
{
    let l = chars_of(lit);
    chars_eq(p, &l)
}

/// The endpoint a request path selects.
pub fn admin_route(path: &str) -> (r: AdminRoute)
    ensures
        r == route_of(path@),
{
    let p = chars_of(path);
    if is_path(&p, "/health") || is_path(&p, "/healthz") {
        AdminRoute::Health
    } else if is_path(&p, "/ready") || is_path(&p, "/readyz") {
        AdminRoute::Ready
    } else if is_path(&p, "/metrics") {
        AdminRoute::Metrics
    } else {
        AdminRoute::NotFound
    }
}

/// An admin response: status code, `Content-Type` header if any, and body.
#[derive(Debug, Clone)]
pub struct AdminResponse {
    pub status: u16,
    pub content_type: Option<String>,
    pub body: String,
}

/// The mathematical form of an [`AdminResponse`].
pub struct AdminResponseView {
    pub status: u16,
    pub content_type: Option<Seq<char>>,
    pub body: Seq<char>,
}

impl View for AdminResponse {
    type V = AdminResponseView;

    open spec fn view(&self) -> AdminResponseView {
        AdminResponseView {
            status: self.status,
            content_type: match self.content_type {
                Some(t) => Some(t@),
                None => None,
            },
            body: self.body@,
        }
    }
}

/// The JSON content type.
pub open spec fn json_type() -> Seq<char> {
    "application/json"@
}

/// The content type of the metrics text format.
pub open spec fn metrics_type() -> Seq<char> {
    "text/plain; version=0.0.4"@
}

/// The liveness answer.
pub open spec fn health_view() -> AdminResponseView {
    AdminResponseView {
        status: 200,
        content_type: Some(json_type()),
        body: "{\"status\":\"healthy\"}"@,
    }
}

/// The readiness answer: 200 with `ready: true` when ready, else 503 with
/// the reason.
pub open spec fn readiness_view(ready: bool) -> AdminResponseView {
    if ready {
        AdminResponseView { status: 200, content_type: Some(json_type()), body: "{\"ready\":true}"@ }
    } else {
        AdminResponseView {
            status: 503,
            content_type: Some(json_type()),
            body: "{\"ready\":false,\"reason\":\"service not ready\"}"@,
        }
    }
}

/// The metrics answer.
pub open spec fn metrics_view(metrics: Seq<char>) -> AdminResponseView {
    AdminResponseView { status: 200, content_type: Some(metrics_type()), body: metrics }
}

/// A plain-text error answer.
pub open spec fn error_view(status: u16, message: Seq<char>) -> AdminResponseView {
    AdminResponseView { status, content_type: None, body: message }
}

/// The answer to a request for `path`; `metrics` is the encoded metrics, or
/// `None` where encoding them failed.
pub open spec fn admin_answer(ready: bool, path: Seq<char>, metrics: Option<Seq<char>>) -> AdminResponseView {
    match route_of(path) {
        AdminRoute::Health => health_view(),
        AdminRoute::Ready => readiness_view(ready),
        AdminRoute::Metrics => match metrics {
            Some(m) => metrics_view(m),
            None => error_view(500, "Failed to encode metrics"@),
        },
        AdminRoute::NotFound => error_view(404, "Not Found"@),
    }
}

/// The text of the encoded metrics, if encoding succeeded.
pub open spec fn encoded_text(metrics: Option<String>) -> Option<Seq<char>> {
    match metrics {
        Some(m) => Some(m@),
        None => None,
    }
}

/// Admin service for health checks and metrics endpoints.
#[derive(Clone)]
pub struct AdminService {
    readiness: Arc<ReadinessState>,
}

impl AdminService {
    /// The readiness state the service reports.
    pub closed spec fn spec_readiness(&self) -> ReadinessState {
        *self.readiness
    }

    /// Creates a new admin service with a fresh readiness state, set to
    /// ready.
    pub fn new() -> Self {
        let state = ReadinessState::new();
        state.set_ready();
        AdminService { readiness: Arc::new(state) }
    }

    /// Creates an admin service with custom readiness state.
    pub fn with_readiness(readiness: Arc<ReadinessState>) -> (s: Self)
        ensures
            s.spec_readiness() == *readiness,
    {
        AdminService { readiness }
    }

    /// Returns the readiness state reference.
    pub fn readiness(&self) -> (r: &Arc<ReadinessState>)
        ensures
            **r == self.spec_readiness(),
    {
        &self.readiness
    }

    /// Creates a health check response (liveness probe).
    pub fn health_response() -> (r: AdminResponse)
        ensures
            r@ == health_view(),
    {
        AdminResponse {
            status: 200,
            content_type: Some(owned("application/json")),
            body: owned("{\"status\":\"healthy\"}"),
        }
    }

    /// Creates a readiness check response from the readiness flag as read.
    pub fn readiness_response(readiness: &ReadinessState) -> (r: AdminResponse)
        ensures
            exists|ready: bool| r@ == #[trigger] readiness_view(ready),
    {
        Self::readiness_answer(readiness.is_ready())
    }

    /// The readiness check response for a given readiness flag.
    pub fn readiness_answer(ready: bool) -> (r: AdminResponse)
        ensures
            r@ == readiness_view(ready),
    {
        if ready {
            AdminResponse {
                status: 200,
                content_type: Some(owned("application/json")),
                body: owned("{\"ready\":true}"),
            }
        } else {
            AdminResponse {
                status: 503,
                content_type: Some(owned("application/json")),
                body: owned("{\"ready\":false,\"reason\":\"service not ready\"}"),
            }
        }
    }

    /// Creates a metrics response in Prometheus text format.
    pub fn metrics_response(metrics: String) -> (r: AdminResponse)
        ensures
            r@ == metrics_view(metrics@),
    {
        AdminResponse {
            status: 200,
            content_type: Some(owned("text/plain; version=0.0.4")),
            body: metrics,
        }
    }

    /// Creates an HTTP error response.
    pub fn error_response(status: u16, message: &str) -> (r: AdminResponse)
        ensures
            r@ == error_view(status, message@),
    {
        AdminResponse { status, content_type: None, body: owned(message) }
    }

    /// Answers a request for `path`, reading the readiness flag.  `metrics`
    /// is the encoded metrics, or `None` where encoding failed; it is read
    /// only for `/metrics`.
    pub fn handle_request(readiness: &ReadinessState, path: &str, metrics: Option<String>) -> (r:
        AdminResponse)
        ensures
            exists|ready: bool|
                r@ == #[trigger] admin_answer(
                    ready,
                    path@,
                    encoded_text(metrics),
                ),
    {
        let ready = readiness.is_ready();
        Self::answer(ready, path, metrics)
    }

    /// Answers a request for `path` given the readiness flag.
    pub fn answer(ready: bool, path: &str, metrics: Option<String>) -> (r: AdminResponse)
        ensures
            r@ == admin_answer(
                ready,
                path@,
                encoded_text(metrics),
            ),
    {
        match admin_route(path) {
            AdminRoute::Health => Self::health_response(),
            AdminRoute::Ready => Self::readiness_answer(ready),
            AdminRoute::Metrics => match metrics {
                Some(m) => Self::metrics_response(m),
                None => Self::error_response(500, "Failed to encode metrics"),
            },
            AdminRoute::NotFound => Self::error_response(404, "Not Found"),
        }
    }

    /// Answers a request for `path` with this service's readiness state, as
    /// read at the time of the request.
    pub fn respond(&self, path: &str, metrics: Option<String>) -> (r: AdminResponse)
        ensures
            exists|ready: bool|
                r@ == #[trigger] admin_answer(
                    ready,
                    path@,
                    encoded_text(metrics),
                ),
    {
        Self::handle_request(&self.readiness, path, metrics)
    }
}

impl Default for AdminService {
    fn default() -> Self {
        Self::new()
    }
}

/// Liveness does not depend on readiness: `/health` is answered 200 in every
/// state, while `/ready` is answered 200 exactly when the service is ready.
pub proof fn lemma_liveness_independent_of_readiness(path: Seq<char>, metrics: Option<Seq<char>>)
    requires
        route_of(path) == AdminRoute::Health,
    ensures
        admin_answer(true, path, metrics) == admin_answer(false, path, metrics),
        admin_answer(false, path, metrics).status == 200,
{
}

/// A readiness probe succeeds exactly when the service is ready.
pub proof fn lemma_ready_probe(ready: bool, path: Seq<char>, metrics: Option<Seq<char>>)
    requires
        route_of(path) == AdminRoute::Ready,
    ensures
        (admin_answer(ready, path, metrics).status == 200) == ready,
        !ready ==> admin_answer(ready, path, metrics).status == 503,
{
}

} // verus!
