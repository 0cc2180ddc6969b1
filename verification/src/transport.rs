//! Upstream endpoints, load balancing and per-cluster bookkeeping.
//!
//! A load balancer picks among the healthy endpoints of a cluster by its
//! policy, then consults the chosen endpoint's circuit breaker; when that
//! breaker refuses, the other healthy endpoints are asked in order.

use crate::circuit_breaker::{breaker_allow, breaker_failure, breaker_success, breaker_wf, BreakerModel, CircuitBreaker, CircuitBreakerConfig, breaker_initial};
use crate::clock::{count_up, count_up_u64, spec_count_up, spec_count_up_u64};
use crate::router::LoadBalancingPolicy;
use crate::text::{owned, str_eq};
use rand::Rng;
use vstd::prelude::*;

verus! {

/// Configuration for the connection pool.
#[derive(Debug, Clone, Copy, PartialEq, Eq, Structural)]
pub struct PoolConfig {
    /// Maximum number of idle connections per host.
    pub max_idle_per_host: usize,
    /// Maximum total connections per host.
    pub max_connections_per_host: usize,
    /// Idle connection timeout, in milliseconds.
    pub idle_timeout_ms: u64,
    /// Connection establishment timeout, in milliseconds.
    pub connect_timeout_ms: u64,
    /// Enable HTTP/2 connection pooling.
    pub http2_only: bool,
}

/// The default pool settings.
pub open spec fn default_pool_config() -> PoolConfig {
    PoolConfig {
        max_idle_per_host: 10,
        max_connections_per_host: 100,
        idle_timeout_ms: 90_000,
        connect_timeout_ms: 10_000,
        http2_only: false,
    }
}

impl Default for PoolConfig {
    fn default() -> (c: Self)
        ensures
            c == default_pool_config(),
    {
        PoolConfig {
            max_idle_per_host: 10,
            max_connections_per_host: 100,
            idle_timeout_ms: 90_000,
            connect_timeout_ms: 10_000,
            http2_only: false,
        }
    }
}

impl PoolConfig {
    /// Creates a pool configuration with default values.
    pub fn new() -> (c: Self)
        ensures
            c == default_pool_config(),
    {
        PoolConfig::default()
    }

    /// Sets the maximum idle connections per host.
    pub fn with_max_idle(self, max: usize) -> (c: Self)
        ensures
            c == (PoolConfig { max_idle_per_host: max, ..self }),
    {
        PoolConfig { max_idle_per_host: max, ..self }
    }

    /// Sets the idle timeout, in milliseconds.
    pub fn with_idle_timeout(self, timeout_ms: u64) -> (c: Self)
        ensures
            c == (PoolConfig { idle_timeout_ms: timeout_ms, ..self }),
    {
        PoolConfig { idle_timeout_ms: timeout_ms, ..self }
    }

    /// Enables HTTP/2 only mode.
    pub fn with_http2_only(self, http2: bool) -> (c: Self)
        ensures
            c == (PoolConfig { http2_only: http2, ..self }),
    {
        PoolConfig { http2_only: http2, ..self }
    }
}

/// Statistics for a single endpoint.
#[derive(Debug, Clone, Copy)]
pub struct EndpointStats {
    /// Total number of requests sent.
    pub total_requests: u64,
    /// Number of successful requests.
    pub successful_requests: u64,
    /// Number of failed requests.
    pub failed_requests: u64,
    /// Current active connections.
    pub active_connections: usize,
    /// Sum of the response times of successful requests, in microseconds.
    pub total_response_time_us: u64,
    /// Whether the endpoint is healthy.
    pub is_healthy: bool,
}

/// The abstract state of an endpoint.
pub struct EndpointModel {
    pub address: Seq<char>,
    pub weight: u64,
    pub active_connections: usize,
    pub total_requests: u64,
    pub successful_requests: u64,
    pub failed_requests: u64,
    pub total_response_time_us: u64,
    pub healthy: bool,
    pub breaker: BreakerModel,
}

/// A counter step down that wraps past zero to `usize::MAX`, as the atomic
/// connection counter does.
pub open spec fn spec_count_down(x: usize) -> usize {
    if x == 0 { usize::MAX } else { (x - 1) as usize }
}

/// The sum `x + y`, wrapping past `u64::MAX` as the atomic counters do.
pub open spec fn spec_wrapping_add_u64(x: u64, y: u64) -> u64 {
    if x + y > u64::MAX { (x + y - u64::MAX - 1) as u64 } else { (x + y) as u64 }
}

/// A freshly created endpoint.
pub open spec fn endpoint_initial(address: Seq<char>, weight: u64) -> EndpointModel {
    EndpointModel {
        address,
        weight,
        active_connections: 0,
        total_requests: 0,
        successful_requests: 0,
        failed_requests: 0,
        total_response_time_us: 0,
        healthy: true,
        breaker: breaker_initial(
            CircuitBreakerConfig { failure_threshold: 5, timeout_ms: 30_000, success_threshold: 2 },
        ),
    }
}

/// A single upstream endpoint.
#[derive(Debug)]
pub struct Endpoint {
    /// The endpoint address (for example "http://localhost:8080").
    pub address: String,
    weight: u64,
    active_connections: usize,
    total_requests: u64,
    successful_requests: u64,
    failed_requests: u64,
    total_response_time_us: u64,
    healthy: bool,
    circuit_breaker: CircuitBreaker,
}

impl View for Endpoint {
    type V = EndpointModel;

    closed spec fn view(&self) -> EndpointModel {
        EndpointModel {
            address: self.address@,
            weight: self.weight,
            active_connections: self.active_connections,
            total_requests: self.total_requests,
            successful_requests: self.successful_requests,
            failed_requests: self.failed_requests,
            total_response_time_us: self.total_response_time_us,
            healthy: self.healthy,
            breaker: self.circuit_breaker@,
        }
    }
}

impl Endpoint {
    /// The endpoint is well formed: its breaker is.
    pub open spec fn wf(&self) -> bool {
        breaker_wf(self@.breaker)
    }

    /// Creates a healthy endpoint with weight 100, no connections, no
    /// requests, and a breaker with the default configuration.
    pub fn new(address: &str) -> (e: Self)
        ensures
            e@ == endpoint_initial(address@, 100),
            e.wf(),
    {
        Endpoint {
            address: owned(address),
            weight: 100,
            active_connections: 0,
            total_requests: 0,
            successful_requests: 0,
            failed_requests: 0,
            total_response_time_us: 0,
            healthy: true,
            circuit_breaker: CircuitBreaker::new(CircuitBreakerConfig::default()),
        }
    }

    /// Creates a new endpoint with the given weight.
    pub fn with_weight(address: &str, weight: u64) -> (e: Self)
        ensures
            e@ == endpoint_initial(address@, weight),
            e.wf(),
    {
        let mut e = Endpoint::new(address);
        e.weight = weight;
        e
    }

    /// Returns the current weight.
    pub fn weight(&self) -> (w: u64)
        ensures
            w == self@.weight,
    {
        self.weight
    }

    /// Sets the weight.
    pub fn set_weight(&mut self, weight: u64)
        ensures
            final(self)@ == (EndpointModel { weight, ..old(self)@ }),
    {
        self.weight = weight;
    }

    /// Returns the number of active connections.
    pub fn active_connections(&self) -> (n: usize)
        ensures
            n == self@.active_connections,
    {
        self.active_connections
    }

    /// Increments the active connection count (wrapping).
    pub fn acquire_connection(&mut self)
        ensures
            final(self)@ == (EndpointModel {
                active_connections: spec_count_up(old(self)@.active_connections),
                ..old(self)@
            }),
    {
        self.active_connections = count_up(self.active_connections);
    }

    /// Decrements the active connection count (wrapping).
    pub fn release_connection(&mut self)
        ensures
            final(self)@ == (EndpointModel {
                active_connections: spec_count_down(old(self)@.active_connections),
                ..old(self)@
            }),
    {
        self.active_connections = if self.active_connections == 0 {
            usize::MAX
        } else {
            self.active_connections - 1
        };
    }

    /// Returns whether the endpoint is healthy.
    pub fn is_healthy(&self) -> (b: bool)
        ensures
            b == self@.healthy,
    {
        self.healthy
    }

    /// Sets the health status.
    pub fn set_healthy(&mut self, healthy: bool)
        ensures
            final(self)@ == (EndpointModel { healthy, ..old(self)@ }),
    {
        self.healthy = healthy;
    }

    /// Records a successful request that took `response_time_us`
    /// microseconds.
    pub fn record_success(&mut self, response_time_us: u64)
        ensures
            final(self).wf(),
            final(self)@ == (EndpointModel {
                total_requests: spec_count_up_u64(old(self)@.total_requests),
                successful_requests: spec_count_up_u64(old(self)@.successful_requests),
                total_response_time_us: spec_wrapping_add_u64(
                    old(self)@.total_response_time_us,
                    response_time_us,
                ),
                breaker: breaker_success(old(self)@.breaker),
                ..old(self)@
            }),
    {
        self.total_requests = count_up_u64(self.total_requests);
        self.successful_requests = count_up_u64(self.successful_requests);
        self.total_response_time_us = if self.total_response_time_us > u64::MAX - response_time_us {
            response_time_us - (u64::MAX - self.total_response_time_us) - 1
        } else {
            self.total_response_time_us + response_time_us
        };
        self.circuit_breaker.record_success();
    }

    /// Records a failed request at time `now` on the breaker's clock.
    pub fn record_failure_at(&mut self, now: u64)
        ensures
            final(self).wf(),
            final(self)@ == (EndpointModel {
                total_requests: spec_count_up_u64(old(self)@.total_requests),
                failed_requests: spec_count_up_u64(old(self)@.failed_requests),
                breaker: breaker_failure(old(self)@.breaker, now),
                ..old(self)@
            }),
    {
        self.total_requests = count_up_u64(self.total_requests);
        self.failed_requests = count_up_u64(self.failed_requests);
        self.circuit_breaker.record_failure_at(now);
    }

    /// Records a failed request now, reading the clock.
    pub fn record_failure(&mut self)
        ensures
            final(self).wf(),
            exists|now: u64|
                final(self)@ == (EndpointModel {
                    total_requests: spec_count_up_u64(old(self)@.total_requests),
                    failed_requests: spec_count_up_u64(old(self)@.failed_requests),
                    breaker: #[trigger] breaker_failure(old(self)@.breaker, now),
                    ..old(self)@
                }),
    {
        let now = self.circuit_breaker.now_ms();
        self.record_failure_at(now);
    }

    /// Asks the endpoint's circuit breaker, at time `now`, whether a request
    /// may be sent.
    pub fn allow_request_at(&mut self, now: u64) -> (b: bool)
        ensures
            final(self).wf(),
            final(self)@ == (EndpointModel { breaker: breaker_allow(old(self)@.breaker, now).0, ..old(self)@ }),
            b == breaker_allow(old(self)@.breaker, now).1,
    {
        self.circuit_breaker.allow_request_at(now)
    }

    /// Asks the endpoint's circuit breaker now, reading its clock, whether a
    /// request may be sent.
    pub fn allow_request(&mut self) -> (b: bool)
        ensures
            final(self).wf(),
            exists|now: u64|
                final(self)@ == (EndpointModel {
                    breaker: (#[trigger] breaker_allow(old(self)@.breaker, now)).0,
                    ..old(self)@
                }) && b == breaker_allow(old(self)@.breaker, now).1,
    {
        let now = self.now_ms();
        self.allow_request_at(now)
    }

    /// Milliseconds on this endpoint's breaker clock.
    pub fn now_ms(&self) -> u64 {
        self.circuit_breaker.now_ms()
    }

    /// Returns statistics for this endpoint.
    pub fn stats(&self) -> (s: EndpointStats)
        ensures
            s.total_requests == self@.total_requests,
            s.successful_requests == self@.successful_requests,
            s.failed_requests == self@.failed_requests,
            s.active_connections == self@.active_connections,
            s.total_response_time_us == self@.total_response_time_us,
            s.is_healthy == self@.healthy,
    {
        EndpointStats {
            total_requests: self.total_requests,
            successful_requests: self.successful_requests,
            failed_requests: self.failed_requests,
            active_connections: self.active_connections,
            total_response_time_us: self.total_response_time_us,
            is_healthy: self.healthy,
        }
    }
}

/// The views of a sequence of endpoints.
pub open spec fn endpoint_models(eps: Seq<Endpoint>) -> Seq<EndpointModel> {
    eps.map_values(|e: Endpoint| e@)
}

/// The positions, in order, of the healthy endpoints among the first `k`.
pub open spec fn healthy_upto(m: Seq<EndpointModel>, k: int) -> Seq<int>
    decreases k,
{
    if k <= 0 {
        Seq::empty()
    } else if m[k - 1].healthy {
        healthy_upto(m, k - 1).push(k - 1)
    } else {
        healthy_upto(m, k - 1)
    }
}

/// The positions, in order, of the healthy endpoints.
pub open spec fn healthy_positions(m: Seq<EndpointModel>) -> Seq<int> {
    healthy_upto(m, m.len() as int)
}

/// Among the positions `hp[0..j]`, the first one whose endpoint has the
/// fewest active connections.
pub open spec fn least_loaded_upto(m: Seq<EndpointModel>, hp: Seq<int>, j: int) -> int
    decreases j,
{
    if j <= 1 {
        hp[0]
    } else {
        let best = least_loaded_upto(m, hp, j - 1);
        if m[hp[j - 1]].active_connections < m[best].active_connections {
            hp[j - 1]
        } else {
            best
        }
    }
}

/// The endpoint the policy picks among the healthy positions `hp` (not
/// empty), before the circuit breaker is asked; `next` is the round-robin
/// counter and `draw` the random number for the random policy.
pub open spec fn policy_choice(
    m: Seq<EndpointModel>,
    hp: Seq<int>,
    policy: LoadBalancingPolicy,
    next: usize,
    draw: usize,
) -> int {
    match policy {
        LoadBalancingPolicy::LeastConnections => least_loaded_upto(m, hp, hp.len() as int),
        LoadBalancingPolicy::Random => hp[(draw as int) % (hp.len() as int)],
        _ => hp[(next as int) % (hp.len() as int)],
    }
}

/// The endpoints after asking the breaker of endpoint `p` at its time.
pub open spec fn ask_breaker(m: Seq<EndpointModel>, p: int, times: Seq<u64>) -> (Seq<EndpointModel>, bool) {
    let (b, ok) = breaker_allow(m[p].breaker, times[p]);
    (m.update(p, EndpointModel { breaker: b, ..m[p] }), ok)
}

/// After the chosen endpoint's breaker refused: the healthy endpoints
/// `hp[j..]` with another address are asked in order, and the first whose
/// breaker allows the request is taken.
pub open spec fn fallback_from(
    m: Seq<EndpointModel>,
    hp: Seq<int>,
    j: int,
    address: Seq<char>,
    times: Seq<u64>,
) -> (Seq<EndpointModel>, Option<int>)
    decreases hp.len() - j,
{
    if j < 0 || j >= hp.len() {
        (m, None)
    } else if m[hp[j]].address == address {
        fallback_from(m, hp, j + 1, address, times)
    } else {
        let (m2, ok) = ask_breaker(m, hp[j], times);
        if ok {
            (m2, Some(hp[j]))
        } else {
            fallback_from(m2, hp, j + 1, address, times)
        }
    }
}

/// Selecting an endpoint: the endpoints afterwards, the round-robin counter
/// afterwards, and the position chosen, if any.  `times[p]` is the time on
/// endpoint `p`'s breaker clock.
pub open spec fn lb_select(
    m: Seq<EndpointModel>,
    policy: LoadBalancingPolicy,
    next: usize,
    times: Seq<u64>,
    draw: usize,
) -> (Seq<EndpointModel>, usize, Option<int>) {
    let hp = healthy_positions(m);
    if hp.len() == 0 {
        (m, next, None)
    } else {
        let next2 = match policy {
            LoadBalancingPolicy::RoundRobin => spec_count_up(next),
            LoadBalancingPolicy::ConsistentHash => spec_count_up(next),
            _ => next,
        };
        let c = policy_choice(m, hp, policy, next, draw);
        let (m1, ok) = ask_breaker(m, c, times);
        if ok {
            (m1, next2, Some(c))
        } else {
            let (m2, r) = fallback_from(m1, hp, 0, m[c].address, times);
            (m2, next2, r)
        }
    }
}

/// Every position listed as healthy is a healthy endpoint, and the list
/// holds each healthy position below `k` exactly once, in order.
pub proof fn lemma_healthy_upto(m: Seq<EndpointModel>, k: int)
    requires
        0 <= k <= m.len(),
    ensures
        forall|j: int| 0 <= j < healthy_upto(m, k).len() ==> {
            let p = #[trigger] healthy_upto(m, k)[j];
            0 <= p < k && m[p].healthy
        },
        forall|p: int| 0 <= p < k && m[p].healthy ==> #[trigger] healthy_upto(m, k).contains(p),
    decreases k,
{
    if k > 0 {
        lemma_healthy_upto(m, k - 1);
        let prev = healthy_upto(m, k - 1);
        if m[k - 1].healthy {
            assert forall|p: int| 0 <= p < k && m[p].healthy implies #[trigger] healthy_upto(m, k).contains(p) by {
                if p < k - 1 {
                    assert(prev.contains(p));
                    let j = choose|j: int| 0 <= j < prev.len() && prev[j] == p;
                    assert(healthy_upto(m, k)[j] == p);
                } else {
                    assert(healthy_upto(m, k)[prev.len() as int] == p);
                }
            }
        } else {
            assert forall|p: int| 0 <= p < k && m[p].healthy implies #[trigger] healthy_upto(m, k).contains(p) by {
                assert(p < k - 1);
            }
        }
    }
}

/// The least-connections choice is one of the candidates, and none of them
/// has fewer active connections.
pub proof fn lemma_least_loaded_minimal(m: Seq<EndpointModel>, hp: Seq<int>, j: int)
    requires
        1 <= j <= hp.len(),
    ensures
        hp.contains(least_loaded_upto(m, hp, j)),
        forall|q: int|
            0 <= q < j ==> m[least_loaded_upto(m, hp, j)].active_connections <= #[trigger] m[hp[q]].active_connections,
    decreases j,
{
    if j > 1 {
        lemma_least_loaded_minimal(m, hp, j - 1);
    } else {
        assert(hp[0] == least_loaded_upto(m, hp, j));
    }
}

/// The fallback search only ever settles on a healthy endpoint, and never on
/// one with the address that was refused.
proof fn lemma_fallback_healthy(
    m: Seq<EndpointModel>,
    hp: Seq<int>,
    j: int,
    address: Seq<char>,
    times: Seq<u64>,
    h: Seq<EndpointModel>,
)
    requires
        0 <= j,
        m.len() == h.len(),
        forall|k: int| 0 <= k < m.len() ==> (#[trigger] m[k]).healthy == h[k].healthy && m[k].address
            == h[k].address,
        forall|i: int| 0 <= i < hp.len() ==> 0 <= #[trigger] hp[i] < m.len() && h[hp[i]].healthy,
    ensures
        fallback_from(m, hp, j, address, times).1 matches Some(p) ==> 0 <= p < h.len() && h[p].healthy
            && h[p].address != address,
    decreases hp.len() - j,
{
    if j < hp.len() {
        if m[hp[j]].address == address {
            lemma_fallback_healthy(m, hp, j + 1, address, times, h);
        } else {
            let (m2, ok) = ask_breaker(m, hp[j], times);
            if !ok {
                assert forall|k: int| 0 <= k < m2.len() implies (#[trigger] m2[k]).healthy == h[k].healthy
                    && m2[k].address == h[k].address by {
                    if k != hp[j] {
                    }
                }
                lemma_fallback_healthy(m2, hp, j + 1, address, times, h);
            }
        }
    }
}

/// A load balancer never hands out an unhealthy endpoint, and the endpoint it
/// hands out is one whose breaker let the request through.
pub proof fn lemma_select_only_healthy(
    m: Seq<EndpointModel>,
    policy: LoadBalancingPolicy,
    next: usize,
    times: Seq<u64>,
    draw: usize,
)
    ensures
        lb_select(m, policy, next, times, draw).2 matches Some(p) ==> 0 <= p < m.len() && m[p].healthy,
{
    let hp = healthy_positions(m);
    lemma_healthy_upto(m, m.len() as int);
    if hp.len() > 0 {
        let c = policy_choice(m, hp, policy, next, draw);
        match policy {
            LoadBalancingPolicy::LeastConnections => {
                lemma_least_loaded_minimal(m, hp, hp.len() as int);
            },
            LoadBalancingPolicy::Random => {
                let idx = (draw as int) % (hp.len() as int);
                assert(0 <= idx < hp.len());
                assert(hp[idx] == c);
            },
            _ => {
                let idx = (next as int) % (hp.len() as int);
                assert(0 <= idx < hp.len());
                assert(hp[idx] == c);
            },
        }
        assert(hp.contains(c));
        let (m1, ok) = ask_breaker(m, c, times);
        if !ok {
            assert forall|k: int| 0 <= k < m1.len() implies (#[trigger] m1[k]).healthy == m[k].healthy
                && m1[k].address == m[k].address by {
                if k != c {
                }
            }
            lemma_fallback_healthy(m1, hp, 0, m[c].address, times, m);
        }
    }
}

/// Endpoints whose health flags agree have the same healthy positions.
proof fn lemma_healthy_upto_same(m1: Seq<EndpointModel>, m2: Seq<EndpointModel>, k: int)
    requires
        m1.len() == m2.len(),
        0 <= k <= m1.len(),
        forall|i: int| 0 <= i < m1.len() ==> (#[trigger] m1[i]).healthy == m2[i].healthy,
    ensures
        healthy_upto(m1, k) == healthy_upto(m2, k),
    decreases k,
{
    if k > 0 {
        lemma_healthy_upto_same(m1, m2, k - 1);
        assert(m1[k - 1].healthy == m2[k - 1].healthy);
    }
}

/// Least connections: when the breaker of the chosen endpoint lets the
/// request through, the endpoint handed out is healthy and no healthy
/// endpoint has fewer active connections.
pub proof fn lemma_least_connections_choice(m: Seq<EndpointModel>, next: usize, times: Seq<u64>, draw: usize)
    requires
        healthy_positions(m).len() > 0,
        ask_breaker(
            m,
            policy_choice(m, healthy_positions(m), LoadBalancingPolicy::LeastConnections, next, draw),
            times,
        ).1,
    ensures
        lb_select(m, LoadBalancingPolicy::LeastConnections, next, times, draw).2 matches Some(p) && 0 <= p
            < m.len() && m[p].healthy && forall|q: int|
            0 <= q < m.len() && m[q].healthy ==> m[p].active_connections <= #[trigger] m[q].active_connections,
{
    let hp = healthy_positions(m);
    lemma_healthy_upto(m, m.len() as int);
    lemma_least_loaded_minimal(m, hp, hp.len() as int);
    let p = least_loaded_upto(m, hp, hp.len() as int);
    assert forall|q: int| 0 <= q < m.len() && m[q].healthy implies m[p].active_connections
        <= #[trigger] m[q].active_connections by {
        assert(hp.contains(q));
        let j = choose|j: int| 0 <= j < hp.len() && hp[j] == q;
        assert(m[p].active_connections <= m[hp[j]].active_connections);
    }
}

/// Round robin: when the breaker of the chosen endpoint lets the request
/// through, the endpoint handed out is the healthy one at the counter modulo
/// the number of healthy endpoints, the counter steps by one, and the set of
/// healthy endpoints is unchanged; successive selections therefore cycle
/// through the healthy endpoints in order.
pub proof fn lemma_round_robin_choice(m: Seq<EndpointModel>, next: usize, times: Seq<u64>, draw: usize)
    requires
        healthy_positions(m).len() > 0,
        ask_breaker(
            m,
            healthy_positions(m)[(next as int) % (healthy_positions(m).len() as int)],
            times,
        ).1,
    ensures
        lb_select(m, LoadBalancingPolicy::RoundRobin, next, times, draw).2 == Some(
            healthy_positions(m)[(next as int) % (healthy_positions(m).len() as int)],
        ),
        lb_select(m, LoadBalancingPolicy::RoundRobin, next, times, draw).1 == spec_count_up(next),
        healthy_positions(lb_select(m, LoadBalancingPolicy::RoundRobin, next, times, draw).0)
            == healthy_positions(m),
{
    let hp = healthy_positions(m);
    let c = hp[(next as int) % (hp.len() as int)];
    lemma_healthy_upto(m, m.len() as int);
    assert(0 <= (next as int) % (hp.len() as int) < hp.len());
    let m1 = ask_breaker(m, c, times).0;
    assert forall|i: int| 0 <= i < m1.len() implies (#[trigger] m1[i]).healthy == m[i].healthy by {
        if i != c {
        }
    }
    lemma_healthy_upto_same(m1, m, m.len() as int);
}

/// The healthy positions come in increasing order and lie below `k`.
proof fn lemma_healthy_increasing(m: Seq<EndpointModel>, k: int)
    requires
        0 <= k <= m.len(),
    ensures
        forall|i: int| 0 <= i < healthy_upto(m, k).len() ==> 0 <= #[trigger] healthy_upto(m, k)[i] < k,
        forall|i: int, j: int|
            0 <= i < j < healthy_upto(m, k).len() ==> #[trigger] healthy_upto(m, k)[i]
                < #[trigger] healthy_upto(m, k)[j],
    decreases k,
{
    if k > 0 {
        lemma_healthy_increasing(m, k - 1);
        let prev = healthy_upto(m, k - 1);
        let cur = healthy_upto(m, k);
        if m[k - 1].healthy {
            assert(cur == prev.push(k - 1));
            assert forall|i: int| 0 <= i < cur.len() implies 0 <= #[trigger] cur[i] < k by {
                if i < prev.len() {
                    assert(cur[i] == prev[i]);
                }
            }
            assert forall|i: int, j: int| 0 <= i < j < cur.len() implies #[trigger] cur[i] < #[trigger] cur[j] by {
                assert(cur[i] == prev[i]);
                if j < prev.len() {
                    assert(cur[j] == prev[j]);
                }
            }
        } else {
            assert(cur == prev);
        }
    }
}

/// The fallback search over the healthy positions `hp[j..]`: whatever it
/// settles on is one of them, with another address than the refused one,
/// whose breaker lets the request through; and it settles on one whenever
/// such a position exists.  The breakers are those of `m0`, except at
/// positions with the refused address, which the search skips.
proof fn lemma_fallback_answer(
    m0: Seq<EndpointModel>,
    m1: Seq<EndpointModel>,
    hp: Seq<int>,
    j: int,
    address: Seq<char>,
    times: Seq<u64>,
)
    requires
        0 <= j,
        m1.len() == m0.len(),
        times.len() == m0.len(),
        forall|i: int| 0 <= i < hp.len() ==> 0 <= #[trigger] hp[i] < m0.len(),
        forall|i: int, i2: int| 0 <= i < i2 < hp.len() ==> #[trigger] hp[i] < #[trigger] hp[i2],
        forall|k: int| 0 <= k < m0.len() ==> (#[trigger] m1[k]).address == m0[k].address,
        forall|i: int|
            j <= i < hp.len() && m0[hp[i]].address != address ==> (#[trigger] m1[hp[i]]).breaker
                == m0[hp[i]].breaker,
    ensures
        fallback_from(m1, hp, j, address, times).1 matches Some(p) ==> hp.contains(p) && m0[p].address
            != address && breaker_allow(m0[p].breaker, times[p]).1,
        (exists|i: int|
            j <= i < hp.len() && m0[hp[i]].address != address && breaker_allow(
                (#[trigger] m0[hp[i]]).breaker,
                times[hp[i]],
            ).1) ==> fallback_from(m1, hp, j, address, times).1 is Some,
    decreases hp.len() - j,
{
    if j < hp.len() {
        let q = hp[j];
        assert(hp.contains(q));
        if m1[q].address == address {
            lemma_fallback_answer(m0, m1, hp, j + 1, address, times);
            if exists|i: int|
                j <= i < hp.len() && m0[hp[i]].address != address && breaker_allow(
                    (#[trigger] m0[hp[i]]).breaker,
                    times[hp[i]],
                ).1 {
                let i = choose|i: int|
                    j <= i < hp.len() && m0[hp[i]].address != address && breaker_allow(
                        (#[trigger] m0[hp[i]]).breaker,
                        times[hp[i]],
                    ).1;
                assert(i != j);
            }
        } else {
            let (m2, ok) = ask_breaker(m1, q, times);
            if !ok {
                assert forall|k: int| 0 <= k < m0.len() implies (#[trigger] m2[k]).address
                    == m0[k].address by {
                    if k != q {
                    }
                }
                assert forall|i: int|
                    j + 1 <= i < hp.len() && m0[hp[i]].address != address implies (#[trigger] m2[hp[i]]).breaker
                    == m0[hp[i]].breaker by {
                    assert(hp[j] < hp[i]);
                }
                lemma_fallback_answer(m0, m2, hp, j + 1, address, times);
                if exists|i: int|
                    j <= i < hp.len() && m0[hp[i]].address != address && breaker_allow(
                        (#[trigger] m0[hp[i]]).breaker,
                        times[hp[i]],
                    ).1 {
                    let i = choose|i: int|
                        j <= i < hp.len() && m0[hp[i]].address != address && breaker_allow(
                            (#[trigger] m0[hp[i]]).breaker,
                            times[hp[i]],
                        ).1;
                    assert(i != j);
                }
            }
        }
    }
}

/// Selection consults the circuit breakers: an endpoint handed out is
/// healthy and its breaker lets the request through; the endpoint the
/// policy picks is handed out when its breaker allows; and when its breaker
/// refuses, another healthy endpoint with a different address whose breaker
/// allows is handed out whenever one exists, so nothing is handed out only
/// when every such endpoint refuses too.
pub proof fn lemma_select_consults_breakers(
    m: Seq<EndpointModel>,
    policy: LoadBalancingPolicy,
    next: usize,
    times: Seq<u64>,
    draw: usize,
)
    requires
        times.len() == m.len(),
    ensures
        lb_select(m, policy, next, times, draw).2 matches Some(p) ==> 0 <= p < m.len() && m[p].healthy
            && breaker_allow(m[p].breaker, times[p]).1,
        healthy_positions(m).len() > 0 ==> ({
            let c = policy_choice(m, healthy_positions(m), policy, next, draw);
            &&& 0 <= c < m.len() && m[c].healthy
            &&& breaker_allow(m[c].breaker, times[c]).1 ==> lb_select(m, policy, next, times, draw).2
                == Some(c)
            &&& (exists|q: int|
                0 <= q < m.len() && m[q].healthy && m[q].address != m[c].address && breaker_allow(
                    (#[trigger] m[q]).breaker,
                    times[q],
                ).1) ==> lb_select(m, policy, next, times, draw).2 is Some
        }),
{
    let hp = healthy_positions(m);
    lemma_healthy_upto(m, m.len() as int);
    lemma_healthy_increasing(m, m.len() as int);
    lemma_select_only_healthy(m, policy, next, times, draw);
    if hp.len() > 0 {
        let c = policy_choice(m, hp, policy, next, draw);
        match policy {
            LoadBalancingPolicy::LeastConnections => {
                lemma_least_loaded_minimal(m, hp, hp.len() as int);
            },
            LoadBalancingPolicy::Random => {
                let idx = (draw as int) % (hp.len() as int);
                assert(0 <= idx < hp.len());
                assert(hp[idx] == c);
            },
            _ => {
                let idx = (next as int) % (hp.len() as int);
                assert(0 <= idx < hp.len());
                assert(hp[idx] == c);
            },
        }
        assert(hp.contains(c));
        let (m1, ok) = ask_breaker(m, c, times);
        if !ok {
            assert forall|k: int| 0 <= k < m.len() implies (#[trigger] m1[k]).address == m[k].address by {
                if k != c {
                }
            }
            assert forall|i: int|
                0 <= i < hp.len() && m[hp[i]].address != m[c].address implies (#[trigger] m1[hp[i]]).breaker
                == m[hp[i]].breaker by {
                assert(hp[i] != c);
            }
            lemma_fallback_answer(m, m1, hp, 0, m[c].address, times);
            if exists|q: int|
                0 <= q < m.len() && m[q].healthy && m[q].address != m[c].address && breaker_allow(
                    (#[trigger] m[q]).breaker,
                    times[q],
                ).1 {
                let q = choose|q: int|
                    0 <= q < m.len() && m[q].healthy && m[q].address != m[c].address && breaker_allow(
                        (#[trigger] m[q]).breaker,
                        times[q],
                    ).1;
                assert(hp.contains(q));
                let i = choose|i: int| 0 <= i < hp.len() && hp[i] == q;
                assert(m[hp[i]] == m[q]);
            }
        }
    }
}

/// Calls `rand::Rng::gen_range(0..n)` on the thread-local generator
/// (`rand::thread_rng`): a number drawn from `[0, n)`.  Only the range is
/// claimed.
#[verifier::external_body]
fn random_below(n: usize) -> (r: usize)
    requires
        n > 0,
    ensures
        r < n,
{
    rand::thread_rng().gen_range(0..n)
}

/// Load balancer for distributing requests across endpoints.
#[derive(Debug)]
pub struct LoadBalancer {
    endpoints: Vec<Endpoint>,
    policy: LoadBalancingPolicy,
    next_index: usize,
}

impl LoadBalancer {
    /// The endpoints.
    pub closed spec fn endpoint_list(&self) -> Seq<EndpointModel> {
        endpoint_models(self.endpoints@)
    }

    /// The load balancing policy.
    pub closed spec fn policy_view(&self) -> LoadBalancingPolicy {
        self.policy
    }

    /// The round-robin counter.
    pub closed spec fn next_view(&self) -> usize {
        self.next_index
    }

    /// Creates a load balancer over the given endpoints.
    pub fn new(endpoints: Vec<Endpoint>, policy: LoadBalancingPolicy) -> (lb: Self)
        ensures
            lb.endpoint_list() == endpoint_models(endpoints@),
            lb.policy_view() == policy,
            lb.next_view() == 0,
    {
        LoadBalancer { endpoints, policy, next_index: 0 }
    }

    /// Creates a load balancer with a new endpoint for each address.
    pub fn from_addresses(addresses: Vec<String>, policy: LoadBalancingPolicy) -> (lb: Self)
        ensures
            lb.endpoint_list().len() == addresses@.len(),
            forall|i: int|
                0 <= i < addresses@.len() ==> #[trigger] lb.endpoint_list()[i] == endpoint_initial(
                    addresses@[i]@,
                    100,
                ),
            lb.policy_view() == policy,
            lb.next_view() == 0,
    {
        let mut endpoints: Vec<Endpoint> = Vec::new();
        let mut i: usize = 0;
        while i < addresses.len()
            invariant
                i <= addresses@.len(),
                endpoints@.len() == i,
                forall|k: int|
                    0 <= k < i ==> #[trigger] endpoints@[k]@ == endpoint_initial(addresses@[k]@, 100),
            decreases addresses@.len() - i,
        {
            endpoints.push(Endpoint::new(addresses[i].as_str()));
            i = i + 1;
        }
        LoadBalancer { endpoints, policy, next_index: 0 }
    }

    /// The positions of the healthy endpoints, in order.
    fn healthy_indices(&self) -> (hv: Vec<usize>)
        ensures
            hv@.map_values(|i: usize| i as int) == healthy_positions(self.endpoint_list()),
            forall|k: int| 0 <= k < hv@.len() ==> #[trigger] hv@[k] < self.endpoints@.len(),
    {
        let ghost m = self.endpoint_list();
        let mut hv: Vec<usize> = Vec::new();
        let mut i: usize = 0;
        while i < self.endpoints.len()
            invariant
                m == self.endpoint_list(),
                m.len() == self.endpoints@.len(),
                i <= self.endpoints@.len(),
                hv@.map_values(|i: usize| i as int) == healthy_upto(m, i as int),
                forall|k: int| 0 <= k < hv@.len() ==> #[trigger] hv@[k] < i,
            decreases self.endpoints@.len() - i,
        {
            assert(m[i as int] == self.endpoints@[i as int]@);
            if self.endpoints[i].is_healthy() {
                let ghost before = hv@;
                hv.push(i);
                assert(hv@.map_values(|i: usize| i as int) =~= before.map_values(|i: usize| i as int).push(
                    i as int,
                ));
            }
            i = i + 1;
        }
        hv
    }

    /// Selects an endpoint, with `times[p]` the time on endpoint `p`'s
    /// breaker clock and `draw` the random number for the random policy;
    /// returns the position of the endpoint chosen.
    pub fn select_with(&mut self, times: &Vec<u64>, draw: usize) -> (r: Option<usize>)
        requires
            times@.len() == old(self).endpoint_list().len(),
        ensures
            ({
                let (m2, next2, c) = lb_select(
                    old(self).endpoint_list(),
                    old(self).policy_view(),
                    old(self).next_view(),
                    times@,
                    draw,
                );
                &&& final(self).endpoint_list() == m2
                &&& final(self).next_view() == next2
                &&& match r {
                    Some(p) => c == Some(p as int),
                    None => c is None,
                }
            }),
            final(self).policy_view() == old(self).policy_view(),
    {
        let ghost m = self.endpoint_list();
        let hv = self.healthy_indices();
        let ghost hp = healthy_positions(m);
        if hv.len() == 0 {
            return None;
        }
        assert(hv@.map_values(|i: usize| i as int).len() == hp.len());
        let c: usize = match self.policy {
            LoadBalancingPolicy::LeastConnections => self.least_loaded(&hv),
            LoadBalancingPolicy::Random => hv[draw % hv.len()],
            _ => {
                let k = self.next_index % hv.len();
                self.next_index = count_up(self.next_index);
                hv[k]
            },
        };
        assert(c as int == policy_choice(m, hp, self.policy, old(self).next_index, draw)) by {
            assert(hv@.map_values(|i: usize| i as int)[(draw % hv.len()) as int] == hv@[(draw % hv.len()) as int] as int);
            assert(hv@.map_values(|i: usize| i as int)[(old(self).next_index % hv.len()) as int] == hv@[(old(self).next_index % hv.len()) as int] as int);
        }
        assert(c < self.endpoints@.len());
        let ok = self.ask(c, times);
        if ok {
            return Some(c);
        }
        assert(self.endpoint_list()[c as int] == self.endpoints@[c as int]@);
        let address = self.endpoints[c].address.clone();
        let ghost m1 = self.endpoint_list();
        let mut j: usize = 0;
        while j < hv.len()
            invariant
                hp == healthy_positions(m),
                m == old(self).endpoint_list(),
                hp.len() > 0,
                c as int == policy_choice(m, hp, old(self).policy, old(self).next_index, draw),
                c < m.len(),
                m1 == ask_breaker(m, c as int, times@).0,
                !ask_breaker(m, c as int, times@).1,
                hv@.map_values(|i: usize| i as int) == hp,
                forall|k: int| 0 <= k < hv@.len() ==> #[trigger] hv@[k] < self.endpoints@.len(),
                self.endpoints@.len() == m.len(),
                times@.len() == m.len(),
                address@ == m[c as int].address,
                j <= hv@.len(),
                fallback_from(m1, hp, 0, m[c as int].address, times@) == fallback_from(
                    self.endpoint_list(),
                    hp,
                    j as int,
                    m[c as int].address,
                    times@,
                ),
                self.policy == old(self).policy,
                self.next_index == (match old(self).policy {
                    LoadBalancingPolicy::RoundRobin => spec_count_up(old(self).next_index),
                    LoadBalancingPolicy::ConsistentHash => spec_count_up(old(self).next_index),
                    _ => old(self).next_index,
                }),
            decreases hv@.len() - j,
        {
            let p = hv[j];
            assert(hp[j as int] == p as int);
            assert(self.endpoint_list()[p as int] == self.endpoints@[p as int]@);
            if !str_eq(self.endpoints[p].address.as_str(), address.as_str()) {
                if self.ask(p, times) {
                    return Some(p);
                }
            }
            j = j + 1;
        }
        None
    }

    /// Asks the breaker of endpoint `p` at its time.
    fn ask(&mut self, p: usize, times: &Vec<u64>) -> (ok: bool)
        requires
            p < old(self).endpoints@.len(),
            times@.len() == old(self).endpoints@.len(),
        ensures
            (final(self).endpoint_list(), ok) == ask_breaker(old(self).endpoint_list(), p as int, times@),
            final(self).endpoints@.len() == old(self).endpoints@.len(),
            final(self).policy == old(self).policy,
            final(self).next_index == old(self).next_index,
    {
        let ghost m = self.endpoint_list();
        let ok = self.endpoints[p].allow_request_at(times[p]);
        assert(self.endpoint_list() =~= ask_breaker(m, p as int, times@).0);
        ok
    }

    /// The first of the given positions whose endpoint has the fewest active
    /// connections.
    fn least_loaded(&self, hv: &Vec<usize>) -> (c: usize)
        requires
            hv@.len() > 0,
            forall|k: int| 0 <= k < hv@.len() ==> #[trigger] hv@[k] < self.endpoints@.len(),
        ensures
            c as int == least_loaded_upto(self.endpoint_list(), hv@.map_values(|i: usize| i as int), hv@.len() as int),
            c < self.endpoints@.len(),
    {
        let ghost m = self.endpoint_list();
        let ghost hp = hv@.map_values(|i: usize| i as int);
        let mut best: usize = hv[0];
        let mut j: usize = 1;
        while j < hv.len()
            invariant
                m == self.endpoint_list(),
                hp == hv@.map_values(|i: usize| i as int),
                forall|k: int| 0 <= k < hv@.len() ==> #[trigger] hv@[k] < self.endpoints@.len(),
                1 <= j <= hv@.len(),
                best < self.endpoints@.len(),
                best as int == least_loaded_upto(m, hp, j as int),
            decreases hv@.len() - j,
        {
            let q = hv[j];
            assert(m[q as int] == self.endpoints@[q as int]@);
            assert(m[best as int] == self.endpoints@[best as int]@);
            if self.endpoints[q].active_connections() < self.endpoints[best].active_connections() {
                best = q;
            }
            j = j + 1;
        }
        best
    }

    /// Selects an endpoint, reading each breaker's clock and drawing the
    /// random number the random policy needs, uniformly below the number of
    /// healthy endpoints.
    pub fn select(&mut self) -> (r: Option<usize>)
        ensures
            exists|times: Seq<u64>, draw: usize|
                times.len() == old(self).endpoint_list().len() && (healthy_positions(
                    old(self).endpoint_list(),
                ).len() > 0 ==> draw < healthy_positions(old(self).endpoint_list()).len()) && ({
                    let (m2, next2, c) = #[trigger] lb_select(
                        old(self).endpoint_list(),
                        old(self).policy_view(),
                        old(self).next_view(),
                        times,
                        draw,
                    );
                    &&& final(self).endpoint_list() == m2
                    &&& final(self).next_view() == next2
                    &&& match r {
                        Some(p) => c == Some(p as int),
                        None => c is None,
                    }
                }),
            final(self).policy_view() == old(self).policy_view(),
    {
        let mut times: Vec<u64> = Vec::new();
        let mut i: usize = 0;
        while i < self.endpoints.len()
            invariant
                i <= self.endpoints@.len(),
                times@.len() == i,
            decreases self.endpoints@.len() - i,
        {
            times.push(self.endpoints[i].now_ms());
            i = i + 1;
        }
        let healthy = self.healthy_count();
        let draw = if healthy > 0 { random_below(healthy) } else { 0 };
        self.select_with(&times, draw)
    }

    /// Returns all endpoints.
    pub fn endpoints(&self) -> (r: &[Endpoint])
        ensures
            endpoint_models(r@) == self.endpoint_list(),
    {
        self.endpoints.as_slice()
    }

    /// Returns the endpoint at position `i`.
    pub fn endpoint(&self, i: usize) -> (e: &Endpoint)
        requires
            i < self.endpoint_list().len(),
        ensures
            e@ == self.endpoint_list()[i as int],
    {
        &self.endpoints[i]
    }

    /// Returns the number of healthy endpoints.
    pub fn healthy_count(&self) -> (n: usize)
        ensures
            n == healthy_positions(self.endpoint_list()).len(),
    {
        let hv = self.healthy_indices();
        assert(hv@.map_values(|i: usize| i as int).len() == hv@.len());
        hv.len()
    }

    /// Returns the total number of endpoints.
    pub fn total_count(&self) -> (n: usize)
        ensures
            n == self.endpoint_list().len(),
    {
        self.endpoints.len()
    }
}

/// A load balancer's state: endpoints, policy, round-robin counter.
pub struct LbModel {
    pub endpoints: Seq<EndpointModel>,
    pub policy: LoadBalancingPolicy,
    pub next: usize,
}

impl View for LoadBalancer {
    type V = LbModel;

    closed spec fn view(&self) -> LbModel {
        LbModel { endpoints: self.endpoint_list(), policy: self.policy, next: self.next_index }
    }
}

/// A new load balancer over fresh endpoints at the given addresses.
pub open spec fn lb_from_addresses(addresses: Seq<Seq<char>>, policy: LoadBalancingPolicy) -> LbModel {
    LbModel {
        endpoints: Seq::new(addresses.len(), |i: int| endpoint_initial(addresses[i], 100)),
        policy,
        next: 0,
    }
}

/// Connection pool statistics.
#[derive(Debug, Clone, Copy)]
pub struct PoolStats {
    /// Total number of connections created.
    pub connections_created: u64,
    /// Total number of connections closed.
    pub connections_closed: u64,
    /// Current number of idle connections.
    pub idle_connections: usize,
    /// Current number of active connections.
    pub active_connections: usize,
}

/// The position of the first name equal to `name`.
pub open spec fn name_index(names: Seq<String>, name: Seq<char>, k: int) -> Option<int>
    decreases names.len() - k,
{
    if k < 0 || k >= names.len() {
        None
    } else if names[k]@ == name {
        Some(k)
    } else {
        name_index(names, name, k + 1)
    }
}

/// The sum of the active connections of the endpoints `m[0..k]`.
pub open spec fn active_sum(m: Seq<EndpointModel>, k: int) -> int
    decreases k,
{
    if k <= 0 {
        0
    } else {
        active_sum(m, k - 1) + m[k - 1].active_connections
    }
}

/// The sum of the active connections over the clusters `c[0..k]`.
pub open spec fn cluster_active_sum(c: Seq<LbModel>, k: int) -> int
    decreases k,
{
    if k <= 0 {
        0
    } else {
        cluster_active_sum(c, k - 1) + active_sum(c[k - 1].endpoints, c[k - 1].endpoints.len() as int)
    }
}

/// Transport layer managing the load balancers of the upstream clusters.
pub struct Transport {
    config: PoolConfig,
    names: Vec<String>,
    clusters: Vec<LoadBalancer>,
    connections_created: u64,
    connections_closed: u64,
}

impl Transport {
    /// The cluster names, in the order they were first added.
    pub closed spec fn names_view(&self) -> Seq<Seq<char>> {
        self.names@.map_values(|s: String| s@)
    }

    /// The load balancers, in the same order as the names.
    pub closed spec fn clusters_view(&self) -> Seq<LbModel> {
        self.clusters@.map_values(|l: LoadBalancer| l@)
    }

    /// The position of the cluster named `name`.
    pub closed spec fn position(&self, name: Seq<char>) -> Option<int> {
        name_index(self.names@, name, 0)
    }

    /// Counters of connections created and closed.
    pub closed spec fn counters(&self) -> (u64, u64) {
        (self.connections_created, self.connections_closed)
    }

    /// The pool configuration.
    pub closed spec fn config_view(&self) -> PoolConfig {
        self.config
    }

    /// Well formed: one load balancer per name.
    pub closed spec fn wf(&self) -> bool {
        self.names@.len() == self.clusters@.len()
    }

    /// The load balancer of the cluster named `name`, if there is one.
    pub open spec fn cluster_view(&self, name: Seq<char>) -> Option<LbModel> {
        match self.position(name) {
            Some(i) => Some(self.clusters_view()[i]),
            None => None,
        }
    }

    /// Creates a transport with the given configuration and no clusters.
    pub fn new(config: PoolConfig) -> (t: Self)
        ensures
            t.wf(),
            t.config_view() == config,
            t.names_view().len() == 0,
            forall|name: Seq<char>| t.cluster_view(name) is None,
            t.counters() == (0u64, 0u64),
    {
        Transport { config, names: Vec::new(), clusters: Vec::new(), connections_created: 0, connections_closed: 0 }
    }

    /// Creates a transport with the default configuration.
    pub fn with_defaults() -> (t: Self)
        ensures
            t.wf(),
            t.config_view() == default_pool_config(),
            t.names_view().len() == 0,
            forall|name: Seq<char>| t.cluster_view(name) is None,
            t.counters() == (0u64, 0u64),
    {
        Transport::new(PoolConfig::default())
    }

    fn find(&self, name: &str) -> (r: Option<usize>)
        ensures
            match r {
                Some(i) => self.position(name@) == Some(i as int),
                None => self.position(name@) is None,
            },
    {
        let mut i: usize = 0;
        while i < self.names.len()
            invariant
                i <= self.names@.len(),
                name_index(self.names@, name@, 0) == name_index(self.names@, name@, i as int),
            decreases self.names@.len() - i,
        {
            if str_eq(self.names[i].as_str(), name) {
                return Some(i);
            }
            i = i + 1;
        }
        None
    }

    /// Adds a cluster with the given endpoints, replacing any cluster of the
    /// same name.
    pub fn add_cluster(&mut self, name: &str, endpoints: Vec<String>, policy: LoadBalancingPolicy)
        requires
            old(self).wf(),
        ensures
            final(self).wf(),
            final(self).cluster_view(name@) == Some(
                lb_from_addresses(endpoints@.map_values(|s: String| s@), policy),
            ),
            forall|other: Seq<char>|
                other != name@ ==> #[trigger] final(self).cluster_view(other) == old(self).cluster_view(
                    other,
                ),
            final(self).config_view() == old(self).config_view(),
            final(self).counters() == old(self).counters(),
    {
        let ghost addrs = endpoints@.map_values(|s: String| s@);
        let lb = LoadBalancer::from_addresses(endpoints, policy);
        assert(lb@.endpoints =~= lb_from_addresses(addrs, policy).endpoints);
        let ghost old_names = self.names@;
        proof {
            lemma_name_index(old_names, name@, 0);
        }
        match self.find(name) {
            Some(i) => {
                self.clusters.set(i, lb);
                assert forall|other: Seq<char>| other != name@ implies #[trigger] self.cluster_view(other)
                    == old(self).cluster_view(other) by {
                    lemma_name_index(old_names, other, 0);
                    if let Some(j) = name_index(old_names, other, 0) {
                        assert(j != i);
                    }
                }
                assert(self.clusters_view()[i as int] == lb@);
            },
            None => {
                let owned_name = owned(name);
                proof {
                    lemma_name_index_push(old_names, owned_name, name@, 0);
                }
                self.names.push(owned_name);
                self.clusters.push(lb);
                assert forall|other: Seq<char>| other != name@ implies #[trigger] self.cluster_view(other)
                    == old(self).cluster_view(other) by {
                    lemma_name_index_push(old_names, owned_name, other, 0);
                    lemma_name_index(old_names, other, 0);
                    if let Some(j) = name_index(old_names, other, 0) {
                        assert(self.clusters@[j] == old(self).clusters@[j]);
                    }
                }
                assert(self.clusters_view()[old_names.len() as int] == lb@);
            },
        }
    }

    /// Gets the load balancer of a cluster.
    pub fn get_cluster(&self, name: &str) -> (r: Option<&LoadBalancer>)
        requires
            self.wf(),
        ensures
            match r {
                Some(lb) => self.cluster_view(name@) == Some(lb@),
                None => self.cluster_view(name@) is None,
            },
    {
        proof {
            lemma_name_index(self.names@, name@, 0);
        }
        match self.find(name) {
            Some(i) => Some(&self.clusters[i]),
            None => None,
        }
    }

    /// Selects an endpoint from a cluster, returning its position in the
    /// cluster's load balancer; `None` when the cluster does not exist or no
    /// endpoint can take the request.
    pub fn select_endpoint(&mut self, cluster: &str) -> (r: Option<usize>)
        requires
            old(self).wf(),
        ensures
            final(self).wf(),
            forall|other: Seq<char>|
                other != cluster@ ==> #[trigger] final(self).cluster_view(other) == old(self).cluster_view(
                    other,
                ),
            old(self).cluster_view(cluster@) is None ==> r is None && final(self).cluster_view(cluster@)
                is None,
            old(self).cluster_view(cluster@) matches Some(lb) ==> exists|times: Seq<u64>, draw: usize|
                times.len() == lb.endpoints.len() && (healthy_positions(lb.endpoints).len() > 0 ==> draw
                    < healthy_positions(lb.endpoints).len()) && ({
                    let (m2, next2, c) = #[trigger] lb_select(lb.endpoints, lb.policy, lb.next, times, draw);
                    &&& final(self).cluster_view(cluster@) == Some(LbModel { endpoints: m2, next: next2, ..lb })
                    &&& match r {
                        Some(p) => c == Some(p as int),
                        None => c is None,
                    }
                }),
            final(self).config_view() == old(self).config_view(),
            final(self).counters() == old(self).counters(),
    {
        proof {
            lemma_name_index(self.names@, cluster@, 0);
        }
        match self.find(cluster) {
            Some(i) => {
                let mut lb = self.clusters.remove(i);
                let ghost before = lb@;
                let r = lb.select();
                proof {
                    let (times, draw) = choose|times: Seq<u64>, draw: usize|
                        times.len() == before.endpoints.len() && (healthy_positions(before.endpoints).len()
                            > 0 ==> draw < healthy_positions(before.endpoints).len()) && ({
                            let (m2, next2, c) = #[trigger] lb_select(
                                before.endpoints,
                                before.policy,
                                before.next,
                                times,
                                draw,
                            );
                            &&& lb.endpoint_list() == m2
                            &&& lb.next_view() == next2
                            &&& match r {
                                Some(p) => c == Some(p as int),
                                None => c is None,
                            }
                        });
                    let (m2, next2, c) = lb_select(before.endpoints, before.policy, before.next, times, draw);
                    assert(lb@ == LbModel { endpoints: m2, next: next2, ..before });
                }
                self.clusters.insert(i, lb);
                assert(self.clusters_view() =~= old(self).clusters_view().update(i as int, lb@));
                assert forall|other: Seq<char>| other != cluster@ implies #[trigger] self.cluster_view(other)
                    == old(self).cluster_view(other) by {
                    lemma_name_index(self.names@, other, 0);
                    if let Some(j) = name_index(self.names@, other, 0) {
                        assert(j != i);
                    }
                }
                r
            },
            None => None,
        }
    }

    /// Returns the pool configuration.
    pub fn config(&self) -> (c: PoolConfig)
        ensures
            c == self.config_view(),
    {
        self.config
    }

    /// Returns pool statistics; the active connections are summed over all
    /// endpoints of all clusters.
    pub fn stats(&self) -> (s: PoolStats)
        requires
            self.wf(),
            cluster_active_sum(self.clusters_view(), self.clusters_view().len() as int) <= usize::MAX,
        ensures
            s.connections_created == self.counters().0,
            s.connections_closed == self.counters().1,
            s.idle_connections == 0,
            s.active_connections == cluster_active_sum(self.clusters_view(), self.clusters_view().len() as int),
    {
        let ghost cs = self.clusters_view();
        let mut active: usize = 0;
        let mut i: usize = 0;
        while i < self.clusters.len()
            invariant
                cs == self.clusters_view(),
                i <= cs.len(),
                active == cluster_active_sum(cs, i as int),
                cluster_active_sum(cs, cs.len() as int) <= usize::MAX,
            decreases cs.len() - i,
        {
            let eps = self.clusters[i].endpoints();
            let ghost m = cs[i as int].endpoints;
            assert(endpoint_models(eps@) == m);
            let mut j: usize = 0;
            let ghost base = active;
            while j < eps.len()
                invariant
                    endpoint_models(eps@) == m,
                    j <= m.len(),
                    active == base + active_sum(m, j as int),
                    base == cluster_active_sum(cs, i as int),
                    i < cs.len(),
                    cs[i as int].endpoints == m,
                    cluster_active_sum(cs, cs.len() as int) <= usize::MAX,
                decreases m.len() - j,
            {
                proof {
                    lemma_cluster_prefix(cs, i as int + 1, cs.len() as int);
                    lemma_active_prefix(m, j as int + 1, m.len() as int);
                }
                assert(m[j as int] == eps@[j as int]@);
                active = active + eps[j].active_connections();
                j = j + 1;
            }
            i = i + 1;
        }
        PoolStats {
            connections_created: self.connections_created,
            connections_closed: self.connections_closed,
            idle_connections: 0,
            active_connections: active,
        }
    }

    /// Records a connection being created (the counter wraps).
    pub fn record_connection_created(&mut self)
        ensures
            final(self).counters() == (spec_count_up_u64(old(self).counters().0), old(self).counters().1),
            final(self).names_view() == old(self).names_view(),
            final(self).clusters_view() == old(self).clusters_view(),
            final(self).config_view() == old(self).config_view(),
            final(self).wf() == old(self).wf(),
    {
        self.connections_created = count_up_u64(self.connections_created);
    }

    /// Records a connection being closed (the counter wraps).
    pub fn record_connection_closed(&mut self)
        ensures
            final(self).counters() == (old(self).counters().0, spec_count_up_u64(old(self).counters().1)),
            final(self).names_view() == old(self).names_view(),
            final(self).clusters_view() == old(self).clusters_view(),
            final(self).config_view() == old(self).config_view(),
            final(self).wf() == old(self).wf(),
    {
        self.connections_closed = count_up_u64(self.connections_closed);
    }
}

impl Default for Transport {
    fn default() -> (t: Self)
        ensures
            t.wf(),
            t.config_view() == default_pool_config(),
            forall|name: Seq<char>| t.cluster_view(name) is None,
            t.counters() == (0u64, 0u64),
    {
        Transport::with_defaults()
    }
}

/// What the search for a name yields: a position, at or after `k`, holding
/// the name, with no earlier one from `k` on; or no position holding it.
proof fn lemma_name_index(names: Seq<String>, name: Seq<char>, k: int)
    requires
        0 <= k,
    ensures
        name_index(names, name, k) matches Some(i) ==> k <= i < names.len() && names[i]@ == name,
        name_index(names, name, k) is None ==> forall|j: int| k <= j < names.len() ==> names[j]@ != name,
    decreases names.len() - k,
{
    if k < names.len() && names[k]@ != name {
        lemma_name_index(names, name, k + 1);
    }
}

/// Adding a name at the end leaves the search for any other name as it was,
/// and finds the added name at the end when it did not occur before.
proof fn lemma_name_index_push(names: Seq<String>, added: String, name: Seq<char>, k: int)
    requires
        0 <= k <= names.len(),
    ensures
        name != added@ ==> name_index(names.push(added), name, k) == name_index(names, name, k),
        name == added@ && name_index(names, name, k) is None ==> name_index(names.push(added), name, k)
            == Some(names.len() as int),
    decreases names.len() - k,
{
    if k < names.len() {
        assert(names.push(added)[k] == names[k]);
        lemma_name_index_push(names, added, name, k + 1);
    } else {
        assert(names.push(added)[k] == added);
        assert(name_index(names.push(added), name, k + 1) is None);
    }
}

/// Active connections are never negative, so a prefix sums to no more than
/// the whole.
proof fn lemma_active_prefix(m: Seq<EndpointModel>, j: int, n: int)
    requires
        0 <= j <= n <= m.len(),
    ensures
        0 <= active_sum(m, j) <= active_sum(m, n),
    decreases n - j,
{
    if j < n {
        lemma_active_prefix(m, j, n - 1);
    } else {
        lemma_active_nonneg(m, j);
    }
}

proof fn lemma_active_nonneg(m: Seq<EndpointModel>, j: int)
    ensures
        0 <= active_sum(m, j),
    decreases j,
{
    if j > 0 {
        lemma_active_nonneg(m, j - 1);
    }
}

/// The clusters' sums grow with the number of clusters counted.
proof fn lemma_cluster_prefix(cs: Seq<LbModel>, i: int, n: int)
    requires
        0 <= i <= n <= cs.len(),
    ensures
        0 <= cluster_active_sum(cs, i) <= cluster_active_sum(cs, n),
    decreases n - i,
{
    if i < n {
        lemma_cluster_prefix(cs, i, n - 1);
        lemma_active_nonneg(cs[n - 1].endpoints, cs[n - 1].endpoints.len() as int);
    } else {
        lemma_cluster_nonneg(cs, i);
    }
}

proof fn lemma_cluster_nonneg(cs: Seq<LbModel>, i: int)
    ensures
        0 <= cluster_active_sum(cs, i),
    decreases i,
{
    if i > 0 {
        lemma_cluster_nonneg(cs, i - 1);
        lemma_active_nonneg(cs[i - 1].endpoints, cs[i - 1].endpoints.len() as int);
    }
}

} // verus!
