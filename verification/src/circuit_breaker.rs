//! Circuit breaker for fault tolerance.
//!
//! A Hystrix-style breaker with three states:
//! - **Closed**: normal operation, requests flow through;
//! - **Open**: too many failures, requests are rejected immediately;
//! - **HalfOpen**: recovery mode, requests flow to test whether the service
//!   recovered.
//!
//! Time is measured in milliseconds since the breaker was created.  The
//! `_at` operations take that time as an argument; the others read it from the
//! monotonic clock.

use crate::clock::{count_up, elapsed_between, elapsed_ms, instant_now, spec_count_up, spec_elapsed_between};
use std::time::Instant;
use vstd::prelude::*;

verus! {

/// Circuit breaker state.
#[derive(Debug, Clone, Copy, PartialEq, Eq, Structural)]
pub enum State {
    /// Requests flow normally.
    Closed,
    /// Requests are rejected.
    Open,
    /// Requests flow while the breaker tests whether the service recovered.
    HalfOpen,
}

/// Configuration for the circuit breaker.
#[derive(Debug, Clone, Copy, PartialEq, Eq, Structural)]
pub struct CircuitBreakerConfig {
    /// Number of consecutive failures in Closed that open the circuit.
    pub failure_threshold: u64,
    /// Milliseconds to wait in Open before a request may test the service.
    pub timeout_ms: u64,
    /// Number of successes in HalfOpen that close the circuit.
    pub success_threshold: u64,
}

impl Default for CircuitBreakerConfig {
    fn default() -> (c: Self)
        ensures
            c.failure_threshold == 5,
            c.timeout_ms == 30_000,
            c.success_threshold == 2,
    {
        CircuitBreakerConfig { failure_threshold: 5, timeout_ms: 30_000, success_threshold: 2 }
    }
}

/// Statistics for the circuit breaker.
#[derive(Debug, Clone)]
pub struct CircuitBreakerStats {
    pub total_requests: usize,
    pub total_failures: usize,
    pub current_failure_count: u64,
    pub current_success_count: u64,
}

/// The abstract state of a circuit breaker.
#[derive(Clone, Copy)]
pub struct BreakerModel {
    pub state: State,
    pub failure_count: u64,
    pub success_count: u64,
    pub last_failure_time: Option<u64>,
    pub config: CircuitBreakerConfig,
    pub total_requests: usize,
    pub total_failures: usize,
}

/// Well-formedness of a breaker state: the counters stay below their
/// thresholds while they can still grow, and an open breaker remembers when
/// it last failed.
pub open spec fn breaker_wf(m: BreakerModel) -> bool {
    &&& m.state == State::Closed ==> (m.failure_count == 0 || m.failure_count
        < m.config.failure_threshold)
    &&& m.state == State::HalfOpen ==> (m.success_count == 0 || m.success_count
        < m.config.success_threshold)
    &&& m.state == State::Open ==> m.last_failure_time is Some
}

/// A freshly created breaker.
pub open spec fn breaker_initial(config: CircuitBreakerConfig) -> BreakerModel {
    BreakerModel {
        state: State::Closed,
        failure_count: 0,
        success_count: 0,
        last_failure_time: None,
        config,
        total_requests: 0,
        total_failures: 0,
    }
}

/// Asking whether a request may pass at time `now`: the new state and the
/// answer.
pub open spec fn breaker_allow(m: BreakerModel, now: u64) -> (BreakerModel, bool) {
    let counted = BreakerModel { total_requests: spec_count_up(m.total_requests), ..m };
    match m.state {
        State::Closed => (counted, true),
        State::HalfOpen => (counted, true),
        State::Open => match m.last_failure_time {
            Some(t) => if spec_elapsed_between(now, t) >= m.config.timeout_ms {
                (BreakerModel { state: State::HalfOpen, success_count: 0, ..counted }, true)
            } else {
                (counted, false)
            },
            None => (counted, false),
        },
    }
}

/// Recording a successful request.
pub open spec fn breaker_success(m: BreakerModel) -> BreakerModel {
    match m.state {
        State::HalfOpen => if m.success_count + 1 >= m.config.success_threshold {
            BreakerModel { state: State::Closed, failure_count: 0, success_count: 0, ..m }
        } else {
            BreakerModel { success_count: (m.success_count + 1) as u64, ..m }
        },
        State::Closed => BreakerModel { failure_count: 0, ..m },
        State::Open => m,
    }
}

/// Recording a failed request at time `now`.
pub open spec fn breaker_failure(m: BreakerModel, now: u64) -> BreakerModel {
    let counted = BreakerModel { total_failures: spec_count_up(m.total_failures), ..m };
    match m.state {
        State::Closed => if m.failure_count + 1 >= m.config.failure_threshold {
            BreakerModel {
                state: State::Open,
                failure_count: (m.failure_count + 1) as u64,
                last_failure_time: Some(now),
                ..counted
            }
        } else {
            BreakerModel { failure_count: (m.failure_count + 1) as u64, ..counted }
        },
        State::HalfOpen => BreakerModel {
            state: State::Open,
            last_failure_time: Some(now),
            failure_count: 0,
            success_count: 0,
            ..counted
        },
        State::Open => BreakerModel { last_failure_time: Some(now), ..counted },
    }
}

/// Resetting the breaker: closed, counters cleared, no failure remembered.
pub open spec fn breaker_reset(m: BreakerModel) -> BreakerModel {
    BreakerModel {
        state: State::Closed,
        failure_count: 0,
        success_count: 0,
        last_failure_time: None,
        ..m
    }
}

/// The state after `k` consecutive failures, all recorded at time `now`.
pub open spec fn breaker_failures(m: BreakerModel, k: nat, now: u64) -> BreakerModel
    decreases k,
{
    if k == 0 {
        m
    } else {
        breaker_failure(breaker_failures(m, (k - 1) as nat, now), now)
    }
}

/// The state after `k` consecutive successes.
pub open spec fn breaker_successes(m: BreakerModel, k: nat) -> BreakerModel
    decreases k,
{
    if k == 0 {
        m
    } else {
        breaker_success(breaker_successes(m, (k - 1) as nat))
    }
}

/// A closed breaker with no failures counted stays closed through fewer than
/// `failure_threshold` consecutive failures, and opens at exactly
/// `failure_threshold` of them, remembering the time of the last one.
pub proof fn lemma_consecutive_failures_trip(m: BreakerModel, k: nat, now: u64)
    requires
        m.state == State::Closed,
        m.failure_count == 0,
        1 <= m.config.failure_threshold,
        k <= m.config.failure_threshold,
    ensures
        k < m.config.failure_threshold ==> breaker_failures(m, k, now).state == State::Closed
            && breaker_failures(m, k, now).failure_count == k,
        k == m.config.failure_threshold ==> breaker_failures(m, k, now).state == State::Open
            && breaker_failures(m, k, now).last_failure_time == Some(now),
        breaker_failures(m, k, now).config == m.config,
    decreases k,
{
    if k > 0 {
        lemma_consecutive_failures_trip(m, (k - 1) as nat, now);
    }
}

/// A success in the closed state clears the count of consecutive failures,
/// so failures separated by a success do not add up.
pub proof fn lemma_success_clears_failures(m: BreakerModel)
    requires
        m.state == State::Closed,
    ensures
        breaker_success(m).state == State::Closed,
        breaker_success(m).failure_count == 0,
{
}

/// An open breaker rejects every request until `timeout_ms` has elapsed
/// since the last failure, and lets the first request after that through,
/// moving to HalfOpen.
pub proof fn lemma_open_waits_for_timeout(m: BreakerModel, now: u64)
    requires
        breaker_wf(m),
        m.state == State::Open,
    ensures
        spec_elapsed_between(now, m.last_failure_time->0) < m.config.timeout_ms ==> !breaker_allow(
            m,
            now,
        ).1 && breaker_allow(m, now).0.state == State::Open,
        spec_elapsed_between(now, m.last_failure_time->0) >= m.config.timeout_ms ==> breaker_allow(
            m,
            now,
        ).1 && breaker_allow(m, now).0.state == State::HalfOpen && breaker_allow(m, now).0.success_count
            == 0,
{
}

/// A request is rejected only by an open breaker whose timeout has not yet
/// elapsed; closed and half-open breakers let every request through.
pub proof fn lemma_rejects_only_when_open(m: BreakerModel, now: u64)
    requires
        breaker_wf(m),
    ensures
        !breaker_allow(m, now).1 <==> (m.state == State::Open && spec_elapsed_between(
            now,
            m.last_failure_time->0,
        ) < m.config.timeout_ms),
{
}

/// A half-open breaker that has seen no success yet closes after exactly
/// `success_threshold` consecutive successes, clearing both counters, and
/// stays half-open before that.
pub proof fn lemma_consecutive_successes_close(m: BreakerModel, k: nat)
    requires
        m.state == State::HalfOpen,
        m.success_count == 0,
        1 <= m.config.success_threshold,
        k <= m.config.success_threshold,
    ensures
        k < m.config.success_threshold ==> breaker_successes(m, k).state == State::HalfOpen
            && breaker_successes(m, k).success_count == k,
        k == m.config.success_threshold ==> breaker_successes(m, k).state == State::Closed
            && breaker_successes(m, k).success_count == 0 && breaker_successes(m, k).failure_count
            == 0,
        breaker_successes(m, k).config == m.config,
    decreases k,
{
    if k > 0 {
        lemma_consecutive_successes_close(m, (k - 1) as nat);
    }
}

/// Any failure while half-open reopens the breaker at once and clears both
/// counters.
pub proof fn lemma_half_open_failure_reopens(m: BreakerModel, now: u64)
    requires
        m.state == State::HalfOpen,
    ensures
        breaker_failure(m, now).state == State::Open,
        breaker_failure(m, now).last_failure_time == Some(now),
        breaker_failure(m, now).failure_count == 0,
        breaker_failure(m, now).success_count == 0,
{
}

/// A closed or half-open breaker lets every request through, and asking
/// changes nothing but the request total: the state, the failure and success
/// counts and the failure time stay as they were.  So a success recorded
/// after a request check counts exactly as one recorded without it.
pub proof fn lemma_allow_keeps_counters(m: BreakerModel, now: u64)
    requires
        m.state == State::Closed || m.state == State::HalfOpen,
    ensures
        breaker_allow(m, now).1,
        breaker_allow(m, now).0.state == m.state,
        breaker_allow(m, now).0.failure_count == m.failure_count,
        breaker_allow(m, now).0.success_count == m.success_count,
        breaker_allow(m, now).0.last_failure_time == m.last_failure_time,
        breaker_allow(m, now).0.total_failures == m.total_failures,
        breaker_allow(m, now).0.config == m.config,
        breaker_allow(m, now).0.total_requests == spec_count_up(m.total_requests),
        breaker_success(breaker_allow(m, now).0).state == breaker_success(m).state,
        breaker_success(breaker_allow(m, now).0).success_count == breaker_success(m).success_count,
        breaker_success(breaker_allow(m, now).0).failure_count == breaker_success(m).failure_count,
{
}

/// Every operation keeps a breaker well formed.
pub proof fn lemma_operations_keep_wf(m: BreakerModel, now: u64)
    requires
        breaker_wf(m),
    ensures
        breaker_wf(breaker_allow(m, now).0),
        breaker_wf(breaker_success(m)),
        breaker_wf(breaker_failure(m, now)),
        breaker_wf(breaker_reset(m)),
{
}

/// Each request check adds one to the request total and each failure one to
/// the failure total (both wrap like the atomic counters they stand for);
/// successes and resets leave both totals alone.
pub proof fn lemma_totals_count_events(m: BreakerModel, now: u64)
    ensures
        breaker_allow(m, now).0.total_requests == spec_count_up(m.total_requests),
        breaker_allow(m, now).0.total_failures == m.total_failures,
        breaker_failure(m, now).total_failures == spec_count_up(m.total_failures),
        breaker_failure(m, now).total_requests == m.total_requests,
        breaker_success(m).total_requests == m.total_requests,
        breaker_success(m).total_failures == m.total_failures,
        breaker_reset(m).total_requests == m.total_requests,
        breaker_reset(m).total_failures == m.total_failures,
{
}

/// Circuit breaker for preventing cascading failures.
#[derive(Debug)]
pub struct CircuitBreaker {
    state: State,
    failure_count: u64,
    success_count: u64,
    last_failure_time: Option<u64>,
    config: CircuitBreakerConfig,
    total_requests: usize,
    total_failures: usize,
    started: Instant,
}

impl View for CircuitBreaker {
    type V = BreakerModel;

    closed spec fn view(&self) -> BreakerModel {
        BreakerModel {
            state: self.state,
            failure_count: self.failure_count,
            success_count: self.success_count,
            last_failure_time: self.last_failure_time,
            config: self.config,
            total_requests: self.total_requests,
            total_failures: self.total_failures,
        }
    }
}

impl CircuitBreaker {
    #[verifier::type_invariant]
    closed spec fn inv(self) -> bool {
        breaker_wf(self@)
    }

    /// Creates a new, closed circuit breaker with the given configuration.
    pub fn new(config: CircuitBreakerConfig) -> (cb: Self)
        ensures
            cb@ == breaker_initial(config),
            breaker_wf(cb@),
    {
        CircuitBreaker {
            state: State::Closed,
            failure_count: 0,
            success_count: 0,
            last_failure_time: None,
            config,
            total_requests: 0,
            total_failures: 0,
            started: instant_now(),
        }
    }

    /// Milliseconds since this breaker was created, read from the clock.
    pub fn now_ms(&self) -> u64 {
        elapsed_ms(&self.started)
    }

    /// Checks, at time `now` (milliseconds since creation), whether a
    /// request may pass.  An open breaker whose timeout has elapsed since the
    /// last failure moves to HalfOpen and lets the request through.
    pub fn allow_request_at(&mut self, now: u64) -> (allowed: bool)
        ensures
            (final(self)@, allowed) == breaker_allow(old(self)@, now),
            breaker_wf(old(self)@),
            breaker_wf(final(self)@),
    {
        proof {
            use_type_invariant(&*self);
        }
        let total_requests = count_up(self.total_requests);
        let (state, success_count, allowed) = match self.state {
            State::Closed => (State::Closed, self.success_count, true),
            State::HalfOpen => (State::HalfOpen, self.success_count, true),
            State::Open => match self.last_failure_time {
                Some(t) => if elapsed_between(now, t) >= self.config.timeout_ms {
                    (State::HalfOpen, 0, true)
                } else {
                    (State::Open, self.success_count, false)
                },
                None => (State::Open, self.success_count, false),
            },
        };
        *self = CircuitBreaker {
            state,
            success_count,
            total_requests,
            failure_count: self.failure_count,
            last_failure_time: self.last_failure_time,
            config: self.config,
            total_failures: self.total_failures,
            started: self.started,
        };
        allowed
    }

    /// Checks whether a request may pass now, reading the clock.
    pub fn allow_request(&mut self) -> (allowed: bool)
        ensures
            exists|now: u64| (final(self)@, allowed) == #[trigger] breaker_allow(old(self)@, now),
            breaker_wf(old(self)@),
            breaker_wf(final(self)@),
    {
        let now = self.now_ms();
        self.allow_request_at(now)
    }

    /// Records a successful request.
    pub fn record_success(&mut self)
        ensures
            final(self)@ == breaker_success(old(self)@),
            breaker_wf(old(self)@),
            breaker_wf(final(self)@),
    {
        proof {
            use_type_invariant(&*self);
        }
        let (state, failure_count, success_count) = match self.state {
            State::HalfOpen => {
                let successes = self.success_count + 1;
                if successes >= self.config.success_threshold {
                    (State::Closed, 0, 0)
                } else {
                    (State::HalfOpen, self.failure_count, successes)
                }
            },
            State::Closed => (State::Closed, 0, self.success_count),
            State::Open => (State::Open, self.failure_count, self.success_count),
        };
        *self = CircuitBreaker {
            state,
            failure_count,
            success_count,
            last_failure_time: self.last_failure_time,
            config: self.config,
            total_requests: self.total_requests,
            total_failures: self.total_failures,
            started: self.started,
        };
    }

    /// Records a failed request at time `now` (milliseconds since creation).
    pub fn record_failure_at(&mut self, now: u64)
        ensures
            final(self)@ == breaker_failure(old(self)@, now),
            breaker_wf(old(self)@),
            breaker_wf(final(self)@),
    {
        proof {
            use_type_invariant(&*self);
        }
        let total_failures = count_up(self.total_failures);
        let (state, failure_count, success_count, last_failure_time) = match self.state {
            State::Closed => {
                let failures = self.failure_count + 1;
                if failures >= self.config.failure_threshold {
                    (State::Open, failures, self.success_count, Some(now))
                } else {
                    (State::Closed, failures, self.success_count, self.last_failure_time)
                }
            },
            State::HalfOpen => (State::Open, 0, 0, Some(now)),
            State::Open => (State::Open, self.failure_count, self.success_count, Some(now)),
        };
        *self = CircuitBreaker {
            state,
            failure_count,
            success_count,
            last_failure_time,
            total_failures,
            config: self.config,
            total_requests: self.total_requests,
            started: self.started,
        };
    }

    /// Records a failed request now, reading the clock.
    pub fn record_failure(&mut self)
        ensures
            exists|now: u64| final(self)@ == #[trigger] breaker_failure(old(self)@, now),
            breaker_wf(old(self)@),
            breaker_wf(final(self)@),
    {
        let now = self.now_ms();
        self.record_failure_at(now)
    }

    /// Returns the current state.
    pub fn state(&self) -> (s: State)
        ensures
            s == self@.state,
    {
        self.state
    }

    /// Returns the configuration.
    pub fn config(&self) -> (c: CircuitBreakerConfig)
        ensures
            c == self@.config,
    {
        self.config
    }

    /// Returns statistics about the circuit breaker.
    pub fn stats(&self) -> (s: CircuitBreakerStats)
        ensures
            s.total_requests == self@.total_requests,
            s.total_failures == self@.total_failures,
            s.current_failure_count == self@.failure_count,
            s.current_success_count == self@.success_count,
    {
        CircuitBreakerStats {
            total_requests: self.total_requests,
            total_failures: self.total_failures,
            current_failure_count: self.failure_count,
            current_success_count: self.success_count,
        }
    }

    /// Resets the breaker to the closed state.
    pub fn reset(&mut self)
        ensures
            final(self)@ == breaker_reset(old(self)@),
            breaker_wf(old(self)@),
            breaker_wf(final(self)@),
    {
        proof {
            use_type_invariant(&*self);
        }
        *self = CircuitBreaker {
            state: State::Closed,
            failure_count: 0,
            success_count: 0,
            last_failure_time: None,
            config: self.config,
            total_requests: self.total_requests,
            total_failures: self.total_failures,
            started: self.started,
        };
    }
}

} // verus!
