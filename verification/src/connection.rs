//! Connection limiting, to keep the number of concurrent connections under a
//! configured maximum.
//!
//! The limit is enforced by an asynchronous semaphore with one permit per
//! place.  Each admitted connection holds a [`ConnectionGuard`] that owns a
//! permit; dropping the guard gives the permit back and frees the place.

use crate::clock::{count_up, spec_count_up};
use std::sync::Arc;
use tokio::sync::{OwnedSemaphorePermit, Semaphore};
use vstd::prelude::*;

verus! {

/// The most places a limiter can hand out: the most permits a semaphore
/// can hold.
pub const MAX_PERMITS: usize = usize::MAX >> 3usize;

/// Configuration for connection limits.
#[derive(Debug, Clone, Copy)]
pub struct ConnectionConfig {
    /// Maximum number of concurrent connections.
    pub max_connections: usize,
    /// Maximum number of connections per client IP.
    pub max_connections_per_ip: usize,
}

impl Default for ConnectionConfig {
    fn default() -> (c: Self)
        ensures
            c.max_connections == 10_000,
            c.max_connections_per_ip == 100,
    {
        ConnectionConfig { max_connections: 10_000, max_connections_per_ip: 100 }
    }
}

impl ConnectionConfig {
    /// A configuration with the given maximum and the default per-client
    /// maximum.
    pub fn new(max_connections: usize) -> (c: Self)
        ensures
            c.max_connections == max_connections,
            c.max_connections_per_ip == 100,
    {
        ConnectionConfig { max_connections, ..Default::default() }
    }

    /// Sets the maximum connections per IP.
    pub fn with_max_per_ip(self, max: usize) -> (c: Self)
        ensures
            c.max_connections == self.max_connections,
            c.max_connections_per_ip == max,
    {
        ConnectionConfig { max_connections_per_ip: max, ..self }
    }
}

/// Statistics about connection usage.
#[derive(Debug, Clone, Copy)]
pub struct ConnectionStats {
    /// Current number of active connections.
    pub active: usize,
    /// Total number of accepted connections.
    pub total_accepted: usize,
    /// Total number of rejected connections due to limits.
    pub total_rejected: usize,
    /// Maximum allowed connections.
    pub max_connections: usize,
}

#[verifier::external_type_specification]
#[verifier::external_body]
pub struct ExSemaphore(Semaphore);

#[verifier::external_type_specification]
#[verifier::external_body]
pub struct ExOwnedSemaphorePermit(OwnedSemaphorePermit);

/// Calls `tokio::sync::Semaphore::new`, which makes a semaphore holding
/// `permits` permits; it panics above `MAX_PERMITS`, which `requires` rules
/// out.  The permits held are not named: they change whenever a permit is
/// dropped anywhere, which no contract here can follow.
#[verifier::external_body]
fn semaphore_new(permits: usize) -> Semaphore
    requires
        permits <= MAX_PERMITS,
{
    Semaphore::new(permits)
}

/// Calls `Semaphore::try_acquire_owned`, which takes a permit if one is
/// free.  Whether one is free depends on the permits held elsewhere, so
/// nothing is claimed of the outcome.
#[verifier::external_body]
fn semaphore_try_acquire(s: Arc<Semaphore>) -> Option<OwnedSemaphorePermit> {
    s.try_acquire_owned().ok()
}

/// Calls `Semaphore::available_permits`.  The number depends on the permits
/// held elsewhere, so nothing is claimed of it.
#[verifier::external_body]
fn semaphore_available(s: &Arc<Semaphore>) -> usize {
    s.available_permits()
}

/// The place of one admitted connection; dropping it frees the place.  Only
/// [`ConnectionLimiter::try_acquire`] makes one.
#[derive(Debug)]
pub struct ConnectionGuard {
    _permit: OwnedSemaphorePermit,
}

/// The counts a limiter keeps: admitted and refused connections, and the
/// maximum.
pub struct LimiterCounts {
    pub accepted: usize,
    pub rejected: usize,
    pub max: usize,
}

/// Connection limiter to prevent resource exhaustion.
#[derive(Debug)]
pub struct ConnectionLimiter {
    semaphore: Arc<Semaphore>,
    total_accepted: usize,
    total_rejected: usize,
    config: ConnectionConfig,
}

impl View for ConnectionLimiter {
    type V = LimiterCounts;

    closed spec fn view(&self) -> LimiterCounts {
        LimiterCounts {
            accepted: self.total_accepted,
            rejected: self.total_rejected,
            max: self.config.max_connections,
        }
    }
}

/// The counts after an attempt that was admitted (`true`) or refused.
pub open spec fn counted(c: LimiterCounts, admitted: bool) -> LimiterCounts {
    if admitted {
        LimiterCounts { accepted: spec_count_up(c.accepted), ..c }
    } else {
        LimiterCounts { rejected: spec_count_up(c.rejected), ..c }
    }
}

impl ConnectionLimiter {
    #[verifier::type_invariant]
    spec fn inv(self) -> bool {
        self.config.max_connections <= MAX_PERMITS
    }

    /// The limiter's configuration.
    pub closed spec fn spec_config(&self) -> ConnectionConfig {
        self.config
    }

    /// Creates a new connection limiter with the given configuration.
    pub fn new(config: ConnectionConfig) -> (r: Self)
        requires
            config.max_connections <= MAX_PERMITS,
        ensures
            r@ == (LimiterCounts { accepted: 0, rejected: 0, max: config.max_connections }),
            r.spec_config() == config,
    {
        ConnectionLimiter {
            semaphore: Arc::new(semaphore_new(config.max_connections)),
            total_accepted: 0,
            total_rejected: 0,
            config,
        }
    }

    /// Creates a connection limiter with default configuration.
    pub fn with_defaults() -> (r: Self)
        ensures
            r@ == (LimiterCounts { accepted: 0, rejected: 0, max: 10_000 }),
    {
        proof {
            let m: usize = usize::MAX;
            assert(m >= 0xffff_ffffusize);
            assert(m >> 3usize >= 10_000usize) by (bit_vector)
                requires
                    m >= 0xffff_ffffusize,
            ;
        }
        Self::new(ConnectionConfig::default())
    }

    /// Admits a connection when a place is free, and counts the attempt
    /// either way.  Whether a place is free depends on the guards still
    /// alive, which this contract does not follow.
    pub fn try_acquire(&mut self) -> (g: Option<ConnectionGuard>)
        ensures
            final(self)@ == counted(old(self)@, g is Some),
            final(self).spec_config() == old(self).spec_config(),
    {
        proof {
            use_type_invariant(&*self);
        }
        match semaphore_try_acquire(self.semaphore.clone()) {
            Some(permit) => {
                self.total_accepted = count_up(self.total_accepted);
                Some(ConnectionGuard { _permit: permit })
            },
            None => {
                self.total_rejected = count_up(self.total_rejected);
                None
            },
        }
    }

    /// Returns the number of active connections: the places taken.
    pub fn active_connections(&self) -> (n: usize)
        ensures
            n <= self@.max,
    {
        let free = semaphore_available(&self.semaphore);
        let max = self.config.max_connections;
        if free <= max {
            max - free
        } else {
            0
        }
    }

    /// Returns the total number of accepted connections.
    pub fn total_accepted(&self) -> (n: usize)
        ensures
            n == self@.accepted,
    {
        self.total_accepted
    }

    /// Returns the total number of rejected connections.
    pub fn total_rejected(&self) -> (n: usize)
        ensures
            n == self@.rejected,
    {
        self.total_rejected
    }

    /// Returns the maximum allowed connections.
    pub fn max_connections(&self) -> (n: usize)
        ensures
            n == self@.max,
    {
        self.config.max_connections
    }

    /// Returns connection statistics.
    pub fn stats(&self) -> (s: ConnectionStats)
        ensures
            s.total_accepted == self@.accepted,
            s.total_rejected == self@.rejected,
            s.max_connections == self@.max,
            s.active <= s.max_connections,
    {
        ConnectionStats {
            active: self.active_connections(),
            total_accepted: self.total_accepted,
            total_rejected: self.total_rejected,
            max_connections: self.config.max_connections,
        }
    }
}

} // verus!
