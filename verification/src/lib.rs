//! Verified core of a service-mesh data-plane proxy: routing rules, circuit
//! breaking, rate limiting, retry policy, load balancing and configuration
//! checks, each stated as a contract over a mathematical model.

pub mod text;
pub mod clock;
pub mod circuit_breaker;
pub mod headers;
pub mod router;
pub mod ratelimit;
pub mod retry;
pub mod transport;
pub mod config;
pub mod connection;
pub mod protocol;
pub mod admin;
pub mod metrics;
pub mod service;
