//! Verified core of a push-notification delivery worker.
//!
//! The worker consumes notification requests from a durable message broker,
//! renders them against a template, delivers them to a push gateway, and
//! records every outcome. This crate holds the decision logic of that
//! pipeline -- idempotency protocol, circuit breaker, retry schedule,
//! template rendering, token validation, the per-message processing state
//! machine and the broker ack/reject discipline -- with contracts proved by
//! Verus. The surrounding process (broker, cache, HTTP and database I/O)
//! drives these decisions from outside the crate.

pub mod status;
pub mod text;
pub mod json;
pub mod validation;
pub mod template;
pub mod circuit;
pub mod config;
pub mod retry;
pub mod idempotency;
pub mod message;
pub mod audit;
pub mod processor;
pub mod dispatcher;
pub mod fcm;
pub mod health;
pub mod response;
pub mod codec;
pub mod decode;
