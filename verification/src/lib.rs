//! The verified core of a newsletter service.
//!
//! - [`idempotency`] makes mutating requests safe to retry: a store of claims
//!   under which a request is processed at most once and its response is
//!   replayed to every duplicate, with the laws of that protocol.
//! - [`domain`] holds the validated value objects of the subscription form.
//! - [`routes`] holds the decisions of the HTTP routes, free of the work that
//!   a handler does around them.

pub mod domain;
pub mod idempotency;
pub mod routes;
