//! Request gates: session authentication and per-client rate limiting.
pub mod auth;
pub mod rate_limit;
