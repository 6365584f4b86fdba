//! The HTTP webhook source: an authenticated, rate-limited intake whose
//! accepted bodies become bus records.

pub mod auth;
pub mod config;
pub mod connector;
pub mod rate_limit;
pub mod server;
