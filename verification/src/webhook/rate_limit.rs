//! The rate limiter's refusal, as the engine reports it.  The token
//! buckets themselves are clock-driven and live with the HTTP server.

use vstd::prelude::*;

verus! {

/// A request refused by the rate limiter.
#[derive(Debug)]
pub enum RateLimitError {
    /// The limit was exceeded.
    Exceeded(String),
}

impl RateLimitError {
    /// The HTTP status this refusal answers with.
    pub fn status_code(&self) -> (r: u16)
        ensures
            r == 429u16,
    {
        429
    }
}

} // verus!
