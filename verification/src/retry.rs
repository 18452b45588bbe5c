//! Retry, backoff and rate-limit policy carried by an endpoint.

use vstd::prelude::*;

verus! {

/// Retry, backoff and rate-limit policy for one endpoint; the runtime that performs requests applies it.
#[derive(Clone, Debug, PartialEq, Eq)]
pub struct EndpointRetryPolicy {
    /// Total attempts, the first one included.
    pub max_attempts: u32,
    /// Delay before the first retry, in milliseconds.
    pub base_backoff_ms: u64,
    /// Upper bound on any retry delay, in milliseconds.
    pub max_backoff_ms: u64,
    /// Least delay before retrying a rate-limited (429) response, in milliseconds.
    pub rate_limit_backoff_ms: u64,
    /// Response statuses that are retried.
    pub retry_on_status: Vec<u16>,
}

impl Default for EndpointRetryPolicy {
    /// A single attempt and no retries.
    fn default() -> (p: Self)
        ensures
            p.max_attempts == 1,
            p.base_backoff_ms == 0,
            p.max_backoff_ms == 0,
            p.rate_limit_backoff_ms == 0,
            p.retry_on_status@ == Seq::<u16>::empty(),
    {
        EndpointRetryPolicy {
            max_attempts: 1,
            base_backoff_ms: 0,
            max_backoff_ms: 0,
            rate_limit_backoff_ms: 0,
            retry_on_status: Vec::new(),
        }
    }
}

} // verus!
