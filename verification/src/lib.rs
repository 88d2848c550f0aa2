pub mod auth;
pub mod bounded;
pub mod datasets;
pub mod json;
pub mod ordered;
pub mod poll;
pub mod queries;
pub mod retry;
pub mod transport;

use vstd::prelude::*;

verus! {

/// A handle on the remote service: the key that authenticates every
/// request. Cheap to duplicate and safe to hand to each concurrent fetch.
#[derive(Debug)]
pub struct HoneyComb {
    pub api_key: String,
}

impl HoneyComb {
    pub fn new(api_key: String) -> (r: Self)
        ensures
            r.api_key == api_key,
    {
        HoneyComb { api_key }
    }

    pub fn duplicate(&self) -> (r: Self)
        ensures
            r == *self,
    {
        HoneyComb { api_key: self.api_key.clone() }
    }
}

/// HTTP status code with which the remote service signals "rate limited".
pub const RATE_LIMIT_STATUS: u16 = 429;

/// How many attempts a retrying request may make before giving up on
/// rate-limited replies.
pub const RETRY_BUDGET: u32 = 12;

/// Seconds to back off after a rate-limited reply.
pub const RATE_LIMIT_BACKOFF_SECS: u64 = 5;

/// How many status fetches a poll loop may make before giving up.
pub const POLL_BUDGET: u32 = 50;

/// Milliseconds between consecutive status fetches of a poll loop.
pub const POLL_INTERVAL_MILLIS: u64 = 100;

/// How many fetches the bounded aggregator keeps in flight at most.
pub const CONCURRENCY_LIMIT: usize = 3;

/// True exactly when `status` is the rate-limit signal that the retrying
/// executor reacts to by backing off and retrying.
pub fn is_rate_limited(status: u16) -> (r: bool)
    ensures
        r == (status == RATE_LIMIT_STATUS),
{
    status == RATE_LIMIT_STATUS
}

} // verus!
