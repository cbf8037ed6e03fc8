//! The retry policy of the supervisor's fallible operations.
//!
//! Chain queries and HTTP fetches are idempotent and may be re-issued;
//! the policy below says whether a failed attempt is retried and after
//! what delay.  File writes and process spawns are never retried.

use vstd::prelude::*;

verus! {

/// How a fallible, idempotent operation is retried.
#[derive(Clone, Copy, Debug, PartialEq, Eq, Structural)]
pub enum RetryPolicy {
    /// Retry forever with a constant delay; used for the initial chain
    /// connection, which must eventually come up.
    ConstantUnbounded {
        /// Milliseconds between attempts.
        delay_ms: u64,
    },
    /// Retry with a constant delay a bounded number of times, then
    /// surface the last error.
    Bounded {
        /// Milliseconds between attempts.
        delay_ms: u64,
        /// How many retries are allowed in all.
        max_attempts: u32,
    },
}

/// Whether a further retry is allowed after `attempts_made` failures.
pub open spec fn allows_retry(policy: RetryPolicy, attempts_made: u32) -> bool {
    match policy {
        RetryPolicy::ConstantUnbounded { .. } => true,
        RetryPolicy::Bounded { max_attempts, .. } => attempts_made < max_attempts,
    }
}

/// The delay before the next retry after `attempts_made` failures, or
/// nothing when the policy is exhausted and the last error must be
/// surfaced.
pub fn next_retry_delay(policy: &RetryPolicy, attempts_made: u32) -> (r: Option<u64>)
    ensures
        match *policy {
            RetryPolicy::ConstantUnbounded { delay_ms } => r == Some(delay_ms),
            RetryPolicy::Bounded { delay_ms, max_attempts } => r == if attempts_made
                < max_attempts {
                Some(delay_ms)
            } else {
                None::<u64>
            },
        },
        r is Some <==> allows_retry(*policy, attempts_made),
{
    match policy {
        RetryPolicy::ConstantUnbounded { delay_ms } => Some(*delay_ms),
        RetryPolicy::Bounded { delay_ms, max_attempts } => {
            if attempts_made < *max_attempts {
                Some(*delay_ms)
            } else {
                None
            }
        },
    }
}

} // verus!
