//! How often a failed chunk is sent again, and how long to wait before.

use vstd::prelude::*;

verus! {

/// `2^retry`.
pub open spec fn doubling(retry: nat) -> nat
    decreases retry,
{
    if retry == 0 {
        1
    } else {
        2 * doubling((retry - 1) as nat)
    }
}

/// Seconds to wait before an attempt: nothing before the first one, then
/// two, four, eight and so on, never more than `cap`.
pub open spec fn backoff(cap: nat, retry: nat) -> nat {
    if retry == 0 {
        0
    } else if doubling(retry) <= cap {
        doubling(retry)
    } else {
        cap
    }
}

/// Doubling never shrinks.
pub proof fn doubling_grows(a: nat, b: nat)
    requires
        a <= b,
    ensures
        1 <= doubling(a) <= doubling(b),
    decreases b,
{
    if b > a {
        doubling_grows(a, (b - 1) as nat);
    } else if a > 0 {
        doubling_grows((a - 1) as nat, (a - 1) as nat);
    }
}

/// The waits grow with the number of retries and stay under the cap.
pub proof fn backoff_is_monotone(cap: nat, a: nat, b: nat)
    requires
        a <= b,
    ensures
        backoff(cap, a) <= backoff(cap, b) <= cap,
{
    doubling_grows(a, b);
    doubling_grows(0, a);
}

/// The budget of retries of one chunk and the longest wait between two of its
/// attempts.
#[derive(Clone, Copy, Debug, PartialEq, Eq, Structural)]
pub struct RetryPolicy {
    /// How many times a chunk is sent again after its first attempt failed.
    pub max_retries: u32,
    /// Upper bound of the wait before a retry, in seconds.
    pub max_backoff_secs: u64,
}

impl RetryPolicy {
    /// Three retries, waiting at most 64 seconds.
    pub fn standard() -> (policy: RetryPolicy)
        ensures
            policy == (RetryPolicy { max_retries: 3, max_backoff_secs: 64 }),
    {
        RetryPolicy { max_retries: 3, max_backoff_secs: 64 }
    }

    /// Whether a chunk that has already been retried `retries` times may be
    /// sent once more.
    pub open spec fn allows(self, retries: nat) -> bool {
        retries < self.max_retries
    }

    /// Whether the budget allows one more retry after `retries` of them.
    pub fn may_retry(&self, retries: u32) -> (again: bool)
        ensures
            again == self.allows(retries as nat),
    {
        retries < self.max_retries
    }

    /// Seconds to wait before attempt number `retry`, counting the first
    /// attempt as zero.
    pub fn backoff_secs(&self, retry: u32) -> (secs: u64)
        ensures
            secs == backoff(self.max_backoff_secs as nat, retry as nat),
    {
        if retry == 0 {
            return 0;
        }
        let cap: u64 = self.max_backoff_secs;
        if cap < 2 {
            proof {
                doubling_grows(1, retry as nat);
                assert(doubling(1) == 2) by {
                    reveal_with_fuel(doubling, 2);
                }
            }
            return cap;
        }
        let mut wait: u64 = 1;
        let mut done: u32 = 0;
        while done < retry && wait < cap
            invariant
                done <= retry,
                cap >= 2,
                wait <= cap,
                wait == (if doubling(done as nat) <= cap {
                    doubling(done as nat)
                } else {
                    cap as nat
                }),
            decreases retry - done,
        {
            wait = if wait > cap / 2 {
                cap
            } else {
                wait * 2
            };
            done = done + 1;
        }
        proof {
            doubling_grows(done as nat, retry as nat);
        }
        wait
    }
}

} // verus!
