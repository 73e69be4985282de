//! Delays between attempts to start observing a region.
use vstd::arithmetic::power2::{lemma_pow2_strictly_increases, lemma_pow2_unfold, pow2};
use vstd::prelude::*;

verus! {

/// How many times starting an observation (or its initial scan) is tried
/// before the failure becomes fatal for the owning task.
pub const TRY_START_OBSERVE_MAX_RETRY_TIME: u8 = 24;

/// The delay before the first retry, in seconds.
pub const RETRY_AWAIT_BASIC_DURATION: u64 = 1;

/// The largest delay between two retries, in seconds.
pub const RETRY_AWAIT_MAX_DURATION: u64 = 16;

/// The delay after `failed_for` failures: `min(base * 2^failed_for, cap)`.
pub open spec fn backoff_secs(failed_for: nat) -> nat {
    let grown = RETRY_AWAIT_BASIC_DURATION * pow2(failed_for);
    if grown < RETRY_AWAIT_MAX_DURATION {
        grown as nat
    } else {
        RETRY_AWAIT_MAX_DURATION as nat
    }
}

/// The delay, in seconds, to wait before retrying after `failed_for`
/// failures: doubles from one second on and stops growing at sixteen.
pub fn backoff_for_start_observe(failed_for: u8) -> (r: u64)
    ensures
        r == backoff_secs(failed_for as nat),
{
    proof {
        vstd::arithmetic::power2::lemma2_to64();
    }
    if failed_for >= 4 {
        proof {
            if failed_for > 4 {
                lemma_pow2_strictly_increases(4, failed_for as nat);
            }
        }
        RETRY_AWAIT_MAX_DURATION
    } else {
        let mut delay: u64 = RETRY_AWAIT_BASIC_DURATION;
        let mut doubled: u8 = 0;
        while doubled < failed_for
            invariant
                failed_for < 4,
                doubled <= failed_for,
                delay == pow2(doubled as nat),
            decreases failed_for - doubled,
        {
            proof {
                lemma_pow2_unfold((doubled + 1) as nat);
                vstd::arithmetic::power2::lemma2_to64();
            }
            delay = delay * 2;
            doubled = doubled + 1;
        }
        delay
    }
}

} // verus!
