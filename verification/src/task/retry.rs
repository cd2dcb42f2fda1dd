//! The integer parts of retry backoff: constant and linear delays, and full
//! jitter. Delays are in nanoseconds unless stated otherwise.

use vstd::prelude::*;

verus! {

/// The longest delay a `std::time::Duration` holds, in nanoseconds.
pub const MAX_DURATION_NANOS: u128 = 18446744073709551615999999999;

/// Linearly increasing delay: `initial + retry_count * increment`, capped at `max`.
pub open spec fn linear_delay(initial: u128, increment: u128, max: u128, retry_count: u32) -> int {
    let d = initial + increment * retry_count;
    if d <= max {
        d
    } else {
        max as int
    }
}

/// The linear backoff delay for a retry attempt (0-indexed).
pub fn linear_delay_nanos(initial: u128, increment: u128, max: u128, retry_count: u32) -> (d: u128)
    requires
        initial + increment * retry_count <= MAX_DURATION_NANOS,
    ensures
        d == linear_delay(initial, increment, max, retry_count),
{
    proof {
        vstd::arithmetic::mul::lemma_mul_nonnegative(increment as int, retry_count as int);
    }
    let step = increment * retry_count as u128;
    let d = initial + step;
    if d <= max {
        d
    } else {
        max
    }
}

/// Calls `fastrand::u64(lo..=hi)`, which panics on an empty range (ruled out
/// by `requires`). Claimed: the result lies in the range; nothing is said of
/// which value comes out, and two calls may differ.
#[verifier::external_body]
fn random_between(lo: u64, hi: u64) -> (r: u64)
    requires
        lo <= hi,
    ensures
        lo <= r <= hi,
{
    fastrand::u64(lo..=hi)
}

/// Full jitter over a computed delay of `base_ms` milliseconds: zero for a
/// zero base, otherwise a random delay between zero and the base.
pub fn full_jitter_ms(base_ms: u64) -> (d: u64)
    ensures
        base_ms == 0 ==> d == 0,
        d <= base_ms,
{
    if base_ms == 0 {
        0
    } else {
        random_between(0, base_ms)
    }
}

} // verus!
