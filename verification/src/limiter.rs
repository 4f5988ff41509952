//! Keeping to a rate limit.

use governor::Quota;
use std::num::NonZeroU32;
use vstd::prelude::*;

verus! {

/// How many nanoseconds a minute has.
pub const MINUTE_NANOS: u64 = 60_000_000_000;

/// A rate limit: how many requests are allowed, and how many of them are left.
#[derive(Debug, Copy, Clone, PartialEq, Eq, Structural)]
pub struct Rate {
    pub limit: usize,
    pub remaining: usize,
}

/// How to set up a rate limiter.
#[derive(Debug, Copy, Clone, PartialEq, Eq, Structural)]
pub struct LimiterPlan {
    /// How many requests may be made in one go.
    pub burst: u32,
    /// After how many nanoseconds one more request is allowed.
    pub interval: u64,
    /// How many requests to spend at the start, if any.
    pub preload: Option<u32>,
}

/// The lower 32 bits of a number.
pub open spec fn low_bits(n: usize) -> u32 {
    (n as nat % 0x1_0000_0000) as u32
}

/// Calls `governor::Quota::per_minute`, and tells the quota by its `burst_size` and by its
/// `replenish_interval` in nanoseconds: the number of requests, and a minute divided by it, rounded
/// down.
#[verifier::external_body]
fn quota_per_minute(requests: u32) -> (r: (u32, u64))
    requires
        requests > 0,
    ensures
        r.0 == requests,
        r.1 == MINUTE_NANOS / requests as u64,
{
    let quota = Quota::per_minute(NonZeroU32::new(requests).unwrap());
    (quota.burst_size().get(), quota.replenish_interval().as_nanos() as u64)
}

/// The lower 32 bits of a number.
fn truncate(n: usize) -> (r: u32)
    ensures
        r == low_bits(n),
{
    let wide: u64 = n as u64;
    assert((wide & 0xffff_ffff) as u64 == wide % 0x1_0000_0000u64) by (bit_vector);
    assert((wide & 0xffff_ffff) <= 0xffff_ffff) by (bit_vector);
    (wide & 0xffff_ffff) as u32
}

/// Plans a rate limiter that allows `limit` requests in a minute and first spends as many as
/// remain. Of both numbers the lower 32 bits count. The limit must not be nothing, and no more can
/// be spent in one go than it allows.
pub fn make_rate_limiter(rate: Rate) -> (r: LimiterPlan)
    requires
        low_bits(rate.limit) != 0,
        low_bits(rate.remaining) <= low_bits(rate.limit),
    ensures
        r.burst == low_bits(rate.limit),
        r.interval == MINUTE_NANOS / r.burst as u64,
        r.preload == (if low_bits(rate.remaining) == 0 {
            None
        } else {
            Some(low_bits(rate.remaining))
        }),
        r.preload matches Some(n) ==> 0 < n <= r.burst,
        r.burst as nat == rate.limit as nat % 0x1_0000_0000,
        r.interval as nat == 60_000_000_000nat / r.burst as nat,
        match r.preload {
            Some(n) => n as nat == rate.remaining as nat % 0x1_0000_0000,
            None => rate.remaining as nat % 0x1_0000_0000 == 0,
        },
{
    let (burst, interval) = quota_per_minute(truncate(rate.limit));
    let remaining = truncate(rate.remaining);
    let preload = if remaining == 0 {
        None
    } else {
        Some(remaining)
    };
    LimiterPlan { burst, interval, preload }
}

/// A whole burst is restored within a minute, and would not be if the interval were a nanosecond
/// longer.
pub proof fn burst_is_restored_in_a_minute(burst: u32)
    requires
        burst > 0,
    ensures
        burst * (MINUTE_NANOS / burst as u64) <= MINUTE_NANOS,
        burst * (MINUTE_NANOS / burst as u64 + 1) > MINUTE_NANOS,
        MINUTE_NANOS / burst as u64 > 0,
{
    let b = burst as int;
    let q = MINUTE_NANOS as int / b;
    vstd::arithmetic::div_mod::lemma_fundamental_div_mod(MINUTE_NANOS as int, b);
    vstd::arithmetic::div_mod::lemma_mod_bound(MINUTE_NANOS as int, b);
    assert(b * (q + 1) == b * q + b) by (nonlinear_arith);
    assert(q > 0) by (nonlinear_arith)
        requires
            b * (q + 1) > 60_000_000_000,
            0 < b <= 0xffff_ffff,
    ;
}

/// The lower 32 bits are what is left of a number when all multiples of 2^32 are taken away. A
/// number that fits in 32 bits stays as it is.
pub proof fn low_bits_are_the_remainder(n: usize)
    ensures
        (n as nat - low_bits(n) as nat) % 0x1_0000_0000 == 0,
        n <= 0xffff_ffff ==> low_bits(n) as nat == n as nat,
{
}

} // verus!
