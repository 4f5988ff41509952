//! The share of Rust that a repository has to reach.
//!
//! The share is a quotient of two sizes in double precision. What is compared here is exactly that
//! quotient, in whole numbers: a size is first rounded to the nearest double, then the quotient of
//! the two is rounded to the nearest double. Near the limit, which lies between one half and one,
//! doubles are the multiples of 2^-53.

use vstd::arithmetic::power2::pow2;
use vstd::prelude::*;

verus! {

/// 2^53: below it, every whole number is a double.
pub const DOUBLE_LIMIT: u64 = 0x20_0000_0000_0000;

/// The double nearest to 0.51, in units of 2^-53.
pub const SHARE_LIMIT: u64 = 4593671619917906;

/// The whole number nearest to `a / b`, the even one of two that are as near.
pub open spec fn rounded_quotient(a: nat, b: nat) -> nat {
    let floor = a / b;
    let rest = a % b;
    if 2 * rest < b || (2 * rest == b && floor % 2 == 0) {
        floor
    } else {
        floor + 1
    }
}

/// How far apart the doubles are around a whole number `n`, as far as they are whole numbers.
pub open spec fn spacing(n: nat) -> nat
    decreases n,
{
    if n < DOUBLE_LIMIT {
        1
    } else {
        2 * spacing(n / 2)
    }
}

/// The double nearest to the whole number `n`, the even one of two that are as near.
pub open spec fn nearest_double(n: nat) -> nat {
    rounded_quotient(n, spacing(n)) * spacing(n)
}

/// The quotient of the sizes, in double precision, is less than 0.51. Nothing divided by nothing
/// is not less than anything.
pub open spec fn is_below_limit(rust: nat, total: nat) -> bool {
    &&& total > 0
    &&& rounded_quotient(nearest_double(rust) * DOUBLE_LIMIT as nat, nearest_double(total))
        < SHARE_LIMIT
}

/// The spacing is at least one, and `n` is less than `DOUBLE_LIMIT` spacings, but not less than
/// half as many if it has to be rounded at all.
proof fn lemma_spacing(n: nat)
    ensures
        spacing(n) >= 1,
        n < spacing(n) * DOUBLE_LIMIT,
        n >= DOUBLE_LIMIT ==> n >= spacing(n) * (DOUBLE_LIMIT / 2),
    decreases n,
{
    if n >= DOUBLE_LIMIT {
        lemma_spacing(n / 2);
        let s = spacing(n / 2);
        if n / 2 < DOUBLE_LIMIT {
            assert(s == 1);
        }
        assert(2 * s * DOUBLE_LIMIT == 2 * (s * DOUBLE_LIMIT)) by (nonlinear_arith);
        assert(2 * s * (DOUBLE_LIMIT / 2) == 2 * (s * (DOUBLE_LIMIT / 2))) by (nonlinear_arith);
    }
}

/// Divides, and rounds to the nearest whole number.
fn round_quotient(a: u128, b: u128) -> (r: u128)
    requires
        b > 0,
        a < u128::MAX,
    ensures
        r == rounded_quotient(a as nat, b as nat),
{
    let floor = a / b;
    let rest = a % b;
    assert(floor <= a) by (nonlinear_arith)
        requires
            floor == a / b,
            b > 0,
    ;
    if rest < b - rest || (rest == b - rest && floor % 2 == 0) {
        floor
    } else {
        floor + 1
    }
}

/// Rounds a size to the nearest double.
fn round_to_double(n: u64) -> (r: u128)
    ensures
        r == nearest_double(n as nat),
        n > 0 ==> r > 0,
        r <= 0x2_0000_0000_0000_0000,
{
    let mut step: u128 = 1;
    let mut left: u64 = n;
    while left >= DOUBLE_LIMIT
        invariant
            step > 0,
            left == n as nat / step as nat,
            spacing(n as nat) == step * spacing(left as nat),
            left >= DOUBLE_LIMIT / 2 || step == 1,
            step * left <= n,
        decreases left,
    {
        let ghost before = left as nat;
        assert(before / 2 == n as nat / (2 * step as nat)) by {
            vstd::arithmetic::div_mod::lemma_div_denominator(n as int, step as int, 2);
            assert(step * 2 == 2 * step);
        }
        assert(step * (2 * spacing(before / 2)) == (2 * step) * spacing(before / 2))
            by (nonlinear_arith);
        assert(2 * step * (before / 2) <= step * before) by (nonlinear_arith)
            requires
                step > 0,
        ;
        assert(step * before >= step) by (nonlinear_arith)
            requires
                before >= 1,
                step > 0,
        ;
        left = left / 2;
        step = step * 2;
    }
    assert(spacing(n as nat) == step) by {
        assert(spacing(left as nat) == 1);
        assert(step * 1 == step);
    }
    let units = round_quotient(n as u128, step);
    proof {
        lemma_spacing(n as nat);
        let floor = n as nat / step as nat;
        assert(floor <= units <= floor + 1);
        assert(floor == left);
        assert(step <= 4096) by (nonlinear_arith)
            requires
                step * left <= n,
                n <= u64::MAX,
                left >= DOUBLE_LIMIT / 2 || step == 1,
        ;
        assert(units * step <= 0x2_0000_0000_0000_0000) by (nonlinear_arith)
            requires
                units <= DOUBLE_LIMIT,
                step <= 4096,
        ;
        if n > 0 {
            assert(units > 0);
            assert(units * step > 0) by (nonlinear_arith)
                requires
                    units > 0,
                    step > 0,
            ;
        }
    }
    units * step
}

/// Whether `rust` is less than 51 percent of `total`, in double precision.
pub fn below_limit(rust: u64, total: u64) -> (r: bool)
    ensures
        r == is_below_limit(rust as nat, total as nat),
{
    if total == 0 {
        return false;
    }
    let part = round_to_double(rust);
    let whole = round_to_double(total);
    assert(part * DOUBLE_LIMIT <= 0x2_0000_0000_0000_0000 * DOUBLE_LIMIT) by (nonlinear_arith)
        requires
            part <= 0x2_0000_0000_0000_0000,
    ;
    round_quotient(part * DOUBLE_LIMIT as u128, whole) < SHARE_LIMIT as u128
}

/// The limit without rounding of the quotient: half a unit below `SHARE_LIMIT`, which is even.
proof fn lemma_halfway(part: nat, whole: nat)
    requires
        whole > 0,
    ensures
        rounded_quotient(part * DOUBLE_LIMIT as nat, whole) < SHARE_LIMIT
            <==> 0x40_0000_0000_0000 * part < 9187343239835811 * whole,
{
    let a = part * DOUBLE_LIMIT as nat;
    let floor = a / whole;
    let rest = a % whole;
    vstd::arithmetic::div_mod::lemma_fundamental_div_mod(a as int, whole as int);
    assert(a == whole * floor + rest);
    assert(0 <= rest < whole);
    assert(a == 0x20_0000_0000_0000 * part);
    if floor <= SHARE_LIMIT - 2 {
        assert(whole * floor <= 4593671619917904 * whole) by (nonlinear_arith)
            requires
                floor <= 4593671619917904,
        ;
    } else if floor >= SHARE_LIMIT {
        assert(whole * floor >= 4593671619917906 * whole) by (nonlinear_arith)
            requires
                floor >= 4593671619917906,
        ;
    } else {
        assert(floor == SHARE_LIMIT - 1);
        assert(whole * floor == 4593671619917905 * whole) by (nonlinear_arith)
            requires
                floor == 4593671619917905,
        ;
    }
}

/// Of two whole numbers, either both have the same spacing, or the larger one has at least twice
/// that of the smaller one.
proof fn lemma_spacings_double(a: nat, b: nat)
    requires
        a <= b,
    ensures
        spacing(a) == spacing(b) || 2 * spacing(a) <= spacing(b),
    decreases b,
{
    lemma_spacing(b / 2);
    if a >= DOUBLE_LIMIT {
        lemma_spacings_double(a / 2, b / 2);
    }
}

/// Rounding keeps whole numbers in order.
proof fn lemma_nearest_in_order(a: nat, b: nat)
    requires
        a <= b,
    ensures
        nearest_double(a) <= nearest_double(b),
{
    let s = spacing(a);
    let t = spacing(b);
    lemma_spacing(a);
    lemma_spacing(b);
    lemma_spacings_double(a, b);
    vstd::arithmetic::div_mod::lemma_fundamental_div_mod(a as int, s as int);
    vstd::arithmetic::div_mod::lemma_fundamental_div_mod(b as int, t as int);
    let p = rounded_quotient(a, s);
    let q = rounded_quotient(b, t);
    if s == t {
        vstd::arithmetic::div_mod::lemma_div_is_ordered(a as int, b as int, s as int);
        assert(p <= q);
        assert(p * s <= q * s) by (nonlinear_arith)
            requires
                p <= q,
        ;
    } else {
        let half: nat = (DOUBLE_LIMIT / 2) as nat;
        assert(b >= DOUBLE_LIMIT);
        assert(a / s <= DOUBLE_LIMIT - 1) by (nonlinear_arith)
            requires
                a < s * DOUBLE_LIMIT,
                s > 0,
        ;
        assert(b / t >= half) by (nonlinear_arith)
            requires
                b >= t * half,
                t > 0,
        ;
        assert(p * s <= q * t) by (nonlinear_arith)
            requires
                p <= 2 * half,
                q >= half,
                2 * s <= t,
        ;
    }
}

/// Small whole numbers are doubles.
proof fn lemma_small_is_exact(n: nat)
    requires
        n < DOUBLE_LIMIT,
    ensures
        nearest_double(n) == n,
{
    assert(spacing(n) == 1);
    assert(n / 1 == n && n % 1 == 0);
}

/// A repository that is below the limit stays so with less Rust or with more of anything else.
pub proof fn share_is_monotone(rust: nat, total: nat, less: nat, more: nat)
    requires
        is_below_limit(rust, total),
        less <= rust,
        total <= more,
    ensures
        is_below_limit(less, more),
{
    let part = nearest_double(less);
    let whole = nearest_double(more);
    lemma_nearest_in_order(less, rust);
    lemma_nearest_in_order(total, more);
    lemma_nearest_in_order(1, total);
    lemma_small_is_exact(1);
    lemma_halfway(nearest_double(rust), nearest_double(total));
    lemma_halfway(part, whole);
}

/// A repository of nothing but Rust is not below the limit, even an empty one.
pub proof fn all_rust_is_enough(total: nat)
    ensures
        !is_below_limit(total, total),
{
    if total > 0 {
        lemma_nearest_in_order(1, total);
        lemma_small_is_exact(1);
        lemma_halfway(nearest_double(total), nearest_double(total));
    }
}

/// As long as the repository is smaller than about 214 TB, rounding makes no difference: the share
/// is below the limit exactly if it is less than 51 percent.
pub proof fn small_sizes_are_compared_exactly(rust: nat, total: nat)
    requires
        84 * total < 0x40_0000_0000_0000,
    ensures
        is_below_limit(rust, total) <==> 100 * rust < 51 * total,
{
    if rust > total {
        all_rust_is_enough(total);
        if is_below_limit(rust, total) {
            share_is_monotone(rust, total, total, total);
        }
    } else if total > 0 {
        lemma_small_is_exact(rust);
        lemma_small_is_exact(total);
        lemma_halfway(rust, total);
    }
}

/// The quotient of two sizes is compared as double precision has it. Each size counts as the double
/// nearest to it: the nearest multiple of a power of two of which it holds fewer than 2^53, but not
/// fewer than 2^52 unless that power is one. The quotient of these doubles counts as the nearest
/// multiple of 2^-53. Of two that are as near, it is the even one each time. Nothing is below the
/// limit if there is nothing at all.
pub proof fn share_is_that_of_the_nearest_doubles(
    rust: nat,
    total: nat,
    part: nat,
    part_power: nat,
    whole: nat,
    whole_power: nat,
    share: nat,
)
    requires
        rust < 0x20_0000_0000_0000 * pow2(part_power),
        part_power == 0 || 0x10_0000_0000_0000 * pow2(part_power) <= rust,
        -pow2(part_power) <= 2 * (rust - part * pow2(part_power)) <= pow2(part_power),
        part % 2 == 0 || -pow2(part_power) < 2 * (rust - part * pow2(part_power)) < pow2(
            part_power,
        ),
        total < 0x20_0000_0000_0000 * pow2(whole_power),
        whole_power == 0 || 0x10_0000_0000_0000 * pow2(whole_power) <= total,
        -pow2(whole_power) <= 2 * (total - whole * pow2(whole_power)) <= pow2(whole_power),
        whole % 2 == 0 || -pow2(whole_power) < 2 * (total - whole * pow2(whole_power)) < pow2(
            whole_power,
        ),
        total > 0 ==> ({
            let a = part * pow2(part_power) * 0x20_0000_0000_0000;
            let b = whole * pow2(whole_power);
            &&& -b <= 2 * (a - share * b) <= b
            &&& share % 2 == 0 || -b < 2 * (a - share * b) < b
        }),
    ensures
        is_below_limit(rust, total) <==> total > 0 && share < 4593671619917906,
{
    vstd::arithmetic::power2::lemma_pow2_pos(part_power);
    vstd::arithmetic::power2::lemma_pow2_pos(whole_power);
    lemma_spacing_is_the_power(rust, part_power);
    lemma_spacing_is_the_power(total, whole_power);
    lemma_rounded_is_nearest(rust, pow2(part_power), part);
    lemma_rounded_is_nearest(total, pow2(whole_power), whole);
    if total > 0 {
        lemma_nearest_in_order(1, total);
        lemma_small_is_exact(1);
        lemma_rounded_is_nearest(
            part * pow2(part_power) * 0x20_0000_0000_0000,
            whole * pow2(whole_power),
            share,
        );
    }
}

/// The spacing is the power of two of which a whole number holds fewer than 2^53, but not fewer
/// than 2^52.
proof fn lemma_spacing_is_the_power(n: nat, power: nat)
    requires
        n < 0x20_0000_0000_0000 * pow2(power),
        power == 0 || 0x10_0000_0000_0000 * pow2(power) <= n,
    ensures
        spacing(n) == pow2(power),
    decreases power,
{
    if power == 0 {
        vstd::arithmetic::power2::lemma2_to64();
    } else {
        let less = (power - 1) as nat;
        vstd::arithmetic::power2::lemma_pow2_unfold(power);
        vstd::arithmetic::power2::lemma_pow2_pos(less);
        lemma_spacing_is_the_power(n / 2, less);
    }
}

/// There is only one nearest whole number, if the even one of two is taken.
proof fn lemma_rounded_is_nearest(a: nat, b: nat, r: nat)
    requires
        b > 0,
        -b <= 2 * (a - r * b) <= b,
        r % 2 == 0 || -b < 2 * (a - r * b) < b,
    ensures
        rounded_quotient(a, b) == r,
{
    let floor = a / b;
    let rest = a % b;
    vstd::arithmetic::div_mod::lemma_fundamental_div_mod(a as int, b as int);
    assert(a == b * floor + rest);
    if r < floor {
        assert(b * floor >= r * b + b) by (nonlinear_arith)
            requires
                floor >= r + 1,
        ;
    } else if r > floor + 1 {
        assert(r * b >= b * floor + 2 * b) by (nonlinear_arith)
            requires
                r >= floor + 2,
        ;
    } else if r == floor {
        assert(r * b == b * floor) by (nonlinear_arith)
            requires
                r == floor,
        ;
    } else {
        assert(r * b == b * floor + b) by (nonlinear_arith)
            requires
                r == floor + 1,
        ;
    }
}

} // verus!
