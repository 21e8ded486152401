//! Integer helpers shared by the contracts: products of two `u64` values
//! taken in 128 bits and divided back down, as the contracts compute them.
use vstd::prelude::*;

verus! {

/// `a * b / d` computed in 128 bits, truncated to 64 bits.
pub fn mul_div(a: u64, b: u64, d: u64) -> (r: u64)
    requires
        d > 0,
    ensures
        r == ((a as int * b as int) / (d as int)) as u64,
{
    proof {
        lemma_mul_u64_fits(a, b);
    }
    let p: u128 = a as u128 * b as u128;
    (p / d as u128) as u64
}

/// `a * b / d` computed in 128 bits, for results known to fit in 64 bits.
pub fn mul_div_exact(a: u64, b: u64, d: u64) -> (r: u64)
    requires
        d > 0,
        (a as int * b as int) / (d as int) <= u64::MAX,
    ensures
        r == (a as int * b as int) / (d as int),
{
    proof {
        lemma_mul_u64_fits(a, b);
        lemma_div_nonneg(a as int * b as int, d as int);
    }
    let p: u128 = a as u128 * b as u128;
    (p / d as u128) as u64
}

/// The product of two `u64` values fits in 128 bits.
pub proof fn lemma_mul_u64_fits(a: u64, b: u64)
    ensures
        0 <= a as int * b as int <= u64::MAX as int * u64::MAX as int,
        a as int * b as int <= u128::MAX,
{
    assert(0 <= a as int * b as int <= u64::MAX as int * u64::MAX as int) by (nonlinear_arith);
}

/// Dividing a non-negative number by a positive one gives a non-negative result.
pub proof fn lemma_div_nonneg(n: int, d: int)
    requires
        n >= 0,
        d > 0,
    ensures
        n / d >= 0,
        n / d <= n,
{
    assert(n / d >= 0 && n / d <= n) by (nonlinear_arith)
        requires
            n >= 0,
            d > 0,
    ;
}

/// A fraction `b / d` of `a` with `b <= d` is at most `a`.
pub proof fn lemma_mul_div_le(a: int, b: int, d: int)
    requires
        a >= 0,
        0 <= b <= d,
        d > 0,
    ensures
        0 <= a * b / d <= a,
{
    assert(0 <= a * b / d <= a) by (nonlinear_arith)
        requires
            a >= 0,
            0 <= b <= d,
            d > 0,
    ;
}

/// The yield on `amount` at `rate_bps` basis points a year over `elapsed`
/// seconds, rounded down (a year being 31,536,000 seconds); zero where the
/// 128-bit product overflows, and truncated to 64 bits.
pub open spec fn yield_on(amount: u64, rate_bps: u64, elapsed: u64) -> u64 {
    let p = amount as int * rate_bps as int * elapsed as int;
    (if p <= u128::MAX {
        p / 315_360_000_000int
    } else {
        0
    }) as u64
}

/// Computes `yield_on(amount, rate_bps, elapsed)`.
pub fn accrued_yield(amount: u64, rate_bps: u64, elapsed: u64) -> (r: u64)
    ensures
        r == yield_on(amount, rate_bps, elapsed),
{
    proof {
        lemma_mul_u64_fits(amount, rate_bps);
    }
    let p1: u128 = amount as u128 * rate_bps as u128;
    let wide: u128 = match p1.checked_mul(elapsed as u128) {
        Some(p) => p / 315_360_000_000u128,
        None => 0,
    };
    wide as u64
}

/// `a + b`, or `u64::MAX` where that overflows.
pub open spec fn sat_add(a: u64, b: u64) -> u64 {
    if a + b > u64::MAX {
        u64::MAX
    } else {
        (a + b) as u64
    }
}

/// `a - b`, or zero where that underflows.
pub open spec fn sat_sub(a: u64, b: u64) -> u64 {
    if a >= b {
        (a - b) as u64
    } else {
        0
    }
}

} // verus!
