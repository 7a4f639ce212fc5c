//! Fixed-point scalars: signed 64-bit counts of millionths, with saturating
//! arithmetic.

use vstd::prelude::*;

verus! {

/// The fixed-point representation of 1.
pub const ONE: i64 = 1_000_000;

/// The nearest value of the 64-bit range to `v`.
pub open spec fn clamped(v: int) -> i64 {
    if v < i64::MIN {
        i64::MIN
    } else if v > i64::MAX {
        i64::MAX
    } else {
        v as i64
    }
}

/// The quotient of `n` by a positive `d`, rounded toward zero.
pub open spec fn quotient(n: int, d: int) -> int
    recommends
        d > 0,
{
    if n >= 0 {
        n / d
    } else {
        -((-n) / d)
    }
}

/// `r` is the integer part of the square root of `n`.
pub open spec fn is_floor_sqrt(r: int, n: int) -> bool {
    0 <= r && r * r <= n < (r + 1) * (r + 1)
}

/// The sum, saturated.
pub open spec fn spec_sat_add(a: i64, b: i64) -> i64 {
    clamped(a + b)
}

/// The difference, saturated.
pub open spec fn spec_sat_sub(a: i64, b: i64) -> i64 {
    clamped(a - b)
}

/// `a * b / d`, rounded toward zero and saturated.
pub open spec fn spec_mul_div(a: i64, b: i64, d: u64) -> i64
    recommends
        d > 0,
{
    clamped(quotient(a * b, d as int))
}

/// `a * b / ONE`, rounded toward zero and saturated.
pub open spec fn spec_fx_mul(a: i64, b: i64) -> i64 {
    clamped(quotient(a * b, ONE as int))
}

/// The integer part of the square root of `n`.
pub open spec fn spec_isqrt(n: u128) -> u64 {
    choose|r: u64| is_floor_sqrt(r as int, n as int)
}

/// Narrows a wide intermediate result, saturating at the ends of the range.
pub fn clamp(v: i128) -> (r: i64)
    ensures
        r == clamped(v as int),
{
    if v < i64::MIN as i128 {
        i64::MIN
    } else if v > i64::MAX as i128 {
        i64::MAX
    } else {
        v as i64
    }
}

/// Saturating sum.
#[verifier::when_used_as_spec(spec_sat_add)]
pub fn sat_add(a: i64, b: i64) -> (r: i64)
    ensures
        r == spec_sat_add(a, b),
{
    clamp(a as i128 + b as i128)
}

/// Saturating difference.
#[verifier::when_used_as_spec(spec_sat_sub)]
pub fn sat_sub(a: i64, b: i64) -> (r: i64)
    ensures
        r == spec_sat_sub(a, b),
{
    clamp(a as i128 - b as i128)
}

/// The product of two 64-bit values fits the 128-bit range with room to spare.
pub proof fn lemma_product_fits(a: i64, b: i64)
    ensures
        -0x4000_0000_0000_0000_0000_0000_0000_0000 <= a * b
            <= 0x4000_0000_0000_0000_0000_0000_0000_0000,
{
    assert(-0x4000_0000_0000_0000_0000_0000_0000_0000 <= a * b
        <= 0x4000_0000_0000_0000_0000_0000_0000_0000) by (nonlinear_arith)
        requires
            -0x8000_0000_0000_0000 <= a <= 0x7fff_ffff_ffff_ffff,
            -0x8000_0000_0000_0000 <= b <= 0x7fff_ffff_ffff_ffff,
    ;
}

/// `a * b / d`, computed without intermediate overflow, rounded toward zero
/// and saturated.
#[verifier::when_used_as_spec(spec_mul_div)]
pub fn mul_div(a: i64, b: i64, d: u64) -> (r: i64)
    requires
        d > 0,
    ensures
        r == spec_mul_div(a, b, d),
{
    proof {
        lemma_product_fits(a, b);
    }
    let wide: i128 = (a as i128) * (b as i128);
    clamp(wide / (d as i128))
}

/// Fixed-point product: `a * b / ONE`, rounded toward zero and saturated.
#[verifier::when_used_as_spec(spec_fx_mul)]
pub fn fx_mul(a: i64, b: i64) -> (r: i64)
    ensures
        r == spec_fx_mul(a, b),
{
    mul_div(a, b, 1_000_000)
}

/// At most one integer is the floor of a square root.
pub proof fn lemma_floor_sqrt_unique(r1: int, r2: int, n: int)
    requires
        is_floor_sqrt(r1, n),
        is_floor_sqrt(r2, n),
    ensures
        r1 == r2,
{
    if r1 < r2 {
        assert((r1 + 1) * (r1 + 1) <= r2 * r2) by (nonlinear_arith)
            requires
                0 <= r1,
                r1 + 1 <= r2,
        ;
    } else if r2 < r1 {
        assert((r2 + 1) * (r2 + 1) <= r1 * r1) by (nonlinear_arith)
            requires
                0 <= r2,
                r2 + 1 <= r1,
        ;
    }
}

/// The integer part of the square root, found by bisection.
#[verifier::when_used_as_spec(spec_isqrt)]
pub fn isqrt(n: u128) -> (r: u64)
    ensures
        r == spec_isqrt(n),
        is_floor_sqrt(r as int, n as int),
{
    let mut low: u128 = 0;
    let mut high: u128 = 0x1_0000_0000_0000_0000;
    assert(n < high * high) by (nonlinear_arith)
        requires
            high == 0x1_0000_0000_0000_0000,
            n <= 0xffff_ffff_ffff_ffff_ffff_ffff_ffff_ffff,
    ;
    while high - low > 1
        invariant
            low < high <= 0x1_0000_0000_0000_0000,
            low * low <= n < high * high,
        decreases high - low,
    {
        let mid: u128 = low + (high - low) / 2;
        assert(mid * mid <= 0xffff_ffff_ffff_ffff_ffff_ffff_ffff_ffff) by (nonlinear_arith)
            requires
                0 <= mid <= 0xffff_ffff_ffff_ffff,
        ;
        if mid * mid <= n {
            low = mid;
        } else {
            high = mid;
        }
    }
    let r: u64 = low as u64;
    proof {
        assert(is_floor_sqrt(r as int, n as int));
        lemma_floor_sqrt_unique(r as int, spec_isqrt(n) as int, n as int);
    }
    r
}

/// Every natural number has a floor of its square root.
proof fn lemma_floor_sqrt_exists(n: nat) -> (r: int)
    ensures
        is_floor_sqrt(r, n as int),
    decreases n,
{
    if n == 0 {
        assert(is_floor_sqrt(0, 0)) by (nonlinear_arith);
        0
    } else {
        let below = lemma_floor_sqrt_exists((n - 1) as nat);
        let next = below + 1;
        if next * next <= n {
            assert(is_floor_sqrt(next, n as int)) by (nonlinear_arith)
                requires
                    0 <= below,
                    next == below + 1,
                    next * next <= n,
                    n - 1 < next * next,
            ;
            next
        } else {
            below
        }
    }
}

/// `spec_isqrt` is the floor of the square root.
pub proof fn lemma_isqrt_is_floor(n: u128)
    ensures
        is_floor_sqrt(spec_isqrt(n) as int, n as int),
{
    let r = lemma_floor_sqrt_exists(n as nat);
    if r >= 0x1_0000_0000_0000_0000 {
        assert(r * r >= 0x1_0000_0000_0000_0000_0000_0000_0000_0000) by (nonlinear_arith)
            requires
                r >= 0x1_0000_0000_0000_0000,
        ;
    }
    let witness = r as u64;
    assert(is_floor_sqrt(witness as int, n as int));
}

} // verus!
