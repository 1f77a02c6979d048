//! Fixed-point arithmetic helpers: division with rounding, integer square
//! and cube roots.  Everything in the library that the original domain
//! states over real numbers is carried out on scaled integers through these
//! functions, so their contracts pin each result exactly.

use vstd::prelude::*;

verus! {

/// Division rounded to the nearest integer, halves away from zero,
/// as a mathematical function (meaningful for `d > 0`).
pub open spec fn div_round(a: int, d: int) -> int {
    if a >= 0 {
        (a + d / 2) / d
    } else {
        -((-a + d / 2) / d)
    }
}

/// Division rounded towards positive infinity (meaningful for `a >= 0`, `d > 0`).
pub open spec fn div_up(a: int, d: int) -> int {
    (a + d - 1) / d
}

/// `r` is the integer square root (rounded down) of `n`.
pub open spec fn is_sqrt(n: int, r: int) -> bool {
    &&& 0 <= r
    &&& r * r <= n
    &&& n < (r + 1) * (r + 1)
}

/// `r` is the integer cube root (rounded down) of `n`.
pub open spec fn is_cbrt(n: int, r: int) -> bool {
    &&& 0 <= r
    &&& r * r * r <= n
    &&& n < (r + 1) * (r + 1) * (r + 1)
}

/// The rounded quotient differs from the exact quotient by at most half the
/// divisor: |div_round(a, d) * d - a| <= d / 2 (and strictly less than d on
/// the low side when d is odd).
pub proof fn lemma_div_round_err(a: int, d: int)
    requires
        d >= 1,
    ensures
        div_round(a, d) * d - a <= d / 2,
        a - div_round(a, d) * d <= d / 2,
{
    if a >= 0 {
        let q = (a + d / 2) / d;
        vstd::arithmetic::div_mod::lemma_fundamental_div_mod(a + d / 2, d);
        vstd::arithmetic::div_mod::lemma_mod_bound(a + d / 2, d);
        assert(q * d == a + d / 2 - (a + d / 2) % d);
    } else {
        let b = -a;
        let q = (b + d / 2) / d;
        vstd::arithmetic::div_mod::lemma_fundamental_div_mod(b + d / 2, d);
        vstd::arithmetic::div_mod::lemma_mod_bound(b + d / 2, d);
        assert(q * d == b + d / 2 - (b + d / 2) % d);
        assert(div_round(a, d) * d == -(q * d)) by {
            assert((-q) * d == -(q * d)) by (nonlinear_arith);
        }
    }
}

/// Rounded division is monotone in the dividend.
pub proof fn lemma_div_round_mono(a: int, b: int, d: int)
    requires
        d >= 1,
        a <= b,
    ensures
        div_round(a, d) <= div_round(b, d),
{
    if a >= 0 {
        vstd::arithmetic::div_mod::lemma_div_is_ordered(a + d / 2, b + d / 2, d);
    } else if b < 0 {
        vstd::arithmetic::div_mod::lemma_div_is_ordered(-b + d / 2, -a + d / 2, d);
    } else {
        vstd::arithmetic::div_mod::lemma_div_pos_is_pos(-a + d / 2, d);
        vstd::arithmetic::div_mod::lemma_div_pos_is_pos(b + d / 2, d);
    }
}

/// A rounded quotient of a dividend between two bounds lies between the
/// bounds' rounded quotients.
pub proof fn lemma_div_round_range(a: int, d: int, lo: int, hi: int)
    requires
        d >= 1,
        lo <= a <= hi,
    ensures
        div_round(lo, d) <= div_round(a, d) <= div_round(hi, d),
{
    lemma_div_round_mono(lo, a, d);
    lemma_div_round_mono(a, hi, d);
}

/// An up-rounded quotient of a bounded non-negative dividend is bounded by
/// the bounds' up-rounded quotients.
pub proof fn lemma_div_up_range(a: int, d: int, lo: int, hi: int)
    requires
        d >= 1,
        0 <= lo <= a <= hi,
    ensures
        div_up(lo, d) <= div_up(a, d) <= div_up(hi, d),
        div_up(a, d) >= 0,
{
    vstd::arithmetic::div_mod::lemma_div_is_ordered(lo + d - 1, a + d - 1, d);
    vstd::arithmetic::div_mod::lemma_div_is_ordered(a + d - 1, hi + d - 1, d);
    vstd::arithmetic::div_mod::lemma_div_pos_is_pos(a + d - 1, d);
}

/// Rounding an exact multiple returns the multiplier.
pub proof fn lemma_div_round_exact(k: int, d: int)
    requires
        d >= 1,
    ensures
        div_round(k * d, d) == k,
{
    if k >= 0 {
        vstd::arithmetic::div_mod::lemma_fundamental_div_mod_converse(
            k * d + d / 2, d, k, d / 2);
    } else {
        assert(k * d < 0) by (nonlinear_arith)
            requires k < 0, d >= 1;
        assert(-(k * d) == (-k) * d) by (nonlinear_arith);
        vstd::arithmetic::div_mod::lemma_fundamental_div_mod_converse(
            (-k) * d + d / 2, d, -k, d / 2);
    }
}

/// The quotient of a non-negative dividend with half the divisor added
/// stays no larger than the dividend (and with the divisor less one added,
/// no larger than one more).
proof fn lemma_shifted_div_le(a: int, d: int)
    requires
        0 <= a,
        1 <= d,
    ensures
        0 <= (a + d / 2) / d <= a,
        0 <= (a + d - 1) / d <= a + 1,
{
    vstd::arithmetic::div_mod::lemma_div_pos_is_pos(a + d / 2, d);
    vstd::arithmetic::div_mod::lemma_div_pos_is_pos(a + d - 1, d);
    let q = (a + d / 2) / d;
    vstd::arithmetic::div_mod::lemma_fundamental_div_mod(a + d / 2, d);
    vstd::arithmetic::div_mod::lemma_mod_bound(a + d / 2, d);
    if q > a {
        assert((a + 1) * d <= q * d) by (nonlinear_arith)
            requires a + 1 <= q, d >= 1;
        assert((a + 1) * d == a * d + d) by (nonlinear_arith);
        assert(a <= a * d) by (nonlinear_arith)
            requires a >= 0, d >= 1;
        assert(q * d == a + d / 2 - (a + d / 2) % d);
        assert(false);
    }
    let u = (a + d - 1) / d;
    vstd::arithmetic::div_mod::lemma_fundamental_div_mod(a + d - 1, d);
    vstd::arithmetic::div_mod::lemma_mod_bound(a + d - 1, d);
    if u > a + 1 {
        assert((a + 2) * d <= u * d) by (nonlinear_arith)
            requires a + 2 <= u, d >= 1;
        assert((a + 2) * d == a * d + d + d) by (nonlinear_arith);
        assert(a <= a * d) by (nonlinear_arith)
            requires a >= 0, d >= 1;
        assert(u * d == a + d - 1 - (a + d - 1) % d);
        assert(false);
    }
}

/// Division of `a` by `d`, rounded to the nearest integer, halves away from
/// zero.
pub fn div_round_i128(a: i128, d: i128) -> (r: i128)
    requires
        1 <= d,
        i128::MIN < a,
    ensures
        r == div_round(a as int, d as int),
{
    if a >= 0 {
        proof {
            lemma_shifted_div_le(a as int, d as int);
        }
        let q: u128 = ((a as u128) + (d as u128) / 2) / (d as u128);
        q as i128
    } else {
        proof {
            lemma_shifted_div_le(-a as int, d as int);
        }
        let q: u128 = (((-a) as u128) + (d as u128) / 2) / (d as u128);
        -(q as i128)
    }
}

/// Division of `a >= 0` by `d`, rounded up.
pub fn div_up_i128(a: i128, d: i128) -> (r: i128)
    requires
        1 <= d,
        0 <= a < i128::MAX,
    ensures
        r == div_up(a as int, d as int),
{
    proof {
        lemma_shifted_div_le(a as int, d as int);
    }
    let q: u128 = ((a as u128) + (d as u128) - 1) / (d as u128);
    q as i128
}

/// Integer square root, rounded down, by bisection.
pub fn isqrt_u128(n: u128) -> (r: u128)
    ensures
        is_sqrt(n as int, r as int),
        r < 0x1_0000_0000_0000_0000,
{
    let mut lo: u128 = 0;
    let mut hi: u128 = 0x1_0000_0000_0000_0000;
    assert((hi as int) * (hi as int) > n as int) by (nonlinear_arith)
        requires hi == 0x1_0000_0000_0000_0000, n <= u128::MAX;
    while lo + 1 < hi
        invariant
            0 <= lo < hi <= 0x1_0000_0000_0000_0000,
            (lo as int) * (lo as int) <= n as int,
            (hi as int) * (hi as int) > n as int,
        decreases hi - lo,
    {
        let mid: u128 = lo + (hi - lo) / 2;
        assert((mid as int) * (mid as int) < 0x1_0000_0000_0000_0000_0000_0000_0000_0000) by (nonlinear_arith)
            requires mid < 0x1_0000_0000_0000_0000;
        if mid * mid <= n {
            lo = mid;
        } else {
            hi = mid;
        }
    }
    assert((lo + 1) as int * ((lo + 1) as int) > n as int);
    lo
}

/// Largest argument accepted by `icbrt_u128`.
pub const CBRT_ARG_MAX: u128 = 10_000_000_000_000_000_000_000_000_000_000_000;

/// Integer cube root, rounded down, by bisection.  The bound on `n` keeps
/// the cube of the bisection pivot inside `u128`.
pub fn icbrt_u128(n: u128) -> (r: u128)
    requires
        n <= CBRT_ARG_MAX,
    ensures
        is_cbrt(n as int, r as int),
        r <= 220_000_000_000,
{
    let mut lo: u128 = 0;
    let mut hi: u128 = 220_000_000_001;
    assert((hi as int) * (hi as int) * (hi as int) > n as int) by (nonlinear_arith)
        requires hi == 220_000_000_001u128, n <= CBRT_ARG_MAX;
    while lo + 1 < hi
        invariant
            0 <= lo < hi <= 220_000_000_001,
            (lo as int) * (lo as int) * (lo as int) <= n as int,
            (hi as int) * (hi as int) * (hi as int) > n as int,
        decreases hi - lo,
    {
        let mid: u128 = lo + (hi - lo) / 2;
        assert((mid as int) * (mid as int) < 0x1_0000_0000_0000_0000_0000_0000_0000_0000
            && (mid as int) * (mid as int) * (mid as int) < 0x1_0000_0000_0000_0000_0000_0000_0000_0000) by (nonlinear_arith)
            requires mid <= 220_000_000_000u128;
        if mid * mid * mid <= n {
            lo = mid;
        } else {
            hi = mid;
        }
    }
    lo
}

} // verus!
