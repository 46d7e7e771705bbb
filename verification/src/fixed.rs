//! Saturating fixed-point scalars.
//!
//! A scalar is an `i64` holding `value * ONE`, so one unit of real value is
//! `ONE` raw units.  Every operation totals over all inputs: intermediate
//! results are computed exactly in 128 bits, truncated toward zero where a
//! division by `ONE` is involved, and saturated into `[-FIX_MAX, FIX_MAX]`.
//! The spec functions below state each result exactly, so callers reason
//! about the arithmetic with no rounding left unspecified.

use vstd::arithmetic::div_mod::{
    lemma_fundamental_div_mod, lemma_fundamental_div_mod_converse,
    lemma_mod_division_less_than_divisor,
};
use vstd::arithmetic::div_mod::lemma_div_is_ordered;
use vstd::arithmetic::div_mod::lemma_div_nonincreasing;
use vstd::arithmetic::div_mod::lemma_div_pos_is_pos;
use vstd::math::abs;
use vstd::prelude::*;

verus! {

/// Raw units per 1.0 of real value.
pub const ONE: i64 = 65536;

/// Largest raw magnitude; results saturate here instead of overflowing.
pub const FIX_MAX: i64 = 0x7fff_ffff_ffff_ffff;

/// Saturation into the representable range.
pub open spec fn clip(x: int) -> int {
    if x > FIX_MAX as int {
        FIX_MAX as int
    } else if x < -(FIX_MAX as int) {
        -(FIX_MAX as int)
    } else {
        x
    }
}

/// Quotient truncated toward zero, and 0 when the divisor is 0.
pub open spec fn divz(n: int, d: int) -> int {
    if d == 0 {
        0
    } else if (n >= 0) == (d >= 0) {
        abs(n) as int / abs(d) as int
    } else {
        -(abs(n) as int / abs(d) as int)
    }
}

/// Fixed-point product: `a * b / ONE`, truncated toward zero, saturated.
pub open spec fn fmul(a: int, b: int) -> int {
    clip(divz(a * b, ONE as int))
}

/// Fixed-point quotient: `a * ONE / b`, truncated toward zero, saturated;
/// 0 when `b` is 0 (degenerate inputs are the caller's error, not a panic).
pub open spec fn fdiv(a: int, b: int) -> int {
    clip(divz(a * (ONE as int), b))
}

/// Saturated sum.
pub open spec fn fadd(a: int, b: int) -> int {
    clip(a + b)
}

/// Saturated difference.
pub open spec fn fsub(a: int, b: int) -> int {
    clip(a - b)
}

/// Saturated negation.
pub open spec fn fneg(a: int) -> int {
    clip(-a)
}

/// Floor of the square root of `n`, defined incrementally.
pub open spec fn sqrt_floor(n: int) -> int
    decreases n,
{
    if n <= 0 {
        0
    } else {
        let r = sqrt_floor(n - 1);
        if (r + 1) * (r + 1) <= n {
            r + 1
        } else {
            r
        }
    }
}

/// Fixed-point square root: `floor(sqrt(x * ONE))`, and 0 for `x <= 0`.
pub open spec fn fsqrt(x: int) -> int {
    if x <= 0 {
        0
    } else {
        sqrt_floor(x * (ONE as int))
    }
}

/// `sqrt_floor(n)` brackets `n` between consecutive squares.
pub proof fn lemma_sqrt_floor_bounds(n: int)
    requires
        n >= 0,
    ensures
        0 <= sqrt_floor(n),
        sqrt_floor(n) * sqrt_floor(n) <= n,
        n < (sqrt_floor(n) + 1) * (sqrt_floor(n) + 1),
    decreases n,
{
    if n > 0 {
        lemma_sqrt_floor_bounds(n - 1);
        let r0 = sqrt_floor(n - 1);
        if (r0 + 1) * (r0 + 1) <= n {
            assert(n == (r0 + 1) * (r0 + 1));
            assert((r0 + 1) * (r0 + 1) < (r0 + 2) * (r0 + 2)) by (nonlinear_arith)
                requires
                    r0 >= 0,
            ;
        }
    }
}

/// The bracketing characterizes `sqrt_floor` uniquely.
pub proof fn lemma_sqrt_floor_is(n: int, r: int)
    requires
        0 <= r,
        r * r <= n,
        n < (r + 1) * (r + 1),
    ensures
        sqrt_floor(n) == r,
{
    lemma_sqrt_floor_bounds(n);
    let s = sqrt_floor(n);
    if s < r {
        assert(false) by (nonlinear_arith)
            requires
                0 <= s < r,
                r * r <= n,
                n < (s + 1) * (s + 1),
        ;
    }
    if s > r {
        assert(false) by (nonlinear_arith)
            requires
                0 <= r < s,
                s * s <= n,
                n < (r + 1) * (r + 1),
        ;
    }
}

/// The truncated quotient, scaled back by the divisor, lands within one
/// divisor of the dividend, on the side of zero.
pub proof fn lemma_divz_bounds(n: int, d: int)
    requires
        d > 0,
    ensures
        abs(divz(n, d)) * d <= abs(n) < (abs(divz(n, d)) + 1) * d,
        n >= 0 ==> divz(n, d) >= 0,
        n < 0 ==> divz(n, d) <= 0,
        abs(divz(n, d)) <= abs(n),
{
    let m = abs(n) as int;
    let q = m / d;
    lemma_fundamental_div_mod(m, d);
    lemma_mod_division_less_than_divisor(m, d);
    lemma_div_pos_is_pos(m, d);
    assert(m == d * q + m % d);
    assert(d * q == q * d) by (nonlinear_arith);
    assert((q + 1) * d == q * d + d) by (nonlinear_arith);
    lemma_div_nonincreasing(m, d);
    assert(abs(divz(n, d)) as int == q);
}

/// Evaluation rule for nonnegative truncated quotients: exhibiting the
/// quotient and remainder pins `divz` down.
pub proof fn lemma_divz_is(n: int, d: int, q: int, rem: int)
    requires
        d > 0,
        n >= 0,
        q >= 0,
        n == q * d + rem,
        0 <= rem < d,
    ensures
        divz(n, d) == q,
{
    lemma_fundamental_div_mod_converse(n, d, q, rem);
}

/// An unclipped scaled product lands within one raw unit of the exact
/// product, on the side of zero.
pub proof fn lemma_fmul_close(a: int, b: int)
    requires
        -((FIX_MAX as int) * (ONE as int)) <= a * b <= (FIX_MAX as int) * (ONE as int),
    ensures
        a * b - (ONE as int) < (ONE as int) * fmul(a, b) < a * b + (ONE as int),
        a * b >= 0 ==> fmul(a, b) >= 0 && (ONE as int) * fmul(a, b) <= a * b,
        a * b <= 0 ==> fmul(a, b) <= 0 && (ONE as int) * fmul(a, b) >= a * b,
{
    let n = a * b;
    lemma_divz_bounds(n, ONE as int);
    let q = divz(n, ONE as int);
    assert(abs(q) * (ONE as int) <= abs(n));
    assert(abs(q) <= FIX_MAX as int) by (nonlinear_arith)
        requires
            abs(q) * (ONE as int) <= abs(n),
            abs(n) <= (FIX_MAX as int) * (ONE as int),
            (ONE as int) > 0,
    ;
    assert(clip(q) == q);
    if n >= 0 {
        assert(abs(q) == q && abs(n) == n);
        assert(q * (ONE as int) == (ONE as int) * q) by (nonlinear_arith);
        assert((abs(q) + 1) * (ONE as int) == abs(q) * (ONE as int) + (ONE as int))
            by (nonlinear_arith);
    } else {
        assert(abs(q) == -q && abs(n) == -n);
        assert((-q) * (ONE as int) == -((ONE as int) * q)) by (nonlinear_arith);
        assert((abs(q) + 1) * (ONE as int) == abs(q) * (ONE as int) + (ONE as int))
            by (nonlinear_arith);
    }
}

/// An unclipped scaled quotient lands within one divisor of the exact
/// ratio: `s * fdiv(a, s)` is within `s` of `a * ONE`.
pub proof fn lemma_fdiv_close(a: int, s: int)
    requires
        s > 0,
        abs(a) * (ONE as int) <= (FIX_MAX as int) * s,
    ensures
        a * (ONE as int) - s < s * fdiv(a, s) < a * (ONE as int) + s,
        a >= 0 ==> fdiv(a, s) >= 0,
        a <= 0 ==> fdiv(a, s) <= 0,
{
    let n = a * (ONE as int);
    lemma_divz_bounds(n, s);
    let q = divz(n, s);
    assert(abs(q) * s <= abs(n));
    if a >= 0 {
        assert(abs(n) == abs(a) * (ONE as int));
    } else {
        assert(abs(n) == abs(a) * (ONE as int));
    }
    assert(abs(q) <= FIX_MAX as int) by (nonlinear_arith)
        requires
            abs(q) * s <= abs(n),
            abs(n) <= (FIX_MAX as int) * s,
            s > 0,
    ;
    assert(clip(q) == q);
    assert((a >= 0) == (n >= 0));
    if n >= 0 {
        assert(abs(q) == q && abs(n) == n);
        assert(q * s == s * q) by (nonlinear_arith);
        assert((abs(q) + 1) * s == abs(q) * s + s) by (nonlinear_arith);
    } else {
        assert(abs(q) == -q && abs(n) == -n);
        assert((-q) * s == -(s * q)) by (nonlinear_arith);
        assert((abs(q) + 1) * s == abs(q) * s + s) by (nonlinear_arith);
    }
}

/// Truncation toward zero is monotone in the dividend.
pub proof fn lemma_divz_monotone(n1: int, n2: int, d: int)
    requires
        n1 <= n2,
        d > 0,
    ensures
        divz(n1, d) <= divz(n2, d),
{
    if n1 >= 0 {
        lemma_div_is_ordered(n1, n2, d);
    } else if n2 < 0 {
        lemma_div_is_ordered(-n2, -n1, d);
    } else {
        lemma_div_pos_is_pos(-n1, d);
        lemma_div_pos_is_pos(n2, d);
    }
}

/// Saturating fixed-point multiplication.
pub fn fxmul(a: i64, b: i64) -> (r: i64)
    ensures
        r as int == fmul(a as int, b as int),
{
    proof {
        assert((a as int) * (b as int) <= 0x4000_0000_0000_0000_0000_0000_0000_0000int
            && -0x4000_0000_0000_0000_0000_0000_0000_0000int <= (a as int) * (b as int))
            by (nonlinear_arith);
    }
    let p: i128 = (a as i128) * (b as i128);
    let neg: bool = p < 0;
    let m: u128 = if neg {
        (-p) as u128
    } else {
        p as u128
    };
    let q: u128 = m / (ONE as u128);
    proof {
        assert(m as int == abs((a as int) * (b as int)));
        lemma_divz_bounds((a as int) * (b as int), ONE as int);
    }
    let c: u128 = if q > (FIX_MAX as u128) {
        FIX_MAX as u128
    } else {
        q
    };
    if neg {
        -(c as i64)
    } else {
        c as i64
    }
}

/// Saturating fixed-point division; 0 when the divisor is 0.
pub fn fxdiv(a: i64, b: i64) -> (r: i64)
    ensures
        r as int == fdiv(a as int, b as int),
{
    if b == 0 {
        return 0;
    }
    let p: i128 = (a as i128) * 65536i128;
    let neg: bool = (a < 0) != (b < 0);
    let m: u128 = if p < 0 {
        (-p) as u128
    } else {
        p as u128
    };
    let db: u128 = if b < 0 {
        (-(b as i128)) as u128
    } else {
        b as u128
    };
    let q: u128 = m / db;
    proof {
        assert(m as int == abs((a as int) * (ONE as int)));
        assert(db as int == abs(b as int));
        assert(((a as int) * (ONE as int) >= 0) == (a >= 0));
        lemma_divz_bounds((a as int) * (ONE as int), abs(b as int) as int);
        if (a as int) * (ONE as int) != 0 {
            assert(((a as int) * (ONE as int) >= 0) == ((b as int) >= 0) ==> !neg);
        }
    }
    let c: u128 = if q > (FIX_MAX as u128) {
        FIX_MAX as u128
    } else {
        q
    };
    if neg {
        -(c as i64)
    } else {
        c as i64
    }
}

/// Saturating sum.
pub fn fxadd(a: i64, b: i64) -> (r: i64)
    ensures
        r as int == fadd(a as int, b as int),
{
    let p: i128 = a as i128 + b as i128;
    if p > FIX_MAX as i128 {
        FIX_MAX
    } else if p < -(FIX_MAX as i128) {
        -FIX_MAX
    } else {
        p as i64
    }
}

/// Saturating difference.
pub fn fxsub(a: i64, b: i64) -> (r: i64)
    ensures
        r as int == fsub(a as int, b as int),
{
    let p: i128 = a as i128 - b as i128;
    if p > FIX_MAX as i128 {
        FIX_MAX
    } else if p < -(FIX_MAX as i128) {
        -FIX_MAX
    } else {
        p as i64
    }
}

/// Saturating negation.
pub fn fxneg(a: i64) -> (r: i64)
    ensures
        r as int == fneg(a as int),
{
    if a == i64::MIN {
        FIX_MAX
    } else {
        -a
    }
}

/// Truncated quotient of raw values by a positive divisor (used for exact
/// scalings such as `x / 6`).  Never saturates.
pub fn fxdivn(a: i64, d: i64) -> (r: i64)
    requires
        d > 0,
    ensures
        r as int == divz(a as int, d as int),
{
    let m: u64 = if a < 0 {
        (-(a as i128)) as u64
    } else {
        a as u64
    };
    let q: u64 = m / (d as u64);
    proof {
        assert(m as int == abs(a as int));
        lemma_divz_bounds(a as int, d as int);
    }
    if a < 0 {
        (-(q as i128)) as i64
    } else {
        q as i64
    }
}

/// Fixed-point square root by bracketing binary search.
pub fn fxsqrt(x: i64) -> (r: i64)
    ensures
        r as int == fsqrt(x as int),
        r >= 0,
{
    if x <= 0 {
        return 0;
    }
    let n: u128 = (x as u128) * 65536u128;
    let mut lo: u128 = 0;
    let mut hi: u128 = 0x1_0000_0000_0000;
    proof {
        assert((n as int) < 0x1_0000_0000_0000int * 0x1_0000_0000_0000int) by (nonlinear_arith)
            requires
                n as int == (x as int) * (ONE as int),
                0 < (x as int) && (x as int) < 0x8000_0000_0000_0000int,
        ;
    }
    while lo + 1 < hi
        invariant
            lo < hi,
            hi <= 0x1_0000_0000_0000,
            (lo as int) * (lo as int) <= n as int,
            (n as int) < (hi as int) * (hi as int),
        decreases hi - lo,
    {
        let mid: u128 = lo + (hi - lo) / 2;
        proof {
            assert((mid as int) * (mid as int) <= 0x1_0000_0000_0000int * 0x1_0000_0000_0000int)
                by (nonlinear_arith)
                requires
                    0 <= (mid as int) && (mid as int) <= 0x1_0000_0000_0000int,
            ;
        }
        if mid * mid <= n {
            lo = mid;
        } else {
            hi = mid;
        }
    }
    proof {
        lemma_sqrt_floor_is(n as int, lo as int);
        assert((lo as int) < 0x1_0000_0000_0000int);
    }
    lo as i64
}

} // verus!
