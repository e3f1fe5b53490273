//! Saturating fixed-point arithmetic.
//!
//! Every quantity of the simulation (seconds, pixels, degrees, ratios) is an
//! `i64` counting millionths. Results that leave the representable band are
//! pinned to its nearest end, so no operation here can overflow.
use vstd::prelude::*;

verus! {

/// The fixed-point representation of 1.
pub const UNIT: i64 = 1_000_000;

/// Largest value an operation returns.
pub const FX_MAX: i64 = 0x7fff_ffff_ffff_ffff;

/// Smallest value an operation returns.
pub const FX_MIN: i64 = -0x7fff_ffff_ffff_ffff;

/// Pins a mathematical integer into the band `[FX_MIN, FX_MAX]`.
pub open spec fn sat(v: int) -> int {
    if v > FX_MAX {
        FX_MAX as int
    } else if v < FX_MIN {
        FX_MIN as int
    } else {
        v
    }
}

/// Quotient rounded toward zero, for a positive divisor.
pub open spec fn tdiv(n: int, d: int) -> int
    recommends
        d > 0,
{
    if n >= 0 {
        n / d
    } else {
        -((-n) / d)
    }
}

/// Product of two fixed-point values.
pub open spec fn mul_spec(a: int, b: int) -> int {
    sat(tdiv(a * b, UNIT as int))
}

/// Quotient of two fixed-point values; division by zero yields zero.
pub open spec fn div_spec(a: int, b: int) -> int {
    if b == 0 {
        0
    } else if b > 0 {
        sat(tdiv(a * UNIT, b))
    } else {
        sat(tdiv(-(a * UNIT), -b))
    }
}

/// Linear blend from `a` (at `t == 0`) to `b` (at `t == UNIT`).
pub open spec fn lerp_spec(a: int, b: int, t: int) -> int {
    sat(a + tdiv((b - a) * t, UNIT as int))
}

/// `v` confined to `[lo, hi]`; the lower bound wins when the bounds cross.
pub open spec fn clamp_spec(v: int, lo: int, hi: int) -> int {
    if v < lo {
        lo
    } else if v > hi {
        hi
    } else {
        v
    }
}

/// Saturating sum, as a value of the representation.
pub open spec fn sadd(a: i64, b: i64) -> i64 {
    sat(a + b) as i64
}

/// Saturating difference.
pub open spec fn ssub(a: i64, b: i64) -> i64 {
    sat(a - b) as i64
}

/// Saturating negation.
pub open spec fn sneg(a: i64) -> i64 {
    sat(-a) as i64
}

/// Fixed-point product.
pub open spec fn smul(a: i64, b: i64) -> i64 {
    mul_spec(a as int, b as int) as i64
}

/// Fixed-point quotient.
pub open spec fn sdiv(a: i64, b: i64) -> i64 {
    div_spec(a as int, b as int) as i64
}

/// Fixed-point blend.
pub open spec fn slerp(a: i64, b: i64, t: i64) -> i64 {
    lerp_spec(a as int, b as int, t as int) as i64
}

/// Clamp on values of the representation.
pub open spec fn sclamp(v: i64, lo: i64, hi: i64) -> i64 {
    clamp_spec(v as int, lo as int, hi as int) as i64
}

pub open spec fn smin(a: i64, b: i64) -> i64 {
    if a <= b { a } else { b }
}

pub open spec fn smax(a: i64, b: i64) -> i64 {
    if a >= b { a } else { b }
}

pub proof fn lemma_product_bound(a: int, b: int)
    requires
        -0x8000_0000_0000_0000 <= a <= 0x8000_0000_0000_0000,
        -0x8000_0000_0000_0000 <= b <= 0x8000_0000_0000_0000,
    ensures
        -0x4000_0000_0000_0000_0000_0000_0000_0000 <= a * b
            <= 0x4000_0000_0000_0000_0000_0000_0000_0000,
{
    assert(-0x4000_0000_0000_0000_0000_0000_0000_0000 <= a * b
        <= 0x4000_0000_0000_0000_0000_0000_0000_0000) by (nonlinear_arith)
        requires
            -0x8000_0000_0000_0000 <= a <= 0x8000_0000_0000_0000,
            -0x8000_0000_0000_0000 <= b <= 0x8000_0000_0000_0000,
    ;
}

/// Narrows a wide intermediate result into the band.
pub fn narrow(v: i128) -> (r: i64)
    ensures
        r == sat(v as int),
        FX_MIN <= r <= FX_MAX,
{
    if v > FX_MAX as i128 {
        FX_MAX
    } else if v < FX_MIN as i128 {
        FX_MIN
    } else {
        v as i64
    }
}

pub fn fx_add(a: i64, b: i64) -> (r: i64)
    ensures
        r == sat(a + b),
        r == sadd(a, b),
        FX_MIN <= r <= FX_MAX,
{
    narrow(a as i128 + b as i128)
}

pub fn fx_sub(a: i64, b: i64) -> (r: i64)
    ensures
        r == sat(a - b),
        r == ssub(a, b),
        FX_MIN <= r <= FX_MAX,
{
    narrow(a as i128 - b as i128)
}

pub fn fx_neg(a: i64) -> (r: i64)
    ensures
        r == sat(-a),
        r == sneg(a),
        FX_MIN <= r <= FX_MAX,
{
    narrow(-(a as i128))
}

pub fn fx_mul(a: i64, b: i64) -> (r: i64)
    ensures
        r == mul_spec(a as int, b as int),
        r == smul(a, b),
        FX_MIN <= r <= FX_MAX,
{
    proof {
        lemma_product_bound(a as int, b as int);
    }
    let wide: i128 = (a as i128) * (b as i128);
    narrow(wide / (UNIT as i128))
}

pub fn fx_div(a: i64, b: i64) -> (r: i64)
    ensures
        r == div_spec(a as int, b as int),
        r == sdiv(a, b),
        FX_MIN <= r <= FX_MAX,
{
    if b == 0 {
        0
    } else {
        proof {
            lemma_product_bound(a as int, UNIT as int);
        }
        let wide: i128 = (a as i128) * (UNIT as i128);
        if b > 0 {
            narrow(wide / (b as i128))
        } else {
            narrow((-wide) / (-(b as i128)))
        }
    }
}

pub fn fx_lerp(a: i64, b: i64, t: i64) -> (r: i64)
    ensures
        r == lerp_spec(a as int, b as int, t as int),
        r == slerp(a, b, t),
        FX_MIN <= r <= FX_MAX,
{
    let span: i128 = b as i128 - a as i128;
    proof {
        assert(-0x7fff_ffff_ffff_ffff_8000_0000_0000_0000 <= span * t
            <= 0x7fff_ffff_ffff_ffff_8000_0000_0000_0000) by (nonlinear_arith)
            requires
                -0xffff_ffff_ffff_ffff <= span <= 0xffff_ffff_ffff_ffff,
                -0x8000_0000_0000_0000 <= t <= 0x8000_0000_0000_0000,
        ;
    }
    let wide: i128 = span * (t as i128);
    narrow(a as i128 + wide / (UNIT as i128))
}

pub fn fx_clamp(v: i64, lo: i64, hi: i64) -> (r: i64)
    ensures
        r == clamp_spec(v as int, lo as int, hi as int),
        r == sclamp(v, lo, hi),
{
    if v < lo {
        lo
    } else if v > hi {
        hi
    } else {
        v
    }
}

pub fn fx_min(a: i64, b: i64) -> (r: i64)
    ensures
        r == smin(a, b),
{
    if a <= b { a } else { b }
}

pub fn fx_max(a: i64, b: i64) -> (r: i64)
    ensures
        r == smax(a, b),
{
    if a >= b { a } else { b }
}

/// Floor of the square root of a natural number.
pub open spec fn is_isqrt(n: int, r: int) -> bool {
    0 <= r && r * r <= n && n < (r + 1) * (r + 1)
}

/// Two floors of the same square root are the same number.
pub proof fn lemma_isqrt_unique(n: int, r1: int, r2: int)
    requires
        is_isqrt(n, r1),
        is_isqrt(n, r2),
    ensures
        r1 == r2,
{
    if r1 < r2 {
        assert((r1 + 1) * (r1 + 1) <= r2 * r2) by (nonlinear_arith)
            requires
                0 <= r1,
                r1 + 1 <= r2,
        ;
    } else if r2 < r1 {
        assert((r2 + 1) * (r2 + 1) <= r1 * r1) by (nonlinear_arith)
            requires
                0 <= r2,
                r2 + 1 <= r1,
        ;
    }
}

/// The floor of the square root of `n`.
pub open spec fn isqrt_spec(n: int) -> int {
    choose|r: int| is_isqrt(n, r)
}

/// Integer square root by bisection.
pub fn isqrt(n: u128) -> (r: u64)
    ensures
        is_isqrt(n as int, r as int),
        r == isqrt_spec(n as int),
{
    let mut lo: u128 = 0;
    let mut hi: u128 = 0x1_0000_0000_0000_0000;
    assert(0x1_0000_0000_0000_0000int * 0x1_0000_0000_0000_0000int > n) by (nonlinear_arith)
        requires
            n <= 0xffff_ffff_ffff_ffff_ffff_ffff_ffff_ffff,
    ;
    while hi - lo > 1
        invariant
            lo < hi <= 0x1_0000_0000_0000_0000,
            lo * lo <= n,
            n < hi * hi,
        decreases hi - lo,
    {
        let mid: u128 = lo + (hi - lo) / 2;
        assert(mid * mid < 0x1_0000_0000_0000_0000int * 0x1_0000_0000_0000_0000int) by (nonlinear_arith)
            requires
                0 <= mid < 0x1_0000_0000_0000_0000,
        ;
        if mid * mid <= n {
            lo = mid;
        } else {
            hi = mid;
        }
    }
    proof {
        assert(is_isqrt(n as int, lo as int));
        lemma_isqrt_unique(n as int, lo as int, isqrt_spec(n as int));
    }
    lo as u64
}

/// Clamping a value that already lies within the bounds changes nothing, so
/// clamping twice is the same as clamping once.
pub proof fn lemma_clamp_idempotent(v: int, lo: int, hi: int)
    requires
        lo <= hi,
    ensures
        lo <= clamp_spec(v, lo, hi) <= hi,
        clamp_spec(clamp_spec(v, lo, hi), lo, hi) == clamp_spec(v, lo, hi),
        lo <= v <= hi ==> clamp_spec(v, lo, hi) == v,
{
}

} // verus!
