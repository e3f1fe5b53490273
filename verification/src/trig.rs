//! Angles in fixed-point degrees and rational approximations of sine,
//! cosine and arctangent on them.
use vstd::prelude::*;
use crate::fixed::{UNIT, fx_mul, fx_div, fx_add, fx_sub, fx_neg, smul, sdiv, sadd, ssub, sneg};

verus! {

/// 360 degrees.
pub const FULL_TURN: i64 = 360_000_000;

/// 180 degrees.
pub const HALF_TURN: i64 = 180_000_000;

/// 90 degrees.
pub const QUARTER_TURN: i64 = 90_000_000;

/// 45 degrees.
pub const EIGHTH_TURN: i64 = 45_000_000;

/// An angle brought into the band `(-360, 360]` degrees by whole turns.
/// Angles inside the band are left alone.
pub open spec fn wrap_spec(a: int) -> int {
    if -FULL_TURN < a <= FULL_TURN {
        a
    } else if a > FULL_TURN {
        if a % (FULL_TURN as int) == 0 {
            FULL_TURN as int
        } else {
            a % (FULL_TURN as int)
        }
    } else {
        if a % (FULL_TURN as int) == 0 {
            0
        } else {
            a % (FULL_TURN as int) - FULL_TURN
        }
    }
}

/// The remainder of a negative number, from the remainder of its magnitude.
pub proof fn lemma_mod_of_negative(n: int, d: int)
    requires
        n > 0,
        d > 0,
    ensures
        (-n) % d == (if n % d == 0 { 0 } else { d - n % d }),
{
    let k = n / d;
    let r = n % d;
    vstd::arithmetic::div_mod::lemma_fundamental_div_mod(n, d);
    if r == 0 {
        assert(-n == (-k) * d + 0) by (nonlinear_arith)
            requires
                n == d * k + r,
                r == 0,
        ;
        vstd::arithmetic::div_mod::lemma_fundamental_div_mod_converse(-n, d, -k, 0);
    } else {
        assert(-n == (-k - 1) * d + (d - r)) by (nonlinear_arith)
            requires
                n == d * k + r,
        ;
        vstd::arithmetic::div_mod::lemma_fundamental_div_mod_converse(-n, d, -k - 1, d - r);
    }
}

/// Position of an angle within its turn, in `[0, 360)` degrees.
pub fn turn_phase(a: i64) -> (m: i64)
    ensures
        m == (a as int) % (FULL_TURN as int),
        0 <= m < FULL_TURN,
{
    if a >= 0 {
        a % FULL_TURN
    } else {
        let n: i128 = -(a as i128);
        let r: i128 = n % (FULL_TURN as i128);
        proof {
            lemma_mod_of_negative(n as int, FULL_TURN as int);
        }
        if r == 0 {
            0
        } else {
            (FULL_TURN as i128 - r) as i64
        }
    }
}

pub fn wrap_angle(a: i64) -> (r: i64)
    ensures
        r == wrap_spec(a as int),
        -FULL_TURN < r <= FULL_TURN,
{
    if -FULL_TURN < a && a <= FULL_TURN {
        a
    } else {
        let m: i64 = turn_phase(a);
        if a > FULL_TURN {
            if m == 0 { FULL_TURN } else { m }
        } else {
            if m == 0 { 0 } else { m - FULL_TURN }
        }
    }
}

/// Sine of an angle between 0 and 180 degrees, scaled by `UNIT`: the
/// rational approximation `4x(180 - x) / (40500 - x(180 - x))`.
pub open spec fn half_wave(x: int) -> int {
    let p = x * (HALF_TURN - x);
    (4 * p * UNIT) / (40_500_000_000_000_000 - p)
}

/// Approximate sine of an angle in degrees.
pub open spec fn sin_spec(a: int) -> int {
    let m = a % (FULL_TURN as int);
    if m <= HALF_TURN {
        half_wave(m)
    } else {
        -half_wave(m - HALF_TURN)
    }
}

/// Approximate cosine: the sine a quarter turn ahead.
pub open spec fn cos_spec(a: int) -> int {
    sin_spec(a + QUARTER_TURN)
}

pub proof fn lemma_half_wave_bounds(x: int)
    requires
        0 <= x <= HALF_TURN,
    ensures
        0 <= x * (HALF_TURN - x) <= 8_100_000_000_000_000,
        0 <= half_wave(x) <= UNIT,
{
    let p = x * (HALF_TURN - x);
    assert(0 <= p <= 8_100_000_000_000_000) by (nonlinear_arith)
        requires
            0 <= x <= 180_000_000,
            p == x * (180_000_000 - x),
    ;
    let d = 40_500_000_000_000_000 - p;
    let n = 4 * p * UNIT;
    assert(n == 4_000_000 * p) by (nonlinear_arith)
        requires
            n == 4 * p * 1_000_000,
    ;
    assert(n <= 1_000_000 * d);
    assert(0 <= n / d <= 1_000_000) by (nonlinear_arith)
        requires
            0 <= n <= 1_000_000 * d,
            d > 0,
    ;
}

fn half_wave_exec(x: i64) -> (r: i64)
    requires
        0 <= x <= HALF_TURN,
    ensures
        r == half_wave(x as int),
        0 <= r <= UNIT,
{
    proof {
        lemma_half_wave_bounds(x as int);
    }
    let p: i128 = (x as i128) * ((HALF_TURN - x) as i128);
    let n: i128 = 4 * p * (UNIT as i128);
    let d: i128 = 40_500_000_000_000_000 - p;
    (n / d) as i64
}

/// Approximate sine, scaled by `UNIT`. Exact at every multiple of 90 degrees.
pub fn sin_deg(a: i64) -> (r: i64)
    ensures
        r == sin_spec(a as int),
        -UNIT <= r <= UNIT,
{
    let m: i64 = turn_phase(a);
    if m <= HALF_TURN {
        half_wave_exec(m)
    } else {
        -half_wave_exec(m - HALF_TURN)
    }
}

/// Approximate cosine, scaled by `UNIT`.
pub fn cos_deg(a: i64) -> (r: i64)
    ensures
        r == cos_spec(a as int),
        -UNIT <= r <= UNIT,
{
    let m: i64 = turn_phase(a);
    proof {
        vstd::arithmetic::div_mod::lemma_add_mod_noop(a as int, QUARTER_TURN as int, FULL_TURN as int);
        vstd::arithmetic::div_mod::lemma_small_mod(QUARTER_TURN as nat, FULL_TURN as nat);
        vstd::arithmetic::div_mod::lemma_mod_twice(a as int + QUARTER_TURN, FULL_TURN as int);
    }
    let shifted: i64 = turn_phase(m + QUARTER_TURN);
    if shifted <= HALF_TURN {
        half_wave_exec(shifted)
    } else {
        -half_wave_exec(shifted - HALF_TURN)
    }
}

/// Arctangent of a ratio `z` between -1 and 1, in degrees:
/// `z * (45 + 15.6418 * (1 - |z|))`.
pub open spec fn atan_unit_spec(z: i64) -> i64 {
    let mag = if z < 0 { sneg(z) } else { z };
    smul(z, sadd(EIGHTH_TURN, smul(15_641_800, ssub(UNIT, mag))))
}

pub fn atan_unit(z: i64) -> (r: i64)
    ensures
        r == atan_unit_spec(z),
{
    let mag: i64 = if z < 0 { fx_neg(z) } else { z };
    fx_mul(z, fx_add(EIGHTH_TURN, fx_mul(15_641_800, fx_sub(UNIT, mag))))
}

/// Angle of the vector `(x, y)` in degrees, counter-clockwise from the
/// positive x axis, by octants around `atan_unit_spec`. The zero vector has
/// angle 0.
pub open spec fn atan2_spec(y: i64, x: i64) -> i64 {
    let ax = if x < 0 { sneg(x) } else { x };
    let ay = if y < 0 { sneg(y) } else { y };
    if ax == 0 && ay == 0 {
        0
    } else if ax >= ay {
        let base = atan_unit_spec(sdiv(y, x));
        if x > 0 {
            base
        } else if y >= 0 {
            sadd(base, HALF_TURN)
        } else {
            ssub(base, HALF_TURN)
        }
    } else {
        let base = atan_unit_spec(sdiv(x, y));
        if y > 0 {
            ssub(QUARTER_TURN, base)
        } else {
            ssub(sneg(QUARTER_TURN), base)
        }
    }
}

pub fn atan2_deg(y: i64, x: i64) -> (r: i64)
    ensures
        r == atan2_spec(y, x),
{
    let ax: i64 = if x < 0 { fx_neg(x) } else { x };
    let ay: i64 = if y < 0 { fx_neg(y) } else { y };
    if ax == 0 && ay == 0 {
        0
    } else if ax >= ay {
        let base: i64 = atan_unit(fx_div(y, x));
        if x > 0 {
            base
        } else if y >= 0 {
            fx_add(base, HALF_TURN)
        } else {
            fx_sub(base, HALF_TURN)
        }
    } else {
        let base: i64 = atan_unit(fx_div(x, y));
        if y > 0 {
            fx_sub(QUARTER_TURN, base)
        } else {
            fx_sub(fx_neg(QUARTER_TURN), base)
        }
    }
}

/// The approximations hit the exact values on the axes.
pub proof fn lemma_axis_values()
    ensures
        sin_spec(0) == 0,
        sin_spec(QUARTER_TURN as int) == UNIT,
        sin_spec(HALF_TURN as int) == 0,
        sin_spec(-(QUARTER_TURN as int)) == -UNIT,
        cos_spec(0) == UNIT,
        cos_spec(QUARTER_TURN as int) == 0,
        cos_spec(-(QUARTER_TURN as int)) == 0,
{
    assert(0int % 360_000_000 == 0) by (nonlinear_arith);
    assert(90_000_000int % 360_000_000 == 90_000_000) by (nonlinear_arith);
    assert(180_000_000int % 360_000_000 == 180_000_000) by (nonlinear_arith);
    assert((-90_000_000int) % 360_000_000 == 270_000_000) by (nonlinear_arith);
    assert(90_000_000int * (180_000_000 - 90_000_000) == 8_100_000_000_000_000) by (nonlinear_arith);
    assert((4 * 8_100_000_000_000_000int * 1_000_000) / (40_500_000_000_000_000int - 8_100_000_000_000_000)
        == 1_000_000) by (nonlinear_arith);
    assert(0int * (180_000_000 - 0) == 0) by (nonlinear_arith);
    assert(180_000_000int * (180_000_000 - 180_000_000) == 0) by (nonlinear_arith);
    assert((4 * 0int * 1_000_000) / 40_500_000_000_000_000int == 0) by (nonlinear_arith);
}

} // verus!
