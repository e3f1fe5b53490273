//! Easing curves over a completion ratio.
use vstd::prelude::*;
use crate::fixed::{UNIT, fx_clamp, fx_mul, fx_sub, fx_add, sclamp, smul, ssub, sadd};

verus! {

#[derive(Clone, Copy, Debug, PartialEq, Eq, Structural)]
pub enum EasingType {
    Linear,
    CubicInOut,
    StepEnd,
}

/// The eased share for a ratio `t`, both between 0 and `UNIT`:
/// linear is the ratio itself; cubic in-out is `4t^3` in the first half and
/// `1 + (2t - 2)^3 / 2` in the second; step-end stays at 0 until the ratio
/// is complete.
pub open spec fn ease_spec(t: i64, easing: EasingType) -> i64 {
    let x = sclamp(t, 0, UNIT);
    match easing {
        EasingType::Linear => x,
        EasingType::CubicInOut => {
            if x < 500_000 {
                sclamp(smul(4_000_000, smul(x, smul(x, x))), 0, UNIT)
            } else {
                let y = ssub(smul(2_000_000, x), 2_000_000);
                sclamp(sadd(UNIT, smul(500_000, smul(y, smul(y, y)))), 0, UNIT)
            }
        },
        EasingType::StepEnd => if x >= UNIT { UNIT } else { 0 },
    }
}

pub fn ease(t: i64, easing: EasingType) -> (r: i64)
    ensures
        r == ease_spec(t, easing),
        0 <= r <= UNIT,
{
    let x: i64 = fx_clamp(t, 0, UNIT);
    match easing {
        EasingType::Linear => x,
        EasingType::CubicInOut => {
            if x < 500_000 {
                fx_clamp(fx_mul(4_000_000, fx_mul(x, fx_mul(x, x))), 0, UNIT)
            } else {
                let y: i64 = fx_sub(fx_mul(2_000_000, x), 2_000_000);
                fx_clamp(fx_add(UNIT, fx_mul(500_000, fx_mul(y, fx_mul(y, y)))), 0, UNIT)
            }
        },
        EasingType::StepEnd => if x >= UNIT { UNIT } else { 0 },
    }
}

} // verus!
