use stage_sim::easing::{ease, EasingType};
use stage_sim::fixed::{
    fx_add, fx_clamp, fx_div, fx_lerp, fx_max, fx_min, fx_mul, fx_neg, fx_sub, isqrt, narrow, FX_MAX, FX_MIN, UNIT,
};
use stage_sim::trig::{atan2_deg, cos_deg, sin_deg, turn_phase, wrap_angle};
use stage_sim::vec2::{Rect, Vec2};

#[test]
fn sums_saturate_at_the_band() {
    assert_eq!(fx_add(1, 2), 3);
    assert_eq!(fx_add(FX_MAX, 1), FX_MAX);
    assert_eq!(fx_sub(FX_MIN, 5), FX_MIN);
    assert_eq!(fx_sub(10, 25), -15);
    assert_eq!(fx_neg(i64::MIN), FX_MAX);
    assert_eq!(narrow(i128::MAX), FX_MAX);
    assert_eq!(narrow(-7), -7);
}

#[test]
fn products_round_toward_zero() {
    assert_eq!(fx_mul(2 * UNIT, 3 * UNIT), 6 * UNIT);
    assert_eq!(fx_mul(1_500_000, 100_000_000), 150_000_000);
    assert_eq!(fx_mul(3, 500_000), 1);
    assert_eq!(fx_mul(-3, 500_000), -1);
    assert_eq!(fx_mul(FX_MAX, FX_MAX), FX_MAX);
    assert_eq!(fx_mul(FX_MAX, -FX_MAX), FX_MIN);
}

#[test]
fn quotients_round_toward_zero_and_zero_divides_to_zero() {
    assert_eq!(fx_div(6 * UNIT, 3 * UNIT), 2 * UNIT);
    assert_eq!(fx_div(UNIT, 3 * UNIT), 333_333);
    assert_eq!(fx_div(-UNIT, 3 * UNIT), -333_333);
    assert_eq!(fx_div(UNIT, -3 * UNIT), -333_333);
    assert_eq!(fx_div(5, 0), 0);
    assert_eq!(fx_div(FX_MAX, 1), FX_MAX);
}

#[test]
fn lerp_hits_both_ends() {
    assert_eq!(fx_lerp(10, 20, 0), 10);
    assert_eq!(fx_lerp(10, 20, UNIT), 20);
    assert_eq!(fx_lerp(0, 100 * UNIT, 250_000), 25 * UNIT);
    assert_eq!(fx_lerp(100 * UNIT, 0, 500_000), 50 * UNIT);
}

#[test]
fn clamping_twice_is_clamping_once() {
    for v in [-50i64, 0, 30, 100, 170] {
        let once = fx_clamp(v, 0, 100);
        assert!(0 <= once && once <= 100);
        assert_eq!(fx_clamp(once, 0, 100), once);
    }
    assert_eq!(fx_clamp(-1, 0, 100), 0);
    assert_eq!(fx_clamp(101, 0, 100), 100);
    assert_eq!(fx_clamp(55, 0, 100), 55);
    assert_eq!(fx_min(3, 4), 3);
    assert_eq!(fx_max(3, 4), 4);
}

#[test]
fn integer_square_root_is_the_floor() {
    assert_eq!(isqrt(0), 0);
    assert_eq!(isqrt(1), 1);
    assert_eq!(isqrt(15), 3);
    assert_eq!(isqrt(16), 4);
    assert_eq!(isqrt(17), 4);
    assert_eq!(isqrt(1_000_000_000_000), 1_000_000);
    assert_eq!(isqrt(u128::MAX), u64::MAX);
}

#[test]
fn sine_and_cosine_are_exact_on_the_axes() {
    assert_eq!(sin_deg(0), 0);
    assert_eq!(sin_deg(90_000_000), UNIT);
    assert_eq!(sin_deg(180_000_000), 0);
    assert_eq!(sin_deg(270_000_000), -UNIT);
    assert_eq!(sin_deg(-90_000_000), -UNIT);
    assert_eq!(cos_deg(0), UNIT);
    assert_eq!(cos_deg(90_000_000), 0);
    assert_eq!(cos_deg(180_000_000), -UNIT);
    assert_eq!(cos_deg(-90_000_000), 0);
    assert_eq!(sin_deg(30_000_000), 500_000);
    assert_eq!(sin_deg(720_000_000 + 90_000_000), UNIT);
}

#[test]
fn sine_stays_close_to_the_true_value() {
    // sin(45 degrees) is 0.70710...; the approximation may be off by a few thousandths.
    let s = sin_deg(45_000_000);
    assert!((s - 707_107).abs() < 3_000, "{}", s);
    let c = cos_deg(60_000_000);
    assert!((c - 500_000).abs() < 3_000, "{}", c);
}

#[test]
fn angles_wrap_into_one_turn_either_way() {
    assert_eq!(wrap_angle(0), 0);
    assert_eq!(wrap_angle(360_000_000), 360_000_000);
    assert_eq!(wrap_angle(-359_999_999), -359_999_999);
    assert_eq!(wrap_angle(361_000_000), 1_000_000);
    assert_eq!(wrap_angle(-361_000_000), -1_000_000);
    assert_eq!(wrap_angle(-360_000_000), 0);
    assert_eq!(wrap_angle(720_000_000), 360_000_000);
    assert_eq!(wrap_angle(1_085_000_000), 5_000_000);
    assert_eq!(turn_phase(-90_000_000), 270_000_000);
    assert_eq!(turn_phase(725_000_000), 5_000_000);
}

#[test]
fn arctangent_finds_the_quadrant() {
    assert_eq!(atan2_deg(0, UNIT), 0);
    assert_eq!(atan2_deg(UNIT, UNIT), 45_000_000);
    assert_eq!(atan2_deg(UNIT, 0), 90_000_000);
    assert_eq!(atan2_deg(0, -UNIT), 180_000_000);
    assert_eq!(atan2_deg(-UNIT, 0), -90_000_000);
    assert_eq!(atan2_deg(-UNIT, -UNIT), -135_000_000);
    assert_eq!(atan2_deg(0, 0), 0);
}

#[test]
fn vectors_add_scale_and_normalize() {
    let a = Vec2::new(3 * UNIT, 4 * UNIT);
    assert_eq!(a.magnitude(), 5 * UNIT);
    assert_eq!(a.normalized(), Vec2::new(600_000, 800_000));
    assert_eq!(Vec2::zero().normalized(), Vec2::zero());
    assert_eq!(a.plus(Vec2::ones()), Vec2::new(4 * UNIT, 5 * UNIT));
    assert_eq!(a.minus(Vec2::ones()), Vec2::new(2 * UNIT, 3 * UNIT));
    assert_eq!(a.scaled(500_000), Vec2::new(1_500_000, 2 * UNIT));
    assert_eq!(a.negated(), Vec2::new(-3 * UNIT, -4 * UNIT));
    assert_eq!(Vec2::lerp(Vec2::zero(), a, 500_000), Vec2::new(1_500_000, 2 * UNIT));
    assert_eq!(Vec2::filled(7), Vec2::new(7, 7));
    assert_eq!(Vec2::filled_x(7), Vec2::new(7, 0));
    assert_eq!(Vec2::filled_y(7), Vec2::new(0, 7));
    assert_eq!(Vec2::unit_x(), Vec2::new(UNIT, 0));
}

#[test]
fn facing_follows_the_screen() {
    assert_eq!(Vec2::from_angle_flipped_y(0), Vec2::new(UNIT, 0));
    // 90 degrees counter-clockwise on screen points up, where y is negative.
    assert_eq!(Vec2::from_angle_flipped_y(90_000_000), Vec2::new(0, -UNIT));
    assert_eq!(Vec2::from_angle_flipped_y(-90_000_000), Vec2::new(0, UNIT));
    assert_eq!(Vec2::unit_x().rotated_flipped_y(90_000_000), Vec2::new(0, -UNIT));
    assert_eq!(Vec2::unit_x().turned(Vec2::new(0, UNIT)), Vec2::new(0, UNIT));
}

#[test]
fn model_points_are_carried_into_the_scene() {
    let p = Vec2::new(4 * UNIT, 0);
    let placed = p.transformed(Vec2::zero(), Vec2::new(100 * UNIT, 50 * UNIT), Vec2::filled(3 * UNIT), Vec2::unit_x());
    assert_eq!(placed, Vec2::new(112 * UNIT, 50 * UNIT));
    let up = p.transformed(Vec2::zero(), Vec2::new(100 * UNIT, 50 * UNIT), Vec2::filled(3 * UNIT), Vec2::new(0, -UNIT));
    assert_eq!(up, Vec2::new(100 * UNIT, 38 * UNIT));
}

#[test]
fn rectangles_contain_and_clamp() {
    let canvas = Rect::from_width_height(480 * UNIT, 270 * UNIT);
    assert!(canvas.contains_point(Vec2::new(0, 0)));
    assert!(canvas.contains_point(Vec2::new(240 * UNIT, 135 * UNIT)));
    assert!(!canvas.contains_point(Vec2::new(480 * UNIT, 10)));
    assert!(!canvas.contains_point(Vec2::new(-1, 10)));
    assert_eq!(canvas.clamp_point(Vec2::new(-5, 300 * UNIT)), Vec2::new(0, 270 * UNIT));
    assert_eq!(canvas.clamp_point(Vec2::new(7, 9)), Vec2::new(7, 9));
}

#[test]
fn easing_curves_run_from_zero_to_one() {
    for kind in [EasingType::Linear, EasingType::CubicInOut, EasingType::StepEnd] {
        assert_eq!(ease(0, kind), 0);
        assert_eq!(ease(UNIT, kind), UNIT);
        assert_eq!(ease(-5, kind), 0);
        assert_eq!(ease(2 * UNIT, kind), UNIT);
    }
    assert_eq!(ease(250_000, EasingType::Linear), 250_000);
    assert_eq!(ease(500_000, EasingType::CubicInOut), 500_000);
    assert_eq!(ease(250_000, EasingType::CubicInOut), 62_500);
    assert_eq!(ease(750_000, EasingType::CubicInOut), 937_500);
    assert_eq!(ease(999_999, EasingType::StepEnd), 0);
}
