//! Colors with 8-bit channels and the palette of the game.
use vstd::prelude::*;
use crate::fixed::{UNIT, fx_clamp, sclamp};

verus! {

#[derive(Clone, Copy, Debug, PartialEq, Eq, Structural)]
pub struct Color {
    pub r: u8,
    pub g: u8,
    pub b: u8,
    pub a: u8,
}

/// Backdrop of the canvas.
pub open spec fn background_tone() -> Color {
    Color { r: 16, g: 16, b: 16, a: 255 }
}

#[verifier::when_used_as_spec(background_tone)]
pub fn color_background() -> (c: Color)
    ensures
        c == background_tone(),
{
    Color { r: 16, g: 16, b: 16, a: 255 }
}

/// Neutral foreground tone.
pub open spec fn neutral_tone() -> Color {
    Color { r: 222, g: 222, b: 222, a: 255 }
}

#[verifier::when_used_as_spec(neutral_tone)]
pub fn color_neutral() -> (c: Color)
    ensures
        c == neutral_tone(),
{
    Color { r: 222, g: 222, b: 222, a: 255 }
}

/// Tone of ammunition.
pub open spec fn ammo_tone() -> Color {
    Color { r: 123, g: 200, b: 164, a: 255 }
}

#[verifier::when_used_as_spec(ammo_tone)]
pub fn color_ammo() -> (c: Color)
    ensures
        c == ammo_tone(),
{
    Color { r: 123, g: 200, b: 164, a: 255 }
}

/// Tone of boost.
pub open spec fn boost_tone() -> Color {
    Color { r: 76, g: 195, b: 217, a: 255 }
}

#[verifier::when_used_as_spec(boost_tone)]
pub fn color_boost() -> (c: Color)
    ensures
        c == boost_tone(),
{
    Color { r: 76, g: 195, b: 217, a: 255 }
}

/// Tone of hit points and of enemies.
pub open spec fn hp_tone() -> Color {
    Color { r: 241, g: 103, b: 69, a: 255 }
}

#[verifier::when_used_as_spec(hp_tone)]
pub fn color_hp() -> (c: Color)
    ensures
        c == hp_tone(),
{
    Color { r: 241, g: 103, b: 69, a: 255 }
}

/// Tone of skill points.
pub open spec fn skill_point_tone() -> Color {
    Color { r: 255, g: 198, b: 93, a: 255 }
}

#[verifier::when_used_as_spec(skill_point_tone)]
pub fn color_skill_point() -> (c: Color)
    ensures
        c == skill_point_tone(),
{
    Color { r: 255, g: 198, b: 93, a: 255 }
}

/// Fully transparent black.
pub open spec fn transparent_tone() -> Color {
    Color { r: 0, g: 0, b: 0, a: 0 }
}

#[verifier::when_used_as_spec(transparent_tone)]
pub fn color_transparent() -> (c: Color)
    ensures
        c == transparent_tone(),
{
    Color { r: 0, g: 0, b: 0, a: 0 }
}

/// Number of entries of the full palette.
pub const PALETTE_LEN: u64 = 9;

/// One channel blended from `a` to `b` by the share `t` of `UNIT`.
pub open spec fn channel_lerp(a: u8, b: u8, t: i64) -> u8 {
    let s = sclamp(t, 0, UNIT);
    if b >= a {
        (a + ((b - a) * s) / (UNIT as int)) as u8
    } else {
        (a - ((a - b) * s) / (UNIT as int)) as u8
    }
}

fn lerp_channel(a: u8, b: u8, t: i64) -> (c: u8)
    ensures
        c == channel_lerp(a, b, t),
{
    let s: i64 = fx_clamp(t, 0, UNIT);
    if b >= a {
        let span: i64 = (b - a) as i64;
        assert(0 <= span * s <= 255 * UNIT) by (nonlinear_arith)
            requires
                0 <= span <= 255,
                0 <= s <= UNIT,
        ;
        let step: i64 = (span * s) / UNIT;
        assert(step <= span) by (nonlinear_arith)
            requires
                step == (span * s) / (UNIT as int),
                0 <= span,
                0 <= s <= UNIT,
                UNIT == 1_000_000,
        ;
        (a as i64 + step) as u8
    } else {
        let span: i64 = (a - b) as i64;
        assert(0 <= span * s <= 255 * UNIT) by (nonlinear_arith)
            requires
                0 <= span <= 255,
                0 <= s <= UNIT,
        ;
        let step: i64 = (span * s) / UNIT;
        assert(step <= span) by (nonlinear_arith)
            requires
                step == (span * s) / (UNIT as int),
                0 <= span,
                0 <= s <= UNIT,
                UNIT == 1_000_000,
        ;
        (a as i64 - step) as u8
    }
}

impl Color {
    /// The complementary color, with the same opacity.
    pub open spec fn negative_spec(self) -> Color {
        Color { r: (255 - self.r) as u8, g: (255 - self.g) as u8, b: (255 - self.b) as u8, a: self.a }
    }

    /// Channel-wise blend from `a` to `b`.
    pub open spec fn lerp_spec(a: Color, b: Color, t: i64) -> Color {
        Color {
            r: channel_lerp(a.r, b.r, t),
            g: channel_lerp(a.g, b.g, t),
            b: channel_lerp(a.b, b.b, t),
            a: channel_lerp(a.a, b.a, t),
        }
    }

    pub fn negative(self) -> (c: Color)
        ensures
            c == self.negative_spec(),
    {
        Color { r: 255 - self.r, g: 255 - self.g, b: 255 - self.b, a: self.a }
    }

    pub fn lerp(a: Color, b: Color, t: i64) -> (c: Color)
        ensures
            c == Self::lerp_spec(a, b, t),
    {
        Color {
            r: lerp_channel(a.r, b.r, t),
            g: lerp_channel(a.g, b.g, t),
            b: lerp_channel(a.b, b.b, t),
            a: lerp_channel(a.a, b.a, t),
        }
    }
}

/// Entry `index` of the full palette: the five base colors, then the
/// complements of the four tinted ones. Indices count modulo the length.
pub open spec fn palette_spec(index: u64) -> Color {
    let i = index % PALETTE_LEN;
    if i == 0 {
        color_neutral()
    } else if i == 1 {
        color_hp()
    } else if i == 2 {
        color_ammo()
    } else if i == 3 {
        color_boost()
    } else if i == 4 {
        color_skill_point()
    } else if i == 5 {
        color_hp().negative_spec()
    } else if i == 6 {
        color_ammo().negative_spec()
    } else if i == 7 {
        color_boost().negative_spec()
    } else {
        color_skill_point().negative_spec()
    }
}

pub fn palette(index: u64) -> (c: Color)
    ensures
        c == palette_spec(index),
{
    let i: u64 = index % PALETTE_LEN;
    if i == 0 {
        color_neutral()
    } else if i == 1 {
        color_hp()
    } else if i == 2 {
        color_ammo()
    } else if i == 3 {
        color_boost()
    } else if i == 4 {
        color_skill_point()
    } else if i == 5 {
        color_hp().negative()
    } else if i == 6 {
        color_ammo().negative()
    } else if i == 7 {
        color_boost().negative()
    } else {
        color_skill_point().negative()
    }
}

} // verus!
