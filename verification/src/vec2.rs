//! Two-dimensional fixed-point vectors in screen coordinates (y grows
//! downward, angles turn counter-clockwise as seen on screen).
use vstd::prelude::*;
use crate::fixed::{UNIT, sat, isqrt, isqrt_spec, fx_add, fx_sub, fx_neg, fx_mul, fx_div, fx_lerp, sadd,
    ssub, sneg, smul, sdiv, slerp, lemma_product_bound};
use crate::trig::{sin_deg, cos_deg, sin_spec, cos_spec};

verus! {

#[derive(Clone, Copy, Debug, PartialEq, Eq, Structural)]
pub struct Vec2 {
    pub x: i64,
    pub y: i64,
}

impl Vec2 {
    pub open spec fn plus_spec(self, o: Vec2) -> Vec2 {
        Vec2 { x: sadd(self.x, o.x), y: sadd(self.y, o.y) }
    }

    pub open spec fn minus_spec(self, o: Vec2) -> Vec2 {
        Vec2 { x: ssub(self.x, o.x), y: ssub(self.y, o.y) }
    }

    pub open spec fn negated_spec(self) -> Vec2 {
        Vec2 { x: sneg(self.x), y: sneg(self.y) }
    }

    pub open spec fn scaled_spec(self, k: i64) -> Vec2 {
        Vec2 { x: smul(self.x, k), y: smul(self.y, k) }
    }

    pub open spec fn scaled_by_spec(self, k: Vec2) -> Vec2 {
        Vec2 { x: smul(self.x, k.x), y: smul(self.y, k.y) }
    }

    /// Euclidean length, rounded down.
    pub open spec fn magnitude_spec(self) -> i64 {
        sat(isqrt_spec(self.x * self.x + self.y * self.y)) as i64
    }

    /// The vector scaled to length 1; the zero vector stays zero.
    pub open spec fn normalized_spec(self) -> Vec2 {
        let m = self.magnitude_spec();
        if m == 0 {
            Vec2 { x: 0, y: 0 }
        } else {
            Vec2 { x: sdiv(self.x, m), y: sdiv(self.y, m) }
        }
    }

    pub open spec fn lerp_spec(a: Vec2, b: Vec2, t: i64) -> Vec2 {
        Vec2 { x: slerp(a.x, b.x, t), y: slerp(a.y, b.y, t) }
    }

    /// Unit vector that points along `angle` on screen.
    pub open spec fn from_angle_spec(angle: i64) -> Vec2 {
        Vec2 { x: cos_spec(angle as int) as i64, y: (-sin_spec(angle as int)) as i64 }
    }

    /// The vector turned by the direction `dir`, a unit vector taken as the
    /// image of the x axis.
    pub open spec fn turned_spec(self, dir: Vec2) -> Vec2 {
        Vec2 {
            x: ssub(smul(self.x, dir.x), smul(self.y, dir.y)),
            y: sadd(smul(self.x, dir.y), smul(self.y, dir.x)),
        }
    }

    /// The vector turned by `angle` on screen.
    pub open spec fn rotated_spec(self, angle: i64) -> Vec2 {
        self.turned_spec(Self::from_angle_spec(angle))
    }

    /// A model point carried into the scene: moved so that `pivot` becomes
    /// the origin, scaled, turned by `dir`, and placed at `pos`.
    pub open spec fn transformed_spec(self, pivot: Vec2, pos: Vec2, scale: Vec2, dir: Vec2) -> Vec2 {
        self.minus_spec(pivot).scaled_by_spec(scale).turned_spec(dir).plus_spec(pos)
    }

    pub fn new(x: i64, y: i64) -> (v: Vec2)
        ensures
            v == (Vec2 { x, y }),
    {
        Vec2 { x, y }
    }

    pub fn zero() -> (v: Vec2)
        ensures
            v == (Vec2 { x: 0, y: 0 }),
    {
        Vec2 { x: 0, y: 0 }
    }

    pub fn ones() -> (v: Vec2)
        ensures
            v == (Vec2 { x: UNIT, y: UNIT }),
    {
        Vec2 { x: UNIT, y: UNIT }
    }

    pub fn unit_x() -> (v: Vec2)
        ensures
            v == (Vec2 { x: UNIT, y: 0 }),
    {
        Vec2 { x: UNIT, y: 0 }
    }

    pub fn filled(value: i64) -> (v: Vec2)
        ensures
            v == (Vec2 { x: value, y: value }),
    {
        Vec2 { x: value, y: value }
    }

    pub fn filled_x(value: i64) -> (v: Vec2)
        ensures
            v == (Vec2 { x: value, y: 0 }),
    {
        Vec2 { x: value, y: 0 }
    }

    pub fn filled_y(value: i64) -> (v: Vec2)
        ensures
            v == (Vec2 { x: 0, y: value }),
    {
        Vec2 { x: 0, y: value }
    }

    pub fn plus(self, o: Vec2) -> (v: Vec2)
        ensures
            v == self.plus_spec(o),
    {
        Vec2 { x: fx_add(self.x, o.x), y: fx_add(self.y, o.y) }
    }

    pub fn minus(self, o: Vec2) -> (v: Vec2)
        ensures
            v == self.minus_spec(o),
    {
        Vec2 { x: fx_sub(self.x, o.x), y: fx_sub(self.y, o.y) }
    }

    pub fn negated(self) -> (v: Vec2)
        ensures
            v == self.negated_spec(),
    {
        Vec2 { x: fx_neg(self.x), y: fx_neg(self.y) }
    }

    pub fn scaled(self, k: i64) -> (v: Vec2)
        ensures
            v == self.scaled_spec(k),
    {
        Vec2 { x: fx_mul(self.x, k), y: fx_mul(self.y, k) }
    }

    pub fn scaled_by(self, k: Vec2) -> (v: Vec2)
        ensures
            v == self.scaled_by_spec(k),
    {
        Vec2 { x: fx_mul(self.x, k.x), y: fx_mul(self.y, k.y) }
    }

    pub fn magnitude(self) -> (m: i64)
        ensures
            m == self.magnitude_spec(),
            m >= 0,
    {
        proof {
            lemma_product_bound(self.x as int, self.x as int);
            lemma_product_bound(self.y as int, self.y as int);
            assert(self.x * self.x >= 0) by (nonlinear_arith);
            assert(self.y * self.y >= 0) by (nonlinear_arith);
        }
        let xx: u128 = ((self.x as i128) * (self.x as i128)) as u128;
        let yy: u128 = ((self.y as i128) * (self.y as i128)) as u128;
        let root: u64 = isqrt(xx + yy);
        if root > 0x7fff_ffff_ffff_ffff {
            0x7fff_ffff_ffff_ffff
        } else {
            root as i64
        }
    }

    pub fn normalized(self) -> (v: Vec2)
        ensures
            v == self.normalized_spec(),
    {
        let m: i64 = self.magnitude();
        if m == 0 {
            Vec2 { x: 0, y: 0 }
        } else {
            Vec2 { x: fx_div(self.x, m), y: fx_div(self.y, m) }
        }
    }

    pub fn lerp(a: Vec2, b: Vec2, t: i64) -> (v: Vec2)
        ensures
            v == Self::lerp_spec(a, b, t),
    {
        Vec2 { x: fx_lerp(a.x, b.x, t), y: fx_lerp(a.y, b.y, t) }
    }

    pub fn from_angle_flipped_y(angle: i64) -> (v: Vec2)
        ensures
            v == Self::from_angle_spec(angle),
            -UNIT <= v.x <= UNIT,
            -UNIT <= v.y <= UNIT,
            angle == 0 ==> v == (Vec2 { x: UNIT, y: 0 }),
            angle == 90_000_000 ==> v == (Vec2 { x: 0, y: (-1_000_000) as i64 }),
            angle == -90_000_000 ==> v == (Vec2 { x: 0, y: UNIT }),
    {
        proof {
            crate::trig::lemma_axis_values();
        }
        Vec2 { x: cos_deg(angle), y: -sin_deg(angle) }
    }

    pub fn turned(self, dir: Vec2) -> (v: Vec2)
        ensures
            v == self.turned_spec(dir),
    {
        Vec2 {
            x: fx_sub(fx_mul(self.x, dir.x), fx_mul(self.y, dir.y)),
            y: fx_add(fx_mul(self.x, dir.y), fx_mul(self.y, dir.x)),
        }
    }

    pub fn rotated_flipped_y(self, angle: i64) -> (v: Vec2)
        ensures
            v == self.rotated_spec(angle),
    {
        self.turned(Vec2::from_angle_flipped_y(angle))
    }

    pub fn transformed(self, pivot: Vec2, pos: Vec2, scale: Vec2, dir: Vec2) -> (v: Vec2)
        ensures
            v == self.transformed_spec(pivot, pos, scale, dir),
    {
        self.minus(pivot).scaled_by(scale).turned(dir).plus(pos)
    }
}

/// An axis-aligned rectangle given by its top-left corner and its size.
#[derive(Clone, Copy, Debug, PartialEq, Eq, Structural)]
pub struct Rect {
    pub pos: Vec2,
    pub dim: Vec2,
}

impl Rect {
    /// The point lies inside the rectangle; the right and bottom edges are
    /// outside.
    pub open spec fn contains_spec(self, p: Vec2) -> bool {
        self.pos.x <= p.x < self.pos.x + self.dim.x && self.pos.y <= p.y < self.pos.y + self.dim.y
    }

    /// The point of the rectangle, edges included, nearest to `p`.
    pub open spec fn clamped_spec(self, p: Vec2) -> Vec2 {
        Vec2 {
            x: crate::fixed::sclamp(p.x, self.pos.x, sadd(self.pos.x, self.dim.x)),
            y: crate::fixed::sclamp(p.y, self.pos.y, sadd(self.pos.y, self.dim.y)),
        }
    }

    pub fn from_width_height(width: i64, height: i64) -> (r: Rect)
        ensures
            r == (Rect { pos: Vec2 { x: 0, y: 0 }, dim: Vec2 { x: width, y: height } }),
    {
        Rect { pos: Vec2 { x: 0, y: 0 }, dim: Vec2 { x: width, y: height } }
    }

    pub fn contains_point(&self, p: Vec2) -> (inside: bool)
        ensures
            inside == self.contains_spec(p),
    {
        self.pos.x <= p.x && (p.x as i128) < self.pos.x as i128 + self.dim.x as i128
            && self.pos.y <= p.y && (p.y as i128) < self.pos.y as i128 + self.dim.y as i128
    }

    pub fn clamp_point(&self, p: Vec2) -> (q: Vec2)
        ensures
            q == self.clamped_spec(p),
    {
        Vec2 {
            x: crate::fixed::fx_clamp(p.x, self.pos.x, fx_add(self.pos.x, self.dim.x)),
            y: crate::fixed::fx_clamp(p.y, self.pos.y, fx_add(self.pos.y, self.dim.y)),
        }
    }
}

} // verus!
