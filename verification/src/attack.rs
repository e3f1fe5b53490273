//! Attack patterns of the player's ship and the ship shapes.
use vstd::prelude::*;
use crate::color::{Color, color_neutral, color_ammo, color_boost, color_skill_point};

verus! {

#[derive(Clone, Copy, Debug, PartialEq, Eq, Hash, Structural)]
pub enum AttackType {
    Neutral,
    Double,
    Triple,
    Rapid,
    Spread,
    Back,
    Side,
}

/// Number of attack patterns that a pickup can grant: all but `Neutral`.
pub const GRANTABLE_ATTACKS: u64 = 6;

/// Tuning of one attack pattern.
#[derive(Clone, Copy, Debug, PartialEq, Eq, Structural)]
pub struct Attack {
    pub typename: AttackType,
    /// Seconds between two shots.
    pub reload_time: i64,
    /// Ammunition that one shot uses up.
    pub ammo_consumption_on_shot: i64,
    pub color: Color,
}

impl AttackType {
    /// The tuning of each pattern.
    pub open spec fn attack_spec(self) -> Attack {
        match self {
            AttackType::Neutral => Attack {
                typename: self,
                reload_time: 240_000,
                ammo_consumption_on_shot: 0,
                color: color_neutral(),
            },
            AttackType::Double => Attack {
                typename: self,
                reload_time: 320_000,
                ammo_consumption_on_shot: 2_000_000,
                color: color_ammo(),
            },
            AttackType::Triple => Attack {
                typename: self,
                reload_time: 320_000,
                ammo_consumption_on_shot: 3_000_000,
                color: color_boost(),
            },
            AttackType::Rapid => Attack {
                typename: self,
                reload_time: 120_000,
                ammo_consumption_on_shot: 1_000_000,
                color: color_neutral(),
            },
            AttackType::Spread => Attack {
                typename: self,
                reload_time: 160_000,
                ammo_consumption_on_shot: 1_000_000,
                color: color_neutral(),
            },
            AttackType::Back => Attack {
                typename: self,
                reload_time: 320_000,
                ammo_consumption_on_shot: 2_000_000,
                color: color_skill_point(),
            },
            AttackType::Side => Attack {
                typename: self,
                reload_time: 320_000,
                ammo_consumption_on_shot: 3_000_000,
                color: color_boost(),
            },
        }
    }

    pub fn attack(self) -> (a: Attack)
        ensures
            a == self.attack_spec(),
            a.typename == self,
            a.reload_time > 0,
            a.ammo_consumption_on_shot >= 0,
    {
        match self {
            AttackType::Neutral => Attack {
                typename: self,
                reload_time: 240_000,
                ammo_consumption_on_shot: 0,
                color: color_neutral(),
            },
            AttackType::Double => Attack {
                typename: self,
                reload_time: 320_000,
                ammo_consumption_on_shot: 2_000_000,
                color: color_ammo(),
            },
            AttackType::Triple => Attack {
                typename: self,
                reload_time: 320_000,
                ammo_consumption_on_shot: 3_000_000,
                color: color_boost(),
            },
            AttackType::Rapid => Attack {
                typename: self,
                reload_time: 120_000,
                ammo_consumption_on_shot: 1_000_000,
                color: color_neutral(),
            },
            AttackType::Spread => Attack {
                typename: self,
                reload_time: 160_000,
                ammo_consumption_on_shot: 1_000_000,
                color: color_neutral(),
            },
            AttackType::Back => Attack {
                typename: self,
                reload_time: 320_000,
                ammo_consumption_on_shot: 2_000_000,
                color: color_skill_point(),
            },
            AttackType::Side => Attack {
                typename: self,
                reload_time: 320_000,
                ammo_consumption_on_shot: 3_000_000,
                color: color_boost(),
            },
        }
    }

    /// The pattern's display name.
    pub fn name(self) -> (s: &'static str)
        ensures
            s@ == self.name_spec(),
    {
        match self {
            AttackType::Neutral => "Neutral",
            AttackType::Double => "Double",
            AttackType::Triple => "Triple",
            AttackType::Rapid => "Rapid",
            AttackType::Spread => "Spread",
            AttackType::Back => "Back",
            AttackType::Side => "Side",
        }
    }

    pub open spec fn name_spec(self) -> Seq<char> {
        match self {
            AttackType::Neutral => "Neutral"@,
            AttackType::Double => "Double"@,
            AttackType::Triple => "Triple"@,
            AttackType::Rapid => "Rapid"@,
            AttackType::Spread => "Spread"@,
            AttackType::Back => "Back"@,
            AttackType::Side => "Side"@,
        }
    }

    /// The short label shown on a pickup.
    pub fn name_abbreviation(self) -> (s: &'static str)
        ensures
            s@ == self.abbreviation_spec(),
    {
        match self {
            AttackType::Neutral => "N",
            AttackType::Double => "2",
            AttackType::Triple => "3",
            AttackType::Rapid => "R",
            AttackType::Spread => "RS",
            AttackType::Back => "Ba",
            AttackType::Side => "Si",
        }
    }

    pub open spec fn abbreviation_spec(self) -> Seq<char> {
        match self {
            AttackType::Neutral => "N"@,
            AttackType::Double => "2"@,
            AttackType::Triple => "3"@,
            AttackType::Rapid => "R"@,
            AttackType::Spread => "RS"@,
            AttackType::Back => "Ba"@,
            AttackType::Side => "Si"@,
        }
    }

    /// The `index`-th pattern that a pickup can grant, counting modulo
    /// their number; `Neutral` is never among them.
    pub open spec fn grantable_spec(index: u64) -> AttackType {
        let i = index % GRANTABLE_ATTACKS;
        if i == 0 {
            AttackType::Double
        } else if i == 1 {
            AttackType::Triple
        } else if i == 2 {
            AttackType::Rapid
        } else if i == 3 {
            AttackType::Spread
        } else if i == 4 {
            AttackType::Back
        } else {
            AttackType::Side
        }
    }

    pub fn grantable(index: u64) -> (t: AttackType)
        ensures
            t == Self::grantable_spec(index),
            t != AttackType::Neutral,
    {
        let i: u64 = index % GRANTABLE_ATTACKS;
        if i == 0 {
            AttackType::Double
        } else if i == 1 {
            AttackType::Triple
        } else if i == 2 {
            AttackType::Rapid
        } else if i == 3 {
            AttackType::Spread
        } else if i == 4 {
            AttackType::Back
        } else {
            AttackType::Side
        }
    }
}

#[derive(Clone, Copy, Debug, PartialEq, Eq, Structural)]
pub enum ShipType {
    Fighter,
    Sorcerer,
    Rogue,
}

/// A point of a ship model.
pub open spec fn pt(x: int, y: int) -> (i32, i32) {
    (x as i32, y as i32)
}

/// One outline of a ship, in model coordinates.
pub open spec fn ship_outline(ship_type: ShipType, part: int) -> Seq<(i32, i32)> {
    match ship_type {
        ShipType::Fighter => if part == 0 {
            seq![pt(4, 0), pt(2, -2), pt(-2, -2), pt(-3, -1), pt(-4, 0), pt(-3, 1), pt(-2, 2), pt(2, 2), pt(4, 0)]
        } else if part == 1 {
            seq![pt(2, -2), pt(0, -4), pt(-6, -4), pt(-3, -1)]
        } else {
            seq![pt(2, 2), pt(0, 4), pt(-6, 4), pt(-3, 1)]
        },
        ShipType::Rogue => if part == 0 {
            seq![pt(4, 0), pt(-2, -2), pt(-4, 0), pt(-2, 2), pt(4, 0)]
        } else if part == 1 {
            seq![pt(2, -1), pt(1, -3), pt(-7, -7), pt(-2, -2)]
        } else {
            seq![pt(2, 1), pt(1, 3), pt(-7, 7), pt(-2, 2)]
        },
        ShipType::Sorcerer => if part == 0 {
            seq![pt(5, 0), pt(2, -2), pt(-4, 0), pt(2, 2), pt(5, 0)]
        } else if part == 1 {
            seq![pt(2, -2), pt(5, -7), pt(-1, -4), pt(-4, 0)]
        } else {
            seq![pt(2, 2), pt(5, 7), pt(-1, 4), pt(-4, 0)]
        },
    }
}

/// The three outlines of a ship: hull, left wing, right wing.
pub fn get_draw_lines_for_ship(ship_type: ShipType) -> (lines: Vec<Vec<(i32, i32)>>)
    ensures
        lines@.len() == 3,
        forall|part: int| 0 <= part < 3 ==> (#[trigger] lines@[part])@ == ship_outline(ship_type, part),
{
    let (hull, wing_left, wing_right): (Vec<(i32, i32)>, Vec<(i32, i32)>, Vec<(i32, i32)>) = match ship_type {
        ShipType::Fighter => (
            vec![(4i32, 0i32), (2, -2), (-2, -2), (-3, -1), (-4, 0), (-3, 1), (-2, 2), (2, 2), (4, 0)],
            vec![(2i32, -2i32), (0, -4), (-6, -4), (-3, -1)],
            vec![(2i32, 2i32), (0, 4), (-6, 4), (-3, 1)],
        ),
        ShipType::Rogue => (
            vec![(4i32, 0i32), (-2, -2), (-4, 0), (-2, 2), (4, 0)],
            vec![(2i32, -1i32), (1, -3), (-7, -7), (-2, -2)],
            vec![(2i32, 1i32), (1, 3), (-7, 7), (-2, 2)],
        ),
        ShipType::Sorcerer => (
            vec![(5i32, 0i32), (2, -2), (-4, 0), (2, 2), (5, 0)],
            vec![(2i32, -2i32), (5, -7), (-1, -4), (-4, 0)],
            vec![(2i32, 2i32), (5, 7), (-1, 4), (-4, 0)],
        ),
    };
    let mut lines: Vec<Vec<(i32, i32)>> = Vec::new();
    lines.push(hull);
    lines.push(wing_left);
    lines.push(wing_right);
    lines
}

/// Where a ship's shots leave it, in model coordinates.
pub open spec fn shoot_points_spec(ship_type: ShipType) -> Seq<(i32, i32)> {
    match ship_type {
        ShipType::Fighter => seq![pt(4, 0)],
        ShipType::Rogue => seq![pt(4, 0)],
        ShipType::Sorcerer => seq![pt(5, 0)],
    }
}

pub fn get_shoot_points_for_ship(ship_type: ShipType) -> (points: Vec<(i32, i32)>)
    ensures
        points@ == shoot_points_spec(ship_type),
        points@.len() == 1,
{
    match ship_type {
        ShipType::Fighter => vec![(4i32, 0i32)],
        ShipType::Rogue => vec![(4i32, 0i32)],
        ShipType::Sorcerer => vec![(5i32, 0i32)],
    }
}

/// Where a ship's exhaust leaves it, in model coordinates.
pub open spec fn exhaust_points_spec(ship_type: ShipType) -> Seq<(i32, i32)> {
    match ship_type {
        ShipType::Fighter => seq![pt(-3, -1), pt(-3, 1)],
        ShipType::Rogue => seq![pt(-3, -2), pt(-3, 2)],
        ShipType::Sorcerer => seq![pt(-4, 0)],
    }
}

pub fn get_exhaust_points_for_ship(ship_type: ShipType) -> (points: Vec<(i32, i32)>)
    ensures
        points@ == exhaust_points_spec(ship_type),
        1 <= points@.len() <= 2,
{
    match ship_type {
        ShipType::Fighter => vec![(-3i32, -1i32), (-3, 1)],
        ShipType::Rogue => vec![(-3i32, -2i32), (-3, 2)],
        ShipType::Sorcerer => vec![(-4i32, 0i32)],
    }
}

} // verus!
