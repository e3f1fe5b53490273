//! The component records that an entity can carry.
use vstd::prelude::*;
use crate::attack::{Attack, AttackType, ShipType};
use crate::color::Color;
use crate::easing::{EasingType, ease, ease_spec};
use crate::fixed::{UNIT, fx_add, fx_mul, fx_lerp, sadd, smul, slerp};
use crate::skill::Skill;
use crate::timer::{TimerSimple, TriggerRepeating, TimerStateSwitchBinary};
use crate::vec2::Vec2;

verus! {

/// Identity of an entity: the bits of its handle in the world.
pub type EntityId = u64;

pub const COLLISION_LAYER_ENEMY: u64 = 1;

pub const COLLISION_LAYER_PLAYER: u64 = 2;

pub const COLLISION_LAYER_ENEMY_PROJECTILE: u64 = 4;

pub const COLLISION_LAYER_PLAYER_PROJECTILE: u64 = 8;

pub const COLLISION_LAYER_COLLECTIBLES: u64 = 16;

pub const DEPTH_BACKGROUND: i64 = 0;

pub const DEPTH_PLAYER: i64 = 10_000_000;

pub const DEPTH_COLLECTIBLES: i64 = 15_000_000;

pub const DEPTH_PROJECTILE: i64 = 20_000_000;

pub const DEPTH_EFFECTS: i64 = 30_000_000;

pub const DEPTH_INFOTEXT: i64 = 35_000_000;

pub const DEPTH_GUI: i64 = 55_000_000;

pub const DEPTH_SCREENFLASH: i64 = 60_000_000;

pub const PLAYER_BASE_HP: i64 = 100_000_000;

pub const PLAYER_BASE_BOOST: i64 = 100_000_000;

pub const PLAYER_BASE_AMMO: i64 = 100_000_000;

pub const PLAYER_BASE_GAIN_HP: i64 = 25_000_000;

pub const PLAYER_BASE_GAIN_AMMO: i64 = 5_000_000;

pub const PLAYER_BASE_GAIN_BOOST: i64 = 25_000_000;

/// The switch that makes a drawable blink.
pub type Blinker = TimerStateSwitchBinary;

/// Circular bounds, the layers the entity is on, the layers it acts on, and
/// the entities it touched in the current frame.
#[derive(Clone, Debug, PartialEq, Eq)]
pub struct Collider {
    pub radius: i64,
    pub layers_own: u64,
    pub layers_affects: u64,
    pub collisions: Vec<EntityId>,
}

/// Position and facing, the latter in degrees counter-clockwise.
#[derive(Clone, Copy, Debug, PartialEq, Eq, Structural)]
pub struct Transform {
    pub pos: Vec2,
    pub dir_angle: i64,
}

#[derive(Clone, Copy, Debug, PartialEq, Eq, Structural)]
pub struct Motion {
    pub vel: Vec2,
    pub acc: Vec2,
    /// Degrees per second, counter-clockwise.
    pub dir_angle_vel: i64,
    pub dir_angle_acc: i64,
}

#[derive(Clone, Copy, Debug, PartialEq, Eq, Structural)]
pub struct TweenColor {
    pub timer_tween: TimerSimple,
    pub color_start: Color,
    pub color_end: Color,
    pub easing_type: EasingType,
}

impl TweenColor {
    pub open spec fn new_spec(color_start: Color, color_end: Color, tween_time: i64, easing_type: EasingType) -> TweenColor {
        TweenColor {
            timer_tween: TimerSimple::new_started_spec(tween_time as int),
            color_start,
            color_end,
            easing_type,
        }
    }

    /// The color that the tween shows at its current time.
    pub open spec fn color_now(self) -> Color {
        Color::lerp_spec(
            self.color_start,
            self.color_end,
            ease_spec(self.timer_tween.ratio() as i64, self.easing_type),
        )
    }

    pub fn new(color_start: Color, color_end: Color, tween_time: i64, easing_type: EasingType) -> (t: TweenColor)
        ensures
            t == Self::new_spec(color_start, color_end, tween_time, easing_type),
    {
        TweenColor { timer_tween: TimerSimple::new_started(tween_time), color_start, color_end, easing_type }
    }

    /// Advances the tween and paints the drawable in the color reached.
    pub fn update(&mut self, drawable: &mut Drawable, deltatime: i64)
        ensures
            final(self).timer_tween == old(self).timer_tween.advanced(deltatime as int),
            final(self).color_start == old(self).color_start,
            final(self).color_end == old(self).color_end,
            final(self).easing_type == old(self).easing_type,
            *final(drawable) == (Drawable { color: final(self).color_now(), ..*old(drawable) }),
    {
        self.timer_tween.update(deltatime);
        let percentage: i64 = ease(self.timer_tween.completion_ratio(), self.easing_type);
        drawable.color = Color::lerp(self.color_start, self.color_end, percentage);
    }
}

#[derive(Clone, Copy, Debug, PartialEq, Eq, Structural)]
pub struct TweenScale {
    pub timer_tween: TimerSimple,
    pub scale_start: i64,
    pub scale_end: i64,
    pub easing_type: EasingType,
}

impl TweenScale {
    pub open spec fn new_spec(scale_start: i64, scale_end: i64, tween_time: i64, easing_type: EasingType) -> TweenScale {
        TweenScale {
            timer_tween: TimerSimple::new_started_spec(tween_time as int),
            scale_start,
            scale_end,
            easing_type,
        }
    }

    /// The scale that the tween shows at its current time.
    pub open spec fn scale_now(self) -> i64 {
        slerp(self.scale_start, self.scale_end, ease_spec(self.timer_tween.ratio() as i64, self.easing_type))
    }

    pub fn new(scale_start: i64, scale_end: i64, tween_time: i64, easing_type: EasingType) -> (t: TweenScale)
        ensures
            t == Self::new_spec(scale_start, scale_end, tween_time, easing_type),
    {
        TweenScale { timer_tween: TimerSimple::new_started(tween_time), scale_start, scale_end, easing_type }
    }

    /// Advances the tween and scales the drawable to the size reached.
    pub fn update(&mut self, drawable: &mut Drawable, deltatime: i64)
        ensures
            final(self).timer_tween == old(self).timer_tween.advanced(deltatime as int),
            final(self).scale_start == old(self).scale_start,
            final(self).scale_end == old(self).scale_end,
            final(self).easing_type == old(self).easing_type,
            *final(drawable) == (Drawable {
                scale: Vec2 { x: final(self).scale_now(), y: final(self).scale_now() },
                ..*old(drawable)
            }),
    {
        self.timer_tween.update(deltatime);
        let percentage: i64 = ease(self.timer_tween.completion_ratio(), self.easing_type);
        drawable.scale = Vec2::filled(fx_lerp(self.scale_start, self.scale_end, percentage));
    }
}

/// Follows another entity. The parent is a weak reference: it may be gone.
#[derive(Clone, Copy, Debug, PartialEq, Eq, Structural)]
pub struct SnapToParent {
    pub parent: EntityId,
    pub remove_entity_if_lost_parent: bool,
    pub pos_snap: bool,
    pub pos_offset: Vec2,
    pub dir_angle_snap: bool,
    pub dir_angle_offset: i64,
}

/// Steers toward another entity, which may be gone.
#[derive(Clone, Copy, Debug, PartialEq, Eq, Structural)]
pub struct MoveTowardsTarget {
    pub target: EntityId,
    /// Share of the way from the current heading to the heading of the
    /// target that one update covers.
    pub follow_precision_percent: i64,
}

#[derive(Clone, Copy, Debug, PartialEq, Eq, Structural)]
pub struct AutoremoveTimer {
    pub timer: TimerSimple,
}

impl AutoremoveTimer {
    pub fn new(lifetime: i64) -> (t: AutoremoveTimer)
        ensures
            t.timer == TimerSimple::new_started_spec(lifetime as int),
    {
        AutoremoveTimer { timer: TimerSimple::new_started(lifetime) }
    }
}

#[derive(Clone, Copy, Debug, PartialEq, Eq, Structural)]
pub struct AutoremoveTimerFrames {
    pub framecount_start: usize,
    pub framecount_left: usize,
}

impl AutoremoveTimerFrames {
    pub fn new(framecount: usize) -> (t: AutoremoveTimerFrames)
        ensures
            t == (AutoremoveTimerFrames { framecount_start: framecount, framecount_left: framecount }),
    {
        AutoremoveTimerFrames { framecount_start: framecount, framecount_left: framecount }
    }

    /// Counts one frame down; reports whether none was left to count.
    pub fn update_and_check_if_finished(&mut self) -> (finished: bool)
        ensures
            finished == (old(self).framecount_left == 0),
            final(self).framecount_start == old(self).framecount_start,
            final(self).framecount_left == (if old(self).framecount_left > 0 {
                old(self).framecount_left - 1
            } else {
                0
            }),
    {
        if self.framecount_left > 0 {
            self.framecount_left -= 1;
            false
        } else {
            true
        }
    }
}

/// What the player's skills add up to.
#[derive(Clone, Copy, Debug, PartialEq, Eq, Structural)]
pub struct PoolTuning {
    pub gain_hp: i64,
    pub gain_ammo: i64,
    pub gain_boost: i64,
    pub flat_hp: i64,
    pub flat_ammo: i64,
    pub flat_boost: i64,
    pub multiplier_hp: i64,
    pub multiplier_ammo: i64,
    pub multiplier_boost: i64,
}

impl PoolTuning {
    /// The tuning of a player without skills.
    pub open spec fn base_spec() -> PoolTuning {
        PoolTuning {
            gain_hp: PLAYER_BASE_GAIN_HP,
            gain_ammo: PLAYER_BASE_GAIN_AMMO,
            gain_boost: PLAYER_BASE_GAIN_BOOST,
            flat_hp: PLAYER_BASE_HP,
            flat_ammo: PLAYER_BASE_AMMO,
            flat_boost: PLAYER_BASE_BOOST,
            multiplier_hp: UNIT,
            multiplier_ammo: UNIT,
            multiplier_boost: UNIT,
        }
    }

    /// A whole number of units in fixed point.
    pub open spec fn whole(v: i32) -> i64 {
        (v * 1_000_000) as i64
    }

    /// A whole number of percent in fixed point.
    pub open spec fn percent(v: i32) -> i64 {
        (v * 10_000) as i64
    }

    /// The tuning with one more skill.
    pub open spec fn with_skill(self, skill: Skill) -> PoolTuning {
        match skill {
            Skill::AddPercentageHP(v) => PoolTuning { multiplier_hp: sadd(self.multiplier_hp, Self::percent(v)), ..self },
            Skill::AddPercentageAmmo(v) => PoolTuning { multiplier_ammo: sadd(self.multiplier_ammo, Self::percent(v)), ..self },
            Skill::AddPercentageBoost(v) => PoolTuning { multiplier_boost: sadd(self.multiplier_boost, Self::percent(v)), ..self },
            Skill::AddHp(v) => PoolTuning { flat_hp: sadd(self.flat_hp, Self::whole(v)), ..self },
            Skill::AddAmmo(v) => PoolTuning { flat_ammo: sadd(self.flat_ammo, Self::whole(v)), ..self },
            Skill::AddBoost(v) => PoolTuning { flat_boost: sadd(self.flat_boost, Self::whole(v)), ..self },
            Skill::AddHpGain(v) => PoolTuning { gain_hp: sadd(self.gain_hp, Self::whole(v)), ..self },
            Skill::AddAmmoGain(v) => PoolTuning { gain_ammo: sadd(self.gain_ammo, Self::whole(v)), ..self },
            Skill::AddBoostGain(v) => PoolTuning { gain_boost: sadd(self.gain_boost, Self::whole(v)), ..self },
        }
    }

    /// The tuning with all of `skills`, applied in order.
    pub open spec fn of_skills(skills: Seq<Skill>) -> PoolTuning
        decreases skills.len(),
    {
        if skills.len() == 0 {
            Self::base_spec()
        } else {
            Self::of_skills(skills.drop_last()).with_skill(skills.last())
        }
    }

    /// Size of a pool: the flat amount times the multiplier, never negative.
    pub open spec fn pool_size(flat: i64, multiplier: i64) -> i64 {
        if smul(flat, multiplier) < 0 { 0 } else { smul(flat, multiplier) }
    }

    pub fn base() -> (t: PoolTuning)
        ensures
            t == Self::base_spec(),
    {
        PoolTuning {
            gain_hp: PLAYER_BASE_GAIN_HP,
            gain_ammo: PLAYER_BASE_GAIN_AMMO,
            gain_boost: PLAYER_BASE_GAIN_BOOST,
            flat_hp: PLAYER_BASE_HP,
            flat_ammo: PLAYER_BASE_AMMO,
            flat_boost: PLAYER_BASE_BOOST,
            multiplier_hp: UNIT,
            multiplier_ammo: UNIT,
            multiplier_boost: UNIT,
        }
    }

    pub fn add_skill(&mut self, skill: Skill)
        ensures
            *final(self) == old(self).with_skill(skill),
    {
        match skill {
            Skill::AddPercentageHP(v) => {
                self.multiplier_hp = fx_add(self.multiplier_hp, (v as i64) * 10_000);
            },
            Skill::AddPercentageAmmo(v) => {
                self.multiplier_ammo = fx_add(self.multiplier_ammo, (v as i64) * 10_000);
            },
            Skill::AddPercentageBoost(v) => {
                self.multiplier_boost = fx_add(self.multiplier_boost, (v as i64) * 10_000);
            },
            Skill::AddHp(v) => {
                self.flat_hp = fx_add(self.flat_hp, (v as i64) * 1_000_000);
            },
            Skill::AddAmmo(v) => {
                self.flat_ammo = fx_add(self.flat_ammo, (v as i64) * 1_000_000);
            },
            Skill::AddBoost(v) => {
                self.flat_boost = fx_add(self.flat_boost, (v as i64) * 1_000_000);
            },
            Skill::AddHpGain(v) => {
                self.gain_hp = fx_add(self.gain_hp, (v as i64) * 1_000_000);
            },
            Skill::AddAmmoGain(v) => {
                self.gain_ammo = fx_add(self.gain_ammo, (v as i64) * 1_000_000);
            },
            Skill::AddBoostGain(v) => {
                self.gain_boost = fx_add(self.gain_boost, (v as i64) * 1_000_000);
            },
        }
    }
}

/// The player's ship: resource pools, attack pattern, movement tuning and
/// cooldowns.
#[derive(Clone, Copy, Debug, PartialEq, Eq, Structural)]
pub struct Player {
    pub attack: Attack,
    pub timer_trail_particles: TriggerRepeating,
    pub ship_type: ShipType,
    pub speed: i64,
    pub speed_max: i64,
    pub speed_base_max: i64,
    pub acc: i64,
    pub turn_speed: i64,
    pub size: i64,
    pub reload_timer: TriggerRepeating,
    pub hp: i64,
    pub hp_max: i64,
    pub hp_gain: i64,
    pub invincible_timer: TimerSimple,
    pub ammo: i64,
    pub ammo_max: i64,
    pub ammo_gain: i64,
    pub boost: i64,
    pub boost_max: i64,
    pub boost_gain: i64,
    pub boost_allowed: bool,
    pub boost_cooldown_time: i64,
    pub boost_cooldown_timer: TimerSimple,
    pub cycle_cooldown: i64,
    pub cycle_timer: TimerSimple,
}

impl Player {
    /// Every pool holds between nothing and its maximum.
    pub open spec fn pools_in_bounds(self) -> bool {
        &&& 0 <= self.hp <= self.hp_max
        &&& 0 <= self.ammo <= self.ammo_max
        &&& 0 <= self.boost <= self.boost_max
    }

    pub open spec fn new_spec(size: i64, ship_type: ShipType, skills: Seq<Skill>) -> Player {
        let tuning = PoolTuning::of_skills(skills);
        let hp = PoolTuning::pool_size(tuning.flat_hp, tuning.multiplier_hp);
        let ammo = PoolTuning::pool_size(tuning.flat_ammo, tuning.multiplier_ammo);
        let boost = PoolTuning::pool_size(tuning.flat_boost, tuning.multiplier_boost);
        Player {
            attack: AttackType::Neutral.attack_spec(),
            timer_trail_particles: TriggerRepeating::new_spec(10_000),
            ship_type,
            speed: 0,
            speed_max: 100_000_000,
            speed_base_max: 100_000_000,
            acc: 100_000_000,
            turn_speed: 298_800_000,
            size,
            reload_timer: TriggerRepeating::new_spec(AttackType::Neutral.attack_spec().reload_time as int),
            hp,
            hp_max: hp,
            hp_gain: tuning.gain_hp,
            invincible_timer: TimerSimple::new_stopped_spec(2_000_000),
            ammo,
            ammo_max: ammo,
            ammo_gain: tuning.gain_ammo,
            boost,
            boost_max: boost,
            boost_gain: tuning.gain_boost,
            boost_allowed: true,
            boost_cooldown_time: 2_000_000,
            boost_cooldown_timer: TimerSimple::new_stopped_spec(1_000_000),
            cycle_cooldown: 5_000_000,
            cycle_timer: TimerSimple::new_started_spec(5_000_000),
        }
    }

    /// A player with full pools, sized by its skills.
    pub fn new(size: i64, ship_type: ShipType, skills: &Vec<Skill>) -> (p: Player)
        ensures
            p == Self::new_spec(size, ship_type, skills@),
            p.pools_in_bounds(),
    {
        let mut tuning: PoolTuning = PoolTuning::base();
        let mut i: usize = 0;
        while i < skills.len()
            invariant
                i <= skills@.len(),
                tuning == PoolTuning::of_skills(skills@.take(i as int)),
            decreases skills@.len() - i,
        {
            tuning.add_skill(skills[i]);
            assert(skills@.take(i as int + 1).drop_last() == skills@.take(i as int));
            i = i + 1;
        }
        assert(skills@.take(skills@.len() as int) == skills@);
        let hp_raw: i64 = fx_mul(tuning.flat_hp, tuning.multiplier_hp);
        let ammo_raw: i64 = fx_mul(tuning.flat_ammo, tuning.multiplier_ammo);
        let boost_raw: i64 = fx_mul(tuning.flat_boost, tuning.multiplier_boost);
        let hp: i64 = if hp_raw < 0 { 0 } else { hp_raw };
        let ammo: i64 = if ammo_raw < 0 { 0 } else { ammo_raw };
        let boost: i64 = if boost_raw < 0 { 0 } else { boost_raw };
        let attack: Attack = AttackType::Neutral.attack();
        Player {
            attack,
            timer_trail_particles: TriggerRepeating::new(10_000),
            ship_type,
            speed: 0,
            speed_max: 100_000_000,
            speed_base_max: 100_000_000,
            acc: 100_000_000,
            turn_speed: 298_800_000,
            size,
            reload_timer: TriggerRepeating::new(attack.reload_time),
            hp,
            hp_max: hp,
            hp_gain: tuning.gain_hp,
            invincible_timer: TimerSimple::new_stopped(2_000_000),
            ammo,
            ammo_max: ammo,
            ammo_gain: tuning.gain_ammo,
            boost,
            boost_max: boost,
            boost_gain: tuning.gain_boost,
            boost_allowed: true,
            boost_cooldown_time: 2_000_000,
            boost_cooldown_timer: TimerSimple::new_stopped(1_000_000),
            cycle_cooldown: 5_000_000,
            cycle_timer: TimerSimple::new_started(5_000_000),
        }
    }
}

#[derive(Clone, Copy, Debug, PartialEq, Eq, Structural)]
pub struct Enemy {
    pub hp: i64,
    pub hp_max: i64,
    pub hitflash_timer: TimerSimple,
    pub radius: i64,
    pub can_shoot: bool,
    pub is_charging: bool,
    pub timer_shoot: TimerSimple,
    pub timer_charge: TriggerRepeating,
    pub score: usize,
}

impl Enemy {
    /// The hit points lie between zero and their maximum.
    pub open spec fn hp_in_bounds(self) -> bool {
        0 <= self.hp <= self.hp_max
    }
}

#[derive(Clone, Copy, Debug, PartialEq, Eq, Structural)]
pub enum CollectibleType {
    Boost,
    Ammo,
    Hp,
    Skillpoint,
    Attack(AttackType),
}

impl CollectibleType {
    pub open spec fn infotext_spec(self) -> Seq<char> {
        match self {
            CollectibleType::Boost => "+BOOST"@,
            CollectibleType::Ammo => "+AMMO"@,
            CollectibleType::Hp => "+HP"@,
            CollectibleType::Skillpoint => "+1 SP"@,
            CollectibleType::Attack(attacktype) => attacktype.name_spec(),
        }
    }

    /// The label that floats up when the collectible is picked up.
    pub fn get_infotext_string(&self) -> (s: &'static str)
        ensures
            s@ == self.infotext_spec(),
    {
        match self {
            CollectibleType::Boost => "+BOOST",
            CollectibleType::Ammo => "+AMMO",
            CollectibleType::Hp => "+HP",
            CollectibleType::Skillpoint => "+1 SP",
            CollectibleType::Attack(attacktype) => attacktype.name(),
        }
    }
}

#[derive(Clone, Copy, Debug, PartialEq, Eq, Structural)]
pub struct Collectible {
    pub collectible: CollectibleType,
    pub color: Color,
    pub size: i64,
}

#[derive(Clone, Copy, Debug, PartialEq, Eq, Structural)]
pub struct TickEffect {
    pub timer_tween: TimerSimple,
    pub width: i64,
    pub height: i64,
}

#[derive(Clone, Copy, Debug, PartialEq, Eq, Structural)]
pub struct Projectile {
    pub length: i64,
    pub color: Color,
    pub damage: i64,
}

#[derive(Clone, Copy, Debug, PartialEq, Eq, Structural)]
pub struct ExplodeParticle {
    pub timer_tween: TimerSimple,
    pub thickness: i64,
    pub length: i64,
    pub speed: i64,
    pub color: Color,
}

#[derive(Clone, Copy, Debug, PartialEq, Eq, Structural)]
pub enum AlignmentHorizontal {
    Left,
    Center,
    Right,
}

#[derive(Clone, Copy, Debug, PartialEq, Eq, Structural)]
pub enum AlignmentVertical {
    Top,
    Center,
    Bottom,
}

#[derive(Clone, Copy, Debug, PartialEq, Eq, Structural)]
pub struct TextAlignment {
    pub x: AlignmentHorizontal,
    pub y: AlignmentVertical,
    pub origin_is_baseline: bool,
    pub ignore_whitespace: bool,
}

#[derive(Clone, Copy, Debug, PartialEq, Eq, Structural)]
pub enum BlendMode {
    Normal,
    Additive,
}

/// Shape of a drawable.
#[derive(Clone, Debug, PartialEq, Eq)]
pub enum MeshType {
    Circle { radius: i64, filled: bool },
    Rectangle { width: i64, height: i64, filled: bool, centered: bool },
    RectangleTransformed { width: i64, height: i64, filled: bool, centered: bool },
    LineWithThickness { length: i64, thickness: i64, smooth_edges: bool, centered: bool },
    Linestrips(Vec<Vec<(i32, i32)>>),
    Linestrip(Vec<Vec2>),
    Text {
        text: String,
        font_name: String,
        font_scale: i64,
        alignment: Option<TextAlignment>,
        color_background: Option<Color>,
    },
}

/// One shape with its placement relative to the entity, its paint order,
/// color and blend mode.
#[derive(Clone, Debug, PartialEq, Eq)]
pub struct Drawable {
    pub mesh: MeshType,
    pub pos_offset: Vec2,
    pub dir_angle_offset: i64,
    pub scale: Vec2,
    pub depth: i64,
    pub color: Color,
    pub additivity: BlendMode,
    pub add_jitter: bool,
    pub visible: bool,
}

impl Drawable {
    /// A visible drawable at the entity's own place, unscaled, painted
    /// over what lies below it.
    pub open spec fn plain_spec(mesh: MeshType, color: Color, depth: i64) -> Drawable {
        Drawable {
            mesh,
            pos_offset: Vec2 { x: 0, y: 0 },
            dir_angle_offset: 0,
            scale: Vec2 { x: UNIT, y: UNIT },
            depth,
            color,
            additivity: BlendMode::Normal,
            add_jitter: false,
            visible: true,
        }
    }

    pub fn plain(mesh: MeshType, color: Color, depth: i64) -> (d: Drawable)
        ensures
            d == Self::plain_spec(mesh, color, depth),
    {
        Drawable {
            mesh,
            pos_offset: Vec2 { x: 0, y: 0 },
            dir_angle_offset: 0,
            scale: Vec2 { x: UNIT, y: UNIT },
            depth,
            color,
            additivity: BlendMode::Normal,
            add_jitter: false,
            visible: true,
        }
    }
}

impl Collider {
    /// A collider with the given bounds and layers and an empty list.
    pub open spec fn is_fresh(self, radius: i64, layers_own: u64, layers_affects: u64) -> bool {
        &&& self.radius == radius
        &&& self.layers_own == layers_own
        &&& self.layers_affects == layers_affects
        &&& self.collisions@.len() == 0
    }

    pub fn new(radius: i64, layers_own: u64, layers_affects: u64) -> (c: Collider)
        ensures
            c.is_fresh(radius, layers_own, layers_affects),
    {
        Collider { radius, layers_own, layers_affects, collisions: Vec::new() }
    }
}

#[derive(Clone, Debug, PartialEq, Eq)]
pub struct DrawableMulti {
    pub drawables: Vec<Drawable>,
}

/// Spark that is drawn toward the muzzle of a charging enemy.
#[derive(Clone, Copy, Debug, PartialEq, Eq, Structural)]
pub struct EnemyChargeParticle {
    pub muzzle_pos: Vec2,
    pub muzzle_pos_offset: Vec2,
    pub muzzle_entity: EntityId,
    pub size: i64,
    pub timer: TimerSimple,
    pub start_pos: Vec2,
}

impl EnemyChargeParticle {
    pub fn new(
        muzzle_pos: Vec2,
        muzzle_pos_offset: Vec2,
        muzzle_entity: EntityId,
        size: i64,
        lifetime: i64,
        start_pos: Vec2,
    ) -> (p: EnemyChargeParticle)
        ensures
            p == (EnemyChargeParticle {
                muzzle_pos,
                muzzle_pos_offset,
                muzzle_entity,
                size,
                timer: TimerSimple::new_started_spec(lifetime as int),
                start_pos,
            }),
    {
        EnemyChargeParticle {
            muzzle_pos,
            muzzle_pos_offset,
            muzzle_entity,
            size,
            timer: TimerSimple::new_started(lifetime),
            start_pos,
        }
    }
}

/// Everything an entity carries: at most one record of each kind.
#[derive(Clone, Debug, PartialEq, Eq)]
pub struct Components {
    pub transform: Option<Transform>,
    pub motion: Option<Motion>,
    pub collider: Option<Collider>,
    pub player: Option<Player>,
    pub enemy: Option<Enemy>,
    pub collectible: Option<Collectible>,
    pub projectile: Option<Projectile>,
    pub drawable: Option<Drawable>,
    pub drawable_multi: Option<DrawableMulti>,
    pub tween_color: Option<TweenColor>,
    pub tween_scale: Option<TweenScale>,
    pub snap: Option<SnapToParent>,
    pub follow: Option<MoveTowardsTarget>,
    pub autoremove: Option<AutoremoveTimer>,
    pub autoremove_frames: Option<AutoremoveTimerFrames>,
    pub tick: Option<TickEffect>,
    pub explode: Option<ExplodeParticle>,
    pub charge: Option<EnemyChargeParticle>,
    pub infotext: Option<crate::infotext::InfoText>,
    pub blinker: Option<Blinker>,
}

impl Components {
    /// The record of an entity without any component.
    pub open spec fn empty() -> Components {
        Components {
            transform: None,
            motion: None,
            collider: None,
            player: None,
            enemy: None,
            collectible: None,
            projectile: None,
            drawable: None,
            drawable_multi: None,
            tween_color: None,
            tween_scale: None,
            snap: None,
            follow: None,
            autoremove: None,
            autoremove_frames: None,
            tick: None,
            explode: None,
            charge: None,
            infotext: None,
            blinker: None,
        }
    }

    /// The record without the components that hold lists: collider,
    /// drawables and info text. What is left can be compared as a value.
    pub open spec fn plain_part(self) -> Components {
        Components { collider: None, drawable: None, drawable_multi: None, infotext: None, ..self }
    }

    /// An entity without any component.
    pub open spec fn none_spec(self) -> bool {
        &&& self.transform is None
        &&& self.motion is None
        &&& self.collider is None
        &&& self.player is None
        &&& self.enemy is None
        &&& self.collectible is None
        &&& self.projectile is None
        &&& self.drawable is None
        &&& self.drawable_multi is None
        &&& self.tween_color is None
        &&& self.tween_scale is None
        &&& self.snap is None
        &&& self.follow is None
        &&& self.autoremove is None
        &&& self.autoremove_frames is None
        &&& self.tick is None
        &&& self.explode is None
        &&& self.charge is None
        &&& self.infotext is None
        &&& self.blinker is None
    }

    /// The record with every component of `patch` put over its own.
    pub open spec fn merged_spec(self, patch: Components) -> Components {
        Components {
            transform: if patch.transform is Some { patch.transform } else { self.transform },
            motion: if patch.motion is Some { patch.motion } else { self.motion },
            collider: if patch.collider is Some { patch.collider } else { self.collider },
            player: if patch.player is Some { patch.player } else { self.player },
            enemy: if patch.enemy is Some { patch.enemy } else { self.enemy },
            collectible: if patch.collectible is Some { patch.collectible } else { self.collectible },
            projectile: if patch.projectile is Some { patch.projectile } else { self.projectile },
            drawable: if patch.drawable is Some { patch.drawable } else { self.drawable },
            drawable_multi: if patch.drawable_multi is Some { patch.drawable_multi } else { self.drawable_multi },
            tween_color: if patch.tween_color is Some { patch.tween_color } else { self.tween_color },
            tween_scale: if patch.tween_scale is Some { patch.tween_scale } else { self.tween_scale },
            snap: if patch.snap is Some { patch.snap } else { self.snap },
            follow: if patch.follow is Some { patch.follow } else { self.follow },
            autoremove: if patch.autoremove is Some { patch.autoremove } else { self.autoremove },
            autoremove_frames: if patch.autoremove_frames is Some { patch.autoremove_frames } else { self.autoremove_frames },
            tick: if patch.tick is Some { patch.tick } else { self.tick },
            explode: if patch.explode is Some { patch.explode } else { self.explode },
            charge: if patch.charge is Some { patch.charge } else { self.charge },
            infotext: if patch.infotext is Some { patch.infotext } else { self.infotext },
            blinker: if patch.blinker is Some { patch.blinker } else { self.blinker },
        }
    }

    pub fn merged(self, patch: Components) -> (c: Components)
        ensures
            c == self.merged_spec(patch),
    {
        Components {
            transform: if patch.transform.is_some() { patch.transform } else { self.transform },
            motion: if patch.motion.is_some() { patch.motion } else { self.motion },
            collider: if patch.collider.is_some() { patch.collider } else { self.collider },
            player: if patch.player.is_some() { patch.player } else { self.player },
            enemy: if patch.enemy.is_some() { patch.enemy } else { self.enemy },
            collectible: if patch.collectible.is_some() { patch.collectible } else { self.collectible },
            projectile: if patch.projectile.is_some() { patch.projectile } else { self.projectile },
            drawable: if patch.drawable.is_some() { patch.drawable } else { self.drawable },
            drawable_multi: if patch.drawable_multi.is_some() { patch.drawable_multi } else { self.drawable_multi },
            tween_color: if patch.tween_color.is_some() { patch.tween_color } else { self.tween_color },
            tween_scale: if patch.tween_scale.is_some() { patch.tween_scale } else { self.tween_scale },
            snap: if patch.snap.is_some() { patch.snap } else { self.snap },
            follow: if patch.follow.is_some() { patch.follow } else { self.follow },
            autoremove: if patch.autoremove.is_some() { patch.autoremove } else { self.autoremove },
            autoremove_frames: if patch.autoremove_frames.is_some() { patch.autoremove_frames } else { self.autoremove_frames },
            tick: if patch.tick.is_some() { patch.tick } else { self.tick },
            explode: if patch.explode.is_some() { patch.explode } else { self.explode },
            charge: if patch.charge.is_some() { patch.charge } else { self.charge },
            infotext: if patch.infotext.is_some() { patch.infotext } else { self.infotext },
            blinker: if patch.blinker.is_some() { patch.blinker } else { self.blinker },
        }
    }

    pub fn none() -> (c: Components)
        ensures
            c.none_spec(),
            c == Self::empty(),
    {
        Components {
            transform: None,
            motion: None,
            collider: None,
            player: None,
            enemy: None,
            collectible: None,
            projectile: None,
            drawable: None,
            drawable_multi: None,
            tween_color: None,
            tween_scale: None,
            snap: None,
            follow: None,
            autoremove: None,
            autoremove_frames: None,
            tick: None,
            explode: None,
            charge: None,
            infotext: None,
            blinker: None,
        }
    }
}

} // verus!
