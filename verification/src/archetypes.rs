//! The kinds of entity of the game, each as the record it is spawned with.
use vstd::prelude::*;
use vstd::string::StringExecFns;
use crate::attack::{AttackType, ShipType, get_draw_lines_for_ship};
use crate::color::{Color, color_neutral, color_ammo, color_boost, color_hp, color_skill_point};
use crate::components::{
    AlignmentHorizontal, AlignmentVertical, AutoremoveTimer, AutoremoveTimerFrames, Collectible, CollectibleType,
    Collider, Components, Drawable, DrawableMulti, Enemy, EntityId, ExplodeParticle, MeshType, Motion,
    MoveTowardsTarget, Player, Projectile, SnapToParent, TextAlignment, TickEffect, Transform, TweenColor,
    TweenScale, COLLISION_LAYER_COLLECTIBLES, COLLISION_LAYER_ENEMY, COLLISION_LAYER_ENEMY_PROJECTILE,
    COLLISION_LAYER_PLAYER, COLLISION_LAYER_PLAYER_PROJECTILE, DEPTH_COLLECTIBLES, DEPTH_EFFECTS, DEPTH_PLAYER,
    DEPTH_PROJECTILE, DEPTH_SCREENFLASH,
};
use crate::easing::EasingType;
use crate::fixed::{UNIT, fx_add, fx_mul, fx_neg, sadd, smul};
use crate::random::Entropy;
use crate::skill::Skill;
use crate::timer::{TimerSimple, TriggerRepeating};
use crate::trig::{FULL_TURN, cos_deg, sin_deg};
use crate::vec2::Vec2;

verus! {

/// Radius of the player's ship.
pub const PLAYER_SIZE: i64 = 12_000_000;

/// Motion at a fixed velocity, with a fixed spin.
pub open spec fn drift(vel: Vec2, dir_angle_vel: i64) -> Motion {
    Motion { vel, acc: Vec2 { x: 0, y: 0 }, dir_angle_vel, dir_angle_acc: 0 }
}

fn drift_exec(vel: Vec2, dir_angle_vel: i64) -> (m: Motion)
    ensures
        m == drift(vel, dir_angle_vel),
{
    Motion { vel, acc: Vec2 { x: 0, y: 0 }, dir_angle_vel, dir_angle_acc: 0 }
}

/// A rectangle that turns with its entity, centered on it.
pub open spec fn centered_box(width: i64, height: i64, filled: bool) -> MeshType {
    MeshType::RectangleTransformed { width, height, filled, centered: true }
}

fn centered_box_exec(width: i64, height: i64, filled: bool) -> (m: MeshType)
    ensures
        m == centered_box(width, height, filled),
{
    MeshType::RectangleTransformed { width, height, filled, centered: true }
}

/// A line that starts at the entity and points along it.
pub open spec fn beam(length: i64, thickness: i64, centered: bool) -> MeshType {
    MeshType::LineWithThickness { length, thickness, smooth_edges: false, centered }
}

fn beam_exec(length: i64, thickness: i64, centered: bool) -> (m: MeshType)
    ensures
        m == beam(length, thickness, centered),
{
    MeshType::LineWithThickness { length, thickness, smooth_edges: false, centered }
}

pub struct Archetypes {}

impl Archetypes {
    /// What `new_player` returns.
    #[verifier::opaque]
    pub open spec fn is_player(c: Components, pos: Vec2, ship_type: ShipType, skills: Seq<Skill>) -> bool {
        &&& c.plain_part() == (Components {
                transform: Some(Transform { pos, dir_angle: -90_000_000i64 }),
                motion: Some(drift(Vec2 { x: 0, y: 0 }, 0)),
                player: Some(Player::new_spec(PLAYER_SIZE, ship_type, skills)),
                ..Components::empty()
            })
        &&& c.collider is Some
        &&& c.collider->0.is_fresh(PLAYER_SIZE, COLLISION_LAYER_PLAYER, COLLISION_LAYER_COLLECTIBLES)
        &&& c.drawable is Some
        &&& c.drawable->0.mesh is Linestrips
        &&& c.drawable->0.mesh->Linestrips_0@.len() == 3
        &&& forall|part: int|
            0 <= part < 3 ==> (#[trigger] c.drawable->0.mesh->Linestrips_0@[part])@ == crate::attack::ship_outline(
                ship_type,
                part,
            )
        &&& c.drawable->0 == (Drawable {
            scale: Vec2 { x: 3_000_000, y: 3_000_000 },
            add_jitter: true,
            ..Drawable::plain_spec(c.drawable->0.mesh, color_neutral(), DEPTH_PLAYER)
        })
        &&& c.drawable_multi is None
        &&& c.infotext is None
        &&& c.player->0.pools_in_bounds()
    }

    /// The player's ship: it faces along -90 degrees, stands still, and collects what it
    /// touches.
    pub fn new_player(pos: Vec2, ship_type: ShipType, skills: &Vec<Skill>) -> (c: Components)
        ensures
            Self::is_player(c, pos, ship_type, skills@),
    {
        reveal(Archetypes::is_player);
        let mut drawable: Drawable = Drawable::plain(
            MeshType::Linestrips(get_draw_lines_for_ship(ship_type)),
            color_neutral(),
            DEPTH_PLAYER,
        );
        drawable.scale = Vec2::filled(PLAYER_SIZE / 4);
        drawable.add_jitter = true;
        let mut c: Components = Components::none();
        c.transform = Some(Transform { pos, dir_angle: -90_000_000i64 });
        c.motion = Some(drift_exec(Vec2::zero(), 0));
        c.drawable = Some(drawable);
        c.player = Some(Player::new(PLAYER_SIZE, ship_type, skills));
        c.collider = Some(Collider::new(PLAYER_SIZE, COLLISION_LAYER_PLAYER, COLLISION_LAYER_COLLECTIBLES));
        c
    }

    /// What `new_screenflash` returns.
    #[verifier::opaque]
    pub open spec fn is_screenflash(c: Components, canvas_width: i64, canvas_height: i64, framecount: usize) -> bool {
        &&& c.plain_part() == (Components {
                autoremove_frames: Some(
                    AutoremoveTimerFrames { framecount_start: framecount, framecount_left: framecount },
                ),
                transform: Some(Transform { pos: Vec2 { x: 0, y: 0 }, dir_angle: 0 }),
                ..Components::empty()
            })
        &&& c.collider is None
        &&& c.drawable == Some(
                Drawable::plain_spec(
                    MeshType::Rectangle { width: canvas_width, height: canvas_height, filled: true, centered: false },
                    color_neutral(),
                    DEPTH_SCREENFLASH,
                ),
            )
        &&& c.drawable_multi is None
        &&& c.infotext is None
    }

    /// A flash that covers the canvas for a number of frames.
    pub fn new_screenflash(canvas_width: i64, canvas_height: i64, framecount: usize) -> (c: Components)
        ensures
            Self::is_screenflash(c, canvas_width, canvas_height, framecount),
    {
        reveal(Archetypes::is_screenflash);
        let mut c: Components = Components::none();
        c.autoremove_frames = Some(AutoremoveTimerFrames::new(framecount));
        c.transform = Some(Transform { pos: Vec2::zero(), dir_angle: 0 });
        c.drawable = Some(
            Drawable::plain(
                MeshType::Rectangle { width: canvas_width, height: canvas_height, filled: true, centered: false },
                color_neutral(),
                DEPTH_SCREENFLASH,
            ),
        );
        c
    }

    /// What `new_muzzleflash` returns.
    #[verifier::opaque]
    pub open spec fn is_muzzleflash(c: Components, parent: EntityId, pos_offset: Vec2, dir_angle_offset: i64) -> bool {
        &&& c.plain_part() == (Components {
                transform: Some(Transform { pos: Vec2 { x: 0, y: 0 }, dir_angle: 0 }),
                autoremove: Some(AutoremoveTimer { timer: TimerSimple::new_started_spec(100_000) }),
                tween_scale: Some(TweenScale::new_spec(8_000_000, 0, 100_000, EasingType::CubicInOut)),
                snap: Some(
                    SnapToParent {
                        parent,
                        remove_entity_if_lost_parent: true,
                        pos_snap: true,
                        pos_offset,
                        dir_angle_snap: true,
                        dir_angle_offset,
                    },
                ),
                ..Components::empty()
            })
        &&& c.collider is None
        &&& c.drawable == Some(Drawable::plain_spec(centered_box(UNIT, UNIT, true), color_neutral(), DEPTH_EFFECTS))
        &&& c.drawable_multi is None
        &&& c.infotext is None
    }

    /// A flash at the muzzle of `parent` that shrinks away within a tenth
    /// of a second and goes with its parent.
    pub fn new_muzzleflash(parent: EntityId, pos_offset: Vec2, dir_angle_offset: i64) -> (c: Components)
        ensures
            Self::is_muzzleflash(c, parent, pos_offset, dir_angle_offset),
    {
        reveal(Archetypes::is_muzzleflash);
        let lifetime: i64 = 100_000;
        let mut c: Components = Components::none();
        c.transform = Some(Transform { pos: Vec2::zero(), dir_angle: 0 });
        c.autoremove = Some(AutoremoveTimer::new(lifetime));
        c.tween_scale = Some(TweenScale::new(8_000_000, 0, lifetime, EasingType::CubicInOut));
        c.snap = Some(
            SnapToParent {
                parent,
                remove_entity_if_lost_parent: true,
                pos_snap: true,
                pos_offset,
                dir_angle_snap: true,
                dir_angle_offset,
            },
        );
        c.drawable = Some(Drawable::plain(centered_box_exec(UNIT, UNIT, true), color_neutral(), DEPTH_EFFECTS));
        c
    }

    /// What `new_trailparticle` returns.
    #[verifier::opaque]
    pub open spec fn is_trailparticle(c: Components, pos: Vec2, size: i64, lifetime: i64, color: Color) -> bool {
        &&& c.plain_part() == (Components {
                transform: Some(Transform { pos, dir_angle: 0 }),
                autoremove: Some(AutoremoveTimer { timer: TimerSimple::new_started_spec(lifetime as int) }),
                tween_scale: Some(TweenScale::new_spec(size, 0, lifetime, EasingType::Linear)),
                ..Components::empty()
            })
        &&& c.collider is None
        &&& c.drawable == Some(
                Drawable {
                    scale: Vec2 { x: size, y: size },
                    ..Drawable::plain_spec(MeshType::Circle { radius: UNIT, filled: true }, color, DEPTH_EFFECTS)
                },
            )
        &&& c.drawable_multi is None
        &&& c.infotext is None
    }

    /// A dot of exhaust that shrinks away over its lifetime.
    pub fn new_trailparticle(pos: Vec2, size: i64, lifetime: i64, color: Color) -> (c: Components)
        ensures
            Self::is_trailparticle(c, pos, size, lifetime, color),
    {
        reveal(Archetypes::is_trailparticle);
        let mut drawable: Drawable = Drawable::plain(
            MeshType::Circle { radius: UNIT, filled: true },
            color,
            DEPTH_EFFECTS,
        );
        drawable.scale = Vec2::filled(size);
        let mut c: Components = Components::none();
        c.transform = Some(Transform { pos, dir_angle: 0 });
        c.autoremove = Some(AutoremoveTimer::new(lifetime));
        c.tween_scale = Some(TweenScale::new(size, 0, lifetime, EasingType::Linear));
        c.drawable = Some(drawable);
        c
    }

    /// What `new_projectile` returns.
    #[verifier::opaque]
    pub open spec fn is_projectile(c: Components, pos: Vec2, dir_angle: i64, speed: i64, length: i64, color: Color, damage: i64) -> bool {
        &&& c.plain_part() == (Components {
                transform: Some(Transform { pos, dir_angle }),
                motion: Some(drift(Vec2::from_angle_spec(dir_angle).scaled_spec(speed), 0)),
                projectile: Some(Projectile { length, color, damage }),
                ..Components::empty()
            })
        &&& c.collider is Some
        &&& c.collider->0.is_fresh(length, COLLISION_LAYER_PLAYER_PROJECTILE, 5)
        &&& c.drawable is None
        &&& c.drawable_multi is Some
        &&& c.drawable_multi->0.drawables@.len() == 2
        &&& c.drawable_multi->0.drawables@[0] == Drawable::plain_spec(
                beam(length, smul(400_000, length), false),
                color,
                DEPTH_PROJECTILE,
            )
        &&& c.drawable_multi->0.drawables@[1] == (Drawable {
                dir_angle_offset: -180_000_000i64,
                ..Drawable::plain_spec(beam(length, smul(400_000, length), false), color_neutral(), DEPTH_PROJECTILE)
            })
        &&& c.infotext is None
    }

    /// A shot of the player that flies along `dir_angle`. It hits enemies
    /// and their shots.
    pub fn new_projectile(pos: Vec2, dir_angle: i64, speed: i64, length: i64, color: Color, damage: i64) -> (c: Components)
        ensures
            Self::is_projectile(c, pos, dir_angle, speed, length, color, damage),
    {
        reveal(Archetypes::is_projectile);
        let thickness: i64 = fx_mul(400_000, length);
        let head: Drawable = Drawable::plain(beam_exec(length, thickness, false), color, DEPTH_PROJECTILE);
        let mut tail: Drawable = Drawable::plain(beam_exec(length, thickness, false), color_neutral(), DEPTH_PROJECTILE);
        tail.dir_angle_offset = -180_000_000i64;
        let mut drawables: Vec<Drawable> = Vec::new();
        drawables.push(head);
        drawables.push(tail);
        let mut c: Components = Components::none();
        c.transform = Some(Transform { pos, dir_angle });
        c.motion = Some(drift_exec(Vec2::from_angle_flipped_y(dir_angle).scaled(speed), 0));
        c.projectile = Some(Projectile { length, color, damage });
        c.collider = Some(
            Collider::new(
                length,
                COLLISION_LAYER_PLAYER_PROJECTILE,
                COLLISION_LAYER_ENEMY | COLLISION_LAYER_ENEMY_PROJECTILE,
            ),
        );
        assert(COLLISION_LAYER_ENEMY | COLLISION_LAYER_ENEMY_PROJECTILE == 5) by (bit_vector)
            requires
                COLLISION_LAYER_ENEMY == 1,
                COLLISION_LAYER_ENEMY_PROJECTILE == 4,
        ;
        c.drawable_multi = Some(DrawableMulti { drawables });
        c
    }

    /// What `new_enemy_projectile` returns.
    #[verifier::opaque]
    pub open spec fn is_enemy_projectile(c: Components, pos: Vec2, dir_angle: i64, speed: i64, length: i64, damage: i64) -> bool {
        &&& c.plain_part() == (Components {
                transform: Some(Transform { pos, dir_angle }),
                motion: Some(drift(Vec2::from_angle_spec(dir_angle).scaled_spec(speed), 0)),
                projectile: Some(Projectile { length, color: color_hp(), damage }),
                ..Components::empty()
            })
        &&& c.collider is Some
        &&& c.collider->0.is_fresh(length, COLLISION_LAYER_ENEMY_PROJECTILE, 10)
        &&& c.drawable is None
        &&& c.drawable_multi is Some
        &&& c.drawable_multi->0.drawables@.len() == 1
        &&& c.drawable_multi->0.drawables@[0] == Drawable::plain_spec(
                beam(smul(2_000_000, length), smul(400_000, length), true),
                color_hp(),
                DEPTH_PROJECTILE,
            )
        &&& c.infotext is None
    }

    /// A shot of an enemy that flies along `dir_angle`. It hits the player
    /// and the player's shots.
    pub fn new_enemy_projectile(pos: Vec2, dir_angle: i64, speed: i64, length: i64, damage: i64) -> (c: Components)
        ensures
            Self::is_enemy_projectile(c, pos, dir_angle, speed, length, damage),
    {
        reveal(Archetypes::is_enemy_projectile);
        let mut drawables: Vec<Drawable> = Vec::new();
        drawables.push(
            Drawable::plain(
                beam_exec(fx_mul(2_000_000, length), fx_mul(400_000, length), true),
                color_hp(),
                DEPTH_PROJECTILE,
            ),
        );
        let mut c: Components = Components::none();
        c.transform = Some(Transform { pos, dir_angle });
        c.motion = Some(drift_exec(Vec2::from_angle_flipped_y(dir_angle).scaled(speed), 0));
        c.projectile = Some(Projectile { length, color: color_hp(), damage });
        c.collider = Some(
            Collider::new(
                length,
                COLLISION_LAYER_ENEMY_PROJECTILE,
                COLLISION_LAYER_PLAYER | COLLISION_LAYER_PLAYER_PROJECTILE,
            ),
        );
        assert(COLLISION_LAYER_PLAYER | COLLISION_LAYER_PLAYER_PROJECTILE == 10) by (bit_vector)
            requires
                COLLISION_LAYER_PLAYER == 2,
                COLLISION_LAYER_PLAYER_PROJECTILE == 8,
        ;
        c.drawable_multi = Some(DrawableMulti { drawables });
        c
    }

    /// What `new_ammo_collectible` returns.
    #[verifier::opaque]
    pub open spec fn is_ammo_collectible(c: Components, pos: Vec2, vel: Vec2, dir_angle: i64, dir_angle_vel: i64, player_entity: EntityId) -> bool {
        &&& c.plain_part() == (Components {
                transform: Some(Transform { pos, dir_angle }),
                motion: Some(drift(vel, dir_angle_vel)),
                collectible: Some(
                    Collectible { collectible: CollectibleType::Ammo, color: color_ammo(), size: 8_000_000 },
                ),
                follow: Some(MoveTowardsTarget { target: player_entity, follow_precision_percent: 100_000 }),
                ..Components::empty()
            })
        &&& c.collider is Some
        &&& c.collider->0.is_fresh(8_000_000, COLLISION_LAYER_COLLECTIBLES, 0)
        &&& c.drawable == Some(
                Drawable::plain_spec(centered_box(8_000_000, 8_000_000, false), color_ammo(), DEPTH_COLLECTIBLES),
            )
        &&& c.drawable_multi is None
        &&& c.infotext is None
    }

    /// Ammunition that homes in on the player.
    pub fn new_ammo_collectible(pos: Vec2, vel: Vec2, dir_angle: i64, dir_angle_vel: i64, player_entity: EntityId) -> (c: Components)
        ensures
            Self::is_ammo_collectible(c, pos, vel, dir_angle, dir_angle_vel, player_entity),
    {
        reveal(Archetypes::is_ammo_collectible);
        let size: i64 = 8_000_000;
        let mut c: Components = Components::none();
        c.transform = Some(Transform { pos, dir_angle });
        c.motion = Some(drift_exec(vel, dir_angle_vel));
        c.collectible = Some(Collectible { collectible: CollectibleType::Ammo, color: color_ammo(), size });
        c.follow = Some(MoveTowardsTarget { target: player_entity, follow_precision_percent: 100_000 });
        c.collider = Some(Collider::new(size, COLLISION_LAYER_COLLECTIBLES, 0));
        c.drawable = Some(Drawable::plain(centered_box_exec(size, size, false), color_ammo(), DEPTH_COLLECTIBLES));
        c
    }

    /// A framed square with a filled core, the look of skill-point and
    /// boost pickups.
    fn framed_core(size: i64, color: Color) -> (d: DrawableMulti)
        ensures
            d.drawables@.len() == 2,
            d.drawables@[0] == Drawable::plain_spec(centered_box(size, size, false), color, DEPTH_COLLECTIBLES),
            d.drawables@[1] == Drawable::plain_spec(
                centered_box(smul(250_000, size), smul(250_000, size), true),
                color,
                DEPTH_COLLECTIBLES,
            ),
    {
        let core: i64 = fx_mul(250_000, size);
        let mut drawables: Vec<Drawable> = Vec::new();
        drawables.push(Drawable::plain(centered_box_exec(size, size, false), color, DEPTH_COLLECTIBLES));
        drawables.push(Drawable::plain(centered_box_exec(core, core, true), color, DEPTH_COLLECTIBLES));
        DrawableMulti { drawables }
    }

    /// A pickup that shows as a frame around a filled core of a quarter of
    /// its size, both in its own color: the look of skill points and boost.
    #[verifier::opaque]
    pub open spec fn is_core_collectible(
        c: Components,
        pos: Vec2,
        vel: Vec2,
        dir_angle: i64,
        dir_angle_vel: i64,
        kind: CollectibleType,
        color: Color,
    ) -> bool {
        &&& c.plain_part() == (Components {
            transform: Some(Transform { pos, dir_angle }),
            motion: Some(drift(vel, dir_angle_vel)),
            collectible: Some(Collectible { collectible: kind, color, size: 12_000_000 }),
            ..Components::empty()
        })
        &&& c.collider is Some
        &&& c.collider->0.is_fresh(12_000_000, COLLISION_LAYER_COLLECTIBLES, 0)
        &&& c.drawable is None
        &&& c.drawable_multi is Some
        &&& c.drawable_multi->0.drawables@.len() == 2
        &&& c.drawable_multi->0.drawables@[0] == Drawable::plain_spec(
            centered_box(12_000_000, 12_000_000, false),
            color,
            DEPTH_COLLECTIBLES,
        )
        &&& c.drawable_multi->0.drawables@[1] == Drawable::plain_spec(
            centered_box(3_000_000, 3_000_000, true),
            color,
            DEPTH_COLLECTIBLES,
        )
        &&& c.infotext is None
    }

    /// A skill point to pick up.
    pub fn new_skillpoints_collectible(pos: Vec2, vel: Vec2, dir_angle: i64, dir_angle_vel: i64) -> (c: Components)
        ensures
            Self::is_core_collectible(
                c,
                pos,
                vel,
                dir_angle,
                dir_angle_vel,
                CollectibleType::Skillpoint,
                color_skill_point(),
            ),
    {
        reveal(Archetypes::is_core_collectible);
        let size: i64 = 12_000_000;
        let mut c: Components = Components::none();
        c.transform = Some(Transform { pos, dir_angle });
        c.motion = Some(drift_exec(vel, dir_angle_vel));
        c.collectible = Some(
            Collectible { collectible: CollectibleType::Skillpoint, color: color_skill_point(), size },
        );
        c.collider = Some(Collider::new(size, COLLISION_LAYER_COLLECTIBLES, 0));
        c.drawable_multi = Some(Self::framed_core(size, color_skill_point()));
        c
    }

    /// Boost to pick up.
    pub fn new_boost_collectible(pos: Vec2, vel: Vec2, dir_angle: i64, dir_angle_vel: i64) -> (c: Components)
        ensures
            Self::is_core_collectible(c, pos, vel, dir_angle, dir_angle_vel, CollectibleType::Boost, color_boost()),
    {
        reveal(Archetypes::is_core_collectible);
        let size: i64 = 12_000_000;
        let mut c: Components = Components::none();
        c.transform = Some(Transform { pos, dir_angle });
        c.motion = Some(drift_exec(vel, dir_angle_vel));
        c.collectible = Some(Collectible { collectible: CollectibleType::Boost, color: color_boost(), size });
        c.collider = Some(Collider::new(size, COLLISION_LAYER_COLLECTIBLES, 0));
        c.drawable_multi = Some(Self::framed_core(size, color_boost()));
        c
    }

    /// What `new_attack_collectible` returns.
    #[verifier::opaque]
    pub open spec fn is_attack_collectible(c: Components, pos: Vec2, vel: Vec2, attacktype: AttackType) -> bool {
        &&& c.plain_part() == (Components {
                transform: Some(Transform { pos, dir_angle: 45_000_000 }),
                motion: Some(drift(vel, 0)),
                collectible: Some(
                    Collectible {
                        collectible: CollectibleType::Attack(attacktype),
                        color: attacktype.attack_spec().color,
                        size: 14_000_000,
                    },
                ),
                ..Components::empty()
            })
        &&& c.collider is Some
        &&& c.collider->0.is_fresh(14_000_000, COLLISION_LAYER_COLLECTIBLES, 0)
        &&& c.drawable is None
        &&& c.drawable_multi is Some
        &&& c.drawable_multi->0.drawables@.len() == 3
        &&& c.drawable_multi->0.drawables@[0] == Drawable::plain_spec(
                centered_box(14_000_000, 14_000_000, false),
                color_neutral(),
                DEPTH_COLLECTIBLES,
            )
        &&& c.drawable_multi->0.drawables@[1] == Drawable::plain_spec(
                centered_box(18_200_000, 18_200_000, false),
                attacktype.attack_spec().color,
                DEPTH_COLLECTIBLES,
            )
        &&& c.drawable_multi->0.drawables@[2].mesh is Text
        &&& c.drawable_multi->0.drawables@[2].mesh->text@ == attacktype.abbreviation_spec()
        &&& c.drawable_multi->0.drawables@[2].mesh->font_name@ == "gui_font"@
        &&& c.drawable_multi->0.drawables@[2].mesh->font_scale == UNIT
        &&& c.drawable_multi->0.drawables@[2].mesh->alignment == Some(
            TextAlignment {
                x: AlignmentHorizontal::Center,
                y: AlignmentVertical::Center,
                origin_is_baseline: false,
                ignore_whitespace: true,
            },
        )
        &&& c.drawable_multi->0.drawables@[2].mesh->color_background is None
        &&& c.drawable_multi->0.drawables@[2] == Drawable::plain_spec(
            c.drawable_multi->0.drawables@[2].mesh,
            attacktype.attack_spec().color,
            DEPTH_COLLECTIBLES,
        )
        &&& c.infotext is None
    }

    /// A pickup that grants an attack pattern other than the neutral one.
    /// It shows two frames and the pattern's short label.
    pub fn new_attack_collectible(pos: Vec2, vel: Vec2, attacktype: AttackType) -> (c: Components)
        requires
            attacktype != AttackType::Neutral,
        ensures
            Self::is_attack_collectible(c, pos, vel, attacktype),
    {
        reveal(Archetypes::is_attack_collectible);
        let attack = attacktype.attack();
        let color: Color = attack.color;
        let size: i64 = 14_000_000;
        let mut drawables: Vec<Drawable> = Vec::new();
        drawables.push(Drawable::plain(centered_box_exec(size, size, false), color_neutral(), DEPTH_COLLECTIBLES));
        drawables.push(Drawable::plain(centered_box_exec(18_200_000, 18_200_000, false), color, DEPTH_COLLECTIBLES));
        drawables.push(
            Drawable::plain(
                MeshType::Text {
                    text: String::from_str(attacktype.name_abbreviation()),
                    font_name: String::from_str("gui_font"),
                    font_scale: UNIT,
                    alignment: Some(
                        TextAlignment {
                            x: AlignmentHorizontal::Center,
                            y: AlignmentVertical::Center,
                            origin_is_baseline: false,
                            ignore_whitespace: true,
                        },
                    ),
                    color_background: None,
                },
                color,
                DEPTH_COLLECTIBLES,
            ),
        );
        let mut c: Components = Components::none();
        c.transform = Some(Transform { pos, dir_angle: 45_000_000 });
        c.motion = Some(drift_exec(vel, 0));
        c.collectible = Some(Collectible { collectible: CollectibleType::Attack(attacktype), color, size });
        c.collider = Some(Collider::new(size, COLLISION_LAYER_COLLECTIBLES, 0));
        c.drawable_multi = Some(DrawableMulti { drawables });
        c
    }

    /// What `new_hp_collectible` returns.
    #[verifier::opaque]
    pub open spec fn is_hp_collectible(c: Components, pos: Vec2, vel: Vec2) -> bool {
        &&& c.plain_part() == (Components {
                transform: Some(Transform { pos, dir_angle: 0 }),
                motion: Some(drift(vel, 0)),
                collectible: Some(
                    Collectible { collectible: CollectibleType::Hp, color: color_hp(), size: 10_000_000 },
                ),
                ..Components::empty()
            })
        &&& c.collider is Some
        &&& c.collider->0.is_fresh(10_000_000, COLLISION_LAYER_COLLECTIBLES, 0)
        &&& c.drawable is None
        &&& c.drawable_multi is Some
        &&& c.drawable_multi->0.drawables@.len() == 3
        &&& c.drawable_multi->0.drawables@[0] == Drawable::plain_spec(
                centered_box(10_000_000, 3_333_333, true),
                color_hp(),
                DEPTH_COLLECTIBLES,
            )
        &&& c.drawable_multi->0.drawables@[1] == Drawable::plain_spec(
                centered_box(3_333_333, 10_000_000, true),
                color_hp(),
                DEPTH_COLLECTIBLES,
            )
        &&& c.drawable_multi->0.drawables@[2] == Drawable::plain_spec(
                MeshType::Circle { radius: 10_000_000, filled: false },
                color_neutral(),
                DEPTH_COLLECTIBLES,
            )
        &&& c.infotext is None
    }

    /// A health pickup: a cross in a ring.
    pub fn new_hp_collectible(pos: Vec2, vel: Vec2) -> (c: Components)
        ensures
            Self::is_hp_collectible(c, pos, vel),
    {
        reveal(Archetypes::is_hp_collectible);
        let size: i64 = 10_000_000;
        let third: i64 = 3_333_333;
        let mut drawables: Vec<Drawable> = Vec::new();
        drawables.push(Drawable::plain(centered_box_exec(size, third, true), color_hp(), DEPTH_COLLECTIBLES));
        drawables.push(Drawable::plain(centered_box_exec(third, size, true), color_hp(), DEPTH_COLLECTIBLES));
        drawables.push(
            Drawable::plain(MeshType::Circle { radius: size, filled: false }, color_neutral(), DEPTH_COLLECTIBLES),
        );
        let mut c: Components = Components::none();
        c.transform = Some(Transform { pos, dir_angle: 0 });
        c.motion = Some(drift_exec(vel, 0));
        c.collectible = Some(Collectible { collectible: CollectibleType::Hp, color: color_hp(), size });
        c.collider = Some(Collider::new(size, COLLISION_LAYER_COLLECTIBLES, 0));
        c.drawable_multi = Some(DrawableMulti { drawables });
        c
    }

    /// What `new_hit_effect` returns.
    #[verifier::opaque]
    pub open spec fn is_hit_effect(c: Components, pos: Vec2, width: i64, height: i64, dir_angle: i64, first_stage_color: Color, first_stage_duration: i64, second_stage_color: Color, second_stage_duration: i64, filled: bool) -> bool {
        &&& c.plain_part() == (Components {
                transform: Some(Transform { pos, dir_angle }),
                autoremove: Some(
                    AutoremoveTimer {
                        timer: TimerSimple::new_started_spec(
                            sadd(first_stage_duration, second_stage_duration) as int,
                        ),
                    },
                ),
                tween_color: Some(
                    TweenColor::new_spec(
                        first_stage_color,
                        second_stage_color,
                        first_stage_duration,
                        EasingType::StepEnd,
                    ),
                ),
                ..Components::empty()
            })
        &&& c.collider is None
        &&& c.drawable == Some(
                Drawable::plain_spec(centered_box(width, height, filled), first_stage_color, DEPTH_EFFECTS),
            )
        &&& c.drawable_multi is None
        &&& c.infotext is None
    }

    /// A box that shows one color for the first stage, then another for the
    /// second, and is gone after both.
    pub fn new_hit_effect(
        pos: Vec2,
        width: i64,
        height: i64,
        dir_angle: i64,
        first_stage_color: Color,
        first_stage_duration: i64,
        second_stage_color: Color,
        second_stage_duration: i64,
        filled: bool,
    ) -> (c: Components)
        ensures
            Self::is_hit_effect(c, pos, width, height, dir_angle, first_stage_color, first_stage_duration, second_stage_color, second_stage_duration, filled),
    {
        reveal(Archetypes::is_hit_effect);
        let lifetime: i64 = fx_add(first_stage_duration, second_stage_duration);
        let mut c: Components = Components::none();
        c.transform = Some(Transform { pos, dir_angle });
        c.autoremove = Some(AutoremoveTimer::new(lifetime));
        c.tween_color = Some(
            TweenColor::new(first_stage_color, second_stage_color, first_stage_duration, EasingType::StepEnd),
        );
        c.drawable = Some(
            Drawable::plain(centered_box_exec(width, height, filled), first_stage_color, DEPTH_EFFECTS),
        );
        c
    }

    /// What `new_hit_effect_round` returns.
    #[verifier::opaque]
    pub open spec fn is_hit_effect_round(c: Components, pos: Vec2, radius: i64, first_stage_color: Color, first_stage_duration: i64, second_stage_color: Color, second_stage_duration: i64, filled: bool) -> bool {
        &&& c.plain_part() == (Components {
                transform: Some(Transform { pos, dir_angle: 0 }),
                autoremove: Some(
                    AutoremoveTimer {
                        timer: TimerSimple::new_started_spec(
                            sadd(first_stage_duration, second_stage_duration) as int,
                        ),
                    },
                ),
                tween_color: Some(
                    TweenColor::new_spec(
                        first_stage_color,
                        second_stage_color,
                        first_stage_duration,
                        EasingType::StepEnd,
                    ),
                ),
                ..Components::empty()
            })
        &&& c.collider is None
        &&& c.drawable == Some(
                Drawable::plain_spec(MeshType::Circle { radius, filled }, first_stage_color, DEPTH_EFFECTS),
            )
        &&& c.drawable_multi is None
        &&& c.infotext is None
    }

    /// The round counterpart of `new_hit_effect`.
    pub fn new_hit_effect_round(
        pos: Vec2,
        radius: i64,
        first_stage_color: Color,
        first_stage_duration: i64,
        second_stage_color: Color,
        second_stage_duration: i64,
        filled: bool,
    ) -> (c: Components)
        ensures
            Self::is_hit_effect_round(c, pos, radius, first_stage_color, first_stage_duration, second_stage_color, second_stage_duration, filled),
    {
        reveal(Archetypes::is_hit_effect_round);
        let lifetime: i64 = fx_add(first_stage_duration, second_stage_duration);
        let mut c: Components = Components::none();
        c.transform = Some(Transform { pos, dir_angle: 0 });
        c.autoremove = Some(AutoremoveTimer::new(lifetime));
        c.tween_color = Some(
            TweenColor::new(first_stage_color, second_stage_color, first_stage_duration, EasingType::StepEnd),
        );
        c.drawable = Some(Drawable::plain(MeshType::Circle { radius, filled }, first_stage_color, DEPTH_EFFECTS));
        c
    }

    /// What `new_explode_particle` returns.
    #[verifier::opaque]
    pub open spec fn is_explode_particle(c: Components, pos: Vec2, dir_angle: i64, speed: i64, thickness: i64, length: i64, lifetime: i64, color: Color) -> bool {
        &&& c.plain_part() == (Components {
                transform: Some(Transform { pos, dir_angle }),
                motion: Some(drift(Vec2::from_angle_spec(dir_angle).scaled_spec(speed), 0)),
                autoremove: Some(AutoremoveTimer { timer: TimerSimple::new_started_spec(lifetime as int) }),
                explode: Some(
                    ExplodeParticle {
                        timer_tween: TimerSimple::new_started_spec(lifetime as int),
                        thickness,
                        length,
                        speed,
                        color,
                    },
                ),
                ..Components::empty()
            })
        &&& c.collider is None
        &&& c.drawable == Some(Drawable::plain_spec(beam(length, thickness, false), color, DEPTH_EFFECTS))
        &&& c.drawable_multi is None
        &&& c.infotext is None
    }

    /// A streak that flies off along `dir_angle` and fades over its
    /// lifetime.
    pub fn new_explode_particle(
        pos: Vec2,
        dir_angle: i64,
        speed: i64,
        thickness: i64,
        length: i64,
        lifetime: i64,
        color: Color,
    ) -> (c: Components)
        ensures
            Self::is_explode_particle(c, pos, dir_angle, speed, thickness, length, lifetime, color),
    {
        reveal(Archetypes::is_explode_particle);
        let dir: Vec2 = Vec2::from_angle_flipped_y(dir_angle);
        let mut c: Components = Components::none();
        c.transform = Some(Transform { pos, dir_angle });
        c.motion = Some(drift_exec(dir.scaled(speed), 0));
        c.autoremove = Some(AutoremoveTimer::new(lifetime));
        c.explode = Some(
            ExplodeParticle { timer_tween: TimerSimple::new_started(lifetime), thickness, length, speed, color },
        );
        c.drawable = Some(Drawable::plain(beam_exec(length, thickness, false), color, DEPTH_EFFECTS));
        c
    }

    /// What `new_tick_effect` returns.
    #[verifier::opaque]
    pub open spec fn is_tick_effect(c: Components, player_entity: EntityId) -> bool {
        &&& c.plain_part() == (Components {
                transform: Some(Transform { pos: Vec2 { x: 0, y: 0 }, dir_angle: 0 }),
                snap: Some(
                    SnapToParent {
                        parent: player_entity,
                        remove_entity_if_lost_parent: true,
                        pos_snap: true,
                        pos_offset: Vec2 { x: 0, y: 0 },
                        dir_angle_snap: false,
                        dir_angle_offset: 0,
                    },
                ),
                autoremove: Some(AutoremoveTimer { timer: TimerSimple::new_started_spec(130_000) }),
                tick: Some(
                    TickEffect {
                        timer_tween: TimerSimple::new_started_spec(130_000),
                        width: 32_000_000,
                        height: 48_000_000,
                    },
                ),
                ..Components::empty()
            })
        &&& c.collider is None
        &&& c.drawable == Some(
                Drawable::plain_spec(
                    MeshType::Rectangle { width: 32_000_000, height: 48_000_000, filled: true, centered: true },
                    color_neutral(),
                    DEPTH_EFFECTS,
                ),
            )
        &&& c.drawable_multi is None
        &&& c.infotext is None
    }

    /// The stamp that marks a tick of the player's cycle.
    pub fn new_tick_effect(player_entity: EntityId) -> (c: Components)
        ensures
            Self::is_tick_effect(c, player_entity),
    {
        reveal(Archetypes::is_tick_effect);
        let width: i64 = 32_000_000;
        let height: i64 = 48_000_000;
        let lifetime: i64 = 130_000;
        let mut c: Components = Components::none();
        c.transform = Some(Transform { pos: Vec2::zero(), dir_angle: 0 });
        c.snap = Some(
            SnapToParent {
                parent: player_entity,
                remove_entity_if_lost_parent: true,
                pos_snap: true,
                pos_offset: Vec2::zero(),
                dir_angle_snap: false,
                dir_angle_offset: 0,
            },
        );
        c.autoremove = Some(AutoremoveTimer::new(lifetime));
        c.tick = Some(TickEffect { timer_tween: TimerSimple::new_started(lifetime), width, height });
        c.drawable = Some(
            Drawable::plain(
                MeshType::Rectangle { width, height, filled: true, centered: true },
                color_neutral(),
                DEPTH_EFFECTS,
            ),
        );
        c
    }

    /// The angle between two corners of an outline with `vertex_count`
    /// corners.
    pub open spec fn corner_step(vertex_count: usize) -> i64 {
        if vertex_count == 0 || vertex_count > 360_000_000 {
            0
        } else {
            (360_000_000int / (vertex_count as int)) as i64
        }
    }

    /// The direction of corner `k` before it is moved.
    pub open spec fn corner_angle(k: nat, step: i64) -> i64
        decreases k,
    {
        if k == 0 {
            0
        } else {
            sadd(Self::corner_angle((k - 1) as nat, step), step)
        }
    }

    /// A corner of a rock: it lies in the direction `angle`, off by up to
    /// a quarter of `step`, at the distance `radius`, off by up to a
    /// quarter of it.
    pub open spec fn is_corner(p: Vec2, radius: i64, angle: i64, step: i64) -> bool {
        exists|off: Vec2|
            {
                &&& crate::enemy::within(Vec2 { x: off.x, y: off.x }, crate::fixed::tdiv(radius as int, 4) as i64)
                &&& crate::enemy::within(Vec2 { x: off.y, y: off.y }, crate::fixed::tdiv(step as int, 4) as i64)
                &&& p == #[trigger] Self::corner_at(radius, angle, off)
            }
    }

    /// The corner at distance `radius + off.x` in direction `angle + off.y`.
    pub open spec fn corner_at(radius: i64, angle: i64, off: Vec2) -> Vec2 {
        Vec2 {
            x: smul(sadd(radius, off.x), crate::trig::cos_spec(sadd(angle, off.y) as int) as i64),
            y: smul(sadd(radius, off.x), crate::trig::sin_spec(sadd(angle, off.y) as int) as i64),
        }
    }

    /// An outline of `vertex_count` corners, evenly spread around the
    /// origin before each was moved, and closed by its first corner.
    pub open spec fn is_irregular_polygon(points: Seq<Vec2>, vertex_count: usize, radius: i64) -> bool {
        &&& points.len() == vertex_count + 1
        &&& points[vertex_count as int] == points[0]
        &&& forall|k: int|
            0 <= k < vertex_count ==> Self::is_corner(
                #[trigger] points[k],
                radius,
                Self::corner_angle(k as nat, Self::corner_step(vertex_count)),
                Self::corner_step(vertex_count),
            )
    }

    /// How far corner `k` is moved by the words that come after `from`
    /// draws. Each corner takes two draws: the first selects the change
    /// of its distance, the second the change of its direction.
    pub open spec fn corner_offset(e: Entropy, from: nat, k: nat, radius: i64, step: i64) -> Vec2 {
        let slack = crate::fixed::tdiv(radius as int, 4) as i64;
        let low = if slack < 0 { slack } else { crate::fixed::sneg(slack) };
        let high = if slack < 0 { crate::fixed::sneg(slack) } else { slack };
        let turn = crate::fixed::tdiv(step as int, 4) as i64;
        Vec2 {
            x: crate::random::pick_range(e.word_after(from + 2 * k), low, high),
            y: crate::random::pick_range(e.word_after(from + 2 * k + 1), crate::fixed::sneg(turn), turn),
        }
    }

    /// Corner `k` of the outline that the words after `from` draws select.
    pub open spec fn corner_picked(e: Entropy, from: nat, k: nat, vertex_count: usize, radius: i64) -> Vec2 {
        Self::corner_at(
            radius,
            Self::corner_angle(k, Self::corner_step(vertex_count)),
            Self::corner_offset(e, from, k, radius, Self::corner_step(vertex_count)),
        )
    }

    /// The outline of a rock: `vertex_count` corners around the origin,
    /// each moved a little in distance and angle by the next two words,
    /// and the first repeated at the end to close the outline.
    pub fn create_irregular_polygon(entropy: &mut Entropy, vertex_count: usize, radius: i64) -> (points: Vec<Vec2>)
        requires
            1 <= vertex_count < usize::MAX,
        ensures
            Self::is_irregular_polygon(points@, vertex_count, radius),
            forall|k: int|
                0 <= k < vertex_count ==> #[trigger] points@[k] == Self::corner_picked(
                    *old(entropy),
                    0,
                    k as nat,
                    vertex_count,
                    radius,
                ),
            old(entropy).drawn(final(entropy), 2 * (vertex_count as nat)),
    {
        let ghost start = *entropy;
        let mut points: Vec<Vec2> = Vec::new();
        let mut angle_current: i64 = 0;
        let angle_increment: i64 = if vertex_count <= 360_000_000 { FULL_TURN / (vertex_count as i64) } else { 0 };
        let slack: i64 = radius / 4;
        let angle_slack: i64 = angle_increment / 4;
        let mut i: usize = 0;
        while i < vertex_count
            invariant
                i <= vertex_count,
                points@.len() == i,
                angle_increment == Self::corner_step(vertex_count),
                0 <= angle_increment,
                slack == crate::fixed::tdiv(radius as int, 4),
                angle_slack == crate::fixed::tdiv(angle_increment as int, 4),
                angle_current == Self::corner_angle(i as nat, angle_increment),
                start.drawn(entropy, 2 * (i as nat)),
                forall|k: int|
                    0 <= k < i ==> #[trigger] points@[k] == Self::corner_picked(
                        start,
                        0,
                        k as nat,
                        vertex_count,
                        radius,
                    ),
                forall|k: int|
                    0 <= k < i ==> Self::is_corner(
                        #[trigger] points@[k],
                        radius,
                        Self::corner_angle(k as nat, angle_increment),
                        angle_increment,
                    ),
            decreases vertex_count - i,
        {
            let low: i64 = if slack < 0 { slack } else { fx_neg(slack) };
            let high: i64 = if slack < 0 { fx_neg(slack) } else { slack };
            let ghost first = *entropy;
            let nudge: i64 = entropy.range(low, high);
            let ghost second = *entropy;
            let twist: i64 = entropy.range(fx_neg(angle_slack), angle_slack);
            proof {
                start.lemma_draw_after(&first, &second, 2 * (i as nat));
                start.lemma_draw_after(&second, entropy, 2 * (i as nat) + 1);
            }
            let distance: i64 = fx_add(radius, nudge);
            let angle: i64 = fx_add(angle_current, twist);
            let corner: Vec2 = Vec2 { x: fx_mul(distance, cos_deg(angle)), y: fx_mul(distance, sin_deg(angle)) };
            proof {
                let off = Vec2 { x: nudge, y: twist };
                assert(low <= high);
                assert(crate::fixed::sneg(angle_slack) <= angle_slack);
                assert(crate::enemy::within(Vec2 { x: off.x, y: off.x }, slack));
                assert(crate::enemy::within(Vec2 { x: off.y, y: off.y }, angle_slack));
                assert(corner == Self::corner_at(radius, angle_current, off));
                assert(Self::is_corner(corner, radius, angle_current, angle_increment));
                assert(off == Self::corner_offset(start, 0, i as nat, radius, angle_increment));
            }
            let ghost before = points@;
            points.push(corner);
            proof {
                assert forall|k: int| 0 <= k < i + 1 implies Self::is_corner(
                    #[trigger] points@[k],
                    radius,
                    Self::corner_angle(k as nat, angle_increment),
                    angle_increment,
                ) by {
                    if k < i {
                        assert(points@[k] == before[k]);
                    }
                }
            }
            angle_current = fx_add(angle_current, angle_increment);
            i = i + 1;
        }
        let first: Vec2 = points[0];
        let ghost corners = points@;
        points.push(first);
        proof {
            assert forall|k: int| 0 <= k < vertex_count implies Self::is_corner(
                #[trigger] points@[k],
                radius,
                Self::corner_angle(k as nat, Self::corner_step(vertex_count)),
                Self::corner_step(vertex_count),
            ) by {
                assert(points@[k] == corners[k]);
            }
        }
        points
    }

    /// What `new_enemy_rock` returns.
    #[verifier::opaque]
    pub open spec fn is_enemy_rock(c: Components, pos: Vec2, vel: Vec2, radius: i64) -> bool {
        &&& c.transform is Some
        &&& c.transform->0.pos == pos
        &&& 0 <= c.transform->0.dir_angle <= FULL_TURN
        &&& c.motion is Some
        &&& c.motion->0.vel == vel
        &&& c.motion->0.acc == (Vec2 { x: 0, y: 0 })
        &&& -FULL_TURN <= c.motion->0.dir_angle_vel <= FULL_TURN
        &&& c.motion->0.dir_angle_acc == 0
        &&& c.plain_part() == (Components {
                transform: c.transform,
                motion: c.motion,
                enemy: Some(
                    Enemy {
                        hp: 100_000_000,
                        hp_max: 100_000_000,
                        hitflash_timer: TimerSimple::new_stopped_spec(100_000),
                        radius,
                        can_shoot: false,
                        is_charging: false,
                        timer_shoot: TimerSimple::new_stopped_spec(1_000_000),
                        timer_charge: TriggerRepeating::new_spec(1_000_000),
                        score: 100,
                    },
                ),
                ..Components::empty()
            })
        &&& c.collider is Some
        &&& c.collider->0.is_fresh(radius, COLLISION_LAYER_ENEMY, COLLISION_LAYER_PLAYER)
        &&& c.drawable is Some
        &&& c.drawable->0.mesh is Linestrip
        &&& Self::is_irregular_polygon(c.drawable->0.mesh->Linestrip_0@, 8, 10_000_000)
        &&& c.drawable->0 == Drawable::plain_spec(c.drawable->0.mesh, color_hp(), DEPTH_COLLECTIBLES)
        &&& c.drawable_multi is None
        &&& c.infotext is None
    }

    /// A rock: it drifts and spins, cannot shoot, and hurts the player on
    /// contact. Its facing, spin and outline are random: the first word
    /// selects the facing, the second the spin, and the next sixteen the
    /// eight corners of the outline.
    pub fn new_enemy_rock(entropy: &mut Entropy, pos: Vec2, vel: Vec2, radius: i64) -> (c: Components)
        ensures
            Self::is_enemy_rock(c, pos, vel, radius),
            c.transform->0.dir_angle == crate::random::pick_range(old(entropy).word_after(0), 0, FULL_TURN),
            c.motion->0.dir_angle_vel == crate::random::pick_range(old(entropy).word_after(1), -360_000_000i64, FULL_TURN),
            forall|k: int|
                0 <= k < 8 ==> #[trigger] c.drawable->0.mesh->Linestrip_0@[k] == Self::corner_picked(
                    *old(entropy),
                    2,
                    k as nat,
                    8,
                    10_000_000,
                ),
            old(entropy).drawn(final(entropy), 18),
    {
        reveal(Archetypes::is_enemy_rock);
        let dir_angle: i64 = entropy.range(0, FULL_TURN);
        let ghost first = *entropy;
        let dir_angle_vel: i64 = entropy.range(-FULL_TURN, FULL_TURN);
        let ghost second = *entropy;
        let linestrip: Vec<Vec2> = Self::create_irregular_polygon(entropy, 8, 10_000_000);
        proof {
            old(entropy).lemma_draw_after(old(entropy), &first, 0);
            old(entropy).lemma_draw_after(&first, &second, 1);
            old(entropy).lemma_draws_add(&second, entropy, 2, 16);
            assert forall|k: int| 0 <= k < 8 implies #[trigger] linestrip@[k] == Self::corner_picked(
                *old(entropy),
                2,
                k as nat,
                8,
                10_000_000,
            ) by {
                old(entropy).lemma_position_shift(&second, 2, 2 * (k as nat));
                old(entropy).lemma_position_shift(&second, 2, 2 * (k as nat) + 1);
                assert(linestrip@[k] == Self::corner_picked(second, 0, k as nat, 8, 10_000_000));
            }
        }
        let mut c: Components = Components::none();
        c.transform = Some(Transform { pos, dir_angle });
        c.motion = Some(drift_exec(vel, dir_angle_vel));
        c.collider = Some(Collider::new(radius, COLLISION_LAYER_ENEMY, COLLISION_LAYER_PLAYER));
        c.enemy = Some(
            Enemy {
                hp: 100_000_000,
                hp_max: 100_000_000,
                hitflash_timer: TimerSimple::new_stopped(100_000),
                radius,
                can_shoot: false,
                is_charging: false,
                timer_shoot: TimerSimple::new_stopped(1_000_000),
                timer_charge: TriggerRepeating::new(1_000_000),
                score: 100,
            },
        );
        c.drawable = Some(Drawable::plain(MeshType::Linestrip(linestrip), color_hp(), DEPTH_COLLECTIBLES));
        c
    }

    /// What `new_enemy_shooter` returns.
    #[verifier::opaque]
    pub open spec fn is_enemy_shooter(c: Components, pos: Vec2, vel: Vec2) -> bool {
        &&& c.plain_part() == (Components {
                transform: Some(Transform { pos, dir_angle: if vel.x >= 0 { 0i64 } else { -180_000_000i64 } }),
                motion: Some(drift(vel, 0)),
                enemy: Some(
                    Enemy {
                        hp: 100_000_000,
                        hp_max: 100_000_000,
                        hitflash_timer: TimerSimple::new_stopped_spec(100_000),
                        radius: 12_000_000,
                        can_shoot: true,
                        is_charging: false,
                        timer_shoot: TimerSimple::new_started_spec(5_000_000),
                        timer_charge: TriggerRepeating::new_distinct_spec(4_000_000, 20_000),
                        score: 150,
                    },
                ),
                ..Components::empty()
            })
        &&& c.collider is Some
        &&& c.collider->0.is_fresh(12_000_000, COLLISION_LAYER_ENEMY, COLLISION_LAYER_PLAYER)
        &&& c.drawable is Some
        &&& c.drawable->0.mesh is Linestrip
        &&& c.drawable->0.mesh->Linestrip_0@ == seq![
                Vec2 { x: 12_000_000, y: 0 },
                Vec2 { x: -6_000_000i64, y: 6_000_000 },
                Vec2 { x: -12_000_000i64, y: 0 },
                Vec2 { x: -6_000_000i64, y: -6_000_000i64 },
                Vec2 { x: 12_000_000, y: 0 },
            ]
        &&& c.drawable->0 == Drawable::plain_spec(c.drawable->0.mesh, color_hp(), DEPTH_COLLECTIBLES)
        &&& c.drawable_multi is None
        &&& c.infotext is None
    }

    /// A shooter: it flies straight, faces the way it flies, and fires at
    /// the player every few seconds.
    pub fn new_enemy_shooter(pos: Vec2, vel: Vec2) -> (c: Components)
        ensures
            Self::is_enemy_shooter(c, pos, vel),
    {
        reveal(Archetypes::is_enemy_shooter);
        let width: i64 = 12_000_000;
        let height: i64 = 6_000_000;
        let radius: i64 = 12_000_000;
        let dir_angle: i64 = if vel.x >= 0 { 0 } else { -180_000_000i64 };
        let mut linestrip: Vec<Vec2> = Vec::new();
        linestrip.push(Vec2 { x: width, y: 0 });
        linestrip.push(Vec2 { x: -width / 2, y: height });
        linestrip.push(Vec2 { x: -width, y: 0 });
        linestrip.push(Vec2 { x: -width / 2, y: -height });
        linestrip.push(Vec2 { x: width, y: 0 });
        assert(linestrip@ =~= seq![
            Vec2 { x: 12_000_000, y: 0 },
            Vec2 { x: -6_000_000i64, y: 6_000_000 },
            Vec2 { x: -12_000_000i64, y: 0 },
            Vec2 { x: -6_000_000i64, y: -6_000_000i64 },
            Vec2 { x: 12_000_000, y: 0 },
        ]);
        let mut c: Components = Components::none();
        c.transform = Some(Transform { pos, dir_angle });
        c.motion = Some(drift_exec(vel, 0));
        c.collider = Some(Collider::new(radius, COLLISION_LAYER_ENEMY, COLLISION_LAYER_PLAYER));
        c.enemy = Some(
            Enemy {
                hp: 100_000_000,
                hp_max: 100_000_000,
                hitflash_timer: TimerSimple::new_stopped(100_000),
                radius,
                can_shoot: true,
                is_charging: false,
                timer_shoot: TimerSimple::new_started(5_000_000),
                timer_charge: TriggerRepeating::new_with_distinct_triggertimes(4_000_000, 20_000),
                score: 150,
            },
        );
        c.drawable = Some(Drawable::plain(MeshType::Linestrip(linestrip), color_hp(), DEPTH_COLLECTIBLES));
        c
    }
}

} // verus!
