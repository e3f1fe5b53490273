//! What the player's ship emits: shots by attack pattern, muzzle flashes,
//! exhaust and the tick of its cycle.
use vstd::prelude::*;
use crate::archetypes::Archetypes;
use crate::attack::{Attack, AttackType, ShipType, exhaust_points_spec, get_exhaust_points_for_ship,
    get_shoot_points_for_ship, shoot_points_spec};
use crate::color::{Color, color_boost, color_skill_point, palette, palette_spec};
use crate::commands::{Command, WorldCommandBuffer};
use crate::components::{EntityId, Player};
use crate::fixed::{fx_add, fx_neg, fx_sub, sadd, sneg, ssub};
use crate::player::{pool_changed, pool_spec};
use crate::random::Entropy;
use crate::timer::{TimerSimple, TriggerRepeating};
use crate::vec2::Vec2;

verus! {

pub const SHOT_SPEED: i64 = 200_000_000;

pub const SHOT_LENGTH: i64 = 4_000_000;

pub const SHOT_DAMAGE: i64 = 100_000_000;

/// 15 degrees: the angle between the shots of a fan.
pub const FAN_ANGLE: i64 = 15_000_000;

/// One shot to be spawned.
#[derive(Clone, Copy, Debug, PartialEq, Eq, Structural)]
pub struct Shot {
    pub pos: Vec2,
    pub dir_angle: i64,
    pub color: Color,
}

/// A point of a ship model in scene units.
pub open spec fn model_point(p: (i32, i32)) -> Vec2 {
    Vec2 { x: (p.0 * 1_000_000) as i64, y: (p.1 * 1_000_000) as i64 }
}

pub fn model_point_exec(p: (i32, i32)) -> (v: Vec2)
    ensures
        v == model_point(p),
{
    Vec2 { x: (p.0 as i64) * 1_000_000, y: (p.1 as i64) * 1_000_000 }
}

/// The scale at which a ship of the given size shows its model.
pub open spec fn ship_scale(size: i64) -> Vec2 {
    Vec2 { x: crate::fixed::tdiv(size as int, 4) as i64, y: crate::fixed::tdiv(size as int, 4) as i64 }
}

/// The muzzle of a ship at `pos` that faces along `dir`.
pub open spec fn muzzle_spec(ship_type: ShipType, size: i64, pos: Vec2, dir: Vec2) -> Vec2 {
    model_point(shoot_points_spec(ship_type)[0]).transformed_spec(Vec2 { x: 0, y: 0 }, pos, ship_scale(size), dir)
}

pub fn muzzle(ship_type: ShipType, size: i64, pos: Vec2, dir: Vec2) -> (m: Vec2)
    ensures
        m == muzzle_spec(ship_type, size, pos, dir),
{
    let points: Vec<(i32, i32)> = get_shoot_points_for_ship(ship_type);
    model_point_exec(points[0]).transformed(Vec2::zero(), pos, Vec2::filled(size / 4), dir)
}

/// The vector turned a quarter turn to the left on screen.
pub open spec fn quarter_left(v: Vec2) -> Vec2 {
    Vec2 { x: v.y, y: sneg(v.x) }
}

/// The vector turned a quarter turn to the right on screen.
pub open spec fn quarter_right(v: Vec2) -> Vec2 {
    Vec2 { x: sneg(v.y), y: v.x }
}

/// The shots of one firing, by pattern. `muzzle` is where shots leave a
/// ship that stands at `pos` and faces along `angle`.
///
/// Neutral and rapid fire one shot ahead. Double fires two, 15 degrees to
/// either side; triple adds the one ahead. Back fires one ahead and one
/// astern, from the mirrored muzzle. Side fires one ahead and one to either
/// side, from muzzles a quarter turn around the ship. Spread fires one shot
/// off by `spread_offset`, in `spread_color`. All but spread use the color
/// of the pattern.
pub open spec fn shot_plan(
    attack: Attack,
    muzzle: Vec2,
    pos: Vec2,
    angle: i64,
    spread_offset: i64,
    spread_color: Color,
) -> Seq<Shot> {
    let ahead = Shot { pos: muzzle, dir_angle: angle, color: attack.color };
    let fan_left = Shot { pos: muzzle, dir_angle: sadd(angle, FAN_ANGLE), color: attack.color };
    let fan_right = Shot { pos: muzzle, dir_angle: ssub(angle, FAN_ANGLE), color: attack.color };
    let arm = muzzle.minus_spec(pos);
    match attack.typename {
        AttackType::Neutral => seq![ahead],
        AttackType::Rapid => seq![ahead],
        AttackType::Double => seq![fan_right, fan_left],
        AttackType::Triple => seq![ahead, fan_right, fan_left],
        AttackType::Spread => seq![Shot { pos: muzzle, dir_angle: sadd(angle, spread_offset), color: spread_color }],
        AttackType::Back => seq![
            ahead,
            Shot { pos: pos.minus_spec(arm), dir_angle: sadd(angle, 180_000_000), color: attack.color },
        ],
        AttackType::Side => seq![
            ahead,
            Shot { pos: pos.plus_spec(quarter_right(arm)), dir_angle: ssub(angle, 90_000_000), color: attack.color },
            Shot { pos: pos.plus_spec(quarter_left(arm)), dir_angle: sadd(angle, 90_000_000), color: attack.color },
        ],
    }
}

/// The double pattern fires exactly two shots from the muzzle, 15 degrees
/// to either side of the facing, both in the color of the pattern.
pub proof fn lemma_double_fires_two(muzzle: Vec2, pos: Vec2, angle: i64, spread_offset: i64, spread_color: Color)
    ensures
        shot_plan(AttackType::Double.attack_spec(), muzzle, pos, angle, spread_offset, spread_color) == seq![
            Shot { pos: muzzle, dir_angle: ssub(angle, FAN_ANGLE), color: crate::color::color_ammo() },
            Shot { pos: muzzle, dir_angle: sadd(angle, FAN_ANGLE), color: crate::color::color_ammo() },
        ],
{
}

/// How many shots a pattern fires at once.
pub open spec fn shot_count(typename: AttackType) -> nat {
    match typename {
        AttackType::Neutral => 1,
        AttackType::Rapid => 1,
        AttackType::Double => 2,
        AttackType::Triple => 3,
        AttackType::Spread => 1,
        AttackType::Back => 2,
        AttackType::Side => 3,
    }
}

pub fn plan_shots(attack: &Attack, muzzle: Vec2, pos: Vec2, angle: i64, spread_offset: i64, spread_color: Color) -> (shots: Vec<Shot>)
    ensures
        shots@ == shot_plan(*attack, muzzle, pos, angle, spread_offset, spread_color),
        shots@.len() == shot_count(attack.typename),
{
    let color: Color = attack.color;
    let ahead: Shot = Shot { pos: muzzle, dir_angle: angle, color };
    let fan_left: Shot = Shot { pos: muzzle, dir_angle: fx_add(angle, FAN_ANGLE), color };
    let fan_right: Shot = Shot { pos: muzzle, dir_angle: fx_sub(angle, FAN_ANGLE), color };
    let arm: Vec2 = muzzle.minus(pos);
    let mut shots: Vec<Shot> = Vec::new();
    match attack.typename {
        AttackType::Neutral => {
            shots.push(ahead);
        },
        AttackType::Rapid => {
            shots.push(ahead);
        },
        AttackType::Double => {
            shots.push(fan_right);
            shots.push(fan_left);
        },
        AttackType::Triple => {
            shots.push(ahead);
            shots.push(fan_right);
            shots.push(fan_left);
        },
        AttackType::Spread => {
            shots.push(Shot { pos: muzzle, dir_angle: fx_add(angle, spread_offset), color: spread_color });
        },
        AttackType::Back => {
            shots.push(ahead);
            shots.push(Shot { pos: pos.minus(arm), dir_angle: fx_add(angle, 180_000_000), color });
        },
        AttackType::Side => {
            shots.push(ahead);
            shots.push(
                Shot {
                    pos: pos.plus(Vec2 { x: fx_neg(arm.y), y: arm.x }),
                    dir_angle: fx_sub(angle, 90_000_000),
                    color,
                },
            );
            shots.push(
                Shot {
                    pos: pos.plus(Vec2 { x: arm.y, y: fx_neg(arm.x) }),
                    dir_angle: fx_add(angle, 90_000_000),
                    color,
                },
            );
        },
    }
    assert(shots@ =~= shot_plan(*attack, muzzle, pos, angle, spread_offset, spread_color));
    shots
}

/// The player after the firing step. When the reload trigger fires, a
/// firing uses up ammunition; when none is left, the pool is refilled and
/// the pattern falls back to the neutral one.
pub open spec fn fired(p: Player, dt: i64) -> Player {
    if p.reload_timer.fires(dt as int) {
        let ammo = pool_spec(p.ammo, sneg(p.attack.ammo_consumption_on_shot), p.ammo_max);
        if ammo <= 0 {
            Player {
                ammo: if p.ammo_max < 0 { 0 } else { p.ammo_max },
                attack: AttackType::Neutral.attack_spec(),
                reload_timer: TriggerRepeating::new_spec(AttackType::Neutral.attack_spec().reload_time as int),
                ..p
            }
        } else {
            Player { ammo, reload_timer: p.reload_timer.stepped(dt as int), ..p }
        }
    } else {
        Player { reload_timer: p.reload_timer.stepped(dt as int), ..p }
    }
}

/// The commands spawn the given shots, in order.
pub open spec fn spawns_shots(commands: Seq<Command>, shots: Seq<Shot>) -> bool {
    &&& commands.len() == shots.len()
    &&& forall|k: int|
        0 <= k < shots.len() ==> (#[trigger] commands[k]) is Spawn && Archetypes::is_projectile(
            commands[k]->Spawn_0,
            shots[k].pos,
            shots[k].dir_angle,
            SHOT_SPEED,
            SHOT_LENGTH,
            shots[k].color,
            SHOT_DAMAGE,
        )
}

/// The spread of a spread shot is within 20 degrees either way and its
/// color is one of the palette.
pub open spec fn spread_in_range(offset: i64, color: Color) -> bool {
    &&& -20_000_000 <= offset <= 20_000_000
    &&& exists|index: u64| color == #[trigger] palette_spec(index)
}

/// What a firing queues: a muzzle flash that goes with the ship `id`, then
/// the shots of the pattern. Nothing is queued when the ship does not fire.
#[verifier::opaque]
pub open spec fn is_fire_part(part: Seq<Command>, id: EntityId, p: Player, pos: Vec2, angle: i64, dt: i64) -> bool {
    if p.reload_timer.fires(dt as int) {
        let dir = Vec2::from_angle_spec(angle);
        &&& part.len() == 1 + shot_count(p.attack.typename)
        &&& part[0] is Spawn
        &&& Archetypes::is_muzzleflash(
            part[0]->Spawn_0,
            id,
            muzzle_spec(p.ship_type, p.size, Vec2 { x: 0, y: 0 }, Vec2 { x: 1_000_000, y: 0 }),
            45_000_000,
        )
        &&& exists|offset: i64, color: Color|
            spread_in_range(offset, color) && #[trigger] spawns_shots(
                part.skip(1),
                shot_plan(p.attack, muzzle_spec(p.ship_type, p.size, pos, dir), pos, angle, offset, color),
            )
    } else {
        part.len() == 0
    }
}

fn spawn_shots(shots: &Vec<Shot>, commands: &mut WorldCommandBuffer)
    ensures
        final(commands)@.len() == old(commands)@.len() + shots@.len(),
        final(commands)@.take(old(commands)@.len() as int) == old(commands)@,
        spawns_shots(final(commands)@.skip(old(commands)@.len() as int), shots@),
{
    let ghost base = commands@;
    let mut k: usize = 0;
    while k < shots.len()
        invariant
            k <= shots@.len(),
            commands@.len() == base.len() + k,
            commands@.take(base.len() as int) == base,
            forall|j: int|
                0 <= j < k ==> (#[trigger] commands@[base.len() + j]) is Spawn && Archetypes::is_projectile(
                    commands@[base.len() + j]->Spawn_0,
                    shots@[j].pos,
                    shots@[j].dir_angle,
                    SHOT_SPEED,
                    SHOT_LENGTH,
                    shots@[j].color,
                    SHOT_DAMAGE,
                ),
        decreases shots@.len() - k,
    {
        let shot: Shot = shots[k];
        let ghost before = commands@;
        commands.add_entity(
            Archetypes::new_projectile(shot.pos, shot.dir_angle, SHOT_SPEED, SHOT_LENGTH, shot.color, SHOT_DAMAGE),
        );
        proof {
            assert(commands@.take(base.len() as int) =~= before.take(base.len() as int));
            assert forall|j: int| 0 <= j < k + 1 implies (#[trigger] commands@[base.len() + j]) is Spawn
                && Archetypes::is_projectile(
                commands@[base.len() + j]->Spawn_0,
                shots@[j].pos,
                shots@[j].dir_angle,
                SHOT_SPEED,
                SHOT_LENGTH,
                shots@[j].color,
                SHOT_DAMAGE,
            ) by {
                if j < k {
                    assert(commands@[base.len() + j] == before[base.len() + j]);
                }
            }
        }
        k = k + 1;
    }
    proof {
        let part = commands@.skip(base.len() as int);
        assert forall|j: int| 0 <= j < shots@.len() implies (#[trigger] part[j]) is Spawn && Archetypes::is_projectile(
            part[j]->Spawn_0,
            shots@[j].pos,
            shots@[j].dir_angle,
            SHOT_SPEED,
            SHOT_LENGTH,
            shots@[j].color,
            SHOT_DAMAGE,
        ) by {
            assert(part[j] == commands@[base.len() + j]);
        }
    }
}

/// The spread of a shot: for the spread pattern the next word selects
/// the angle by which it is off, within 20 degrees either way, and the
/// word after that its color; every other pattern has none.
pub open spec fn spread_picked(attack: Attack, e: Entropy) -> (i64, Color) {
    if attack.typename == AttackType::Spread {
        (
            crate::random::pick_range(e.word_after(0), -20_000_000i64, 20_000_000),
            crate::color::palette_spec(e.word_after(1)),
        )
    } else {
        (0, crate::color::palette_spec(0))
    }
}

/// The draws that a firing takes: two for the spread pattern, none else.
pub open spec fn fire_draws(p: Player, dt: i64) -> nat {
    if p.reload_timer.fires(dt as int) && p.attack.typename == AttackType::Spread {
        2
    } else {
        0
    }
}

/// Advances the reload trigger and fires when it is due.
#[verifier::rlimit(50)]
pub fn fire_step(
    id: EntityId,
    player: &mut Player,
    pos: Vec2,
    angle: i64,
    deltatime: i64,
    entropy: &mut Entropy,
    commands: &mut WorldCommandBuffer,
)
    ensures
        *final(player) == fired(*old(player), deltatime),
        old(player).pools_in_bounds() ==> final(player).pools_in_bounds(),
        final(commands)@.len() >= old(commands)@.len(),
        final(commands)@.take(old(commands)@.len() as int) == old(commands)@,
        is_fire_part(
            final(commands)@.skip(old(commands)@.len() as int),
            id,
            *old(player),
            pos,
            angle,
            deltatime,
        ),
        old(player).reload_timer.fires(deltatime as int) ==> spawns_shots(
            final(commands)@.skip(old(commands)@.len() as int).skip(1),
            shot_plan(
                old(player).attack,
                muzzle_spec(old(player).ship_type, old(player).size, pos, Vec2::from_angle_spec(angle)),
                pos,
                angle,
                spread_picked(old(player).attack, *old(entropy)).0,
                spread_picked(old(player).attack, *old(entropy)).1,
            ),
        ),
        old(entropy).drawn(final(entropy), fire_draws(*old(player), deltatime)),
{
    reveal(is_fire_part);
    let ghost base = commands@;
    if player.reload_timer.update_and_check(deltatime) {
        let attack: Attack = player.attack;
        let dir: Vec2 = Vec2::from_angle_flipped_y(angle);
        let muzzle_relative: Vec2 = muzzle(player.ship_type, player.size, Vec2::zero(), Vec2::unit_x());
        commands.add_entity(Archetypes::new_muzzleflash(id, muzzle_relative, 45_000_000));
        let ghost after_flash = commands@;
        let muzzle_absolute: Vec2 = muzzle(player.ship_type, player.size, pos, dir);
        let (offset, color): (i64, Color) = match attack.typename {
            AttackType::Spread => {
                let offset: i64 = entropy.range(-20_000_000, 20_000_000);
                let ghost first = *entropy;
                let index: u64 = entropy.next_word();
                proof {
                    old(entropy).lemma_draw_after(old(entropy), &first, 0);
                    old(entropy).lemma_draw_after(&first, entropy, 1);
                }
                (offset, palette(index))
            },
            _ => (0, palette(0)),
        };
        assert(spread_in_range(offset, color));
        let shots: Vec<Shot> = plan_shots(&attack, muzzle_absolute, pos, angle, offset, color);
        spawn_shots(&shots, commands);
        player.ammo = pool_changed(player.ammo, fx_neg(attack.ammo_consumption_on_shot), player.ammo_max);
        if player.ammo <= 0 {
            player.ammo = if player.ammo_max < 0 { 0 } else { player.ammo_max };
            player.attack = AttackType::Neutral.attack();
            player.reload_timer = TriggerRepeating::new(player.attack.reload_time);
        }
        proof {
            let part = commands@.skip(base.len() as int);
            assert(commands@.take(base.len() as int) =~= after_flash.take(base.len() as int));
            assert(after_flash.take(base.len() as int) =~= base);
            assert(part[0] == after_flash[base.len() as int]);
            assert(part.skip(1) =~= commands@.skip(after_flash.len() as int));
            assert(spawns_shots(
                part.skip(1),
                shot_plan(
                    old(player).attack,
                    muzzle_spec(old(player).ship_type, old(player).size, pos, Vec2::from_angle_spec(angle)),
                    pos,
                    angle,
                    offset,
                    color,
                ),
            ));
        }
    } else {
        assert(commands@.skip(base.len() as int).len() == 0);
        assert(commands@.take(base.len() as int) =~= base);
    }
}

/// Where the exhaust of a ship leaves it.
pub open spec fn exhaust_spec(ship_type: ShipType, size: i64, pos: Vec2, dir: Vec2, k: int) -> Vec2 {
    model_point(exhaust_points_spec(ship_type)[k]).transformed_spec(Vec2 { x: 0, y: 0 }, pos, ship_scale(size), dir)
}

/// A command that spawns a dot of exhaust at `at`.
pub open spec fn is_exhaust_dot(command: Command, at: Vec2, color: Color) -> bool {
    &&& command is Spawn
    &&& exists|size: i64, lifetime: i64|
        2_000_000 <= size <= 4_000_000 && 150_000 <= lifetime <= 250_000 && #[trigger] Archetypes::is_trailparticle(
            command->Spawn_0,
            at,
            size,
            lifetime,
            color,
        )
}

pub open spec fn all_exhaust_dots(part: Seq<Command>, p: Player, pos: Vec2, angle: i64, active: bool) -> bool {
    forall|k: int|
        0 <= k < part.len() ==> is_exhaust_dot(
            #[trigger] part[k],
            exhaust_spec(p.ship_type, p.size, pos, Vec2::from_angle_spec(angle), k),
            if active { color_boost() } else { color_skill_point() },
        )
}

/// What the exhaust queues: when its trigger fires, one dot for each
/// exhaust point of the ship, tinted by whether the boost is on.
#[verifier::opaque]
pub open spec fn is_exhaust_part(part: Seq<Command>, p: Player, pos: Vec2, angle: i64, dt: i64, active: bool) -> bool {
    if p.timer_trail_particles.fires(dt as int) {
        &&& part.len() == exhaust_points_spec(p.ship_type).len()
        &&& all_exhaust_dots(part, p, pos, angle, active)
    } else {
        part.len() == 0
    }
}

/// The dots of exhaust are those that the words of `e` select: each dot
/// takes two draws, the first for its size and the second for its
/// lifetime.
pub open spec fn exhaust_picked(part: Seq<Command>, p: Player, pos: Vec2, angle: i64, active: bool, e: Entropy) -> bool {
    forall|k: int|
        0 <= k < part.len() ==> (#[trigger] part[k]) is Spawn && Archetypes::is_trailparticle(
            part[k]->Spawn_0,
            exhaust_spec(p.ship_type, p.size, pos, Vec2::from_angle_spec(angle), k),
            crate::random::pick_range(e.word_after((2 * k) as nat), 2_000_000, 4_000_000),
            crate::random::pick_range(e.word_after((2 * k + 1) as nat), 150_000, 250_000),
            if active { color_boost() } else { color_skill_point() },
        )
}

/// The draws that the exhaust of a frame takes: two for each dot.
pub open spec fn exhaust_draws(p: Player, dt: i64) -> nat {
    if p.timer_trail_particles.fires(dt as int) {
        2 * exhaust_points_spec(p.ship_type).len()
    } else {
        0
    }
}

/// Advances the exhaust trigger and emits exhaust when it is due.
#[verifier::rlimit(50)]
pub fn exhaust_step(
    player: &mut Player,
    pos: Vec2,
    angle: i64,
    deltatime: i64,
    active: bool,
    entropy: &mut Entropy,
    commands: &mut WorldCommandBuffer,
)
    ensures
        *final(player) == (Player {
            timer_trail_particles: old(player).timer_trail_particles.stepped(deltatime as int),
            ..*old(player)
        }),
        final(commands)@.len() >= old(commands)@.len(),
        final(commands)@.take(old(commands)@.len() as int) == old(commands)@,
        is_exhaust_part(
            final(commands)@.skip(old(commands)@.len() as int),
            *old(player),
            pos,
            angle,
            deltatime,
            active,
        ),
        exhaust_picked(
            final(commands)@.skip(old(commands)@.len() as int),
            *old(player),
            pos,
            angle,
            active,
            *old(entropy),
        ),
        old(entropy).drawn(final(entropy), exhaust_draws(*old(player), deltatime)),
{
    reveal(is_exhaust_part);
    let ghost base = commands@;
    let ghost p = *player;
    let ghost start = *entropy;
    if player.timer_trail_particles.update_and_check(deltatime) {
        let dir: Vec2 = Vec2::from_angle_flipped_y(angle);
        let points: Vec<(i32, i32)> = get_exhaust_points_for_ship(player.ship_type);
        let scale: Vec2 = Vec2::filled(player.size / 4);
        let color: Color = if active { color_boost() } else { color_skill_point() };
        let mut k: usize = 0;
        while k < points.len()
            invariant
                k <= points@.len(),
                points@ == exhaust_points_spec(p.ship_type),
                scale == ship_scale(p.size),
                dir == Vec2::from_angle_spec(angle),
                color == (if active { color_boost() } else { color_skill_point() }),
                commands@.len() == base.len() + k,
                commands@.take(base.len() as int) == base,
                start.drawn(entropy, 2 * (k as nat)),
                forall|j: int|
                    0 <= j < k ==> (#[trigger] commands@[base.len() + j]) is Spawn && Archetypes::is_trailparticle(
                        commands@[base.len() + j]->Spawn_0,
                        exhaust_spec(p.ship_type, p.size, pos, dir, j),
                        crate::random::pick_range(start.word_after((2 * j) as nat), 2_000_000, 4_000_000),
                        crate::random::pick_range(start.word_after((2 * j + 1) as nat), 150_000, 250_000),
                        color,
                    ),
                forall|j: int|
                    0 <= j < k ==> is_exhaust_dot(
                        #[trigger] commands@[base.len() + j],
                        exhaust_spec(p.ship_type, p.size, pos, dir, j),
                        color,
                    ),
            decreases points@.len() - k,
        {
            let ghost before = commands@;
            let at: Vec2 = model_point_exec(points[k]).transformed(Vec2::zero(), pos, scale, dir);
            let ghost first = *entropy;
            let size: i64 = entropy.range(2_000_000, 4_000_000);
            let ghost second = *entropy;
            let lifetime: i64 = entropy.range(150_000, 250_000);
            commands.add_entity(Archetypes::new_trailparticle(at, size, lifetime, color));
            proof {
                start.lemma_draw_after(&first, &second, 2 * (k as nat));
                start.lemma_draw_after(&second, entropy, 2 * (k as nat) + 1);
                assert forall|j: int| 0 <= j < k + 1 implies (#[trigger] commands@[base.len() + j]) is Spawn
                    && Archetypes::is_trailparticle(
                    commands@[base.len() + j]->Spawn_0,
                    exhaust_spec(p.ship_type, p.size, pos, dir, j),
                    crate::random::pick_range(start.word_after((2 * j) as nat), 2_000_000, 4_000_000),
                    crate::random::pick_range(start.word_after((2 * j + 1) as nat), 150_000, 250_000),
                    color,
                ) by {
                    if j < k {
                        assert(commands@[base.len() + j] == before[base.len() + j]);
                    }
                }
                assert(commands@.take(base.len() as int) =~= before.take(base.len() as int));
                assert(is_exhaust_dot(commands@[base.len() + k], exhaust_spec(p.ship_type, p.size, pos, dir, k as int), color));
                assert forall|j: int| 0 <= j < k + 1 implies is_exhaust_dot(
                    #[trigger] commands@[base.len() + j],
                    exhaust_spec(p.ship_type, p.size, pos, dir, j),
                    color,
                ) by {
                    if j < k {
                        assert(commands@[base.len() + j] == before[base.len() + j]);
                    }
                }
            }
            k = k + 1;
        }
        proof {
            let part = commands@.skip(base.len() as int);
            assert forall|j: int| 0 <= j < part.len() implies (#[trigger] part[j]) is Spawn
                && Archetypes::is_trailparticle(
                part[j]->Spawn_0,
                exhaust_spec(p.ship_type, p.size, pos, Vec2::from_angle_spec(angle), j),
                crate::random::pick_range(start.word_after((2 * j) as nat), 2_000_000, 4_000_000),
                crate::random::pick_range(start.word_after((2 * j + 1) as nat), 150_000, 250_000),
                if active { color_boost() } else { color_skill_point() },
            ) by {
                assert(part[j] == commands@[base.len() + j]);
            }
            assert forall|j: int| 0 <= j < part.len() implies is_exhaust_dot(
                #[trigger] part[j],
                exhaust_spec(p.ship_type, p.size, pos, Vec2::from_angle_spec(angle), j),
                if active { color_boost() } else { color_skill_point() },
            ) by {
                assert(part[j] == commands@[base.len() + j]);
            }
        }
    } else {
        assert(commands@.skip(base.len() as int).len() == 0);
        assert(commands@.take(base.len() as int) =~= base);
    }
}

/// The player after the tick step: the cycle clock advances, and starts
/// over once it has run out.
pub open spec fn ticked(p: Player, dt: i64) -> Player {
    let clock = p.cycle_timer.advanced(dt as int);
    if !p.cycle_timer.finished() && clock.finished() {
        Player { cycle_timer: TimerSimple::new_started_spec(p.cycle_cooldown as int), ..p }
    } else {
        Player { cycle_timer: clock, ..p }
    }
}

/// What the tick queues: the stamp, in the frame in which the cycle
/// completes.
#[verifier::opaque]
pub open spec fn is_tick_part(part: Seq<Command>, id: EntityId, p: Player, dt: i64) -> bool {
    if !p.cycle_timer.finished() && p.cycle_timer.advanced(dt as int).finished() {
        &&& part.len() == 1
        &&& part[0] is Spawn
        &&& Archetypes::is_tick_effect(part[0]->Spawn_0, id)
    } else {
        part.len() == 0
    }
}

pub fn tick_step(id: EntityId, player: &mut Player, deltatime: i64, commands: &mut WorldCommandBuffer)
    ensures
        *final(player) == ticked(*old(player), deltatime),
        final(commands)@.len() >= old(commands)@.len(),
        final(commands)@.take(old(commands)@.len() as int) == old(commands)@,
        is_tick_part(final(commands)@.skip(old(commands)@.len() as int), id, *old(player), deltatime),
{
    reveal(is_tick_part);
    let ghost base = commands@;
    if player.cycle_timer.update_and_check_if_triggered(deltatime) {
        player.cycle_timer = TimerSimple::new_started(player.cycle_cooldown);
        commands.add_entity(Archetypes::new_tick_effect(id));
        assert(commands@.skip(base.len() as int)[0] == commands@[base.len() as int]);
    }
    assert(commands@.take(base.len() as int) =~= base);
}

/// Every shot that the ship can fire from `pos` along `angle` is among
/// `flying`.
pub open spec fn shots_fly(flying: Set<crate::components::Components>, p: Player, pos: Vec2, angle: i64) -> bool {
    forall|offset: i64, color: Color, n: int, c: crate::components::Components|
        #![trigger Archetypes::is_projectile(
            c,
            shot_plan(
                p.attack,
                muzzle_spec(p.ship_type, p.size, pos, Vec2::from_angle_spec(angle)),
                pos,
                angle,
                offset,
                color,
            )[n].pos,
            shot_plan(
                p.attack,
                muzzle_spec(p.ship_type, p.size, pos, Vec2::from_angle_spec(angle)),
                pos,
                angle,
                offset,
                color,
            )[n].dir_angle,
            SHOT_SPEED,
            SHOT_LENGTH,
            shot_plan(
                p.attack,
                muzzle_spec(p.ship_type, p.size, pos, Vec2::from_angle_spec(angle)),
                pos,
                angle,
                offset,
                color,
            )[n].color,
            SHOT_DAMAGE,
        )]
        ({
            let plan = shot_plan(
                p.attack,
                muzzle_spec(p.ship_type, p.size, pos, Vec2::from_angle_spec(angle)),
                pos,
                angle,
                offset,
                color,
            );
            0 <= n < plan.len() && Archetypes::is_projectile(
                c,
                plan[n].pos,
                plan[n].dir_angle,
                SHOT_SPEED,
                SHOT_LENGTH,
                plan[n].color,
                SHOT_DAMAGE,
            ) ==> flying.contains(c)
        })
}

/// What a firing queues brings no ship into the game, and no projectile
/// but the shots of the ship.
pub proof fn lemma_fire_part_is_harmless(
    flying: Set<crate::components::Components>,
    part: Seq<Command>,
    id: EntityId,
    p: Player,
    pos: Vec2,
    angle: i64,
    dt: i64,
)
    requires
        is_fire_part(part, id, p, pos, angle, dt),
        p.reload_timer.fires(dt as int) ==> shots_fly(flying, p, pos, angle),
    ensures
        crate::commands::all_harmless_but(flying, part),
{
    reveal(is_fire_part);
    reveal(Archetypes::is_muzzleflash);
    reveal(Archetypes::is_projectile);
    if p.reload_timer.fires(dt as int) {
        let dir = Vec2::from_angle_spec(angle);
        let (offset, color) = choose|offset: i64, color: Color|
            spread_in_range(offset, color) && #[trigger] spawns_shots(
                part.skip(1),
                shot_plan(p.attack, muzzle_spec(p.ship_type, p.size, pos, dir), pos, angle, offset, color),
            );
        let shots = shot_plan(p.attack, muzzle_spec(p.ship_type, p.size, pos, dir), pos, angle, offset, color);
        assert forall|k: int| 0 <= k < part.len() implies crate::commands::harmless_but(flying, #[trigger] part[k]) by {
            if k > 0 {
                assert(part[k] == part.skip(1)[k - 1]);
                assert(part.skip(1)[k - 1] is Spawn);
                assert(Archetypes::is_projectile(
                    part.skip(1)[k - 1]->Spawn_0,
                    shots[k - 1].pos,
                    shots[k - 1].dir_angle,
                    SHOT_SPEED,
                    SHOT_LENGTH,
                    shots[k - 1].color,
                    SHOT_DAMAGE,
                ));
                assert(flying.contains(part[k]->Spawn_0));
            }
        }
    }
}

/// What the exhaust queues brings no ship and no projectile into the
/// game.
pub proof fn lemma_exhaust_part_is_harmless(
    flying: Set<crate::components::Components>,
    part: Seq<Command>,
    p: Player,
    pos: Vec2,
    angle: i64,
    dt: i64,
    active: bool,
)
    requires
        is_exhaust_part(part, p, pos, angle, dt, active),
    ensures
        crate::commands::all_harmless_but(flying, part),
{
    reveal(is_exhaust_part);
    reveal(Archetypes::is_trailparticle);
    assert forall|k: int| 0 <= k < part.len() implies crate::commands::harmless_but(flying, #[trigger] part[k]) by {
        assert(is_exhaust_dot(
            part[k],
            exhaust_spec(p.ship_type, p.size, pos, Vec2::from_angle_spec(angle), k),
            if active { color_boost() } else { color_skill_point() },
        ));
    }
}

/// What the tick queues brings no ship and no projectile into the game.
pub proof fn lemma_tick_part_is_harmless(
    flying: Set<crate::components::Components>,
    part: Seq<Command>,
    id: EntityId,
    p: Player,
    dt: i64,
)
    requires
        is_tick_part(part, id, p, dt),
    ensures
        crate::commands::all_harmless_but(flying, part),
{
    reveal(is_tick_part);
    reveal(Archetypes::is_tick_effect);
}

/// A firing queues nothing but spawns.
pub proof fn lemma_fire_part_spawns(part: Seq<Command>, id: EntityId, p: Player, pos: Vec2, angle: i64, dt: i64)
    requires
        is_fire_part(part, id, p, pos, angle, dt),
    ensures
        crate::commands::all_spawns(part),
{
    reveal(is_fire_part);
    if p.reload_timer.fires(dt as int) {
        let dir = Vec2::from_angle_spec(angle);
        let (offset, color) = choose|offset: i64, color: Color|
            spread_in_range(offset, color) && #[trigger] spawns_shots(
                part.skip(1),
                shot_plan(p.attack, muzzle_spec(p.ship_type, p.size, pos, dir), pos, angle, offset, color),
            );
        assert forall|k: int| 0 <= k < part.len() implies (#[trigger] part[k]) is Spawn by {
            if k > 0 {
                assert(part[k] == part.skip(1)[k - 1]);
                assert(part.skip(1)[k - 1] is Spawn);
            }
        }
    }
}

/// The exhaust queues nothing but spawns.
pub proof fn lemma_exhaust_part_spawns(part: Seq<Command>, p: Player, pos: Vec2, angle: i64, dt: i64, active: bool)
    requires
        is_exhaust_part(part, p, pos, angle, dt, active),
    ensures
        crate::commands::all_spawns(part),
{
    reveal(is_exhaust_part);
    assert forall|k: int| 0 <= k < part.len() implies (#[trigger] part[k]) is Spawn by {
        assert(is_exhaust_dot(
            part[k],
            exhaust_spec(p.ship_type, p.size, pos, Vec2::from_angle_spec(angle), k),
            if active { color_boost() } else { color_skill_point() },
        ));
    }
}

/// The tick queues nothing but a spawn.
pub proof fn lemma_tick_part_spawns(part: Seq<Command>, id: EntityId, p: Player, dt: i64)
    requires
        is_tick_part(part, id, p, dt),
    ensures
        crate::commands::all_spawns(part),
{
    reveal(is_tick_part);
}

/// The record is the projectile of one of `shots`.
pub open spec fn is_shot_of(c: crate::components::Components, shots: Seq<Shot>) -> bool {
    exists|n: int|
        0 <= n < shots.len() && #[trigger] Archetypes::is_projectile(
            c,
            shots[n].pos,
            shots[n].dir_angle,
            SHOT_SPEED,
            SHOT_LENGTH,
            shots[n].color,
            SHOT_DAMAGE,
        )
}

/// The records that are the projectile of one of `shots`.
pub open spec fn shot_records(shots: Seq<Shot>) -> Set<crate::components::Components> {
    Set::new(|c: crate::components::Components| is_shot_of(c, shots))
}

/// Where the pattern of a ship leaves nothing to chance, its shots are
/// among the records of the shots of the pattern.
pub proof fn lemma_fixed_plan_flies(p: Player, pos: Vec2, angle: i64, shots: Seq<Shot>)
    requires
        forall|offset: i64, color: Color|
            #[trigger] shot_plan(
                p.attack,
                muzzle_spec(p.ship_type, p.size, pos, Vec2::from_angle_spec(angle)),
                pos,
                angle,
                offset,
                color,
            ) == shots,
    ensures
        shots_fly(shot_records(shots), p, pos, angle),
{
    assert forall|offset: i64, color: Color, n: int, c: crate::components::Components|
        #![trigger Archetypes::is_projectile(
            c,
            shot_plan(
                p.attack,
                muzzle_spec(p.ship_type, p.size, pos, Vec2::from_angle_spec(angle)),
                pos,
                angle,
                offset,
                color,
            )[n].pos,
            shot_plan(
                p.attack,
                muzzle_spec(p.ship_type, p.size, pos, Vec2::from_angle_spec(angle)),
                pos,
                angle,
                offset,
                color,
            )[n].dir_angle,
            SHOT_SPEED,
            SHOT_LENGTH,
            shot_plan(
                p.attack,
                muzzle_spec(p.ship_type, p.size, pos, Vec2::from_angle_spec(angle)),
                pos,
                angle,
                offset,
                color,
            )[n].color,
            SHOT_DAMAGE,
        )]
        ({
            let plan = shot_plan(
                p.attack,
                muzzle_spec(p.ship_type, p.size, pos, Vec2::from_angle_spec(angle)),
                pos,
                angle,
                offset,
                color,
            );
            0 <= n < plan.len() && Archetypes::is_projectile(
                c,
                plan[n].pos,
                plan[n].dir_angle,
                SHOT_SPEED,
                SHOT_LENGTH,
                plan[n].color,
                SHOT_DAMAGE,
            )
        }) implies shot_records(shots).contains(c) by {
        let plan = shot_plan(
            p.attack,
            muzzle_spec(p.ship_type, p.size, pos, Vec2::from_angle_spec(angle)),
            pos,
            angle,
            offset,
            color,
        );
        assert(plan == shots);
        assert(is_shot_of(c, shots));
    }
}

} // verus!
