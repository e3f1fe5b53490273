//! Enemy behavior: the charge-then-fire cycle of shooters, damage from the
//! player's shots, death, and leaving the screen.
use vstd::prelude::*;
use crate::archetypes::Archetypes;
use crate::census::{Fact, fact_for, find_fact, find_pose, pose_for};
use crate::color::{color_hp, color_neutral};
use crate::commands::{Command, WorldCommandBuffer, flat, lemma_flat_push};
use crate::components::{Components, Drawable, Enemy, EnemyChargeParticle, EntityId, Motion, Transform};
use crate::fixed::{fx_add, fx_clamp, fx_mul, fx_neg, fx_sub, sadd, sclamp, smul, sneg, ssub};
use crate::random::Entropy;
use crate::store::Row;
use crate::timer::{TimerSimple, TriggerRepeating};
use crate::trig::{FULL_TURN, atan2_deg, atan2_spec};
use crate::vec2::Vec2;

verus! {

/// What a pass needs to know of the frame.
#[derive(Clone, Copy, Debug, PartialEq, Eq, Structural)]
pub struct StageCtx {
    /// Seconds since the last frame, slow motion applied.
    pub deltatime: i64,
    pub canvas_width: i64,
    pub canvas_height: i64,
    /// The entity that was spawned as the player; it may be gone.
    pub player: EntityId,
}

/// Hit points left after the shots among `collisions` have each taken their
/// damage, never below zero nor above the maximum.
pub open spec fn hp_after_hits(hp: i64, hp_max: i64, collisions: Seq<EntityId>, facts: Seq<Fact>) -> i64
    decreases collisions.len(),
{
    if collisions.len() == 0 {
        hp
    } else {
        let before = hp_after_hits(hp, hp_max, collisions.drop_last(), facts);
        match fact_for(facts, collisions.last()) {
            Some(fact) => match fact.projectile {
                Some(projectile) => sclamp(ssub(before, projectile.damage), 0, hp_max),
                None => before,
            },
            None => before,
        }
    }
}

/// Hit points within their bounds stay within them, whatever hits.
pub proof fn lemma_hits_stay_in_bounds(hp: i64, hp_max: i64, collisions: Seq<EntityId>, facts: Seq<Fact>)
    requires
        0 <= hp <= hp_max,
    ensures
        0 <= hp_after_hits(hp, hp_max, collisions, facts) <= hp_max,
    decreases collisions.len(),
{
    if collisions.len() > 0 {
        lemma_hits_stay_in_bounds(hp, hp_max, collisions.drop_last(), facts);
    }
}

/// Every enemy has its hit points between zero and their maximum.
pub open spec fn enemies_in_bounds(rows: Seq<Row>) -> bool {
    forall|i: int| 0 <= i < rows.len() && (#[trigger] rows[i]).c.enemy is Some ==> rows[i].c.enemy->0.hp_in_bounds()
}

/// Rows with the same enemy components are alike in what holds of their
/// enemies.
pub proof fn lemma_same_enemies(before: Seq<Row>, after: Seq<Row>)
    requires
        after.len() == before.len(),
        forall|i: int| 0 <= i < after.len() ==> (#[trigger] after[i]).c.enemy == before[i].c.enemy,
    ensures
        enemies_in_bounds(before) ==> enemies_in_bounds(after),
{
    if enemies_in_bounds(before) {
        assert forall|i: int| 0 <= i < after.len() && (#[trigger] after[i]).c.enemy is Some implies after[i].c.enemy->0.hp_in_bounds() by {
            assert(before[i].c.enemy == after[i].c.enemy);
        }
    }
}

/// Whether any of `collisions` is a shot.
pub open spec fn hit_by_shot(collisions: Seq<EntityId>, facts: Seq<Fact>) -> bool
    decreases collisions.len(),
{
    if collisions.len() == 0 {
        false
    } else {
        hit_by_shot(collisions.drop_last(), facts) || (fact_for(facts, collisions.last()) is Some && fact_for(
            facts,
            collisions.last(),
        )->0.projectile is Some)
    }
}

/// Applies the damage of every shot among `collisions`.
pub fn take_hits(hp: i64, hp_max: i64, collisions: &Vec<EntityId>, facts: &Vec<Fact>) -> (r: (i64, bool))
    ensures
        r.0 == hp_after_hits(hp, hp_max, collisions@, facts@),
        r.1 == hit_by_shot(collisions@, facts@),
        0 <= hp <= hp_max ==> 0 <= r.0 <= hp_max,
{
    let mut left: i64 = hp;
    let mut got_hit: bool = false;
    let mut k: usize = 0;
    assert(collisions@.take(0) == Seq::<EntityId>::empty());
    while k < collisions.len()
        invariant
            k <= collisions@.len(),
            left == hp_after_hits(hp, hp_max, collisions@.take(k as int), facts@),
            got_hit == hit_by_shot(collisions@.take(k as int), facts@),
            0 <= hp <= hp_max ==> 0 <= left <= hp_max,
        decreases collisions@.len() - k,
    {
        assert(collisions@.take(k as int + 1).drop_last() == collisions@.take(k as int));
        match find_fact(facts, collisions[k]) {
            Some(fact) => match fact.projectile {
                Some(projectile) => {
                    left = fx_clamp(fx_sub(left, projectile.damage), 0, hp_max);
                    got_hit = true;
                },
                None => {},
            },
            None => {},
        }
        k = k + 1;
    }
    assert(collisions@.take(collisions@.len() as int) == collisions@);
    (left, got_hit)
}

/// Where an enemy's shots leave it: one radius ahead of it.
pub open spec fn muzzle_offset(m: Motion, radius: i64) -> Vec2 {
    m.vel.normalized_spec().scaled_spec(radius)
}

/// The angle under which `target` is seen from `from`.
pub open spec fn aim_angle(from: Vec2, target: Vec2) -> i64 {
    let dir = target.minus_spec(from).normalized_spec();
    atan2_spec(sneg(dir.y), dir.x)
}

pub fn aim(from: Vec2, target: Vec2) -> (angle: i64)
    ensures
        angle == aim_angle(from, target),
{
    let dir: Vec2 = target.minus(from).normalized();
    atan2_deg(fx_neg(dir.y), dir.x)
}

/// Whether the shooter fires with this update: its countdown completes.
pub open spec fn fires_now(enemy: Enemy, dt: i64) -> bool {
    enemy.can_shoot && !enemy.timer_shoot.finished() && enemy.timer_shoot.advanced(dt as int).finished()
}

/// Whether the shooter emits a charge spark with this update.
pub open spec fn sparks_now(enemy: Enemy, dt: i64) -> bool {
    enemy.can_shoot && enemy.timer_charge.fires(dt as int)
}

/// Whether the enemy has flown out of the canvas on the side it flies to.
pub open spec fn left_right(t: Transform, m: Motion, radius: i64, ctx: StageCtx) -> bool {
    m.vel.x > 0 && t.pos.x >= sadd(ctx.canvas_width, smul(2_000_000, radius))
}

pub open spec fn left_left(t: Transform, m: Motion, radius: i64) -> bool {
    m.vel.x < 0 && t.pos.x < sneg(smul(2_000_000, radius))
}

/// The offset reaches at most `radius` along either axis, whatever the
/// sign of `radius`.
pub open spec fn within(off: Vec2, radius: i64) -> bool {
    let reach = if radius < 0 { sneg(radius) } else { radius };
    -reach <= off.x <= reach && -reach <= off.y <= reach
}

/// The point lies at most `radius` from `center` along either axis.
pub open spec fn is_near(p: Vec2, center: Vec2, radius: i64) -> bool {
    exists|off: Vec2| within(off, radius) && p == #[trigger] center.plus_spec(off)
}

/// A command that spawns a charge spark for the enemy `id`.
#[verifier::opaque]
pub open spec fn is_spark(command: Command, id: EntityId, t: Transform, m: Motion, radius: i64) -> bool {
    &&& command is Spawn
    &&& command->Spawn_0.charge is Some
    &&& (Components { charge: None, ..command->Spawn_0 }) == Components::empty()
    &&& ({
        let spark = command->Spawn_0.charge->0;
        &&& spark.muzzle_pos == t.pos.plus_spec(muzzle_offset(m, radius))
        &&& spark.muzzle_pos_offset == muzzle_offset(m, radius)
        &&& spark.muzzle_entity == id
        &&& 2_000_000 <= spark.size <= 3_000_000
        &&& spark.timer.started
        &&& spark.timer.time_cur == 0
        &&& 100_000 <= spark.timer.time_end <= 300_000
        &&& is_near(spark.start_pos, spark.muzzle_pos, 20_000_000)
    })
}

/// A command that spawns the shot of a shooter, aimed at `target`.
pub open spec fn is_enemy_shot(command: Command, t: Transform, m: Motion, radius: i64, target: Vec2) -> bool {
    &&& command is Spawn
    &&& exists|speed: i64|
        80_000_000 <= speed <= 100_000_000 && #[trigger] Archetypes::is_enemy_projectile(
            command->Spawn_0,
            t.pos.plus_spec(muzzle_offset(m, radius)),
            aim_angle(t.pos, target),
            speed,
            4_000_000,
            10_000_000,
        )
}

/// A command that spawns the shot of a shooter, aimed at the player where
/// the digest saw it, or anywhere if the player is gone.
#[verifier::opaque]
pub open spec fn is_aimed_shot(command: Command, t: Transform, m: Motion, radius: i64, facts: Seq<Fact>, player: EntityId) -> bool {
    exists|target: Vec2|
        (pose_for(facts, player) is Some ==> target == pose_for(facts, player)->0.pos) && #[trigger] is_enemy_shot(
            command,
            t,
            m,
            radius,
            target,
        )
}

/// A command that drops ammunition where an enemy died.
#[verifier::opaque]
pub open spec fn is_ammo_drop(command: Command, player: EntityId, at: Vec2, radius: i64) -> bool {
    &&& command is Spawn
    &&& exists|pos: Vec2, vel: Vec2, dir_angle: i64, dir_angle_vel: i64|
        {
            &&& is_near(pos, at, radius)
            &&& within(vel, 20_000_000)
            &&& 0 <= dir_angle <= FULL_TURN
            &&& -FULL_TURN <= dir_angle_vel <= FULL_TURN
            &&& #[trigger] Archetypes::is_ammo_collectible(
                command->Spawn_0,
                pos,
                vel,
                dir_angle,
                dir_angle_vel,
                player,
            )
        }
}

/// A command that spawns the burst of a dying enemy.
#[verifier::opaque]
pub open spec fn is_death_burst(command: Command, pos: Vec2, radius: i64) -> bool {
    &&& command is Spawn
    &&& Archetypes::is_hit_effect(
        command->Spawn_0,
        pos,
        smul(2_000_000, radius),
        smul(2_000_000, radius),
        0,
        color_neutral(),
        100_000,
        color_hp(),
        150_000,
        true,
    )
}

/// The enemy after its update.
pub open spec fn enemy_updated(before: Enemy, after: Enemy, collisions: Seq<EntityId>, facts: Seq<Fact>, dt: i64) -> bool {
    let hp = hp_after_hits(before.hp, before.hp_max, collisions, facts);
    let flash = before.hitflash_timer.advanced(dt as int);
    &&& after.hp == hp
    &&& after.hp_max == before.hp_max
    &&& after.radius == before.radius
    &&& after.can_shoot == before.can_shoot
    &&& after.is_charging == before.is_charging
    &&& after.score == before.score
    &&& after.hitflash_timer == (if hp != 0 && hit_by_shot(collisions, facts) {
        TimerSimple { time_cur: 0, started: true, ..flash }
    } else {
        flash
    })
    &&& if fires_now(before, dt) {
        &&& 4_000_000 <= after.timer_shoot.time_end <= 6_000_000
        &&& after.timer_shoot == TimerSimple::new_started_spec(after.timer_shoot.time_end as int)
        &&& after.timer_charge == TriggerRepeating::new_distinct_spec(
            after.timer_shoot.time_end - 1_000_000,
            20_000,
        )
    } else if before.can_shoot {
        &&& after.timer_shoot == before.timer_shoot.advanced(dt as int)
        &&& after.timer_charge == before.timer_charge.stepped(dt as int)
    } else {
        &&& after.timer_shoot == before.timer_shoot
        &&& after.timer_charge == before.timer_charge
    }
}

/// The commands that the update of one enemy queues, in order: a charge
/// spark, a shot, then on death the despawn, the ammunition drop and the
/// burst, then a despawn for having left the canvas.
pub open spec fn enemy_commands(
    part: Seq<Command>,
    id: EntityId,
    t: Transform,
    m: Motion,
    before: Enemy,
    collisions: Seq<EntityId>,
    facts: Seq<Fact>,
    ctx: StageCtx,
) -> bool {
    let spark: int = if sparks_now(before, ctx.deltatime) { 1 } else { 0 };
    let shot: int = if fires_now(before, ctx.deltatime) { 1 } else { 0 };
    let dead = hp_after_hits(before.hp, before.hp_max, collisions, facts) == 0;
    let death: int = if dead { 3 } else { 0 };
    let right: int = if left_right(t, m, before.radius, ctx) { 1 } else { 0 };
    let left: int = if left_left(t, m, before.radius) { 1 } else { 0 };
    &&& part.len() == spark + shot + death + right + left
    &&& spark == 1 ==> is_spark(part[0], id, t, m, before.radius)
    &&& shot == 1 ==> is_aimed_shot(part[spark], t, m, before.radius, facts, ctx.player)
    &&& dead ==> {
        &&& part[spark + shot] == Command::Despawn(id)
        &&& is_ammo_drop(part[spark + shot + 1], ctx.player, t.pos, before.radius)
        &&& is_death_burst(part[spark + shot + 2], t.pos, before.radius)
    }
    &&& right == 1 ==> part[spark + shot + death] == Command::Despawn(id)
    &&& left == 1 ==> part[spark + shot + death + right] == Command::Despawn(id)
}

/// The offset that two words select: the first its x, the second its y,
/// each from `-radius ..= radius`.
pub open spec fn offset_picked(first: u64, second: u64, radius: i64) -> Vec2 {
    Vec2 {
        x: crate::random::pick_range(first, sneg(radius), radius),
        y: crate::random::pick_range(second, sneg(radius), radius),
    }
}

/// A random offset of at most `radius` along either axis. It takes two
/// draws: the first selects the offset along x, the second the one along
/// y.
pub fn random_offset(entropy: &mut Entropy, radius: i64) -> (v: Vec2)
    ensures
        v == offset_picked(old(entropy).word_after(0), old(entropy).word_after(1), radius),
        old(entropy).after_draws(final(entropy), 2),
        within(v, radius),
{
    let low: i64 = fx_neg(radius);
    let x: i64 = entropy.range(low, radius);
    let ghost mid = *entropy;
    let y: i64 = entropy.range(low, radius);
    proof {
        old(entropy).lemma_first_draw(&mid);
        old(entropy).lemma_one_more_draw(&mid, entropy, 1);
    }
    Vec2 { x, y }
}

/// The spark of a charging shooter, somewhere within 20 units of its
/// muzzle. It takes four draws: for its size, for its lifetime, and two
/// for where it starts.
pub fn make_spark(id: EntityId, t: Transform, m: Motion, radius: i64, entropy: &mut Entropy) -> (c: Components)
    ensures
        is_spark(Command::Spawn(c), id, t, m, radius),
        c.charge->0.size == crate::random::pick_range(old(entropy).word_after(0), 2_000_000, 3_000_000),
        c.charge->0.timer.time_end == crate::random::pick_range(old(entropy).word_after(1), 100_000, 300_000),
        c.charge->0.start_pos == t.pos.plus_spec(muzzle_offset(m, radius)).plus_spec(
            offset_picked(old(entropy).word_after(2), old(entropy).word_after(3), 20_000_000),
        ),
        old(entropy).drawn(final(entropy), 4),
{
    reveal(is_spark);
    let muzzle_pos_offset: Vec2 = m.vel.normalized().scaled(radius);
    let muzzle_pos: Vec2 = t.pos.plus(muzzle_pos_offset);
    let size: i64 = entropy.range(2_000_000, 3_000_000);
    let ghost first = *entropy;
    let lifetime: i64 = entropy.range(100_000, 300_000);
    let ghost second = *entropy;
    let start_pos: Vec2 = muzzle_pos.plus(random_offset(entropy, 20_000_000));
    proof {
        old(entropy).lemma_draw_after(old(entropy), &first, 0);
        old(entropy).lemma_draw_after(&first, &second, 1);
        old(entropy).lemma_position_shift(&second, 2, 0);
        old(entropy).lemma_position_shift(&second, 2, 1);
        old(entropy).lemma_draws_add(&second, entropy, 2, 2);
    }
    assert(is_near(start_pos, muzzle_pos, 20_000_000));
    let mut spark: Components = Components::none();
    spark.charge = Some(EnemyChargeParticle::new(muzzle_pos, muzzle_pos_offset, id, size, lifetime, start_pos));
    spark
}

/// Where a shooter aims: at the player, or, if the player is gone, at the
/// place on the canvas that the next two words select.
pub open spec fn shot_target(facts: Seq<Fact>, ctx: StageCtx, e: Entropy) -> Vec2 {
    match pose_for(facts, ctx.player) {
        Some(pose) => pose.pos,
        None => Vec2 {
            x: crate::random::pick_range(e.word_after(0), 0, ctx.canvas_width),
            y: crate::random::pick_range(e.word_after(1), 0, ctx.canvas_height),
        },
    }
}

/// The draws that aiming takes: two if the player is gone, none else.
pub open spec fn aim_draws(facts: Seq<Fact>, ctx: StageCtx) -> nat {
    if pose_for(facts, ctx.player) is Some {
        0
    } else {
        2
    }
}

/// The shot of a shooter, aimed at the player, or anywhere on the canvas
/// if the player is gone. The word after the draws for the aim selects
/// its speed.
pub fn make_shot(t: Transform, m: Motion, radius: i64, facts: &Vec<Fact>, ctx: &StageCtx, entropy: &mut Entropy) -> (c: Components)
    ensures
        is_aimed_shot(Command::Spawn(c), t, m, radius, facts@, ctx.player),
        Archetypes::is_enemy_projectile(
            c,
            t.pos.plus_spec(muzzle_offset(m, radius)),
            aim_angle(t.pos, shot_target(facts@, *ctx, *old(entropy))),
            crate::random::pick_range(old(entropy).word_after(aim_draws(facts@, *ctx)), 80_000_000, 100_000_000),
            4_000_000,
            10_000_000,
        ),
        old(entropy).drawn(final(entropy), aim_draws(facts@, *ctx) + 1),
{
    reveal(is_aimed_shot);
    let muzzle_pos: Vec2 = t.pos.plus(m.vel.normalized().scaled(radius));
    let target: Vec2 = match find_pose(facts, ctx.player) {
        Some(pose) => pose.pos,
        None => {
            let x: i64 = entropy.range(0, ctx.canvas_width);
            let ghost first = *entropy;
            let y: i64 = entropy.range(0, ctx.canvas_height);
            proof {
                old(entropy).lemma_draw_after(old(entropy), &first, 0);
                old(entropy).lemma_draw_after(&first, entropy, 1);
            }
            Vec2 { x, y }
        },
    };
    let ghost aimed = *entropy;
    let speed: i64 = entropy.range(80_000_000, 100_000_000);
    proof {
        old(entropy).lemma_draw_after(&aimed, entropy, aim_draws(facts@, *ctx));
    }
    let shot: Components = Archetypes::new_enemy_projectile(muzzle_pos, aim(t.pos, target), speed, 4_000_000, 10_000_000);
    assert(Archetypes::is_enemy_projectile(
        shot,
        t.pos.plus_spec(muzzle_offset(m, radius)),
        aim_angle(t.pos, target),
        speed,
        4_000_000,
        10_000_000,
    ));
    assert(is_enemy_shot(Command::Spawn(shot), t, m, radius, target));
    shot
}

/// The ammunition that a dying enemy drops within its radius. It takes
/// six draws: two for its place, two for its velocity, one for its facing
/// and one for its spin.
pub fn make_drop(at: Vec2, radius: i64, player: EntityId, entropy: &mut Entropy) -> (c: Components)
    ensures
        is_ammo_drop(Command::Spawn(c), player, at, radius),
        Archetypes::is_ammo_collectible(
            c,
            at.plus_spec(offset_picked(old(entropy).word_after(0), old(entropy).word_after(1), radius)),
            offset_picked(old(entropy).word_after(2), old(entropy).word_after(3), 20_000_000),
            crate::random::pick_range(old(entropy).word_after(4), 0, FULL_TURN),
            crate::random::pick_range(old(entropy).word_after(5), -360_000_000i64, FULL_TURN),
            player,
        ),
        old(entropy).drawn(final(entropy), 6),
{
    reveal(is_ammo_drop);
    let drop_pos: Vec2 = at.plus(random_offset(entropy, radius));
    let ghost first = *entropy;
    let drop_vel: Vec2 = random_offset(entropy, 20_000_000);
    let ghost second = *entropy;
    let dir_angle: i64 = entropy.range(0, FULL_TURN);
    let ghost third = *entropy;
    let dir_angle_vel: i64 = entropy.range(-360_000_000, FULL_TURN);
    proof {
        old(entropy).lemma_position_shift(&first, 2, 0);
        old(entropy).lemma_position_shift(&first, 2, 1);
        old(entropy).lemma_draws_add(&first, &second, 2, 2);
        old(entropy).lemma_draw_after(&second, &third, 4);
        old(entropy).lemma_draw_after(&third, entropy, 5);
    }
    assert(is_near(drop_pos, at, radius));
    let drop: Components = Archetypes::new_ammo_collectible(drop_pos, drop_vel, dir_angle, dir_angle_vel, player);
    assert(Archetypes::is_ammo_collectible(drop, drop_pos, drop_vel, dir_angle, dir_angle_vel, player));
    drop
}

/// The burst of a dying enemy, twice its radius wide.
pub fn make_burst(at: Vec2, radius: i64) -> (c: Components)
    ensures
        is_death_burst(Command::Spawn(c), at, radius),
{
    reveal(is_death_burst);
    Archetypes::new_hit_effect(
        at,
        fx_mul(2_000_000, radius),
        fx_mul(2_000_000, radius),
        0,
        color_neutral(),
        100_000,
        color_hp(),
        150_000,
        true,
    )
}

/// The draws that the charge spark of a frame takes.
pub open spec fn spark_draws(enemy: Enemy, dt: i64) -> nat {
    if sparks_now(enemy, dt) {
        4
    } else {
        0
    }
}

/// The draws that the shot of a frame takes: one for the time until the
/// next shot, then those for the aim and one for the speed.
pub open spec fn shot_draws(enemy: Enemy, facts: Seq<Fact>, ctx: StageCtx) -> nat {
    if fires_now(enemy, ctx.deltatime) {
        aim_draws(facts, ctx) + 2
    } else {
        0
    }
}

/// The draws that the update of an enemy takes: those for its spark, for
/// its shot, and six for the ammunition that it drops when it dies.
pub open spec fn enemy_draws(enemy: Enemy, collisions: Seq<EntityId>, facts: Seq<Fact>, ctx: StageCtx) -> nat {
    let drop: nat = if hp_after_hits(enemy.hp, enemy.hp_max, collisions, facts) == 0 { 6 } else { 0 };
    spark_draws(enemy, ctx.deltatime) + shot_draws(enemy, facts, ctx) + drop
}

/// Updates one enemy and queues what follows from it. Returns the score
/// that its death is worth, zero if it lives. A shooter that fires waits
/// between four and six seconds for its next shot, as the word after the
/// draws for its spark selects.
#[verifier::rlimit(50)]
pub fn enemy_step(
    id: EntityId,
    t: Transform,
    m: Motion,
    enemy: &mut Enemy,
    collisions: &Vec<EntityId>,
    drawable: &mut Drawable,
    facts: &Vec<Fact>,
    ctx: &StageCtx,
    entropy: &mut Entropy,
    commands: &mut WorldCommandBuffer,
) -> (score_gain: usize)
    ensures
        enemy_updated(*old(enemy), *final(enemy), collisions@, facts@, ctx.deltatime),
        0 <= old(enemy).hp <= old(enemy).hp_max ==> 0 <= final(enemy).hp <= final(enemy).hp_max,
        *final(drawable) == (Drawable {
            color: if old(enemy).hitflash_timer.advanced(ctx.deltatime as int).running() {
                color_neutral()
            } else {
                color_hp()
            },
            ..*old(drawable)
        }),
        score_gain == (if final(enemy).hp == 0 { old(enemy).score } else { 0 }),
        final(commands)@.len() >= old(commands)@.len(),
        final(commands)@.take(old(commands)@.len() as int) == old(commands)@,
        enemy_commands(
            final(commands)@.skip(old(commands)@.len() as int),
            id,
            t,
            m,
            *old(enemy),
            collisions@,
            facts@,
            *ctx,
        ),
        fires_now(*old(enemy), ctx.deltatime) ==> final(enemy).timer_shoot.time_end == crate::random::pick_range(
            old(entropy).word_after(spark_draws(*old(enemy), ctx.deltatime)),
            4_000_000,
            6_000_000,
        ),
        old(entropy).drawn(final(entropy), enemy_draws(*old(enemy), collisions@, facts@, *ctx)),
{
    let deltatime: i64 = ctx.deltatime;
    let ghost base = commands@;
    let ghost before = *enemy;
    let ghost start = *entropy;
    if enemy.can_shoot {
        if enemy.timer_charge.update_and_check(deltatime) {
            commands.add_entity(make_spark(id, t, m, enemy.radius, entropy));
        }
        let ghost sparked = *entropy;
        if enemy.timer_shoot.update_and_check_if_triggered(deltatime) {
            let shoot_time: i64 = entropy.range(4_000_000, 6_000_000);
            let ghost timed = *entropy;
            enemy.timer_shoot = TimerSimple::new_started(shoot_time);
            enemy.timer_charge = TriggerRepeating::new_with_distinct_triggertimes(shoot_time - 1_000_000, 20_000);
            commands.add_entity(make_shot(t, m, enemy.radius, facts, ctx, entropy));
            proof {
                let a = spark_draws(before, deltatime);
                start.lemma_draw_after(&sparked, &timed, a);
                start.lemma_draws_add(&timed, entropy, a + 1, aim_draws(facts@, *ctx) + 1);
            }
        }
    }
    let ghost shot_done = *entropy;
    assert(start.drawn(&shot_done, spark_draws(before, deltatime) + shot_draws(before, facts@, *ctx)));
    let ghost after_shots = commands@;
    enemy.hitflash_timer.update(deltatime);
    if enemy.hitflash_timer.is_running() {
        drawable.color = color_neutral();
    } else {
        drawable.color = color_hp();
    }
    let (hp, got_hit): (i64, bool) = take_hits(enemy.hp, enemy.hp_max, collisions, facts);
    enemy.hp = hp;
    let mut score_gain: usize = 0;
    if enemy.hp == 0 {
        score_gain = enemy.score;
        commands.remove_entity(id);
        commands.add_entity(make_drop(t.pos, enemy.radius, ctx.player, entropy));
        proof {
            start.lemma_draws_add(
                &shot_done,
                entropy,
                spark_draws(before, deltatime) + shot_draws(before, facts@, *ctx),
                6,
            );
        }
        commands.add_entity(make_burst(t.pos, enemy.radius));
    } else if got_hit {
        enemy.hitflash_timer.restart();
    }
    if m.vel.x > 0 && t.pos.x >= fx_add(ctx.canvas_width, fx_mul(2_000_000, enemy.radius)) {
        commands.remove_entity(id);
    }
    if m.vel.x < 0 && t.pos.x < fx_neg(fx_mul(2_000_000, enemy.radius)) {
        commands.remove_entity(id);
    }
    proof {
        let part = commands@.skip(base.len() as int);
        let spark: int = if sparks_now(before, ctx.deltatime) { 1 } else { 0 };
        let shot: int = if fires_now(before, ctx.deltatime) { 1 } else { 0 };
        assert(after_shots.len() == base.len() + spark + shot);
        assert(commands@.take(base.len() as int) =~= base);
        assert forall|k: int| 0 <= k < part.len() implies part[k] == commands@[base.len() + k] by {}
        if shot == 1 {
            assert(part[spark] == after_shots[after_shots.len() - 1]);
            assert(is_aimed_shot(part[spark], t, m, before.radius, facts@, ctx.player));
        }
        if spark == 1 {
            assert(part[0] == after_shots[base.len() as int]);
            assert(is_spark(part[0], id, t, m, before.radius));
        }
        let dead = hp_after_hits(before.hp, before.hp_max, collisions@, facts@) == 0;
        let death: int = if dead { 3 } else { 0 };
        let right: int = if left_right(t, m, before.radius, *ctx) { 1 } else { 0 };
        let left: int = if left_left(t, m, before.radius) { 1 } else { 0 };
        assert(part.len() == spark + shot + death + right + left);
        if dead {
            assert(part[spark + shot] == Command::Despawn(id));
            assert(part[spark + shot + 1] == commands@[after_shots.len() as int + 1]);
            assert(part[spark + shot + 2] == commands@[after_shots.len() as int + 2]);
            assert(is_ammo_drop(part[spark + shot + 1], ctx.player, t.pos, before.radius));
            assert(is_death_burst(part[spark + shot + 2], t.pos, before.radius));
        }
        if right == 1 {
            assert(part[spark + shot + death] == Command::Despawn(id));
        }
        if left == 1 {
            assert(part[spark + shot + death + right] == Command::Despawn(id));
        }
        assert(enemy_commands(part, id, t, m, before, collisions@, facts@, *ctx));
    }
    score_gain
}

/// A sum of points that stops at the largest representable score.
pub open spec fn score_plus(score: usize, gain: usize) -> usize {
    if score + gain > usize::MAX {
        usize::MAX
    } else {
        (score + gain) as usize
    }
}

pub fn add_score(score: usize, gain: usize) -> (r: usize)
    ensures
        r == score_plus(score, gain),
{
    if gain > usize::MAX - score {
        usize::MAX
    } else {
        score + gain
    }
}

/// An entity that the enemy pass works on.
pub open spec fn is_enemy_row(c: Components) -> bool {
    c.transform is Some && c.motion is Some && c.enemy is Some && c.collider is Some && c.drawable is Some
}

/// What the death of the enemy in a row is worth, if it died this frame.
pub open spec fn kill_score(before: Components, after: Components) -> usize {
    if is_enemy_row(before) && after.enemy is Some && after.enemy->0.hp == 0 {
        before.enemy->0.score
    } else {
        0
    }
}

/// The score for all enemies that died, row by row.
pub open spec fn kills_score(before: Seq<Row>, after: Seq<Row>) -> usize
    decreases before.len(),
{
    if before.len() == 0 || after.len() != before.len() {
        0
    } else {
        score_plus(kills_score(before.drop_last(), after.drop_last()), kill_score(before.last().c, after.last().c))
    }
}

/// How the enemy pass changes one row, and what it queues for it.
pub open spec fn enemy_row(before: Row, after: Row, part: Seq<Command>, facts: Seq<Fact>, ctx: StageCtx) -> bool {
    &&& after.id == before.id
    &&& if is_enemy_row(before.c) {
        &&& after.c == (Components { enemy: after.c.enemy, drawable: after.c.drawable, ..before.c })
        &&& after.c.enemy is Some
        &&& enemy_updated(
            before.c.enemy->0,
            after.c.enemy->0,
            before.c.collider->0.collisions@,
            facts,
            ctx.deltatime,
        )
        &&& after.c.drawable == Some(
            Drawable {
                color: if before.c.enemy->0.hitflash_timer.advanced(ctx.deltatime as int).running() {
                    color_neutral()
                } else {
                    color_hp()
                },
                ..before.c.drawable->0
            },
        )
        &&& enemy_commands(
            part,
            before.id,
            before.c.transform->0,
            before.c.motion->0,
            before.c.enemy->0,
            before.c.collider->0.collisions@,
            facts,
            ctx,
        )
    } else {
        &&& after.c == before.c
        &&& part.len() == 0
    }
}

/// The rows and the queue after a pass: every row changed as `enemy_row`
/// says, and the queue grew by the parts of the rows, in order.
#[verifier::opaque]
pub open spec fn enemy_pass_done(
    before: Seq<Row>,
    after: Seq<Row>,
    queue_before: Seq<Command>,
    queue_after: Seq<Command>,
    facts: Seq<Fact>,
    ctx: StageCtx,
) -> bool {
    exists|parts: Seq<Seq<Command>>|
        {
            &&& parts.len() == before.len()
            &&& after.len() == before.len()
            &&& queue_after == queue_before + flat(parts)
            &&& forall|i: int|
                0 <= i < before.len() ==> enemy_row(before[i], after[i], #[trigger] parts[i], facts, ctx)
        }
}

/// Updates every enemy: shooters charge and fire, shots take their toll,
/// the dead leave a drop and a burst behind, and those that left the
/// canvas are queued for despawn. Returns the score for the kills.
#[verifier::rlimit(50)]
pub fn enemy_pass(
    rows: &mut Vec<Row>,
    facts: &Vec<Fact>,
    ctx: &StageCtx,
    entropy: &mut Entropy,
    commands: &mut WorldCommandBuffer,
) -> (score_gain: usize)
    ensures
        enemy_pass_done(old(rows)@, final(rows)@, old(commands)@, final(commands)@, facts@, *ctx),
        score_gain == kills_score(old(rows)@, final(rows)@),
{
    reveal(enemy_pass_done);
    let n: usize = rows.len();
    let mut score_gain: usize = 0;
    let ghost mut parts: Seq<Seq<Command>> = Seq::empty();
    let mut i: usize = 0;
    assert(old(rows)@.take(0) == Seq::<Row>::empty());
    assert(old(commands)@ + flat(parts) =~= old(commands)@);
    while i < n
        invariant
            i <= n,
            n == rows@.len(),
            n == old(rows)@.len(),
            parts.len() == i,
            commands@ == old(commands)@ + flat(parts),
            forall|j: int|
                0 <= j < i ==> enemy_row(old(rows)@[j], #[trigger] rows@[j], parts[j], facts@, *ctx),
            forall|j: int| i <= j < n ==> rows@[j] == old(rows)@[j],
            score_gain == kills_score(old(rows)@.take(i as int), rows@.take(i as int)),
        decreases n - i,
    {
        let ghost base = commands@;
        let ghost row_before = rows@[i as int];
        let ghost rows_before = rows@;
        let mut gain: usize = 0;
        let row = &mut rows[i];
        let id: EntityId = row.id;
        match (&row.c.transform, &row.c.motion, &mut row.c.enemy, &row.c.collider, &mut row.c.drawable) {
            (Some(t), Some(m), Some(enemy), Some(collider), Some(drawable)) => {
                gain = enemy_step(id, *t, *m, enemy, &collider.collisions, drawable, facts, ctx, entropy, commands);
            },
            _ => {},
        }
        score_gain = add_score(score_gain, gain);
        proof {
            let part = commands@.skip(base.len() as int);
            assert(commands@ =~= base + part);
            lemma_flat_push(parts, part);
            parts = parts.push(part);
            assert(commands@ =~= old(commands)@ + flat(parts));
            assert(old(rows)@.take(i as int + 1).drop_last() == old(rows)@.take(i as int));
            assert(rows@.take(i as int + 1).drop_last() =~= rows_before.take(i as int));
            assert(rows_before.take(i as int) =~= rows@.take(i as int));
            assert(enemy_row(old(rows)@[i as int], rows@[i as int], part, facts@, *ctx));
            assert(gain == kill_score(old(rows)@[i as int].c, rows@[i as int].c));
        }
        i = i + 1;
    }
    proof {
        assert(old(rows)@.take(n as int) == old(rows)@);
        assert(rows@.take(n as int) == rows@);
        assert(parts.len() == old(rows)@.len());
    }
    score_gain
}

/// What the update of an enemy queues brings no ship into the game, and
/// no projectile unless the enemy fires.
pub proof fn lemma_enemy_part_is_harmless(
    flying: Set<crate::components::Components>,
    part: Seq<Command>,
    id: EntityId,
    t: Transform,
    m: Motion,
    before: Enemy,
    collisions: Seq<EntityId>,
    facts: Seq<Fact>,
    ctx: StageCtx,
)
    requires
        enemy_commands(part, id, t, m, before, collisions, facts, ctx),
        fires_now(before, ctx.deltatime) ==> flying == Set::<crate::components::Components>::full(),
    ensures
        crate::commands::all_harmless_but(flying, part),
{
    reveal(is_spark);
    reveal(is_aimed_shot);
    reveal(is_ammo_drop);
    reveal(is_death_burst);
    reveal(Archetypes::is_enemy_projectile);
    reveal(Archetypes::is_ammo_collectible);
    reveal(Archetypes::is_hit_effect);
    let spark: int = if sparks_now(before, ctx.deltatime) { 1 } else { 0 };
    let shot: int = if fires_now(before, ctx.deltatime) { 1 } else { 0 };
    let dead = hp_after_hits(before.hp, before.hp_max, collisions, facts) == 0;
    let death: int = if dead { 3 } else { 0 };
    assert forall|k: int| 0 <= k < part.len() implies crate::commands::harmless_but(flying, #[trigger] part[k]) by {
        if k < spark {
            assert(is_spark(part[0], id, t, m, before.radius));
            assert(part[0]->Spawn_0.player == crate::components::Components::empty().player);
        } else if k < spark + shot {
            assert(is_aimed_shot(part[spark], t, m, before.radius, facts, ctx.player));
        } else if k < spark + shot + death {
            assert(part[spark + shot] == Command::Despawn(id));
            assert(is_ammo_drop(part[spark + shot + 1], ctx.player, t.pos, before.radius));
            assert(is_death_burst(part[spark + shot + 2], t.pos, before.radius));
        } else {
            assert(part[k] == Command::Despawn(id));
        }
    }
}

/// No enemy of the rows fires in this frame.
pub open spec fn no_enemy_fires(rows: Seq<Row>, dt: i64) -> bool {
    forall|i: int| 0 <= i < rows.len() && is_enemy_row((#[trigger] rows[i]).c) ==> !fires_now(rows[i].c.enemy->0, dt)
}

/// The enemy pass brings no ship into the game, and no projectile unless
/// an enemy fires.
pub proof fn lemma_enemy_pass_is_harmless(
    flying: Set<crate::components::Components>,
    before: Seq<Row>,
    after: Seq<Row>,
    queue_before: Seq<Command>,
    queue_after: Seq<Command>,
    facts: Seq<Fact>,
    ctx: StageCtx,
)
    requires
        enemy_pass_done(before, after, queue_before, queue_after, facts, ctx),
        crate::commands::all_harmless_but(flying, queue_before),
        no_enemy_fires(before, ctx.deltatime) || flying == Set::<crate::components::Components>::full(),
    ensures
        crate::commands::all_harmless_but(flying, queue_after),
{
    reveal(enemy_pass_done);
    let parts = choose|parts: Seq<Seq<Command>>|
        {
            &&& parts.len() == before.len()
            &&& after.len() == before.len()
            &&& queue_after == queue_before + flat(parts)
            &&& forall|i: int|
                0 <= i < before.len() ==> enemy_row(before[i], after[i], #[trigger] parts[i], facts, ctx)
        };
    assert forall|i: int| 0 <= i < parts.len() implies crate::commands::all_harmless_but(flying, #[trigger] parts[i]) by {
        assert(enemy_row(before[i], after[i], parts[i], facts, ctx));
        if is_enemy_row(before[i].c) {
            lemma_enemy_part_is_harmless(
                flying,
                parts[i],
                before[i].id,
                before[i].c.transform->0,
                before[i].c.motion->0,
                before[i].c.enemy->0,
                before[i].c.collider->0.collisions@,
                facts,
                ctx,
            );
        }
    }
    crate::commands::lemma_flat_harmless(flying, parts);
    crate::commands::lemma_joined_harmless(flying, queue_before, flat(parts));
}

/// The enemy pass leaves the hit points of every enemy within their
/// bounds.
pub proof fn lemma_enemy_pass_keeps_bounds(
    before: Seq<Row>,
    after: Seq<Row>,
    queue_before: Seq<Command>,
    queue_after: Seq<Command>,
    facts: Seq<Fact>,
    ctx: StageCtx,
)
    requires
        enemy_pass_done(before, after, queue_before, queue_after, facts, ctx),
        enemies_in_bounds(before),
    ensures
        enemies_in_bounds(after),
{
    reveal(enemy_pass_done);
    let parts = choose|parts: Seq<Seq<Command>>|
        {
            &&& parts.len() == before.len()
            &&& after.len() == before.len()
            &&& queue_after == queue_before + crate::commands::flat(parts)
            &&& forall|i: int| 0 <= i < before.len() ==> enemy_row(before[i], after[i], #[trigger] parts[i], facts, ctx)
        };
    assert forall|i: int| 0 <= i < after.len() && (#[trigger] after[i]).c.enemy is Some implies after[i].c.enemy->0.hp_in_bounds() by {
        assert(enemy_row(before[i], after[i], parts[i], facts, ctx));
        if is_enemy_row(before[i].c) {
            let e = before[i].c.enemy->0;
            assert(e.hp_in_bounds());
            lemma_hits_stay_in_bounds(e.hp, e.hp_max, before[i].c.collider->0.collisions@, facts);
        } else {
            assert(after[i].c == before[i].c);
        }
    }
}

/// What the update of an enemy queues despawns nothing but the enemy.
pub proof fn lemma_enemy_part_despawns_own(
    part: Seq<Command>,
    id: EntityId,
    t: Transform,
    m: Motion,
    before: Enemy,
    collisions: Seq<EntityId>,
    facts: Seq<Fact>,
    ctx: StageCtx,
)
    requires
        enemy_commands(part, id, t, m, before, collisions, facts, ctx),
    ensures
        crate::commands::despawns_own(part, id),
{
    reveal(is_spark);
    reveal(is_aimed_shot);
    reveal(is_ammo_drop);
    reveal(is_death_burst);
    let spark: int = if sparks_now(before, ctx.deltatime) { 1 } else { 0 };
    let shot: int = if fires_now(before, ctx.deltatime) { 1 } else { 0 };
    let dead = hp_after_hits(before.hp, before.hp_max, collisions, facts) == 0;
    let death: int = if dead { 3 } else { 0 };
    assert forall|k: int| 0 <= k < part.len() && (#[trigger] part[k]) is Despawn implies part[k]->Despawn_0 == id by {
        if k < spark {
            assert(is_spark(part[0], id, t, m, before.radius));
        } else if k < spark + shot {
            assert(is_aimed_shot(part[spark], t, m, before.radius, facts, ctx.player));
        } else if k < spark + shot + death {
            assert(part[spark + shot] == Command::Despawn(id));
            assert(is_ammo_drop(part[spark + shot + 1], ctx.player, t.pos, before.radius));
            assert(is_death_burst(part[spark + shot + 2], t.pos, before.radius));
        } else {
            assert(part[k] == Command::Despawn(id));
        }
    }
}

/// The enemy pass despawns none but entities of its rows.
pub proof fn lemma_enemy_pass_within(
    before: Seq<Row>,
    after: Seq<Row>,
    queue_before: Seq<Command>,
    queue_after: Seq<Command>,
    facts: Seq<Fact>,
    ctx: StageCtx,
    ids: Set<u64>,
)
    requires
        enemy_pass_done(before, after, queue_before, queue_after, facts, ctx),
        crate::commands::despawns_within(queue_before, ids),
        forall|i: int| 0 <= i < before.len() ==> ids.contains(#[trigger] before[i].id),
    ensures
        crate::commands::despawns_within(queue_after, ids),
{
    reveal(enemy_pass_done);
    let parts = choose|parts: Seq<Seq<Command>>|
        {
            &&& parts.len() == before.len()
            &&& after.len() == before.len()
            &&& queue_after == queue_before + flat(parts)
            &&& forall|i: int| 0 <= i < before.len() ==> enemy_row(before[i], after[i], #[trigger] parts[i], facts, ctx)
        };
    assert forall|i: int| 0 <= i < parts.len() implies crate::commands::despawns_within(#[trigger] parts[i], ids) by {
        assert(enemy_row(before[i], after[i], parts[i], facts, ctx));
        if is_enemy_row(before[i].c) {
            lemma_enemy_part_despawns_own(
                parts[i],
                before[i].id,
                before[i].c.transform->0,
                before[i].c.motion->0,
                before[i].c.enemy->0,
                before[i].c.collider->0.collisions@,
                facts,
                ctx,
            );
            crate::commands::lemma_own_is_within(parts[i], before[i].id, ids);
        }
    }
    crate::commands::lemma_flat_within(parts, ids);
    crate::commands::lemma_joined_within(queue_before, flat(parts), ids);
}

} // verus!
