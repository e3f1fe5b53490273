//! The player pass: one update of the ship per frame, and what becomes of
//! the damage it takes.
use vstd::prelude::*;
use crate::archetypes::Archetypes;
use crate::census::Fact;
use crate::color::color_neutral;
use crate::commands::{Command, WorldCommandBuffer, flat, lemma_flat_push};
use crate::components::{Components, Drawable, EntityId, Motion, Player, Transform};
use crate::enemy::{StageCtx, add_score, score_plus};
use crate::fixed::{fx_add, sadd};
use crate::player::{DamageResponse, Keys, Severity, after_pickups, boost_active, boost_step, boosted,
    contact_damage, damaged, flicker, flicker_visible, pickups_score, resolve_pickups, response_spec,
    severity_of, skillpoints_picked, sped_up, steer_step, steered_motion, sum_contact_damage, take_damage};
use crate::random::Entropy;
use crate::shooting::{exhaust_step, fire_step, fired, is_exhaust_part, is_fire_part, is_tick_part, tick_step,
    ticked};
use crate::store::Row;
use crate::trig::FULL_TURN;
use crate::vec2::{Rect, Vec2};

verus! {

/// The canvas as a rectangle.
pub open spec fn canvas_of(ctx: StageCtx) -> Rect {
    Rect { pos: Vec2 { x: 0, y: 0 }, dim: Vec2 { x: ctx.canvas_width, y: ctx.canvas_height } }
}

/// The damage of a frame: leaving the canvas costs all hit points, and
/// every enemy and shot touched adds its own unless the ship is
/// invincible.
pub open spec fn frame_damage(p: Player, t: Transform, collisions: Seq<EntityId>, facts: Seq<Fact>, ctx: StageCtx) -> i64 {
    let fall: i64 = if canvas_of(ctx).contains_spec(t.pos) { 0 } else { p.hp_max };
    sadd(fall, contact_damage(p.invincible_timer.running(), collisions, facts))
}

/// The player with its invincibility clock advanced.
pub open spec fn clocked(p: Player, dt: i64) -> Player {
    Player { invincible_timer: p.invincible_timer.advanced(dt as int), ..p }
}

/// The player as the firing step finds it: after pickups, boost and
/// acceleration.
pub open spec fn player_at_fire(p: Player, collisions: Seq<EntityId>, facts: Seq<Fact>, keys: Keys, dt: i64) -> Player {
    let picked = after_pickups(clocked(p, dt), collisions, facts);
    let pushed = boosted(picked, keys, dt);
    Player { speed: sped_up(pushed, dt), ..pushed }
}

/// The player as the exhaust step finds it.
pub open spec fn player_at_exhaust(p: Player, collisions: Seq<EntityId>, facts: Seq<Fact>, keys: Keys, dt: i64) -> Player {
    fired(player_at_fire(p, collisions, facts, keys, dt), dt)
}

/// The player as the tick step finds it.
pub open spec fn player_at_tick(p: Player, collisions: Seq<EntityId>, facts: Seq<Fact>, keys: Keys, dt: i64) -> Player {
    let before = player_at_exhaust(p, collisions, facts, keys, dt);
    Player { timer_trail_particles: before.timer_trail_particles.stepped(dt as int), ..before }
}

/// The player after its update: the steps of the frame in their order,
/// the damage last.
pub open spec fn player_next(
    p: Player,
    t: Transform,
    collisions: Seq<EntityId>,
    facts: Seq<Fact>,
    keys: Keys,
    ctx: StageCtx,
) -> Player {
    damaged(
        ticked(player_at_tick(p, collisions, facts, keys, ctx.deltatime), ctx.deltatime),
        frame_damage(clocked(p, ctx.deltatime), t, collisions, facts, ctx),
    )
}

/// How the game answers to the damage of the frame, if there was any.
pub open spec fn response_next(
    p: Player,
    t: Transform,
    collisions: Seq<EntityId>,
    facts: Seq<Fact>,
    keys: Keys,
    ctx: StageCtx,
) -> Option<DamageResponse> {
    let damage = frame_damage(clocked(p, ctx.deltatime), t, collisions, facts, ctx);
    if damage > 0 {
        Some(response_spec(severity_of(player_next(p, t, collisions, facts, keys, ctx).hp, damage)))
    } else {
        None
    }
}

/// A command that spawns a piece of debris at `pos`.
pub open spec fn is_debris(command: Command, pos: Vec2) -> bool {
    &&& command is Spawn
    &&& exists|dir_angle: i64, speed: i64, thickness: i64, length: i64, lifetime: i64|
        {
            &&& 0 <= dir_angle <= FULL_TURN
            &&& 120_000_000 <= speed <= 300_000_000
            &&& 1_000_000 <= thickness <= 2_000_000
            &&& 3_000_000 <= length <= 15_000_000
            &&& 300_000 <= lifetime <= 500_000
            &&& #[trigger] Archetypes::is_explode_particle(
                command->Spawn_0,
                pos,
                dir_angle,
                speed,
                thickness,
                length,
                lifetime,
                color_neutral(),
            )
        }
}

pub open spec fn all_debris(part: Seq<Command>, pos: Vec2) -> bool {
    forall|k: int| 0 <= k < part.len() ==> is_debris(#[trigger] part[k], pos)
}

/// What damage queues: the despawn of the ship if the damage is fatal, a
/// flash over the canvas, and a burst of debris whose size grows with the
/// severity.
#[verifier::opaque]
pub open spec fn is_damage_part(
    part: Seq<Command>,
    id: EntityId,
    pos: Vec2,
    response: Option<DamageResponse>,
    ctx: StageCtx,
) -> bool {
    match response {
        Some(r) => {
            let fatal: int = if r.severity == Severity::Fatal { 1 } else { 0 };
            &&& part.len() >= fatal + 1
            &&& fatal == 1 ==> part[0] == Command::Despawn(id)
            &&& part[fatal] is Spawn
            &&& Archetypes::is_screenflash(
                part[fatal]->Spawn_0,
                ctx.canvas_width,
                ctx.canvas_height,
                r.screenflash_framecount,
            )
            &&& r.particle_count_min <= part.len() - fatal - 1 < r.particle_count_max
            &&& all_debris(part.skip(fatal + 1), pos)
        },
        None => part.len() == 0,
    }
}

/// How many pieces of debris the first word selects for a response.
pub open spec fn debris_count(r: DamageResponse, e: Entropy) -> nat {
    let count = crate::random::pick_range(e.word_after(0), r.particle_count_min, (r.particle_count_max - 1) as i64);
    if count > 0 {
        count as nat
    } else {
        0
    }
}

/// The debris is the one that the words of `e` select after the first:
/// each piece takes five draws, for its direction, speed, thickness,
/// length and lifetime.
pub open spec fn debris_picked(tail: Seq<Command>, pos: Vec2, e: Entropy) -> bool {
    forall|k: int|
        0 <= k < tail.len() ==> (#[trigger] tail[k]) is Spawn && Archetypes::is_explode_particle(
            tail[k]->Spawn_0,
            pos,
            crate::random::pick_range(e.word_after((1 + 5 * k) as nat), 0, FULL_TURN),
            crate::random::pick_range(e.word_after((2 + 5 * k) as nat), 120_000_000, 300_000_000),
            crate::random::pick_range(e.word_after((3 + 5 * k) as nat), 1_000_000, 2_000_000),
            crate::random::pick_range(e.word_after((4 + 5 * k) as nat), 3_000_000, 15_000_000),
            crate::random::pick_range(e.word_after((5 + 5 * k) as nat), 300_000, 500_000),
            color_neutral(),
        )
}

/// The draws that the effects of damage take: one for the number of
/// pieces of debris and five for each piece.
pub open spec fn damage_draws(response: Option<DamageResponse>, e: Entropy) -> nat {
    match response {
        Some(r) => 1 + 5 * debris_count(r, e),
        None => 0,
    }
}

/// Queues what follows from the damage of a frame.
#[verifier::rlimit(50)]
pub fn damage_effects(
    id: EntityId,
    pos: Vec2,
    response: &Option<DamageResponse>,
    ctx: &StageCtx,
    entropy: &mut Entropy,
    commands: &mut WorldCommandBuffer,
)
    requires
        response is Some ==> response->0 == response_spec(response->0.severity),
    ensures
        final(commands)@.len() >= old(commands)@.len(),
        final(commands)@.take(old(commands)@.len() as int) == old(commands)@,
        is_damage_part(final(commands)@.skip(old(commands)@.len() as int), id, pos, *response, *ctx),
        response is Some ==> ({
            let part = final(commands)@.skip(old(commands)@.len() as int);
            let fatal: int = if response->0.severity == Severity::Fatal { 1 } else { 0 };
            &&& part.len() == fatal + 1 + debris_count(response->0, *old(entropy))
            &&& debris_picked(part.skip(fatal + 1), pos, *old(entropy))
        }),
        old(entropy).drawn(final(entropy), damage_draws(*response, *old(entropy))),
{
    reveal(is_damage_part);
    let ghost base = commands@;
    let ghost start = *entropy;
    match response {
        Some(r) => {
            if r.severity == Severity::Fatal {
                commands.remove_entity(id);
            }
            let ghost fatal: int = if r.severity == Severity::Fatal { 1 } else { 0 };
            commands.add_entity(
                Archetypes::new_screenflash(ctx.canvas_width, ctx.canvas_height, r.screenflash_framecount),
            );
            let ghost head = commands@;
            let count: i64 = entropy.range(r.particle_count_min, r.particle_count_max - 1);
            proof {
                start.lemma_draw_after(&start, entropy, 0);
            }
            let mut k: i64 = 0;
            while k < count
                invariant
                    0 <= k <= count,
                    count == debris_count(*r, start),
                    commands@.len() == head.len() + k,
                    commands@.take(head.len() as int) == head,
                    start.drawn(entropy, 1 + 5 * (k as nat)),
                    forall|j: int|
                        0 <= j < k ==> (#[trigger] commands@[head.len() + j]) is Spawn && Archetypes::is_explode_particle(
                            commands@[head.len() + j]->Spawn_0,
                            pos,
                            crate::random::pick_range(start.word_after((1 + 5 * j) as nat), 0, FULL_TURN),
                            crate::random::pick_range(start.word_after((2 + 5 * j) as nat), 120_000_000, 300_000_000),
                            crate::random::pick_range(start.word_after((3 + 5 * j) as nat), 1_000_000, 2_000_000),
                            crate::random::pick_range(start.word_after((4 + 5 * j) as nat), 3_000_000, 15_000_000),
                            crate::random::pick_range(start.word_after((5 + 5 * j) as nat), 300_000, 500_000),
                            color_neutral(),
                        ),
                    forall|j: int| 0 <= j < k ==> is_debris(#[trigger] commands@[head.len() + j], pos),
                decreases count - k,
            {
                let ghost before = commands@;
                let ghost e0 = *entropy;
                let dir_angle: i64 = entropy.range(0, FULL_TURN);
                let ghost e1 = *entropy;
                let speed: i64 = entropy.range(120_000_000, 300_000_000);
                let ghost e2 = *entropy;
                let thickness: i64 = entropy.range(1_000_000, 2_000_000);
                let ghost e3 = *entropy;
                let length: i64 = entropy.range(3_000_000, 15_000_000);
                let ghost e4 = *entropy;
                let lifetime: i64 = entropy.range(300_000, 500_000);
                proof {
                    start.lemma_draw_after(&e0, &e1, 1 + 5 * (k as nat));
                    start.lemma_draw_after(&e1, &e2, 2 + 5 * (k as nat));
                    start.lemma_draw_after(&e2, &e3, 3 + 5 * (k as nat));
                    start.lemma_draw_after(&e3, &e4, 4 + 5 * (k as nat));
                    start.lemma_draw_after(&e4, entropy, 5 + 5 * (k as nat));
                }
                commands.add_entity(
                    Archetypes::new_explode_particle(
                        pos,
                        dir_angle,
                        speed,
                        thickness,
                        length,
                        lifetime,
                        color_neutral(),
                    ),
                );
                proof {
                    assert(commands@.take(head.len() as int) =~= before.take(head.len() as int));
                    assert(is_debris(commands@[head.len() + k], pos));
                    assert forall|j: int| 0 <= j < k + 1 implies (#[trigger] commands@[head.len() + j]) is Spawn
                        && Archetypes::is_explode_particle(
                        commands@[head.len() + j]->Spawn_0,
                        pos,
                        crate::random::pick_range(start.word_after((1 + 5 * j) as nat), 0, FULL_TURN),
                        crate::random::pick_range(start.word_after((2 + 5 * j) as nat), 120_000_000, 300_000_000),
                        crate::random::pick_range(start.word_after((3 + 5 * j) as nat), 1_000_000, 2_000_000),
                        crate::random::pick_range(start.word_after((4 + 5 * j) as nat), 3_000_000, 15_000_000),
                        crate::random::pick_range(start.word_after((5 + 5 * j) as nat), 300_000, 500_000),
                        color_neutral(),
                    ) by {
                        if j < k {
                            assert(commands@[head.len() + j] == before[head.len() + j]);
                        }
                    }
                    assert forall|j: int| 0 <= j < k + 1 implies is_debris(
                        #[trigger] commands@[head.len() + j],
                        pos,
                    ) by {
                        if j < k {
                            assert(commands@[head.len() + j] == before[head.len() + j]);
                        }
                    }
                }
                k = k + 1;
            }
            proof {
                let part = commands@.skip(base.len() as int);
                assert(head.len() == base.len() + fatal + 1);
                assert(commands@.take(base.len() as int) =~= head.take(base.len() as int));
                assert(head.take(base.len() as int) =~= base);
                assert(part[fatal] == head[base.len() + fatal]);
                if fatal == 1 {
                    assert(part[0] == head[base.len() as int]);
                }
                let tail = part.skip(fatal + 1);
                assert forall|j: int| 0 <= j < tail.len() implies is_debris(#[trigger] tail[j], pos) by {
                    assert(tail[j] == commands@[head.len() + j]);
                }
                assert forall|j: int| 0 <= j < tail.len() implies (#[trigger] tail[j]) is Spawn
                    && Archetypes::is_explode_particle(
                    tail[j]->Spawn_0,
                    pos,
                    crate::random::pick_range(start.word_after((1 + 5 * j) as nat), 0, FULL_TURN),
                    crate::random::pick_range(start.word_after((2 + 5 * j) as nat), 120_000_000, 300_000_000),
                    crate::random::pick_range(start.word_after((3 + 5 * j) as nat), 1_000_000, 2_000_000),
                    crate::random::pick_range(start.word_after((4 + 5 * j) as nat), 3_000_000, 15_000_000),
                    crate::random::pick_range(start.word_after((5 + 5 * j) as nat), 300_000, 500_000),
                    color_neutral(),
                ) by {
                    assert(tail[j] == commands@[head.len() + j]);
                }
            }
        },
        None => {
            assert(commands@.skip(base.len() as int).len() == 0);
            assert(commands@.take(base.len() as int) =~= base);
        },
    }
}

/// The commands that the update of the ship queues: the parts of firing,
/// exhaust, tick and damage, in this order.
pub open spec fn player_commands(
    part: Seq<Command>,
    id: EntityId,
    p: Player,
    t: Transform,
    collisions: Seq<EntityId>,
    facts: Seq<Fact>,
    keys: Keys,
    ctx: StageCtx,
) -> bool {
    exists|fire: Seq<Command>, exhaust: Seq<Command>, tick: Seq<Command>, damage: Seq<Command>|
        {
            &&& part == fire + exhaust + tick + damage
            &&& #[trigger] is_fire_part(
                fire,
                id,
                player_at_fire(p, collisions, facts, keys, ctx.deltatime),
                t.pos,
                t.dir_angle,
                ctx.deltatime,
            )
            &&& #[trigger] is_exhaust_part(
                exhaust,
                player_at_exhaust(p, collisions, facts, keys, ctx.deltatime),
                t.pos,
                t.dir_angle,
                ctx.deltatime,
                boost_active(after_pickups(clocked(p, ctx.deltatime), collisions, facts), keys),
            )
            &&& #[trigger] is_tick_part(tick, id, player_at_tick(p, collisions, facts, keys, ctx.deltatime), ctx.deltatime)
            &&& #[trigger] is_damage_part(damage, id, t.pos, response_next(p, t, collisions, facts, keys, ctx), ctx)
        }
}

/// What one update of the ship yields besides its new state.
#[derive(Clone, Copy, Debug, PartialEq, Eq, Structural)]
pub struct PlayerOutcome {
    pub score_gain: usize,
    pub skillpoints_gain: usize,
    pub response: Option<DamageResponse>,
}

/// Updates the ship for one frame: it picks up what it touches, boosts,
/// steers, fires, leaves exhaust, ticks, and takes the damage of the frame.
#[verifier::rlimit(50)]
pub fn player_step(
    id: EntityId,
    t: Transform,
    motion: &mut Motion,
    player: &mut Player,
    collisions: &Vec<EntityId>,
    drawable: &mut Drawable,
    facts: &Vec<Fact>,
    keys: &Keys,
    ctx: &StageCtx,
    entropy: &mut Entropy,
    commands: &mut WorldCommandBuffer,
) -> (outcome: PlayerOutcome)
    ensures
        *final(player) == player_next(*old(player), t, collisions@, facts@, *keys, *ctx),
        old(player).pools_in_bounds() ==> final(player).pools_in_bounds(),
        *final(motion) == steered_motion(
            *old(motion),
            old(player).turn_speed,
            player_at_fire(*old(player), collisions@, facts@, *keys, ctx.deltatime).speed,
            t.dir_angle,
            *keys,
        ),
        *final(drawable) == (Drawable {
            visible: flicker_visible(old(player).invincible_timer.advanced(ctx.deltatime as int)),
            ..*old(drawable)
        }),
        outcome.score_gain == pickups_score(collisions@, facts@),
        outcome.skillpoints_gain == skillpoints_picked(collisions@, facts@),
        outcome.response == response_next(*old(player), t, collisions@, facts@, *keys, *ctx),
        final(commands)@.len() >= old(commands)@.len(),
        final(commands)@.take(old(commands)@.len() as int) == old(commands)@,
        player_commands(
            final(commands)@.skip(old(commands)@.len() as int),
            id,
            *old(player),
            t,
            collisions@,
            facts@,
            *keys,
            *ctx,
        ),
{
    let deltatime: i64 = ctx.deltatime;
    let ghost base = commands@;
    player.invincible_timer.update(deltatime);
    drawable.visible = flicker(&player.invincible_timer);
    let canvas: Rect = Rect::from_width_height(ctx.canvas_width, ctx.canvas_height);
    let fall: i64 = if canvas.contains_point(t.pos) { 0 } else { player.hp_max };
    let damage: i64 = fx_add(fall, sum_contact_damage(player.invincible_timer.is_running(), collisions, facts));
    let (score_gain, skillpoints_gain): (usize, usize) = resolve_pickups(player, collisions, facts);
    proof {
        lemma_pickups_keep_tuning(clocked(*old(player), deltatime), collisions@, facts@);
    }
    let active: bool = boost_step(player, keys, deltatime);
    steer_step(player, motion, t.dir_angle, keys, deltatime);
    fire_step(id, player, t.pos, t.dir_angle, deltatime, entropy, commands);
    let ghost after_fire = commands@;
    exhaust_step(player, t.pos, t.dir_angle, deltatime, active, entropy, commands);
    let ghost after_exhaust = commands@;
    tick_step(id, player, deltatime, commands);
    let ghost after_tick = commands@;
    let response: Option<DamageResponse> = take_damage(player, damage);
    damage_effects(id, t.pos, &response, ctx, entropy, commands);
    proof {
        let part = commands@.skip(base.len() as int);
        let fire = after_fire.skip(base.len() as int);
        let exhaust = after_exhaust.skip(after_fire.len() as int);
        let tick = after_tick.skip(after_exhaust.len() as int);
        let harm = commands@.skip(after_tick.len() as int);
        assert(after_exhaust =~= after_fire + exhaust) by {
            assert(after_exhaust.take(after_fire.len() as int) == after_fire);
        }
        assert(after_tick =~= after_exhaust + tick) by {
            assert(after_tick.take(after_exhaust.len() as int) == after_exhaust);
        }
        assert(commands@ =~= after_tick + harm) by {
            assert(commands@.take(after_tick.len() as int) == after_tick);
        }
        assert(after_fire =~= base + fire) by {
            assert(after_fire.take(base.len() as int) == base);
        }
        assert(part =~= fire + exhaust + tick + harm);
        assert(commands@.take(base.len() as int) =~= base);
        assert(is_fire_part(
            fire,
            id,
            player_at_fire(*old(player), collisions@, facts@, *keys, ctx.deltatime),
            t.pos,
            t.dir_angle,
            ctx.deltatime,
        ));
        assert(is_damage_part(harm, id, t.pos, response_next(*old(player), t, collisions@, facts@, *keys, *ctx), *ctx));
    }
    PlayerOutcome { score_gain, skillpoints_gain, response }
}

/// Pickups leave the limits and the tuning of the ship alone.
pub proof fn lemma_pickups_keep_tuning(p: Player, collisions: Seq<EntityId>, facts: Seq<Fact>)
    ensures
        after_pickups(p, collisions, facts).hp_max == p.hp_max,
        after_pickups(p, collisions, facts).turn_speed == p.turn_speed,
        after_pickups(p, collisions, facts).invincible_timer == p.invincible_timer,
    decreases collisions.len(),
{
    if collisions.len() > 0 {
        lemma_pickups_keep_tuning(p, collisions.drop_last(), facts);
    }
}

/// An entity that the player pass works on.
pub open spec fn is_player_row(c: Components) -> bool {
    c.transform is Some && c.motion is Some && c.player is Some && c.collider is Some && c.drawable is Some
}

/// How the player pass changes one row, and what it queues for it.
pub open spec fn player_row(before: Row, after: Row, part: Seq<Command>, facts: Seq<Fact>, keys: Keys, ctx: StageCtx) -> bool {
    &&& after.id == before.id
    &&& if is_player_row(before.c) {
        let collisions = before.c.collider->0.collisions@;
        &&& after.c == (Components {
            motion: after.c.motion,
            player: after.c.player,
            drawable: after.c.drawable,
            ..before.c
        })
        &&& after.c.player == Some(
            player_next(before.c.player->0, before.c.transform->0, collisions, facts, keys, ctx),
        )
        &&& after.c.motion == Some(
            steered_motion(
                before.c.motion->0,
                before.c.player->0.turn_speed,
                player_at_fire(before.c.player->0, collisions, facts, keys, ctx.deltatime).speed,
                before.c.transform->0.dir_angle,
                keys,
            ),
        )
        &&& after.c.drawable == Some(
            Drawable {
                visible: flicker_visible(before.c.player->0.invincible_timer.advanced(ctx.deltatime as int)),
                ..before.c.drawable->0
            },
        )
        &&& player_commands(part, before.id, before.c.player->0, before.c.transform->0, collisions, facts, keys, ctx)
    } else {
        &&& after.c == before.c
        &&& part.len() == 0
    }
}

/// What one row adds to the outcome of the pass.
pub open spec fn outcome_with(outcome: PlayerOutcome, row: Row, facts: Seq<Fact>, keys: Keys, ctx: StageCtx) -> PlayerOutcome {
    if is_player_row(row.c) {
        let collisions = row.c.collider->0.collisions@;
        let response = response_next(row.c.player->0, row.c.transform->0, collisions, facts, keys, ctx);
        PlayerOutcome {
            score_gain: score_plus(outcome.score_gain, pickups_score(collisions, facts)),
            skillpoints_gain: score_plus(outcome.skillpoints_gain, skillpoints_picked(collisions, facts)),
            response: if response is Some { response } else { outcome.response },
        }
    } else {
        outcome
    }
}

/// The outcome of the pass over `rows`: the gains of all ships, and the
/// answer to the damage of the last ship that took any.
pub open spec fn pass_outcome(rows: Seq<Row>, facts: Seq<Fact>, keys: Keys, ctx: StageCtx) -> PlayerOutcome
    decreases rows.len(),
{
    if rows.len() == 0 {
        PlayerOutcome { score_gain: 0, skillpoints_gain: 0, response: None }
    } else {
        outcome_with(pass_outcome(rows.drop_last(), facts, keys, ctx), rows.last(), facts, keys, ctx)
    }
}

/// The rows and the queue after the player pass.
#[verifier::opaque]
pub open spec fn player_pass_done(
    before: Seq<Row>,
    after: Seq<Row>,
    queue_before: Seq<Command>,
    queue_after: Seq<Command>,
    facts: Seq<Fact>,
    keys: Keys,
    ctx: StageCtx,
) -> bool {
    exists|parts: Seq<Seq<Command>>|
        {
            &&& parts.len() == before.len()
            &&& after.len() == before.len()
            &&& queue_after == queue_before + flat(parts)
            &&& forall|i: int|
                0 <= i < before.len() ==> player_row(before[i], after[i], #[trigger] parts[i], facts, keys, ctx)
        }
}

/// Every pool of every ship is within its bounds.
pub open spec fn pools_in_bounds(rows: Seq<Row>) -> bool {
    forall|i: int|
        0 <= i < rows.len() && (#[trigger] rows[i]).c.player is Some ==> rows[i].c.player->0.pools_in_bounds()
}

/// No entity but `ship` has a player component.
pub open spec fn only_ship(rows: Seq<Row>, ship: EntityId) -> bool {
    forall|i: int| 0 <= i < rows.len() && (#[trigger] rows[i]).c.player is Some ==> rows[i].id == ship
}

/// The player pass gives no entity a player component that had none.
pub proof fn lemma_player_pass_keeps_ship(
    before: Seq<Row>,
    after: Seq<Row>,
    queue_before: Seq<Command>,
    queue_after: Seq<Command>,
    facts: Seq<Fact>,
    keys: Keys,
    ctx: StageCtx,
    ship: EntityId,
)
    requires
        player_pass_done(before, after, queue_before, queue_after, facts, keys, ctx),
        only_ship(before, ship),
    ensures
        only_ship(after, ship),
{
    reveal(player_pass_done);
    let parts = choose|parts: Seq<Seq<Command>>|
        {
            &&& parts.len() == before.len()
            &&& after.len() == before.len()
            &&& queue_after == queue_before + flat(parts)
            &&& forall|i: int|
                0 <= i < before.len() ==> player_row(before[i], after[i], #[trigger] parts[i], facts, keys, ctx)
        };
    assert forall|i: int| 0 <= i < after.len() && (#[trigger] after[i]).c.player is Some implies after[i].id
        == ship by {
        assert(player_row(before[i], after[i], parts[i], facts, keys, ctx));
        assert(before[i].c.player is Some);
    }
}

/// Updates every ship. Pools that were within their bounds stay within
/// them.
#[verifier::rlimit(50)]
pub fn player_pass(
    rows: &mut Vec<Row>,
    facts: &Vec<Fact>,
    keys: &Keys,
    ctx: &StageCtx,
    entropy: &mut Entropy,
    commands: &mut WorldCommandBuffer,
) -> (outcome: PlayerOutcome)
    ensures
        player_pass_done(old(rows)@, final(rows)@, old(commands)@, final(commands)@, facts@, *keys, *ctx),
        outcome == pass_outcome(old(rows)@, facts@, *keys, *ctx),
        pools_in_bounds(old(rows)@) ==> pools_in_bounds(final(rows)@),
{
    reveal(player_pass_done);
    let n: usize = rows.len();
    let mut outcome: PlayerOutcome = PlayerOutcome { score_gain: 0, skillpoints_gain: 0, response: None };
    let ghost mut parts: Seq<Seq<Command>> = Seq::empty();
    let mut i: usize = 0;
    assert(old(rows)@.take(0) == Seq::<Row>::empty());
    assert(old(commands)@ + flat(parts) =~= old(commands)@);
    while i < n
        invariant
            i <= n,
            n == rows@.len(),
            n == old(rows)@.len(),
            parts.len() == i,
            commands@ == old(commands)@ + flat(parts),
            forall|j: int|
                0 <= j < i ==> player_row(old(rows)@[j], #[trigger] rows@[j], parts[j], facts@, *keys, *ctx),
            forall|j: int| i <= j < n ==> rows@[j] == old(rows)@[j],
            outcome == pass_outcome(old(rows)@.take(i as int), facts@, *keys, *ctx),
            pools_in_bounds(old(rows)@) ==> forall|j: int|
                0 <= j < i && (#[trigger] rows@[j]).c.player is Some ==> rows@[j].c.player->0.pools_in_bounds(),
        decreases n - i,
    {
        let ghost base = commands@;
        let row = &mut rows[i];
        let id: EntityId = row.id;
        match (&row.c.transform, &mut row.c.motion, &mut row.c.player, &row.c.collider, &mut row.c.drawable) {
            (Some(t), Some(motion), Some(player), Some(collider), Some(drawable)) => {
                let step: PlayerOutcome = player_step(
                    id,
                    *t,
                    motion,
                    player,
                    &collider.collisions,
                    drawable,
                    facts,
                    keys,
                    ctx,
                    entropy,
                    commands,
                );
                outcome =
                PlayerOutcome {
                    score_gain: add_score(outcome.score_gain, step.score_gain),
                    skillpoints_gain: add_score(outcome.skillpoints_gain, step.skillpoints_gain),
                    response: if step.response.is_some() { step.response } else { outcome.response },
                };
            },
            _ => {},
        }
        proof {
            let part = commands@.skip(base.len() as int);
            assert(commands@ =~= base + part);
            lemma_flat_push(parts, part);
            parts = parts.push(part);
            assert(commands@ =~= old(commands)@ + flat(parts));
            assert(old(rows)@.take(i as int + 1).drop_last() == old(rows)@.take(i as int));
            assert(old(rows)@.take(i as int + 1).last() == old(rows)@[i as int]);
            assert(player_row(old(rows)@[i as int], rows@[i as int], part, facts@, *keys, *ctx));
        }
        i = i + 1;
    }
    proof {
        assert(old(rows)@.take(n as int) == old(rows)@);
    }
    outcome
}

/// A ship that has left the canvas loses all its hit points in this
/// frame, whatever it picks up and whatever else hurts it, invincible or
/// not.
pub proof fn lemma_outside_is_fatal(
    p: Player,
    t: Transform,
    collisions: Seq<EntityId>,
    facts: Seq<Fact>,
    keys: Keys,
    ctx: StageCtx,
)
    requires
        !canvas_of(ctx).contains_spec(t.pos),
        p.pools_in_bounds(),
        p.hp_max > 0,
        crate::player::none_heals(collisions, facts),
    ensures
        player_next(p, t, collisions, facts, keys, ctx).hp == 0,
        response_next(p, t, collisions, facts, keys, ctx) is Some,
        response_next(p, t, collisions, facts, keys, ctx)->0.severity == Severity::Fatal,
{
    let dt = ctx.deltatime;
    let picked = after_pickups(clocked(p, dt), collisions, facts);
    crate::player::lemma_pickups_keep_bounds(clocked(p, dt), collisions, facts);
    lemma_pickups_keep_tuning(clocked(p, dt), collisions, facts);
    crate::player::lemma_contact_damage_not_negative(clocked(p, dt).invincible_timer.running(), collisions, facts);
    assert(frame_damage(clocked(p, dt), t, collisions, facts, ctx) >= p.hp_max);
    let at_tick = ticked(player_at_tick(p, collisions, facts, keys, dt), dt);
    assert(at_tick.hp == picked.hp);
    assert(at_tick.hp_max == p.hp_max);
}

/// What a fatal frame queues for the ship holds the despawn of the ship.
pub proof fn lemma_fatal_queues_despawn(
    part: Seq<Command>,
    id: EntityId,
    p: Player,
    t: Transform,
    collisions: Seq<EntityId>,
    facts: Seq<Fact>,
    keys: Keys,
    ctx: StageCtx,
)
    requires
        player_commands(part, id, p, t, collisions, facts, keys, ctx),
        response_next(p, t, collisions, facts, keys, ctx) is Some,
        response_next(p, t, collisions, facts, keys, ctx)->0.severity == Severity::Fatal,
    ensures
        part.contains(Command::Despawn(id)),
{
    reveal(is_damage_part);
    let response = response_next(p, t, collisions, facts, keys, ctx);
    let (fire, exhaust, tick, damage) = choose|
        fire: Seq<Command>,
        exhaust: Seq<Command>,
        tick: Seq<Command>,
        damage: Seq<Command>,
    |
        {
            &&& part == fire + exhaust + tick + damage
            &&& #[trigger] is_fire_part(
                fire,
                id,
                player_at_fire(p, collisions, facts, keys, ctx.deltatime),
                t.pos,
                t.dir_angle,
                ctx.deltatime,
            )
            &&& #[trigger] is_exhaust_part(
                exhaust,
                player_at_exhaust(p, collisions, facts, keys, ctx.deltatime),
                t.pos,
                t.dir_angle,
                ctx.deltatime,
                boost_active(after_pickups(clocked(p, ctx.deltatime), collisions, facts), keys),
            )
            &&& #[trigger] is_tick_part(tick, id, player_at_tick(p, collisions, facts, keys, ctx.deltatime), ctx.deltatime)
            &&& #[trigger] is_damage_part(damage, id, t.pos, response, ctx)
        };
    assert(damage[0] == Command::Despawn(id));
    assert(part[(fire.len() + exhaust.len() + tick.len()) as int] == damage[0]);
}

/// The player pass queues the despawn of every ship that the frame is
/// fatal for.
pub proof fn lemma_pass_queues_despawn(
    before: Seq<Row>,
    after: Seq<Row>,
    queue_before: Seq<Command>,
    queue_after: Seq<Command>,
    facts: Seq<Fact>,
    keys: Keys,
    ctx: StageCtx,
    i: int,
)
    requires
        player_pass_done(before, after, queue_before, queue_after, facts, keys, ctx),
        0 <= i < before.len(),
        is_player_row(before[i].c),
        response_next(
            before[i].c.player->0,
            before[i].c.transform->0,
            before[i].c.collider->0.collisions@,
            facts,
            keys,
            ctx,
        ) is Some,
        response_next(
            before[i].c.player->0,
            before[i].c.transform->0,
            before[i].c.collider->0.collisions@,
            facts,
            keys,
            ctx,
        )->0.severity == Severity::Fatal,
    ensures
        queue_after.contains(Command::Despawn(before[i].id)),
{
    reveal(player_pass_done);
    let parts = choose|parts: Seq<Seq<Command>>|
        {
            &&& parts.len() == before.len()
            &&& after.len() == before.len()
            &&& queue_after == queue_before + flat(parts)
            &&& forall|i: int|
                0 <= i < before.len() ==> player_row(before[i], after[i], #[trigger] parts[i], facts, keys, ctx)
        };
    assert(player_row(before[i], after[i], parts[i], facts, keys, ctx));
    lemma_fatal_queues_despawn(
        parts[i],
        before[i].id,
        before[i].c.player->0,
        before[i].c.transform->0,
        before[i].c.collider->0.collisions@,
        facts,
        keys,
        ctx,
    );
    crate::commands::lemma_flat_contains(parts, i, Command::Despawn(before[i].id));
    crate::commands::lemma_joins_queue(queue_before, flat(parts), Command::Despawn(before[i].id));
}

/// A ship inside the canvas that touches one health pickup, and nothing
/// that hurts, ends the frame with its hit points raised by exactly its
/// gain, clamped to the maximum.
pub proof fn lemma_health_pickup_heals(
    p: Player,
    t: Transform,
    id: EntityId,
    facts: Seq<Fact>,
    keys: Keys,
    ctx: StageCtx,
)
    requires
        canvas_of(ctx).contains_spec(t.pos),
        crate::player::collectible_at(facts, id) == Some(crate::components::CollectibleType::Hp),
        crate::player::damage_of(facts, id) == 0,
    ensures
        player_next(p, t, seq![id], facts, keys, ctx).hp == crate::fixed::sclamp(
            sadd(p.hp, p.hp_gain),
            0,
            p.hp_max,
        ),
        response_next(p, t, seq![id], facts, keys, ctx) is None,
{
    let one = seq![id];
    let dt = ctx.deltatime;
    crate::player::lemma_single_pickup(clocked(p, dt), id, crate::components::CollectibleType::Hp, facts);
    assert(one.drop_last() =~= Seq::<EntityId>::empty());
    assert(one.last() == id);
    let invincible = clocked(p, dt).invincible_timer.running();
    assert(contact_damage(invincible, one.drop_last(), facts) == 0);
    assert(contact_damage(invincible, one, facts) == 0);
    assert(frame_damage(clocked(p, dt), t, one, facts, ctx) == 0);
    let healed = after_pickups(clocked(p, dt), one, facts);
    assert(player_at_tick(p, one, facts, keys, dt).hp == healed.hp);
}

/// What damage queues brings no ship and no projectile into the game.
pub proof fn lemma_damage_part_is_harmless(
    flying: Set<crate::components::Components>,
    part: Seq<Command>,
    id: EntityId,
    pos: Vec2,
    response: Option<DamageResponse>,
    ctx: StageCtx,
)
    requires
        is_damage_part(part, id, pos, response, ctx),
    ensures
        crate::commands::all_harmless_but(flying, part),
{
    reveal(is_damage_part);
    reveal(Archetypes::is_screenflash);
    reveal(Archetypes::is_explode_particle);
    if response is Some {
        let fatal: int = if response->0.severity == Severity::Fatal { 1 } else { 0 };
        assert forall|k: int| 0 <= k < part.len() implies crate::commands::harmless_but(flying, #[trigger] part[k]) by {
            if k > fatal {
                assert(part[k] == part.skip(fatal + 1)[k - fatal - 1]);
                assert(is_debris(part.skip(fatal + 1)[k - fatal - 1], pos));
            } else if k == fatal {
                assert(part[fatal] is Spawn);
            }
        }
    }
}

/// The shots that the ship fires in this frame, if it fires, are among
/// `flying`.
pub open spec fn ship_shots_fly(
    flying: Set<crate::components::Components>,
    p: Player,
    t: Transform,
    collisions: Seq<EntityId>,
    facts: Seq<Fact>,
    keys: Keys,
    ctx: StageCtx,
) -> bool {
    let at_fire = player_at_fire(p, collisions, facts, keys, ctx.deltatime);
    at_fire.reload_timer.fires(ctx.deltatime as int) ==> crate::shooting::shots_fly(
        flying,
        at_fire,
        t.pos,
        t.dir_angle,
    )
}

/// The shots that the ships of the rows fire in this frame are among
/// `flying`.
pub open spec fn ships_shots_fly(
    flying: Set<crate::components::Components>,
    rows: Seq<Row>,
    facts: Seq<Fact>,
    keys: Keys,
    ctx: StageCtx,
) -> bool {
    forall|i: int|
        0 <= i < rows.len() && is_player_row((#[trigger] rows[i]).c) ==> ship_shots_fly(
            flying,
            rows[i].c.player->0,
            rows[i].c.transform->0,
            rows[i].c.collider->0.collisions@,
            facts,
            keys,
            ctx,
        )
}

/// What the update of a ship queues brings no ship into the game, and no
/// projectile but the shots of the ship.
pub proof fn lemma_player_part_is_harmless(
    flying: Set<crate::components::Components>,
    part: Seq<Command>,
    id: EntityId,
    p: Player,
    t: Transform,
    collisions: Seq<EntityId>,
    facts: Seq<Fact>,
    keys: Keys,
    ctx: StageCtx,
)
    requires
        player_commands(part, id, p, t, collisions, facts, keys, ctx),
        ship_shots_fly(flying, p, t, collisions, facts, keys, ctx),
    ensures
        crate::commands::all_harmless_but(flying, part),
{
    let response = response_next(p, t, collisions, facts, keys, ctx);
    let (fire, exhaust, tick, damage) = choose|
        fire: Seq<Command>,
        exhaust: Seq<Command>,
        tick: Seq<Command>,
        damage: Seq<Command>,
    |
        {
            &&& part == fire + exhaust + tick + damage
            &&& #[trigger] is_fire_part(
                fire,
                id,
                player_at_fire(p, collisions, facts, keys, ctx.deltatime),
                t.pos,
                t.dir_angle,
                ctx.deltatime,
            )
            &&& #[trigger] is_exhaust_part(
                exhaust,
                player_at_exhaust(p, collisions, facts, keys, ctx.deltatime),
                t.pos,
                t.dir_angle,
                ctx.deltatime,
                boost_active(after_pickups(clocked(p, ctx.deltatime), collisions, facts), keys),
            )
            &&& #[trigger] is_tick_part(tick, id, player_at_tick(p, collisions, facts, keys, ctx.deltatime), ctx.deltatime)
            &&& #[trigger] is_damage_part(damage, id, t.pos, response, ctx)
        };
    crate::shooting::lemma_fire_part_is_harmless(
        flying,
        fire,
        id,
        player_at_fire(p, collisions, facts, keys, ctx.deltatime),
        t.pos,
        t.dir_angle,
        ctx.deltatime,
    );
    crate::shooting::lemma_exhaust_part_is_harmless(
        flying,
        exhaust,
        player_at_exhaust(p, collisions, facts, keys, ctx.deltatime),
        t.pos,
        t.dir_angle,
        ctx.deltatime,
        boost_active(after_pickups(clocked(p, ctx.deltatime), collisions, facts), keys),
    );
    crate::shooting::lemma_tick_part_is_harmless(
        flying,
        tick,
        id,
        player_at_tick(p, collisions, facts, keys, ctx.deltatime),
        ctx.deltatime,
    );
    lemma_damage_part_is_harmless(flying, damage, id, t.pos, response, ctx);
    crate::commands::lemma_joined_harmless(flying, fire, exhaust);
    crate::commands::lemma_joined_harmless(flying, fire + exhaust, tick);
    crate::commands::lemma_joined_harmless(flying, fire + exhaust + tick, damage);
}

/// The player pass brings no ship into the game, and no projectile but
/// the shots of the ships.
pub proof fn lemma_player_pass_is_harmless(
    flying: Set<crate::components::Components>,
    before: Seq<Row>,
    after: Seq<Row>,
    queue_before: Seq<Command>,
    queue_after: Seq<Command>,
    facts: Seq<Fact>,
    keys: Keys,
    ctx: StageCtx,
)
    requires
        player_pass_done(before, after, queue_before, queue_after, facts, keys, ctx),
        crate::commands::all_harmless_but(flying, queue_before),
        ships_shots_fly(flying, before, facts, keys, ctx),
    ensures
        crate::commands::all_harmless_but(flying, queue_after),
{
    reveal(player_pass_done);
    let parts = choose|parts: Seq<Seq<Command>>|
        {
            &&& parts.len() == before.len()
            &&& after.len() == before.len()
            &&& queue_after == queue_before + flat(parts)
            &&& forall|i: int|
                0 <= i < before.len() ==> player_row(before[i], after[i], #[trigger] parts[i], facts, keys, ctx)
        };
    assert forall|i: int| 0 <= i < parts.len() implies crate::commands::all_harmless_but(flying, #[trigger] parts[i]) by {
        assert(player_row(before[i], after[i], parts[i], facts, keys, ctx));
        if is_player_row(before[i].c) {
            lemma_player_part_is_harmless(
                flying,
                parts[i],
                before[i].id,
                before[i].c.player->0,
                before[i].c.transform->0,
                before[i].c.collider->0.collisions@,
                facts,
                keys,
                ctx,
            );
        }
    }
    crate::commands::lemma_flat_harmless(flying, parts);
    crate::commands::lemma_joined_harmless(flying, queue_before, flat(parts));
}

/// The player pass leaves every enemy component as it was.
pub proof fn lemma_player_pass_keeps_enemies(
    before: Seq<Row>,
    after: Seq<Row>,
    queue_before: Seq<Command>,
    queue_after: Seq<Command>,
    facts: Seq<Fact>,
    keys: Keys,
    ctx: StageCtx,
)
    requires
        player_pass_done(before, after, queue_before, queue_after, facts, keys, ctx),
    ensures
        after.len() == before.len(),
        forall|i: int| 0 <= i < after.len() ==> (#[trigger] after[i]).c.enemy == before[i].c.enemy,
{
    reveal(player_pass_done);
    let parts = choose|parts: Seq<Seq<Command>>|
        {
            &&& parts.len() == before.len()
            &&& after.len() == before.len()
            &&& queue_after == queue_before + flat(parts)
            &&& forall|i: int|
                0 <= i < before.len() ==> player_row(before[i], after[i], #[trigger] parts[i], facts, keys, ctx)
        };
    assert forall|i: int| 0 <= i < after.len() implies (#[trigger] after[i]).c.enemy == before[i].c.enemy by {
        assert(player_row(before[i], after[i], parts[i], facts, keys, ctx));
    }
}

/// A ship inside the canvas with its hit points at their maximum, which
/// nothing hurts, ends the frame with its hit points at their maximum,
/// whatever it picks up.
pub proof fn lemma_full_health_stays_full(
    p: Player,
    t: Transform,
    collisions: Seq<EntityId>,
    facts: Seq<Fact>,
    keys: Keys,
    ctx: StageCtx,
)
    requires
        canvas_of(ctx).contains_spec(t.pos),
        crate::player::none_hurts(collisions, facts),
        p.hp == p.hp_max,
        p.hp_max >= 0,
        p.hp_gain >= 0,
    ensures
        player_next(p, t, collisions, facts, keys, ctx).hp == p.hp_max,
        response_next(p, t, collisions, facts, keys, ctx) is None,
{
    let dt = ctx.deltatime;
    crate::player::lemma_pickups_keep_full(clocked(p, dt), collisions, facts);
    crate::player::lemma_no_contact_damage(clocked(p, dt).invincible_timer.running(), collisions, facts);
    assert(frame_damage(clocked(p, dt), t, collisions, facts, ctx) == 0);
    let picked = after_pickups(clocked(p, dt), collisions, facts);
    assert(player_at_tick(p, collisions, facts, keys, dt).hp == picked.hp);
}

/// The ammunition of a ship after its update is what firing left of it,
/// and with nothing picked up firing starts from what the ship had: a
/// shot takes what the pattern consumes, as long as some is left.
pub proof fn lemma_shot_takes_ammo(
    p: Player,
    t: Transform,
    collisions: Seq<EntityId>,
    facts: Seq<Fact>,
    keys: Keys,
    ctx: StageCtx,
)
    requires
        crate::player::none_collected(collisions, facts),
    ensures
        player_next(p, t, collisions, facts, keys, ctx).ammo == fired(
            player_at_fire(p, collisions, facts, keys, ctx.deltatime),
            ctx.deltatime,
        ).ammo,
        player_at_fire(p, collisions, facts, keys, ctx.deltatime).ammo == p.ammo,
        player_at_fire(p, collisions, facts, keys, ctx.deltatime).attack == p.attack,
        player_at_fire(p, collisions, facts, keys, ctx.deltatime).reload_timer == p.reload_timer,
        p.reload_timer.fires(ctx.deltatime as int) && 0 < p.ammo - p.attack.ammo_consumption_on_shot <= p.ammo_max
            && p.attack.ammo_consumption_on_shot >= 0 ==> player_next(p, t, collisions, facts, keys, ctx).ammo
            == p.ammo - p.attack.ammo_consumption_on_shot,
{
    let dt = ctx.deltatime;
    crate::player::lemma_nothing_picked(clocked(p, dt), collisions, facts);
}

/// Rows without a ship have no outcome.
pub proof fn lemma_no_ship_no_outcome(rows: Seq<Row>, facts: Seq<Fact>, keys: Keys, ctx: StageCtx)
    requires
        forall|j: int| 0 <= j < rows.len() ==> (#[trigger] rows[j]).c.player is None,
    ensures
        pass_outcome(rows, facts, keys, ctx) == (PlayerOutcome { score_gain: 0, skillpoints_gain: 0, response: None }),
    decreases rows.len(),
{
    if rows.len() > 0 {
        let head = rows.drop_last();
        assert forall|j: int| 0 <= j < head.len() implies (#[trigger] head[j]).c.player is None by {
            assert(head[j] == rows[j]);
        }
        lemma_no_ship_no_outcome(head, facts, keys, ctx);
        assert(rows[rows.len() - 1].c.player is None);
    }
}

/// Where one row alone holds a ship, the answer of the pass is the answer
/// to the damage of that ship.
pub proof fn lemma_outcome_of_one_ship(rows: Seq<Row>, facts: Seq<Fact>, keys: Keys, ctx: StageCtx, i: int)
    requires
        0 <= i < rows.len(),
        is_player_row(rows[i].c),
        forall|j: int| 0 <= j < rows.len() && j != i ==> (#[trigger] rows[j]).c.player is None,
    ensures
        pass_outcome(rows, facts, keys, ctx).response == response_next(
            rows[i].c.player->0,
            rows[i].c.transform->0,
            rows[i].c.collider->0.collisions@,
            facts,
            keys,
            ctx,
        ),
    decreases rows.len(),
{
    let head = rows.drop_last();
    if i == rows.len() - 1 {
        assert forall|j: int| 0 <= j < head.len() implies (#[trigger] head[j]).c.player is None by {
            assert(head[j] == rows[j]);
        }
        lemma_no_ship_no_outcome(head, facts, keys, ctx);
    } else {
        assert(head[i] == rows[i]);
        assert forall|j: int| 0 <= j < head.len() && j != i implies (#[trigger] head[j]).c.player is None by {
            assert(head[j] == rows[j]);
        }
        lemma_outcome_of_one_ship(head, facts, keys, ctx, i);
        assert(rows[rows.len() - 1].c.player is None);
    }
}

/// What damage queues despawns nothing but the ship.
pub proof fn lemma_damage_part_despawns_own(
    part: Seq<Command>,
    id: EntityId,
    pos: Vec2,
    response: Option<DamageResponse>,
    ctx: StageCtx,
)
    requires
        is_damage_part(part, id, pos, response, ctx),
    ensures
        crate::commands::despawns_own(part, id),
{
    reveal(is_damage_part);
    if response is Some {
        let fatal: int = if response->0.severity == Severity::Fatal { 1 } else { 0 };
        assert forall|k: int| 0 <= k < part.len() && (#[trigger] part[k]) is Despawn implies part[k]->Despawn_0
            == id by {
            if k > fatal {
                assert(part[k] == part.skip(fatal + 1)[k - fatal - 1]);
                assert(is_debris(part.skip(fatal + 1)[k - fatal - 1], pos));
            } else if k == fatal {
                assert(part[fatal] is Spawn);
            }
        }
    }
}

/// What the update of a ship queues despawns nothing but the ship.
pub proof fn lemma_player_part_despawns_own(
    part: Seq<Command>,
    id: EntityId,
    p: Player,
    t: Transform,
    collisions: Seq<EntityId>,
    facts: Seq<Fact>,
    keys: Keys,
    ctx: StageCtx,
)
    requires
        player_commands(part, id, p, t, collisions, facts, keys, ctx),
    ensures
        crate::commands::despawns_own(part, id),
{
    let response = response_next(p, t, collisions, facts, keys, ctx);
    let (fire, exhaust, tick, damage) = choose|
        fire: Seq<Command>,
        exhaust: Seq<Command>,
        tick: Seq<Command>,
        damage: Seq<Command>,
    |
        {
            &&& part == fire + exhaust + tick + damage
            &&& #[trigger] is_fire_part(
                fire,
                id,
                player_at_fire(p, collisions, facts, keys, ctx.deltatime),
                t.pos,
                t.dir_angle,
                ctx.deltatime,
            )
            &&& #[trigger] is_exhaust_part(
                exhaust,
                player_at_exhaust(p, collisions, facts, keys, ctx.deltatime),
                t.pos,
                t.dir_angle,
                ctx.deltatime,
                boost_active(after_pickups(clocked(p, ctx.deltatime), collisions, facts), keys),
            )
            &&& #[trigger] is_tick_part(tick, id, player_at_tick(p, collisions, facts, keys, ctx.deltatime), ctx.deltatime)
            &&& #[trigger] is_damage_part(damage, id, t.pos, response, ctx)
        };
    crate::shooting::lemma_fire_part_spawns(
        fire,
        id,
        player_at_fire(p, collisions, facts, keys, ctx.deltatime),
        t.pos,
        t.dir_angle,
        ctx.deltatime,
    );
    crate::shooting::lemma_exhaust_part_spawns(
        exhaust,
        player_at_exhaust(p, collisions, facts, keys, ctx.deltatime),
        t.pos,
        t.dir_angle,
        ctx.deltatime,
        boost_active(after_pickups(clocked(p, ctx.deltatime), collisions, facts), keys),
    );
    crate::shooting::lemma_tick_part_spawns(
        tick,
        id,
        player_at_tick(p, collisions, facts, keys, ctx.deltatime),
        ctx.deltatime,
    );
    lemma_damage_part_despawns_own(damage, id, t.pos, response, ctx);
    assert forall|k: int| 0 <= k < part.len() && (#[trigger] part[k]) is Despawn implies part[k]->Despawn_0 == id by {
        if k < fire.len() {
            assert(part[k] == fire[k]);
        } else if k < fire.len() + exhaust.len() {
            assert(part[k] == exhaust[k - fire.len()]);
        } else if k < fire.len() + exhaust.len() + tick.len() {
            assert(part[k] == tick[k - fire.len() - exhaust.len()]);
        } else {
            assert(part[k] == damage[k - fire.len() - exhaust.len() - tick.len()]);
        }
    }
}

/// The player pass despawns none but entities of its rows.
pub proof fn lemma_player_pass_within(
    before: Seq<Row>,
    after: Seq<Row>,
    queue_before: Seq<Command>,
    queue_after: Seq<Command>,
    facts: Seq<Fact>,
    keys: Keys,
    ctx: StageCtx,
    ids: Set<u64>,
)
    requires
        player_pass_done(before, after, queue_before, queue_after, facts, keys, ctx),
        crate::commands::despawns_within(queue_before, ids),
        forall|i: int| 0 <= i < before.len() ==> ids.contains(#[trigger] before[i].id),
    ensures
        crate::commands::despawns_within(queue_after, ids),
{
    reveal(player_pass_done);
    let parts = choose|parts: Seq<Seq<Command>>|
        {
            &&& parts.len() == before.len()
            &&& after.len() == before.len()
            &&& queue_after == queue_before + flat(parts)
            &&& forall|i: int|
                0 <= i < before.len() ==> player_row(before[i], after[i], #[trigger] parts[i], facts, keys, ctx)
        };
    assert forall|i: int| 0 <= i < parts.len() implies crate::commands::despawns_within(#[trigger] parts[i], ids) by {
        assert(player_row(before[i], after[i], parts[i], facts, keys, ctx));
        if is_player_row(before[i].c) {
            lemma_player_part_despawns_own(
                parts[i],
                before[i].id,
                before[i].c.player->0,
                before[i].c.transform->0,
                before[i].c.collider->0.collisions@,
                facts,
                keys,
                ctx,
            );
            crate::commands::lemma_own_is_within(parts[i], before[i].id, ids);
        }
    }
    crate::commands::lemma_flat_within(parts, ids);
    crate::commands::lemma_joined_within(queue_before, flat(parts), ids);
}

/// Whatever the update of a ship queues is in the queue after the pass.
pub proof fn lemma_pass_queues_part(
    before: Seq<Row>,
    after: Seq<Row>,
    queue_before: Seq<Command>,
    queue_after: Seq<Command>,
    facts: Seq<Fact>,
    keys: Keys,
    ctx: StageCtx,
    i: int,
) -> (part: Seq<Command>)
    requires
        player_pass_done(before, after, queue_before, queue_after, facts, keys, ctx),
        0 <= i < before.len(),
        is_player_row(before[i].c),
    ensures
        player_commands(
            part,
            before[i].id,
            before[i].c.player->0,
            before[i].c.transform->0,
            before[i].c.collider->0.collisions@,
            facts,
            keys,
            ctx,
        ),
        forall|command: Command| part.contains(command) ==> queue_after.contains(command),
{
    reveal(player_pass_done);
    let parts = choose|parts: Seq<Seq<Command>>|
        {
            &&& parts.len() == before.len()
            &&& after.len() == before.len()
            &&& queue_after == queue_before + flat(parts)
            &&& forall|i: int|
                0 <= i < before.len() ==> player_row(before[i], after[i], #[trigger] parts[i], facts, keys, ctx)
        };
    assert(player_row(before[i], after[i], parts[i], facts, keys, ctx));
    assert forall|command: Command| parts[i].contains(command) implies queue_after.contains(command) by {
        crate::commands::lemma_flat_contains(parts, i, command);
        crate::commands::lemma_joins_queue(queue_before, flat(parts), command);
    }
    parts[i]
}

/// What a fatal frame queues for the ship holds the spawn of a flash that
/// covers the canvas for four frames.
pub proof fn lemma_fatal_queues_flash(
    part: Seq<Command>,
    id: EntityId,
    p: Player,
    t: Transform,
    collisions: Seq<EntityId>,
    facts: Seq<Fact>,
    keys: Keys,
    ctx: StageCtx,
) -> (flash: Command)
    requires
        player_commands(part, id, p, t, collisions, facts, keys, ctx),
        response_next(p, t, collisions, facts, keys, ctx) is Some,
        response_next(p, t, collisions, facts, keys, ctx)->0.severity == Severity::Fatal,
    ensures
        part.contains(flash),
        flash is Spawn,
        Archetypes::is_screenflash(flash->Spawn_0, ctx.canvas_width, ctx.canvas_height, 4),
{
    reveal(is_damage_part);
    let response = response_next(p, t, collisions, facts, keys, ctx);
    let (fire, exhaust, tick, damage) = choose|
        fire: Seq<Command>,
        exhaust: Seq<Command>,
        tick: Seq<Command>,
        damage: Seq<Command>,
    |
        {
            &&& part == fire + exhaust + tick + damage
            &&& #[trigger] is_fire_part(
                fire,
                id,
                player_at_fire(p, collisions, facts, keys, ctx.deltatime),
                t.pos,
                t.dir_angle,
                ctx.deltatime,
            )
            &&& #[trigger] is_exhaust_part(
                exhaust,
                player_at_exhaust(p, collisions, facts, keys, ctx.deltatime),
                t.pos,
                t.dir_angle,
                ctx.deltatime,
                boost_active(after_pickups(clocked(p, ctx.deltatime), collisions, facts), keys),
            )
            &&& #[trigger] is_tick_part(tick, id, player_at_tick(p, collisions, facts, keys, ctx.deltatime), ctx.deltatime)
            &&& #[trigger] is_damage_part(damage, id, t.pos, response, ctx)
        };
    assert(part[(fire.len() + exhaust.len() + tick.len()) as int + 1] == damage[1]);
    damage[1]
}

/// What a frame in which the ship fires queues for it holds the spawn of
/// every shot of the pattern, for a pattern whose shots do not depend on
/// chance.
pub proof fn lemma_firing_queues_shot(
    part: Seq<Command>,
    id: EntityId,
    p: Player,
    t: Transform,
    collisions: Seq<EntityId>,
    facts: Seq<Fact>,
    keys: Keys,
    ctx: StageCtx,
    shots: Seq<crate::shooting::Shot>,
    k: int,
) -> (shot: Command)
    requires
        player_commands(part, id, p, t, collisions, facts, keys, ctx),
        player_at_fire(p, collisions, facts, keys, ctx.deltatime).reload_timer.fires(ctx.deltatime as int),
        forall|offset: i64, color: crate::color::Color|
            #[trigger] crate::shooting::shot_plan(
                player_at_fire(p, collisions, facts, keys, ctx.deltatime).attack,
                crate::shooting::muzzle_spec(
                    player_at_fire(p, collisions, facts, keys, ctx.deltatime).ship_type,
                    player_at_fire(p, collisions, facts, keys, ctx.deltatime).size,
                    t.pos,
                    Vec2::from_angle_spec(t.dir_angle),
                ),
                t.pos,
                t.dir_angle,
                offset,
                color,
            ) == shots,
        0 <= k < shots.len(),
    ensures
        part.contains(shot),
        shot is Spawn,
        Archetypes::is_projectile(
            shot->Spawn_0,
            shots[k].pos,
            shots[k].dir_angle,
            crate::shooting::SHOT_SPEED,
            crate::shooting::SHOT_LENGTH,
            shots[k].color,
            crate::shooting::SHOT_DAMAGE,
        ),
{
    reveal(is_fire_part);
    let response = response_next(p, t, collisions, facts, keys, ctx);
    let at_fire = player_at_fire(p, collisions, facts, keys, ctx.deltatime);
    let (fire, exhaust, tick, damage) = choose|
        fire: Seq<Command>,
        exhaust: Seq<Command>,
        tick: Seq<Command>,
        damage: Seq<Command>,
    |
        {
            &&& part == fire + exhaust + tick + damage
            &&& #[trigger] is_fire_part(fire, id, at_fire, t.pos, t.dir_angle, ctx.deltatime)
            &&& #[trigger] is_exhaust_part(
                exhaust,
                player_at_exhaust(p, collisions, facts, keys, ctx.deltatime),
                t.pos,
                t.dir_angle,
                ctx.deltatime,
                boost_active(after_pickups(clocked(p, ctx.deltatime), collisions, facts), keys),
            )
            &&& #[trigger] is_tick_part(tick, id, player_at_tick(p, collisions, facts, keys, ctx.deltatime), ctx.deltatime)
            &&& #[trigger] is_damage_part(damage, id, t.pos, response, ctx)
        };
    let dir = Vec2::from_angle_spec(t.dir_angle);
    let muzzle = crate::shooting::muzzle_spec(at_fire.ship_type, at_fire.size, t.pos, dir);
    let (offset, color) = choose|offset: i64, color: crate::color::Color|
        crate::shooting::spread_in_range(offset, color) && #[trigger] crate::shooting::spawns_shots(
            fire.skip(1),
            crate::shooting::shot_plan(at_fire.attack, muzzle, t.pos, t.dir_angle, offset, color),
        );
    assert(crate::shooting::shot_plan(at_fire.attack, muzzle, t.pos, t.dir_angle, offset, color) == shots);
    assert(fire.skip(1)[k] == fire[k + 1]);
    assert(part[k + 1] == fire[k + 1]);
    fire[k + 1]
}

/// A ship with its ammunition at the maximum that does not fire in this
/// frame ends it with its ammunition at the maximum, whatever it picks
/// up.
pub proof fn lemma_full_ammo_stays_full(
    p: Player,
    t: Transform,
    collisions: Seq<EntityId>,
    facts: Seq<Fact>,
    keys: Keys,
    ctx: StageCtx,
)
    requires
        p.ammo == p.ammo_max,
        p.ammo_max >= 0,
        p.ammo_gain >= 0,
        !player_at_fire(p, collisions, facts, keys, ctx.deltatime).reload_timer.fires(ctx.deltatime as int),
    ensures
        player_next(p, t, collisions, facts, keys, ctx).ammo == p.ammo_max,
{
    let dt = ctx.deltatime;
    crate::player::lemma_pickups_keep_full(clocked(p, dt), collisions, facts);
}

} // verus!
