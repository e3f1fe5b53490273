//! Passes over transient effects: particles, the tick stamp, tweens,
//! blinking, charge sparks, and the end of projectiles.
use vstd::prelude::*;
use crate::archetypes::{Archetypes, beam};
use crate::census::{Fact, find_pose, pose_for};
use crate::color::{color_hp, color_neutral};
use crate::commands::{Command, WorldCommandBuffer};
use crate::components::{Components, Drawable, EnemyChargeParticle, EntityId, ExplodeParticle, MeshType,
    Motion, TickEffect, TweenColor, TweenScale};
use crate::easing::{EasingType, ease, ease_spec};
use crate::enemy::StageCtx;
use crate::fixed::{fx_lerp, fx_neg, slerp, sneg, tdiv};
use crate::pilot::canvas_of;
use crate::store::{Row, rows_mapped};
use crate::vec2::{Rect, Vec2};

verus! {

/// A particle of an explosion at its current age: it gets shorter and
/// slower until it stands still.
pub open spec fn particle_aged(c: Components, dt: i64) -> Components {
    if c.transform is Some && c.motion is Some && c.explode is Some && c.drawable is Some {
        let particle = ExplodeParticle { timer_tween: c.explode->0.timer_tween.advanced(dt as int), ..c.explode->0 };
        let share = particle.timer_tween.ratio() as i64;
        let length = slerp(particle.length, 0, share);
        let speed = slerp(particle.speed, 0, share);
        Components {
            explode: Some(particle),
            motion: Some(
                Motion { vel: Vec2::from_angle_spec(c.transform->0.dir_angle).scaled_spec(speed), ..c.motion->0 },
            ),
            drawable: Some(Drawable { mesh: beam(length, particle.thickness, false), ..c.drawable->0 }),
            ..c
        }
    } else {
        c
    }
}

pub fn explode_pass(rows: &mut Vec<Row>, deltatime: i64)
    ensures
        rows_mapped(old(rows)@, final(rows)@, |c: Components| particle_aged(c, deltatime)),
{
    reveal(rows_mapped);
    let n: usize = rows.len();
    let mut i: usize = 0;
    while i < n
        invariant
            i <= n,
            n == rows@.len(),
            n == old(rows)@.len(),
            forall|j: int|
                0 <= j < i ==> (#[trigger] rows@[j]).id == old(rows)@[j].id && rows@[j].c == particle_aged(
                    old(rows)@[j].c,
                    deltatime,
                ),
            forall|j: int| i <= j < n ==> rows@[j] == old(rows)@[j],
        decreases n - i,
    {
        let row = &mut rows[i];
        match (&row.c.transform, &mut row.c.motion, &mut row.c.explode, &mut row.c.drawable) {
            (Some(t), Some(motion), Some(particle), Some(drawable)) => {
                particle.timer_tween.update(deltatime);
                let share: i64 = particle.timer_tween.completion_ratio();
                let length: i64 = fx_lerp(particle.length, 0, share);
                let speed: i64 = fx_lerp(particle.speed, 0, share);
                motion.vel = Vec2::from_angle_flipped_y(t.dir_angle).scaled(speed);
                drawable.mesh =
                MeshType::LineWithThickness {
                    length,
                    thickness: particle.thickness,
                    smooth_edges: false,
                    centered: false,
                };
            },
            _ => {},
        }
        i = i + 1;
    }
}

/// The tick stamp at its current age: it flattens toward its upper edge.
pub open spec fn stamp_aged(c: Components, dt: i64) -> Components {
    if c.tick is Some && c.drawable is Some {
        let tick = TickEffect { timer_tween: c.tick->0.timer_tween.advanced(dt as int), ..c.tick->0 };
        let share = ease_spec(tick.timer_tween.ratio() as i64, EasingType::CubicInOut);
        Components {
            tick: Some(tick),
            drawable: Some(
                Drawable {
                    mesh: MeshType::Rectangle {
                        width: tick.width,
                        height: slerp(tick.height, 0, share),
                        filled: true,
                        centered: true,
                    },
                    pos_offset: Vec2 { x: 0, y: slerp(0, sneg(tdiv(tick.height as int, 2) as i64), share) },
                    ..c.drawable->0
                },
            ),
            ..c
        }
    } else {
        c
    }
}

pub fn tick_pass(rows: &mut Vec<Row>, deltatime: i64)
    ensures
        rows_mapped(old(rows)@, final(rows)@, |c: Components| stamp_aged(c, deltatime)),
{
    reveal(rows_mapped);
    let n: usize = rows.len();
    let mut i: usize = 0;
    while i < n
        invariant
            i <= n,
            n == rows@.len(),
            n == old(rows)@.len(),
            forall|j: int|
                0 <= j < i ==> (#[trigger] rows@[j]).id == old(rows)@[j].id && rows@[j].c == stamp_aged(
                    old(rows)@[j].c,
                    deltatime,
                ),
            forall|j: int| i <= j < n ==> rows@[j] == old(rows)@[j],
        decreases n - i,
    {
        let row = &mut rows[i];
        match (&mut row.c.tick, &mut row.c.drawable) {
            (Some(tick), Some(drawable)) => {
                tick.timer_tween.update(deltatime);
                let share: i64 = ease(tick.timer_tween.completion_ratio(), EasingType::CubicInOut);
                let height: i64 = fx_lerp(tick.height, 0, share);
                let offset_y: i64 = fx_lerp(0, fx_neg(tick.height / 2), share);
                drawable.mesh = MeshType::Rectangle { width: tick.width, height, filled: true, centered: true };
                drawable.pos_offset = Vec2::filled_y(offset_y);
            },
            _ => {},
        }
        i = i + 1;
    }
}

/// A record after its tweens have advanced: first the scale, then the
/// color.
pub open spec fn tweened(c: Components, dt: i64) -> Components {
    let scaled = if c.tween_scale is Some && c.drawable is Some {
        let tween = TweenScale { timer_tween: c.tween_scale->0.timer_tween.advanced(dt as int), ..c.tween_scale->0 };
        Components {
            tween_scale: Some(tween),
            drawable: Some(
                Drawable { scale: Vec2 { x: tween.scale_now(), y: tween.scale_now() }, ..c.drawable->0 },
            ),
            ..c
        }
    } else {
        c
    };
    if scaled.tween_color is Some && scaled.drawable is Some {
        let tween = TweenColor {
            timer_tween: scaled.tween_color->0.timer_tween.advanced(dt as int),
            ..scaled.tween_color->0
        };
        Components {
            tween_color: Some(tween),
            drawable: Some(Drawable { color: tween.color_now(), ..scaled.drawable->0 }),
            ..scaled
        }
    } else {
        scaled
    }
}

pub fn tween_pass(rows: &mut Vec<Row>, deltatime: i64)
    ensures
        rows_mapped(old(rows)@, final(rows)@, |c: Components| tweened(c, deltatime)),
{
    reveal(rows_mapped);
    let n: usize = rows.len();
    let mut i: usize = 0;
    while i < n
        invariant
            i <= n,
            n == rows@.len(),
            n == old(rows)@.len(),
            forall|j: int|
                0 <= j < i ==> (#[trigger] rows@[j]).id == old(rows)@[j].id && rows@[j].c == tweened(
                    old(rows)@[j].c,
                    deltatime,
                ),
            forall|j: int| i <= j < n ==> rows@[j] == old(rows)@[j],
        decreases n - i,
    {
        let row = &mut rows[i];
        match (&mut row.c.tween_scale, &mut row.c.drawable) {
            (Some(tween), Some(drawable)) => {
                tween.update(drawable, deltatime);
            },
            _ => {},
        }
        match (&mut row.c.tween_color, &mut row.c.drawable) {
            (Some(tween), Some(drawable)) => {
                tween.update(drawable, deltatime);
            },
            _ => {},
        }
        i = i + 1;
    }
}

/// A record after its blinker has advanced: the drawable shows while the
/// switch is on.
pub open spec fn blinked(c: Components, dt: i64) -> Components {
    if c.blinker is Some && c.drawable is Some {
        let blinker = c.blinker->0.stepped(dt as int);
        Components {
            blinker: Some(blinker),
            drawable: Some(Drawable { visible: blinker.state, ..c.drawable->0 }),
            ..c
        }
    } else {
        c
    }
}

pub fn blinker_pass(rows: &mut Vec<Row>, deltatime: i64)
    ensures
        rows_mapped(old(rows)@, final(rows)@, |c: Components| blinked(c, deltatime)),
{
    reveal(rows_mapped);
    let n: usize = rows.len();
    let mut i: usize = 0;
    while i < n
        invariant
            i <= n,
            n == rows@.len(),
            n == old(rows)@.len(),
            forall|j: int|
                0 <= j < i ==> (#[trigger] rows@[j]).id == old(rows)@[j].id && rows@[j].c == blinked(
                    old(rows)@[j].c,
                    deltatime,
                ),
            forall|j: int| i <= j < n ==> rows@[j] == old(rows)@[j],
        decreases n - i,
    {
        let row = &mut rows[i];
        match (&mut row.c.blinker, &mut row.c.drawable) {
            (Some(blinker), Some(drawable)) => {
                drawable.visible = blinker.update_and_check(deltatime);
            },
            _ => {},
        }
        i = i + 1;
    }
}

/// A charge spark after its update: its clock advances, and it keeps
/// track of the muzzle as long as the enemy exists.
pub open spec fn spark_aged(c: Components, facts: Seq<Fact>, dt: i64) -> Components {
    if c.charge is Some {
        let spark = c.charge->0;
        Components {
            charge: Some(
                EnemyChargeParticle {
                    timer: spark.timer.advanced(dt as int),
                    muzzle_pos: match pose_for(facts, spark.muzzle_entity) {
                        Some(pose) => pose.pos.plus_spec(spark.muzzle_pos_offset),
                        None => spark.muzzle_pos,
                    },
                    ..spark
                },
            ),
            ..c
        }
    } else {
        c
    }
}

/// Whether a spark reaches the end of its life with this update.
pub open spec fn spark_done(c: Components, dt: i64) -> bool {
    c.charge is Some && !c.charge->0.timer.finished() && c.charge->0.timer.advanced(dt as int).finished()
}

pub open spec fn spark_commands(rows: Seq<Row>, dt: i64) -> Seq<Command>
    decreases rows.len(),
{
    if rows.len() == 0 {
        Seq::empty()
    } else {
        spark_commands(rows.drop_last(), dt) + if spark_done(rows.last().c, dt) {
            seq![Command::Despawn(rows.last().id)]
        } else {
            Seq::empty()
        }
    }
}

/// Ages every charge spark and queues the despawn of those that are done.
pub fn charge_pass(rows: &mut Vec<Row>, facts: &Vec<Fact>, deltatime: i64, commands: &mut WorldCommandBuffer)
    ensures
        rows_mapped(old(rows)@, final(rows)@, |c: Components| spark_aged(c, facts@, deltatime)),
        final(commands)@ == old(commands)@ + spark_commands(old(rows)@, deltatime),
{
    reveal(rows_mapped);
    let n: usize = rows.len();
    let mut i: usize = 0;
    assert(old(rows)@.take(0) == Seq::<Row>::empty());
    while i < n
        invariant
            i <= n,
            n == rows@.len(),
            n == old(rows)@.len(),
            forall|j: int|
                0 <= j < i ==> (#[trigger] rows@[j]).id == old(rows)@[j].id && rows@[j].c == spark_aged(
                    old(rows)@[j].c,
                    facts@,
                    deltatime,
                ),
            forall|j: int| i <= j < n ==> rows@[j] == old(rows)@[j],
            commands@ == old(commands)@ + spark_commands(old(rows)@.take(i as int), deltatime),
        decreases n - i,
    {
        let row = &mut rows[i];
        let id: EntityId = row.id;
        let mut done: bool = false;
        match &mut row.c.charge {
            Some(spark) => {
                done = spark.timer.update_and_check_if_triggered(deltatime);
                match find_pose(facts, spark.muzzle_entity) {
                    Some(pose) => {
                        spark.muzzle_pos = pose.pos.plus(spark.muzzle_pos_offset);
                    },
                    None => {},
                }
            },
            None => {},
        }
        if done {
            commands.remove_entity(id);
        }
        proof {
            assert(old(rows)@.take(i as int + 1).drop_last() == old(rows)@.take(i as int));
            assert(commands@ =~= old(commands)@ + spark_commands(old(rows)@.take(i as int + 1), deltatime));
        }
        i = i + 1;
    }
    assert(old(rows)@.take(n as int) == old(rows)@);
}

/// Whether a projectile ends this frame: it has hit something or left the
/// canvas.
pub open spec fn projectile_ends(c: Components, ctx: StageCtx) -> bool {
    &&& c.transform is Some
    &&& c.projectile is Some
    &&& c.collider is Some
    &&& (c.collider->0.collisions@.len() > 0 || !canvas_of(ctx).contains_spec(c.transform->0.pos))
}

/// The burst that a projectile leaves where it ended, inside the canvas.
pub open spec fn is_impact(command: Command, pos: Vec2, ctx: StageCtx) -> bool {
    &&& command is Spawn
    &&& Archetypes::is_hit_effect(
        command->Spawn_0,
        canvas_of(ctx).clamped_spec(pos),
        7_000_000,
        7_000_000,
        0,
        color_neutral(),
        100_000,
        color_hp(),
        150_000,
        true,
    )
}

/// What the projectile pass queues for one row: the despawn and the burst
/// of a projectile that ends, nothing otherwise.
pub open spec fn projectile_part(part: Seq<Command>, row: Row, ctx: StageCtx) -> bool {
    if projectile_ends(row.c, ctx) {
        &&& part.len() == 2
        &&& part[0] == Command::Despawn(row.id)
        &&& is_impact(part[1], row.c.transform->0.pos, ctx)
    } else {
        part.len() == 0
    }
}

#[verifier::opaque]
pub open spec fn projectile_pass_done(rows: Seq<Row>, queue_before: Seq<Command>, queue_after: Seq<Command>, ctx: StageCtx) -> bool {
    exists|parts: Seq<Seq<Command>>|
        {
            &&& parts.len() == rows.len()
            &&& queue_after == queue_before + crate::commands::flat(parts)
            &&& forall|i: int| 0 <= i < rows.len() ==> projectile_part(#[trigger] parts[i], rows[i], ctx)
        }
}

/// Ends every projectile that has hit something or left the canvas.
pub fn projectile_pass(rows: &Vec<Row>, ctx: &StageCtx, commands: &mut WorldCommandBuffer)
    ensures
        projectile_pass_done(rows@, old(commands)@, final(commands)@, *ctx),
{
    reveal(projectile_pass_done);
    let canvas: Rect = Rect::from_width_height(ctx.canvas_width, ctx.canvas_height);
    let ghost mut parts: Seq<Seq<Command>> = Seq::empty();
    let mut i: usize = 0;
    assert(old(commands)@ + crate::commands::flat(parts) =~= old(commands)@);
    while i < rows.len()
        invariant
            i <= rows@.len(),
            canvas == canvas_of(*ctx),
            parts.len() == i,
            commands@ == old(commands)@ + crate::commands::flat(parts),
            forall|j: int| 0 <= j < i ==> projectile_part(#[trigger] parts[j], rows@[j], *ctx),
        decreases rows@.len() - i,
    {
        let ghost base = commands@;
        match (&rows[i].c.transform, &rows[i].c.projectile, &rows[i].c.collider) {
            (Some(t), Some(_), Some(collider)) => {
                if collider.collisions.len() > 0 || !canvas.contains_point(t.pos) {
                    commands.remove_entity(rows[i].id);
                    commands.add_entity(
                        Archetypes::new_hit_effect(
                            canvas.clamp_point(t.pos),
                            7_000_000,
                            7_000_000,
                            0,
                            color_neutral(),
                            100_000,
                            color_hp(),
                            150_000,
                            true,
                        ),
                    );
                }
            },
            _ => {},
        }
        proof {
            let part = commands@.skip(base.len() as int);
            assert(commands@ =~= base + part);
            crate::commands::lemma_flat_push(parts, part);
            parts = parts.push(part);
            assert(commands@ =~= old(commands)@ + crate::commands::flat(parts));
            if projectile_ends(rows@[i as int].c, *ctx) {
                assert(part[0] == commands@[base.len() as int]);
                assert(part[1] == commands@[base.len() as int + 1]);
            }
        }
        i = i + 1;
    }
}

/// The spark pass queues nothing but despawns.
pub proof fn lemma_sparks_are_harmless(flying: Set<crate::components::Components>, rows: Seq<Row>, dt: i64)
    ensures
        crate::commands::all_harmless_but(flying, spark_commands(rows, dt)),
    decreases rows.len(),
{
    if rows.len() > 0 {
        lemma_sparks_are_harmless(flying, rows.drop_last(), dt);
        let more = if spark_done(rows.last().c, dt) {
            seq![Command::Despawn(rows.last().id)]
        } else {
            Seq::empty()
        };
        crate::commands::lemma_joined_harmless(flying, spark_commands(rows.drop_last(), dt), more);
    }
}

/// The projectile pass queues despawns and bursts, nothing else.
pub proof fn lemma_projectiles_are_harmless(
    flying: Set<crate::components::Components>,
    rows: Seq<Row>,
    queue_before: Seq<Command>,
    queue_after: Seq<Command>,
    ctx: StageCtx,
)
    requires
        projectile_pass_done(rows, queue_before, queue_after, ctx),
        crate::commands::all_harmless_but(flying, queue_before),
    ensures
        crate::commands::all_harmless_but(flying, queue_after),
{
    reveal(projectile_pass_done);
    reveal(Archetypes::is_hit_effect);
    let parts = choose|parts: Seq<Seq<Command>>|
        {
            &&& parts.len() == rows.len()
            &&& queue_after == queue_before + crate::commands::flat(parts)
            &&& forall|i: int| 0 <= i < rows.len() ==> projectile_part(#[trigger] parts[i], rows[i], ctx)
        };
    assert forall|i: int| 0 <= i < parts.len() implies crate::commands::all_harmless_but(flying, #[trigger] parts[i]) by {
        assert(projectile_part(parts[i], rows[i], ctx));
    }
    crate::commands::lemma_flat_harmless(flying, parts);
    crate::commands::lemma_joined_harmless(flying, queue_before, crate::commands::flat(parts));
}

/// The spark pass despawns none but entities of its rows.
pub proof fn lemma_sparks_within(rows: Seq<Row>, dt: i64, ids: Set<u64>)
    requires
        forall|i: int| 0 <= i < rows.len() ==> ids.contains(#[trigger] rows[i].id),
    ensures
        crate::commands::despawns_within(spark_commands(rows, dt), ids),
    decreases rows.len(),
{
    if rows.len() > 0 {
        let head = rows.drop_last();
        assert forall|i: int| 0 <= i < head.len() implies ids.contains(#[trigger] head[i].id) by {
            assert(head[i] == rows[i]);
        }
        lemma_sparks_within(head, dt, ids);
        assert(ids.contains(rows[rows.len() - 1].id));
        let more = if spark_done(rows.last().c, dt) {
            seq![Command::Despawn(rows.last().id)]
        } else {
            Seq::empty()
        };
        crate::commands::lemma_joined_within(spark_commands(head, dt), more, ids);
    }
}

/// The projectile pass despawns none but entities of its rows.
pub proof fn lemma_projectiles_within(
    rows: Seq<Row>,
    queue_before: Seq<Command>,
    queue_after: Seq<Command>,
    ctx: StageCtx,
    ids: Set<u64>,
)
    requires
        projectile_pass_done(rows, queue_before, queue_after, ctx),
        crate::commands::despawns_within(queue_before, ids),
        forall|i: int| 0 <= i < rows.len() ==> ids.contains(#[trigger] rows[i].id),
    ensures
        crate::commands::despawns_within(queue_after, ids),
{
    reveal(projectile_pass_done);
    let parts = choose|parts: Seq<Seq<Command>>|
        {
            &&& parts.len() == rows.len()
            &&& queue_after == queue_before + crate::commands::flat(parts)
            &&& forall|i: int| 0 <= i < rows.len() ==> projectile_part(#[trigger] parts[i], rows[i], ctx)
        };
    assert forall|i: int| 0 <= i < parts.len() implies crate::commands::despawns_within(#[trigger] parts[i], ids) by {
        assert(projectile_part(parts[i], rows[i], ctx));
        assert(ids.contains(rows[i].id));
    }
    crate::commands::lemma_flat_within(parts, ids);
    crate::commands::lemma_joined_within(queue_before, crate::commands::flat(parts), ids);
}

} // verus!
