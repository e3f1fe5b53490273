//! One frame of simulation over a snapshot of the entities: the passes in
//! their fixed order, each working on what the one before it left.
use vstd::prelude::*;
use crate::census::{Fact, facts_of, take_census};
use crate::collision::{collision_pass, collisions_rebuilt};
use crate::commands::{Command, WorldCommandBuffer};
use crate::components::{Components, EntityId};
use crate::effects::{blinked, blinker_pass, charge_pass, explode_pass, particle_aged, projectile_pass,
    projectile_pass_done, spark_aged, spark_commands, stamp_aged, tick_pass, tween_pass, tweened};
use crate::enemy::{StageCtx, enemies_in_bounds, enemy_pass, enemy_pass_done, kills_score, lemma_same_enemies};
use crate::infotext::{FontMetrics, InfoText, closest_clear, label_rect};
use crate::labels::{collectible_pass, collectible_pass_done, infotext_pass, label_commands, label_rows,
    labels_match, place_label, showing_label_rects, showing_rects};
use crate::motion::{autoremove_pass, motion_applied, motion_pass, orphan_commands, snap_applied, snap_pass,
    steering_applied, steering_pass, sweep_commands, swept};
use crate::pilot::{PlayerOutcome, only_ship, pass_outcome, player_pass, player_pass_done, pools_in_bounds};
use crate::player::Keys;
use crate::random::Entropy;
use crate::store::{Row, rows_mapped};
use crate::vec2::{Rect, Vec2};

verus! {

/// The rows and the command queue as each of the passes before the spawns
/// left them.
pub struct EarlyTrace {
    pub swept: Seq<Row>,
    pub queue_swept: Seq<Command>,
    pub moved: Seq<Row>,
    pub snapped: Seq<Row>,
    pub collided: Seq<Row>,
}

/// The rows and the command queue as each of the passes after the spawns
/// left them.
pub struct LateTrace {
    pub fought: Seq<Row>,
    pub queue_fought: Seq<Command>,
    pub piloted: Seq<Row>,
    pub queue_piloted: Seq<Command>,
    pub aged: Seq<Row>,
    pub stamped: Seq<Row>,
    pub queue_projectiles: Seq<Command>,
    pub queue_collectibles: Seq<Command>,
    pub labels: Seq<InfoText>,
    pub tweened: Seq<Row>,
    pub blinked: Seq<Row>,
    pub labelled: Seq<Row>,
    pub queue_labelled: Seq<Command>,
    pub queue_sparked: Seq<Command>,
}

/// What a frame yields besides the new rows and the queue.
#[derive(Clone, Copy, Debug, PartialEq, Eq, Structural)]
pub struct FrameOutcome {
    /// Score for the enemies killed.
    pub kills: usize,
    /// Gains and damage of the player.
    pub player: PlayerOutcome,
}

/// The bounding boxes that the `k`-th new label has to keep clear of: those
/// of the labels that show, and those of the new labels placed before it.
pub open spec fn shown_before(labels: Seq<InfoText>, showing: Seq<Rect>, font: FontMetrics, k: nat) -> Seq<Rect>
    decreases k,
{
    if k == 0 {
        showing
    } else {
        let before = shown_before(labels, showing, font, (k - 1) as nat);
        let label = labels[k - 1];
        before.push(
            label_rect(
                closest_clear(label_rect(label.pos, label.text@.len() as int, font), before),
                label.text@.len() as int,
                font,
            ),
        )
    }
}

/// Where the `k`-th new label is placed.
pub open spec fn placed_at(labels: Seq<InfoText>, showing: Seq<Rect>, font: FontMetrics, k: nat) -> Vec2 {
    closest_clear(
        label_rect(labels[k as int].pos, labels[k as int].text@.len() as int, font),
        shown_before(labels, showing, font, k),
    )
}

/// The command spawns an entity that is nothing but `label`, moved to
/// `pos`.
pub open spec fn spawns_label(command: Command, label: InfoText, pos: Vec2) -> bool {
    &&& command is Spawn
    &&& command->Spawn_0.infotext is Some
    &&& (Components { infotext: None, ..command->Spawn_0 }) == Components::empty()
    &&& command->Spawn_0.infotext->0 == (InfoText { pos, ..label })
}

/// The commands spawn the labels, each moved clear of the labels that
/// show and of the new labels before it, as far as a clear place is found.
#[verifier::opaque]
pub open spec fn spawns_labels(part: Seq<Command>, labels: Seq<InfoText>, showing: Seq<Rect>, font: FontMetrics) -> bool {
    &&& part.len() == labels.len()
    &&& forall|k: int|
        0 <= k < labels.len() ==> spawns_label(
            #[trigger] part[k],
            labels[k],
            placed_at(labels, showing, font, k as nat),
        )
}

/// The passes that come before the spawns of a frame, in their order:
/// lifetimes, motion, snapping, collision, steering. Snapping reads the
/// poses as motion left them; steering reads them as the collision pass
/// left them.
pub open spec fn is_early_trace(
    trace: EarlyTrace,
    before: Seq<Row>,
    queue_before: Seq<Command>,
    after: Seq<Row>,
    queue_after: Seq<Command>,
    ctx: StageCtx,
) -> bool {
    let dt = ctx.deltatime;
    let poses = facts_of(trace.moved);
    let facts = facts_of(trace.collided);
    &&& rows_mapped(before, trace.swept, |c: Components| swept(c, dt))
    &&& trace.queue_swept == queue_before + sweep_commands(before, dt)
    &&& rows_mapped(trace.swept, trace.moved, |c: Components| motion_applied(c, dt))
    &&& rows_mapped(trace.moved, trace.snapped, |c: Components| snap_applied(c, poses))
    &&& queue_after == trace.queue_swept + orphan_commands(trace.moved, poses)
    &&& collisions_rebuilt(trace.snapped, trace.collided)
    &&& rows_mapped(trace.collided, after, |c: Components| steering_applied(c, facts))
}

/// The rows and the queue are what the passes before the spawns make of
/// them.
pub open spec fn early_simulated(
    before: Seq<Row>,
    queue_before: Seq<Command>,
    after: Seq<Row>,
    queue_after: Seq<Command>,
    ctx: StageCtx,
) -> bool {
    exists|trace: EarlyTrace| #[trigger] is_early_trace(trace, before, queue_before, after, queue_after, ctx)
}

/// The passes that come after the spawns of a frame, in their order:
/// enemies, player, particles, stamp, projectiles, collectibles, tweens,
/// blinking, labels, charge sparks, and the spawning of new labels. Passes
/// that look at other entities read them as they stood before the first of
/// these passes.
pub open spec fn is_late_trace(
    trace: LateTrace,
    before: Seq<Row>,
    queue_before: Seq<Command>,
    after: Seq<Row>,
    queue_after: Seq<Command>,
    outcome: FrameOutcome,
    keys: Keys,
    ctx: StageCtx,
    font: FontMetrics,
) -> bool {
    let dt = ctx.deltatime;
    let facts = facts_of(before);
    &&& enemy_pass_done(before, trace.fought, queue_before, trace.queue_fought, facts, ctx)
    &&& outcome.kills == kills_score(before, trace.fought)
    &&& player_pass_done(trace.fought, trace.piloted, trace.queue_fought, trace.queue_piloted, facts, keys, ctx)
    &&& outcome.player == pass_outcome(trace.fought, facts, keys, ctx)
    &&& rows_mapped(trace.piloted, trace.aged, |c: Components| particle_aged(c, dt))
    &&& rows_mapped(trace.aged, trace.stamped, |c: Components| stamp_aged(c, dt))
    &&& projectile_pass_done(trace.stamped, trace.queue_piloted, trace.queue_projectiles, ctx)
    &&& collectible_pass_done(trace.stamped, trace.queue_projectiles, trace.queue_collectibles, ctx)
    &&& labels_match(trace.labels, trace.stamped, ctx)
    &&& rows_mapped(trace.stamped, trace.tweened, |c: Components| tweened(c, dt))
    &&& rows_mapped(trace.tweened, trace.blinked, |c: Components| blinked(c, dt))
    &&& label_rows(trace.blinked, trace.labelled, dt)
    &&& trace.queue_labelled == trace.queue_collectibles + label_commands(trace.blinked, dt)
    &&& rows_mapped(trace.labelled, after, |c: Components| spark_aged(c, facts, dt))
    &&& trace.queue_sparked == trace.queue_labelled + spark_commands(trace.labelled, dt)
    &&& queue_after.len() == trace.queue_sparked.len() + trace.labels.len()
    &&& queue_after.take(trace.queue_sparked.len() as int) == trace.queue_sparked
    &&& spawns_labels(
        queue_after.skip(trace.queue_sparked.len() as int),
        trace.labels,
        showing_rects(after, font),
        font,
    )
}

/// The rows and the queue are what the passes after the spawns make of
/// them.
pub open spec fn late_simulated(
    before: Seq<Row>,
    queue_before: Seq<Command>,
    after: Seq<Row>,
    queue_after: Seq<Command>,
    outcome: FrameOutcome,
    keys: Keys,
    ctx: StageCtx,
    font: FontMetrics,
) -> bool {
    exists|trace: LateTrace| #[trigger]
        is_late_trace(trace, before, queue_before, after, queue_after, outcome, keys, ctx, font)
}

/// The spawning of labels brings no ship and no projectile into the game.
pub proof fn lemma_label_spawns_are_harmless(
    flying: Set<crate::components::Components>,
    part: Seq<Command>,
    labels: Seq<InfoText>,
    showing: Seq<Rect>,
    font: FontMetrics,
)
    requires
        spawns_labels(part, labels, showing, font),
    ensures
        crate::commands::all_harmless_but(flying, part),
{
    reveal(spawns_labels);
    assert forall|k: int| 0 <= k < part.len() implies crate::commands::harmless_but(flying, #[trigger] part[k]) by {
        assert(spawns_label(part[k], labels[k], placed_at(labels, showing, font, k as nat)));
        assert(part[k]->Spawn_0.player == Components::empty().player);
    }
}

/// Queues the spawning of the new labels, each moved clear of the labels
/// that show in this frame and of the new ones placed before it.
#[verifier::rlimit(50)]
pub fn spawn_labels(labels: Vec<InfoText>, rows: &Vec<Row>, font: &FontMetrics, commands: &mut WorldCommandBuffer)
    ensures
        final(commands)@.len() == old(commands)@.len() + labels@.len(),
        final(commands)@.take(old(commands)@.len() as int) == old(commands)@,
        spawns_labels(
            final(commands)@.skip(old(commands)@.len() as int),
            labels@,
            showing_rects(rows@, *font),
            *font,
        ),
{
    reveal(spawns_labels);
    let ghost base = commands@;
    let ghost all = labels@;
    let mut labels = labels;
    let mut showing: Vec<Rect> = showing_label_rects(rows, font);
    let ghost first = showing@;
    let n: usize = labels.len();
    let mut k: usize = 0;
    assert(commands@.take(base.len() as int) =~= base);
    while k < n
        invariant
            k <= n,
            n == all.len(),
            labels@.len() == n,
            forall|j: int| k <= j < n ==> labels@[j] == all[j],
            showing@ == shown_before(all, first, *font, k as nat),
            commands@.len() == base.len() + k,
            commands@.take(base.len() as int) == base,
            forall|j: int|
                0 <= j < k ==> spawns_label(
                    #[trigger] commands@[base.len() + j],
                    all[j],
                    placed_at(all, first, *font, j as nat),
                ),
        decreases n - k,
    {
        let ghost before = commands@;
        let mut label: InfoText = InfoText::blank();
        core::mem::swap(&mut labels[k], &mut label);
        assert(label == all[k as int]);
        place_label(&mut label, &showing, font);
        showing.push(crate::infotext::measure_label(label.pos, label.text.len(), font));
        let mut record: Components = Components::none();
        record.infotext = Some(label);
        commands.add_entity(record);
        proof {
            assert(commands@.take(base.len() as int) =~= before.take(base.len() as int));
            assert(spawns_label(commands@[base.len() + k], all[k as int], placed_at(all, first, *font, k as nat)));
            assert forall|j: int| 0 <= j < k + 1 implies spawns_label(
                #[trigger] commands@[base.len() + j],
                all[j],
                placed_at(all, first, *font, j as nat),
            ) by {
                if j < k {
                    assert(commands@[base.len() + j] == before[base.len() + j]);
                }
            }
        }
        k = k + 1;
    }
    proof {
        let part = commands@.skip(base.len() as int);
        assert forall|j: int| 0 <= j < all.len() implies spawns_label(
            #[trigger] part[j],
            all[j],
            placed_at(all, first, *font, j as nat),
        ) by {
            assert(part[j] == commands@[base.len() + j]);
        }
    }
}

/// A pass that changes records without touching the player component
/// leaves every pool as it was.
pub proof fn lemma_mapped_keeps_pools(before: Seq<Row>, after: Seq<Row>, step: spec_fn(Components) -> Components)
    requires
        rows_mapped(before, after, step),
        forall|c: Components| (#[trigger] step(c)).player == c.player,
    ensures
        pools_in_bounds(before) ==> pools_in_bounds(after),
        forall|ship: EntityId| only_ship(before, ship) ==> #[trigger] only_ship(after, ship),
{
    reveal(rows_mapped);
    assert forall|i: int| 0 <= i < after.len() implies (#[trigger] after[i]).c.player == before[i].c.player
        && after[i].id == before[i].id by {
        assert(after[i].c == step(before[i].c));
    }
    lemma_same_ships(before, after);
}

/// Rows with the same identities and player components are alike in what
/// holds of their ships.
pub proof fn lemma_same_ships(before: Seq<Row>, after: Seq<Row>)
    requires
        after.len() == before.len(),
        forall|i: int|
            0 <= i < after.len() ==> (#[trigger] after[i]).c.player == before[i].c.player && after[i].id
                == before[i].id,
    ensures
        pools_in_bounds(before) ==> pools_in_bounds(after),
        forall|ship: EntityId| only_ship(before, ship) ==> #[trigger] only_ship(after, ship),
{
    if pools_in_bounds(before) {
        assert forall|i: int| 0 <= i < after.len() && (#[trigger] after[i]).c.player is Some implies after[i].c.player->0.pools_in_bounds() by {
            assert(before[i].c.player == after[i].c.player);
        }
    }
    assert forall|ship: EntityId| only_ship(before, ship) implies #[trigger] only_ship(after, ship) by {
        assert forall|i: int| 0 <= i < after.len() && (#[trigger] after[i]).c.player is Some implies after[i].id
            == ship by {
            assert(before[i].c.player == after[i].c.player);
        }
    }
}

/// A pass that changes records without touching the enemy component
/// leaves the hit points of every enemy as they were.
pub proof fn lemma_mapped_keeps_enemies(before: Seq<Row>, after: Seq<Row>, step: spec_fn(Components) -> Components)
    requires
        rows_mapped(before, after, step),
        forall|c: Components| (#[trigger] step(c)).enemy == c.enemy,
    ensures
        enemies_in_bounds(before) ==> enemies_in_bounds(after),
{
    reveal(rows_mapped);
    assert forall|i: int| 0 <= i < after.len() implies (#[trigger] after[i]).c.enemy == before[i].c.enemy by {
        assert(after[i].c == step(before[i].c));
    }
    lemma_same_enemies(before, after);
}

pub proof fn lemma_collision_keeps_enemies(before: Seq<Row>, after: Seq<Row>)
    requires
        collisions_rebuilt(before, after),
    ensures
        enemies_in_bounds(before) ==> enemies_in_bounds(after),
{
    reveal(collisions_rebuilt);
    assert forall|i: int| 0 <= i < after.len() implies (#[trigger] after[i]).c.enemy == before[i].c.enemy by {
        assert(crate::collision::same_but_collisions(before[i].c, after[i].c));
    }
    lemma_same_enemies(before, after);
}

pub proof fn lemma_labels_keep_enemies(before: Seq<Row>, after: Seq<Row>, dt: i64)
    requires
        label_rows(before, after, dt),
    ensures
        enemies_in_bounds(before) ==> enemies_in_bounds(after),
{
    reveal(label_rows);
    assert forall|i: int| 0 <= i < after.len() implies (#[trigger] after[i]).c.enemy == before[i].c.enemy by {
        assert(crate::labels::label_row(before[i], after[i], dt));
    }
    lemma_same_enemies(before, after);
}

pub proof fn lemma_collision_keeps_pools(before: Seq<Row>, after: Seq<Row>)
    requires
        collisions_rebuilt(before, after),
    ensures
        pools_in_bounds(before) ==> pools_in_bounds(after),
        forall|ship: EntityId| only_ship(before, ship) ==> #[trigger] only_ship(after, ship),
{
    reveal(collisions_rebuilt);
    assert forall|i: int| 0 <= i < after.len() implies (#[trigger] after[i]).c.player == before[i].c.player
        && after[i].id == before[i].id by {
        assert(crate::collision::same_but_collisions(before[i].c, after[i].c));
    }
    lemma_same_ships(before, after);
}

pub proof fn lemma_enemies_keep_pools(
    before: Seq<Row>,
    after: Seq<Row>,
    queue_before: Seq<Command>,
    queue_after: Seq<Command>,
    facts: Seq<Fact>,
    ctx: StageCtx,
)
    requires
        enemy_pass_done(before, after, queue_before, queue_after, facts, ctx),
    ensures
        pools_in_bounds(before) ==> pools_in_bounds(after),
        forall|ship: EntityId| only_ship(before, ship) ==> #[trigger] only_ship(after, ship),
{
    reveal(enemy_pass_done);
    let parts = choose|parts: Seq<Seq<Command>>|
        {
            &&& parts.len() == before.len()
            &&& after.len() == before.len()
            &&& queue_after == queue_before + crate::commands::flat(parts)
            &&& forall|i: int|
                0 <= i < before.len() ==> crate::enemy::enemy_row(before[i], after[i], #[trigger] parts[i], facts, ctx)
        };
    assert forall|i: int| 0 <= i < after.len() implies (#[trigger] after[i]).c.player == before[i].c.player
        && after[i].id == before[i].id by {
        assert(crate::enemy::enemy_row(before[i], after[i], parts[i], facts, ctx));
    }
    lemma_same_ships(before, after);
}

pub proof fn lemma_labels_keep_pools(before: Seq<Row>, after: Seq<Row>, dt: i64)
    requires
        label_rows(before, after, dt),
    ensures
        pools_in_bounds(before) ==> pools_in_bounds(after),
        forall|ship: EntityId| only_ship(before, ship) ==> #[trigger] only_ship(after, ship),
{
    reveal(label_rows);
    assert forall|i: int| 0 <= i < after.len() implies (#[trigger] after[i]).c.player == before[i].c.player
        && after[i].id == before[i].id by {
        assert(crate::labels::label_row(before[i], after[i], dt));
    }
    lemma_same_ships(before, after);
}

/// Runs the passes that come before the spawns of a frame. Structural
/// changes are queued, not made. Pools and hit points that were within
/// their bounds stay within them.
#[verifier::rlimit(50)]
pub fn run_early_passes(rows: &mut Vec<Row>, commands: &mut WorldCommandBuffer, ctx: &StageCtx)
    ensures
        early_simulated(old(rows)@, old(commands)@, final(rows)@, final(commands)@, *ctx),
        pools_in_bounds(old(rows)@) ==> pools_in_bounds(final(rows)@),
        enemies_in_bounds(old(rows)@) ==> enemies_in_bounds(final(rows)@),
        only_ship(old(rows)@, ctx.player) ==> only_ship(final(rows)@, ctx.player),
        crate::commands::all_harmless(old(commands)@) ==> crate::commands::all_harmless(final(commands)@),
{
    let dt: i64 = ctx.deltatime;
    autoremove_pass(rows, commands, dt);
    let ghost swept_rows = rows@;
    let ghost queue_swept = commands@;
    motion_pass(rows, dt);
    let ghost moved = rows@;
    let poses: Vec<Fact> = take_census(rows);
    snap_pass(rows, &poses, commands);
    let ghost snapped = rows@;
    collision_pass(rows);
    let ghost collided = rows@;
    let facts: Vec<Fact> = take_census(rows);
    steering_pass(rows, &facts);
    proof {
        lemma_mapped_keeps_pools(old(rows)@, swept_rows, |c: Components| swept(c, dt));
        lemma_mapped_keeps_pools(swept_rows, moved, |c: Components| motion_applied(c, dt));
        lemma_mapped_keeps_pools(moved, snapped, |c: Components| snap_applied(c, facts_of(moved)));
        lemma_collision_keeps_pools(snapped, collided);
        lemma_mapped_keeps_pools(collided, rows@, |c: Components| steering_applied(c, facts_of(collided)));
        lemma_mapped_keeps_enemies(old(rows)@, swept_rows, |c: Components| swept(c, dt));
        lemma_mapped_keeps_enemies(swept_rows, moved, |c: Components| motion_applied(c, dt));
        lemma_mapped_keeps_enemies(moved, snapped, |c: Components| snap_applied(c, facts_of(moved)));
        lemma_collision_keeps_enemies(snapped, collided);
        lemma_mapped_keeps_enemies(collided, rows@, |c: Components| steering_applied(c, facts_of(collided)));
        if crate::commands::all_harmless(old(commands)@) {
            crate::motion::lemma_sweep_is_harmless(Set::full(), old(rows)@, dt);
            crate::commands::lemma_joined_harmless(Set::full(), old(commands)@, sweep_commands(old(rows)@, dt));
            crate::motion::lemma_orphans_are_harmless(Set::full(), moved, facts_of(moved));
            crate::commands::lemma_joined_harmless(Set::full(), queue_swept, orphan_commands(moved, facts_of(moved)));
        }
        let trace = EarlyTrace { swept: swept_rows, queue_swept, moved, snapped, collided };
        assert(is_early_trace(trace, old(rows)@, old(commands)@, rows@, commands@, *ctx));
    }
}

/// Runs the passes that come after the spawns of a frame. Structural
/// changes are queued, not made. Pools and hit points that were within
/// their bounds stay within them.
#[verifier::rlimit(50)]
pub fn run_late_passes(
    rows: &mut Vec<Row>,
    commands: &mut WorldCommandBuffer,
    keys: &Keys,
    ctx: &StageCtx,
    font: &FontMetrics,
    entropy: &mut Entropy,
) -> (outcome: FrameOutcome)
    ensures
        late_simulated(old(rows)@, old(commands)@, final(rows)@, final(commands)@, outcome, *keys, *ctx, *font),
        pools_in_bounds(old(rows)@) ==> pools_in_bounds(final(rows)@),
        enemies_in_bounds(old(rows)@) ==> enemies_in_bounds(final(rows)@),
        only_ship(old(rows)@, ctx.player) ==> only_ship(final(rows)@, ctx.player),
        crate::commands::all_harmless(old(commands)@) ==> crate::commands::all_harmless(final(commands)@),
{
    let dt: i64 = ctx.deltatime;
    let facts: Vec<Fact> = take_census(rows);
    let kills: usize = enemy_pass(rows, &facts, ctx, entropy, commands);
    let ghost fought = rows@;
    let ghost queue_fought = commands@;
    let player: PlayerOutcome = player_pass(rows, &facts, keys, ctx, entropy, commands);
    let ghost piloted = rows@;
    let ghost queue_piloted = commands@;
    explode_pass(rows, dt);
    let ghost aged = rows@;
    tick_pass(rows, dt);
    let ghost stamped = rows@;
    projectile_pass(rows, ctx, commands);
    let ghost queue_projectiles = commands@;
    let labels: Vec<InfoText> = collectible_pass(rows, ctx, entropy, commands);
    let ghost queue_collectibles = commands@;
    tween_pass(rows, dt);
    let ghost tweened_rows = rows@;
    blinker_pass(rows, dt);
    let ghost blinked_rows = rows@;
    infotext_pass(rows, entropy, dt, commands);
    let ghost labelled = rows@;
    let ghost queue_labelled = commands@;
    charge_pass(rows, &facts, dt, commands);
    let ghost queue_sparked = commands@;
    let ghost label_seq = labels@;
    spawn_labels(labels, rows, font, commands);
    let outcome: FrameOutcome = FrameOutcome { kills, player };
    proof {
        let facts_seen = facts_of(old(rows)@);
        lemma_enemies_keep_pools(old(rows)@, fought, old(commands)@, queue_fought, facts_seen, *ctx);
        if only_ship(old(rows)@, ctx.player) {
            crate::pilot::lemma_player_pass_keeps_ship(
                fought,
                piloted,
                queue_fought,
                queue_piloted,
                facts_seen,
                *keys,
                *ctx,
                ctx.player,
            );
        }
        lemma_mapped_keeps_pools(piloted, aged, |c: Components| particle_aged(c, dt));
        lemma_mapped_keeps_pools(aged, stamped, |c: Components| stamp_aged(c, dt));
        lemma_mapped_keeps_pools(stamped, tweened_rows, |c: Components| tweened(c, dt));
        lemma_mapped_keeps_pools(tweened_rows, blinked_rows, |c: Components| blinked(c, dt));
        lemma_labels_keep_pools(blinked_rows, labelled, dt);
        lemma_mapped_keeps_pools(labelled, rows@, |c: Components| spark_aged(c, facts_seen, dt));
        if enemies_in_bounds(old(rows)@) {
            crate::enemy::lemma_enemy_pass_keeps_bounds(old(rows)@, fought, old(commands)@, queue_fought, facts_seen, *ctx);
            crate::pilot::lemma_player_pass_keeps_enemies(
                fought,
                piloted,
                queue_fought,
                queue_piloted,
                facts_seen,
                *keys,
                *ctx,
            );
            lemma_same_enemies(fought, piloted);
            lemma_mapped_keeps_enemies(piloted, aged, |c: Components| particle_aged(c, dt));
            lemma_mapped_keeps_enemies(aged, stamped, |c: Components| stamp_aged(c, dt));
            lemma_mapped_keeps_enemies(stamped, tweened_rows, |c: Components| tweened(c, dt));
            lemma_mapped_keeps_enemies(tweened_rows, blinked_rows, |c: Components| blinked(c, dt));
            lemma_labels_keep_enemies(blinked_rows, labelled, dt);
            lemma_mapped_keeps_enemies(labelled, rows@, |c: Components| spark_aged(c, facts_seen, dt));
        }
        if crate::commands::all_harmless(old(commands)@) {
            crate::enemy::lemma_enemy_pass_is_harmless(
                Set::full(),
                old(rows)@,
                fought,
                old(commands)@,
                queue_fought,
                facts_seen,
                *ctx,
            );
            crate::pilot::lemma_player_pass_is_harmless(
                Set::full(),
                fought,
                piloted,
                queue_fought,
                queue_piloted,
                facts_seen,
                *keys,
                *ctx,
            );
            crate::effects::lemma_projectiles_are_harmless(
                Set::full(),
                stamped,
                queue_piloted,
                queue_projectiles,
                *ctx,
            );
            crate::labels::lemma_collectibles_are_harmless(
                Set::full(),
                stamped,
                queue_projectiles,
                queue_collectibles,
                *ctx,
            );
            crate::labels::lemma_labels_are_harmless(Set::full(), blinked_rows, dt);
            crate::commands::lemma_joined_harmless(Set::full(), queue_collectibles, label_commands(blinked_rows, dt));
            crate::effects::lemma_sparks_are_harmless(Set::full(), labelled, dt);
            crate::commands::lemma_joined_harmless(Set::full(), queue_labelled, spark_commands(labelled, dt));
            let tail = commands@.skip(queue_sparked.len() as int);
            lemma_label_spawns_are_harmless(Set::full(), tail, label_seq, showing_rects(rows@, *font), *font);
            assert(commands@ =~= queue_sparked + tail);
            crate::commands::lemma_joined_harmless(Set::full(), queue_sparked, tail);
        }
        let trace = LateTrace {
            fought,
            queue_fought,
            piloted,
            queue_piloted,
            aged,
            stamped,
            queue_projectiles,
            queue_collectibles,
            labels: label_seq,
            tweened: tweened_rows,
            blinked: blinked_rows,
            labelled,
            queue_labelled,
            queue_sparked,
        };
        assert(is_late_trace(trace, old(rows)@, old(commands)@, rows@, commands@, outcome, *keys, *ctx, *font));
    }
    outcome
}

/// A ship that stands outside the canvas when the passes after the spawns
/// begin is destroyed by them, whatever it touches: they queue its
/// despawn.
pub proof fn lemma_ship_outside_is_despawned(
    before: Seq<Row>,
    queue_before: Seq<Command>,
    after: Seq<Row>,
    queue_after: Seq<Command>,
    outcome: FrameOutcome,
    keys: Keys,
    ctx: StageCtx,
    font: FontMetrics,
    i: int,
)
    requires
        late_simulated(before, queue_before, after, queue_after, outcome, keys, ctx, font),
        0 <= i < before.len(),
        crate::pilot::is_player_row(before[i].c),
        !crate::pilot::canvas_of(ctx).contains_spec(before[i].c.transform->0.pos),
        crate::player::none_heals(before[i].c.collider->0.collisions@, facts_of(before)),
        before[i].c.player->0.pools_in_bounds(),
        before[i].c.player->0.hp_max > 0,
    ensures
        queue_after.contains(Command::Despawn(before[i].id)),
{
    let trace = choose|trace: LateTrace| #[trigger]
        is_late_trace(trace, before, queue_before, after, queue_after, outcome, keys, ctx, font);
    let facts = facts_of(before);
    let gone = Command::Despawn(before[i].id);
    assert(trace.fought.len() == before.len() && trace.fought[i].id == before[i].id
        && crate::pilot::is_player_row(trace.fought[i].c) && trace.fought[i].c.player == before[i].c.player
        && trace.fought[i].c.transform == before[i].c.transform && trace.fought[i].c.collider
        == before[i].c.collider) by {
        reveal(enemy_pass_done);
        let parts = choose|parts: Seq<Seq<Command>>|
            {
                &&& parts.len() == before.len()
                &&& trace.fought.len() == before.len()
                &&& trace.queue_fought == queue_before + crate::commands::flat(parts)
                &&& forall|k: int|
                    0 <= k < before.len() ==> crate::enemy::enemy_row(
                        before[k],
                        trace.fought[k],
                        #[trigger] parts[k],
                        facts,
                        ctx,
                    )
            };
        assert(crate::enemy::enemy_row(before[i], trace.fought[i], parts[i], facts, ctx));
    }
    crate::pilot::lemma_outside_is_fatal(
        before[i].c.player->0,
        before[i].c.transform->0,
        before[i].c.collider->0.collisions@,
        facts,
        keys,
        ctx,
    );
    crate::pilot::lemma_pass_queues_despawn(
        trace.fought,
        trace.piloted,
        trace.queue_fought,
        trace.queue_piloted,
        facts,
        keys,
        ctx,
        i,
    );
    assert(trace.queue_projectiles.contains(gone)) by {
        reveal(projectile_pass_done);
        let parts = choose|parts: Seq<Seq<Command>>|
            {
                &&& parts.len() == trace.stamped.len()
                &&& trace.queue_projectiles == trace.queue_piloted + crate::commands::flat(parts)
                &&& forall|k: int|
                    0 <= k < trace.stamped.len() ==> crate::effects::projectile_part(
                        #[trigger] parts[k],
                        trace.stamped[k],
                        ctx,
                    )
            };
        crate::commands::lemma_stays_queued(trace.queue_piloted, crate::commands::flat(parts), gone);
    }
    assert(trace.queue_collectibles.contains(gone)) by {
        reveal(collectible_pass_done);
        let parts = choose|parts: Seq<Seq<Command>>|
            {
                &&& parts.len() == trace.stamped.len()
                &&& trace.queue_collectibles == trace.queue_projectiles + crate::commands::flat(parts)
                &&& forall|k: int|
                    0 <= k < trace.stamped.len() ==> crate::pickups::is_collectible_part(
                        #[trigger] parts[k],
                        trace.stamped[k],
                        ctx,
                    )
            };
        crate::commands::lemma_stays_queued(trace.queue_projectiles, crate::commands::flat(parts), gone);
    }
    crate::commands::lemma_stays_queued(
        trace.queue_collectibles,
        label_commands(trace.blinked, ctx.deltatime),
        gone,
    );
    crate::commands::lemma_stays_queued(
        trace.queue_labelled,
        spark_commands(trace.labelled, ctx.deltatime),
        gone,
    );
    let k = choose|k: int| 0 <= k < trace.queue_sparked.len() && trace.queue_sparked[k] == gone;
    assert(queue_after.take(trace.queue_sparked.len() as int)[k] == queue_after[k]);
}

/// The second record is the same collectible as the first, touching the
/// same entities.
pub open spec fn same_pickup(a: Components, b: Components) -> bool {
    &&& b.collider == a.collider
    &&& b.collectible == a.collectible
    &&& (b.transform is Some) == (a.transform is Some)
    &&& (b.motion is Some) == (a.motion is Some)
}

/// A pass that changes records without touching collider and collectible
/// leaves every collectible what it was.
pub proof fn lemma_mapped_keeps_pickup(
    before: Seq<Row>,
    after: Seq<Row>,
    step: spec_fn(Components) -> Components,
    i: int,
)
    requires
        rows_mapped(before, after, step),
        forall|c: Components| same_pickup(c, #[trigger] step(c)),
        0 <= i < before.len(),
    ensures
        after.len() == before.len(),
        after[i].id == before[i].id,
        same_pickup(before[i].c, after[i].c),
{
    reveal(rows_mapped);
    assert(after[i].c == step(before[i].c));
}

/// A collectible that something touches when the passes after the spawns
/// begin is taken out of the game by them: they queue its despawn.
pub proof fn lemma_touched_collectible_is_despawned(
    before: Seq<Row>,
    queue_before: Seq<Command>,
    after: Seq<Row>,
    queue_after: Seq<Command>,
    outcome: FrameOutcome,
    keys: Keys,
    ctx: StageCtx,
    font: FontMetrics,
    i: int,
)
    requires
        late_simulated(before, queue_before, after, queue_after, outcome, keys, ctx, font),
        0 <= i < before.len(),
        crate::pickups::is_collectible_row(before[i].c),
        crate::pickups::collected(before[i].c),
    ensures
        queue_after.contains(Command::Despawn(before[i].id)),
{
    let trace = choose|trace: LateTrace| #[trigger]
        is_late_trace(trace, before, queue_before, after, queue_after, outcome, keys, ctx, font);
    let facts = facts_of(before);
    let dt = ctx.deltatime;
    let gone = Command::Despawn(before[i].id);
    assert(trace.fought.len() == before.len() && trace.fought[i].id == before[i].id && same_pickup(
        before[i].c,
        trace.fought[i].c,
    )) by {
        reveal(enemy_pass_done);
        let parts = choose|parts: Seq<Seq<Command>>|
            {
                &&& parts.len() == before.len()
                &&& trace.fought.len() == before.len()
                &&& trace.queue_fought == queue_before + crate::commands::flat(parts)
                &&& forall|k: int|
                    0 <= k < before.len() ==> crate::enemy::enemy_row(
                        before[k],
                        trace.fought[k],
                        #[trigger] parts[k],
                        facts,
                        ctx,
                    )
            };
        assert(crate::enemy::enemy_row(before[i], trace.fought[i], parts[i], facts, ctx));
    }
    assert(trace.piloted.len() == before.len() && trace.piloted[i].id == before[i].id && same_pickup(
        trace.fought[i].c,
        trace.piloted[i].c,
    )) by {
        reveal(player_pass_done);
        let parts = choose|parts: Seq<Seq<Command>>|
            {
                &&& parts.len() == trace.fought.len()
                &&& trace.piloted.len() == trace.fought.len()
                &&& trace.queue_piloted == trace.queue_fought + crate::commands::flat(parts)
                &&& forall|k: int|
                    0 <= k < trace.fought.len() ==> crate::pilot::player_row(
                        trace.fought[k],
                        trace.piloted[k],
                        #[trigger] parts[k],
                        facts,
                        keys,
                        ctx,
                    )
            };
        assert(crate::pilot::player_row(trace.fought[i], trace.piloted[i], parts[i], facts, keys, ctx));
    }
    lemma_mapped_keeps_pickup(trace.piloted, trace.aged, |c: Components| particle_aged(c, dt), i);
    lemma_mapped_keeps_pickup(trace.aged, trace.stamped, |c: Components| stamp_aged(c, dt), i);
    let row = trace.stamped[i];
    assert(crate::pickups::gone(row.c, ctx));
    assert(trace.queue_collectibles.contains(gone)) by {
        reveal(collectible_pass_done);
        reveal(crate::pickups::is_collectible_part);
        let parts = choose|parts: Seq<Seq<Command>>|
            {
                &&& parts.len() == trace.stamped.len()
                &&& trace.queue_collectibles == trace.queue_projectiles + crate::commands::flat(parts)
                &&& forall|k: int|
                    0 <= k < trace.stamped.len() ==> crate::pickups::is_collectible_part(
                        #[trigger] parts[k],
                        trace.stamped[k],
                        ctx,
                    )
            };
        assert(crate::pickups::is_collectible_part(parts[i], row, ctx));
        assert(parts[i][0] == gone);
        crate::commands::lemma_flat_contains(parts, i, gone);
        crate::commands::lemma_joins_queue(trace.queue_projectiles, crate::commands::flat(parts), gone);
    }
    crate::commands::lemma_stays_queued(trace.queue_collectibles, label_commands(trace.blinked, dt), gone);
    crate::commands::lemma_stays_queued(trace.queue_labelled, spark_commands(trace.labelled, dt), gone);
    let k = choose|k: int| 0 <= k < trace.queue_sparked.len() && trace.queue_sparked[k] == gone;
    assert(queue_after.take(trace.queue_sparked.len() as int)[k] == queue_after[k]);
}

/// The rows stand for the same entities, in the same order.
pub open spec fn same_ids(before: Seq<Row>, after: Seq<Row>) -> bool {
    &&& after.len() == before.len()
    &&& forall|i: int| 0 <= i < before.len() ==> (#[trigger] after[i]).id == before[i].id
}

/// The rows stand for the same entities, and every record has the player
/// and the projectile component that it had.
pub open spec fn same_pilots(before: Seq<Row>, after: Seq<Row>) -> bool {
    &&& after.len() == before.len()
    &&& forall|i: int|
        0 <= i < before.len() ==> (#[trigger] after[i]).id == before[i].id && after[i].c.player == before[i].c.player
            && after[i].c.projectile == before[i].c.projectile
}

/// A pass that changes records without touching the player and the
/// projectile component keeps identities and these components.
pub proof fn lemma_mapped_same_pilots(before: Seq<Row>, after: Seq<Row>, step: spec_fn(Components) -> Components)
    requires
        rows_mapped(before, after, step),
        forall|c: Components| (#[trigger] step(c)).player == c.player && step(c).projectile == c.projectile,
    ensures
        same_pilots(before, after),
{
    reveal(rows_mapped);
    assert forall|i: int| 0 <= i < before.len() implies (#[trigger] after[i]).id == before[i].id
        && after[i].c.player == before[i].c.player && after[i].c.projectile == before[i].c.projectile by {
        assert(after[i].c == step(before[i].c));
    }
}

/// The passes before the spawns keep the identities of the rows and
/// touch no player component.
pub proof fn lemma_early_keeps_ids(
    before: Seq<Row>,
    queue_before: Seq<Command>,
    after: Seq<Row>,
    queue_after: Seq<Command>,
    ctx: StageCtx,
)
    requires
        early_simulated(before, queue_before, after, queue_after, ctx),
    ensures
        same_ids(before, after),
        same_pilots(before, after),
{
    let trace = choose|trace: EarlyTrace| #[trigger]
        is_early_trace(trace, before, queue_before, after, queue_after, ctx);
    let dt = ctx.deltatime;
    lemma_mapped_same_pilots(before, trace.swept, |c: Components| swept(c, dt));
    lemma_mapped_same_pilots(trace.swept, trace.moved, |c: Components| motion_applied(c, dt));
    lemma_mapped_same_pilots(trace.moved, trace.snapped, |c: Components| snap_applied(c, facts_of(trace.moved)));
    assert(same_pilots(trace.snapped, trace.collided)) by {
        reveal(collisions_rebuilt);
        assert forall|i: int| 0 <= i < trace.snapped.len() implies (#[trigger] trace.collided[i]).id
            == trace.snapped[i].id && trace.collided[i].c.player == trace.snapped[i].c.player
            && trace.collided[i].c.projectile == trace.snapped[i].c.projectile by {
            assert(crate::collision::same_but_collisions(trace.snapped[i].c, trace.collided[i].c));
        }
    }
    lemma_mapped_same_pilots(
        trace.collided,
        after,
        |c: Components| steering_applied(c, facts_of(trace.collided)),
    );
    assert forall|i: int| 0 <= i < before.len() implies (#[trigger] after[i]).id == before[i].id && after[i].c.player
        == before[i].c.player && after[i].c.projectile == before[i].c.projectile by {
        assert(trace.swept[i].id == before[i].id && trace.swept[i].c.player == before[i].c.player);
        assert(trace.moved[i].id == trace.swept[i].id && trace.moved[i].c.player == trace.swept[i].c.player);
        assert(trace.snapped[i].id == trace.moved[i].id && trace.snapped[i].c.player == trace.moved[i].c.player);
        assert(trace.collided[i].id == trace.snapped[i].id && trace.collided[i].c.player
            == trace.snapped[i].c.player);
        assert(after[i].id == trace.collided[i].id && after[i].c.player == trace.collided[i].c.player);
    }
}

/// What the passes after the spawns make of the ships: they keep the
/// identities of the rows, the player pass updates every ship as
/// `player_next` says, and no other pass touches a player component. None
/// touches a projectile component.
pub proof fn lemma_late_updates_ships(
    before: Seq<Row>,
    queue_before: Seq<Command>,
    after: Seq<Row>,
    queue_after: Seq<Command>,
    outcome: FrameOutcome,
    keys: Keys,
    ctx: StageCtx,
    font: FontMetrics,
)
    requires
        late_simulated(before, queue_before, after, queue_after, outcome, keys, ctx, font),
    ensures
        same_ids(before, after),
        forall|i: int| 0 <= i < before.len() ==> (#[trigger] after[i]).c.projectile == before[i].c.projectile,
        forall|i: int|
            0 <= i < before.len() ==> (#[trigger] after[i]).c.player == (if crate::pilot::is_player_row(before[i].c) {
                Some(
                    crate::pilot::player_next(
                        before[i].c.player->0,
                        before[i].c.transform->0,
                        before[i].c.collider->0.collisions@,
                        facts_of(before),
                        keys,
                        ctx,
                    ),
                )
            } else {
                before[i].c.player
            }),
{
    let trace = choose|trace: LateTrace| #[trigger]
        is_late_trace(trace, before, queue_before, after, queue_after, outcome, keys, ctx, font);
    let dt = ctx.deltatime;
    let facts = facts_of(before);
    assert(trace.fought.len() == before.len() && forall|i: int|
        0 <= i < before.len() ==> {
            &&& (#[trigger] trace.fought[i]).id == before[i].id
            &&& trace.fought[i].c.player == before[i].c.player
            &&& trace.fought[i].c.projectile == before[i].c.projectile
            &&& trace.fought[i].c.transform == before[i].c.transform
            &&& trace.fought[i].c.collider == before[i].c.collider
            &&& crate::pilot::is_player_row(trace.fought[i].c) == crate::pilot::is_player_row(before[i].c)
        }) by {
        reveal(enemy_pass_done);
        let parts = choose|parts: Seq<Seq<Command>>|
            {
                &&& parts.len() == before.len()
                &&& trace.fought.len() == before.len()
                &&& trace.queue_fought == queue_before + crate::commands::flat(parts)
                &&& forall|k: int|
                    0 <= k < before.len() ==> crate::enemy::enemy_row(
                        before[k],
                        trace.fought[k],
                        #[trigger] parts[k],
                        facts,
                        ctx,
                    )
            };
        assert forall|i: int| 0 <= i < before.len() implies {
            &&& (#[trigger] trace.fought[i]).id == before[i].id
            &&& trace.fought[i].c.player == before[i].c.player
            &&& trace.fought[i].c.projectile == before[i].c.projectile
            &&& trace.fought[i].c.transform == before[i].c.transform
            &&& trace.fought[i].c.collider == before[i].c.collider
            &&& crate::pilot::is_player_row(trace.fought[i].c) == crate::pilot::is_player_row(before[i].c)
        } by {
            assert(crate::enemy::enemy_row(before[i], trace.fought[i], parts[i], facts, ctx));
        }
    }
    assert(trace.piloted.len() == before.len() && forall|i: int|
        0 <= i < before.len() ==> {
            &&& (#[trigger] trace.piloted[i]).id == trace.fought[i].id
            &&& trace.piloted[i].c.projectile == trace.fought[i].c.projectile
            &&& trace.piloted[i].c.player == (if crate::pilot::is_player_row(trace.fought[i].c) {
                Some(
                    crate::pilot::player_next(
                        trace.fought[i].c.player->0,
                        trace.fought[i].c.transform->0,
                        trace.fought[i].c.collider->0.collisions@,
                        facts,
                        keys,
                        ctx,
                    ),
                )
            } else {
                trace.fought[i].c.player
            })
        }) by {
        reveal(player_pass_done);
        let parts = choose|parts: Seq<Seq<Command>>|
            {
                &&& parts.len() == trace.fought.len()
                &&& trace.piloted.len() == trace.fought.len()
                &&& trace.queue_piloted == trace.queue_fought + crate::commands::flat(parts)
                &&& forall|k: int|
                    0 <= k < trace.fought.len() ==> crate::pilot::player_row(
                        trace.fought[k],
                        trace.piloted[k],
                        #[trigger] parts[k],
                        facts,
                        keys,
                        ctx,
                    )
            };
        assert forall|i: int| 0 <= i < before.len() implies {
            &&& (#[trigger] trace.piloted[i]).id == trace.fought[i].id
            &&& trace.piloted[i].c.projectile == trace.fought[i].c.projectile
            &&& trace.piloted[i].c.player == (if crate::pilot::is_player_row(trace.fought[i].c) {
                Some(
                    crate::pilot::player_next(
                        trace.fought[i].c.player->0,
                        trace.fought[i].c.transform->0,
                        trace.fought[i].c.collider->0.collisions@,
                        facts,
                        keys,
                        ctx,
                    ),
                )
            } else {
                trace.fought[i].c.player
            })
        } by {
            assert(crate::pilot::player_row(trace.fought[i], trace.piloted[i], parts[i], facts, keys, ctx));
        }
    }
    lemma_mapped_same_pilots(trace.piloted, trace.aged, |c: Components| particle_aged(c, dt));
    lemma_mapped_same_pilots(trace.aged, trace.stamped, |c: Components| stamp_aged(c, dt));
    lemma_mapped_same_pilots(trace.stamped, trace.tweened, |c: Components| tweened(c, dt));
    lemma_mapped_same_pilots(trace.tweened, trace.blinked, |c: Components| blinked(c, dt));
    assert(same_pilots(trace.blinked, trace.labelled)) by {
        reveal(label_rows);
        assert forall|i: int| 0 <= i < trace.blinked.len() implies (#[trigger] trace.labelled[i]).id
            == trace.blinked[i].id && trace.labelled[i].c.player == trace.blinked[i].c.player
            && trace.labelled[i].c.projectile == trace.blinked[i].c.projectile by {
            assert(crate::labels::label_row(trace.blinked[i], trace.labelled[i], dt));
        }
    }
    lemma_mapped_same_pilots(trace.labelled, after, |c: Components| spark_aged(c, facts, dt));
    assert forall|i: int| 0 <= i < before.len() implies (#[trigger] after[i]).id == before[i].id && after[i].c.player
        == trace.piloted[i].c.player && after[i].c.projectile == before[i].c.projectile by {
        assert(trace.aged[i].c.projectile == trace.piloted[i].c.projectile);
        assert(trace.stamped[i].c.projectile == trace.aged[i].c.projectile);
        assert(trace.tweened[i].c.projectile == trace.stamped[i].c.projectile);
        assert(trace.blinked[i].c.projectile == trace.tweened[i].c.projectile);
        assert(trace.labelled[i].c.projectile == trace.blinked[i].c.projectile);
        assert(after[i].c.projectile == trace.labelled[i].c.projectile);
        assert(trace.piloted[i].c.projectile == trace.fought[i].c.projectile);
        assert(trace.fought[i].c.projectile == before[i].c.projectile);
        assert(trace.aged[i].id == trace.piloted[i].id && trace.aged[i].c.player == trace.piloted[i].c.player);
        assert(trace.stamped[i].id == trace.aged[i].id && trace.stamped[i].c.player == trace.aged[i].c.player);
        assert(trace.tweened[i].id == trace.stamped[i].id && trace.tweened[i].c.player
            == trace.stamped[i].c.player);
        assert(trace.blinked[i].id == trace.tweened[i].id && trace.blinked[i].c.player
            == trace.tweened[i].c.player);
        assert(trace.labelled[i].id == trace.blinked[i].id && trace.labelled[i].c.player
            == trace.blinked[i].c.player);
        assert(after[i].id == trace.labelled[i].id && after[i].c.player == trace.labelled[i].c.player);
        assert(trace.piloted[i].id == trace.fought[i].id);
        assert(trace.fought[i].id == before[i].id);
    }
}

/// The passes before the spawns queue nothing that brings a ship, an
/// enemy or a projectile into the game.
pub proof fn lemma_early_is_harmless(
    flying: Set<crate::components::Components>,
    before: Seq<Row>,
    queue_before: Seq<Command>,
    after: Seq<Row>,
    queue_after: Seq<Command>,
    ctx: StageCtx,
)
    requires
        early_simulated(before, queue_before, after, queue_after, ctx),
        crate::commands::all_harmless_but(flying, queue_before),
    ensures
        crate::commands::all_harmless_but(flying, queue_after),
{
    let trace = choose|trace: EarlyTrace| #[trigger]
        is_early_trace(trace, before, queue_before, after, queue_after, ctx);
    let dt = ctx.deltatime;
    crate::motion::lemma_sweep_is_harmless(flying, before, dt);
    crate::commands::lemma_joined_harmless(flying, queue_before, sweep_commands(before, dt));
    crate::motion::lemma_orphans_are_harmless(flying, trace.moved, facts_of(trace.moved));
    crate::commands::lemma_joined_harmless(
        flying,
        trace.queue_swept,
        orphan_commands(trace.moved, facts_of(trace.moved)),
    );
}

/// What the enemy pass leaves of a row: its identity, and its player
/// component, pose and collider as they were.
pub proof fn lemma_fought_rows(
    trace: LateTrace,
    before: Seq<Row>,
    queue_before: Seq<Command>,
    after: Seq<Row>,
    queue_after: Seq<Command>,
    outcome: FrameOutcome,
    keys: Keys,
    ctx: StageCtx,
    font: FontMetrics,
)
    requires
        is_late_trace(trace, before, queue_before, after, queue_after, outcome, keys, ctx, font),
    ensures
        trace.fought.len() == before.len(),
        forall|i: int|
            0 <= i < before.len() ==> {
                &&& (#[trigger] trace.fought[i]).id == before[i].id
                &&& trace.fought[i].c.player == before[i].c.player
                &&& trace.fought[i].c.transform == before[i].c.transform
                &&& trace.fought[i].c.collider == before[i].c.collider
                &&& crate::pilot::is_player_row(trace.fought[i].c) == crate::pilot::is_player_row(before[i].c)
            },
{
    let facts = facts_of(before);
    reveal(enemy_pass_done);
    let parts = choose|parts: Seq<Seq<Command>>|
        {
            &&& parts.len() == before.len()
            &&& trace.fought.len() == before.len()
            &&& trace.queue_fought == queue_before + crate::commands::flat(parts)
            &&& forall|k: int|
                0 <= k < before.len() ==> crate::enemy::enemy_row(before[k], trace.fought[k], #[trigger] parts[k], facts, ctx)
        };
    assert forall|i: int| 0 <= i < before.len() implies {
        &&& (#[trigger] trace.fought[i]).id == before[i].id
        &&& trace.fought[i].c.player == before[i].c.player
        &&& trace.fought[i].c.transform == before[i].c.transform
        &&& trace.fought[i].c.collider == before[i].c.collider
        &&& crate::pilot::is_player_row(trace.fought[i].c) == crate::pilot::is_player_row(before[i].c)
    } by {
        assert(crate::enemy::enemy_row(before[i], trace.fought[i], parts[i], facts, ctx));
    }
}

/// The passes after the spawns queue nothing that brings a ship or an
/// enemy into the game, and no projectile but the shots of the ships,
/// unless an enemy fires.
pub proof fn lemma_late_is_harmless(
    flying: Set<crate::components::Components>,
    before: Seq<Row>,
    queue_before: Seq<Command>,
    after: Seq<Row>,
    queue_after: Seq<Command>,
    outcome: FrameOutcome,
    keys: Keys,
    ctx: StageCtx,
    font: FontMetrics,
)
    requires
        late_simulated(before, queue_before, after, queue_after, outcome, keys, ctx, font),
        crate::commands::all_harmless_but(flying, queue_before),
        crate::enemy::no_enemy_fires(before, ctx.deltatime) || flying == Set::<Components>::full(),
        crate::pilot::ships_shots_fly(flying, before, facts_of(before), keys, ctx),
    ensures
        crate::commands::all_harmless_but(flying, queue_after),
{
    let trace = choose|trace: LateTrace| #[trigger]
        is_late_trace(trace, before, queue_before, after, queue_after, outcome, keys, ctx, font);
    let dt = ctx.deltatime;
    let facts = facts_of(before);
    lemma_fought_rows(trace, before, queue_before, after, queue_after, outcome, keys, ctx, font);
    assert(crate::pilot::ships_shots_fly(flying, trace.fought, facts, keys, ctx)) by {
        assert forall|i: int|
            0 <= i < trace.fought.len() && crate::pilot::is_player_row(
                (#[trigger] trace.fought[i]).c,
            ) implies crate::pilot::ship_shots_fly(
            flying,
            trace.fought[i].c.player->0,
            trace.fought[i].c.transform->0,
            trace.fought[i].c.collider->0.collisions@,
            facts,
            keys,
            ctx,
        ) by {
            assert(crate::pilot::is_player_row(before[i].c));
        }
    }
    crate::enemy::lemma_enemy_pass_is_harmless(
        flying,
        before,
        trace.fought,
        queue_before,
        trace.queue_fought,
        facts,
        ctx,
    );
    crate::pilot::lemma_player_pass_is_harmless(
        flying,
        trace.fought,
        trace.piloted,
        trace.queue_fought,
        trace.queue_piloted,
        facts,
        keys,
        ctx,
    );
    crate::effects::lemma_projectiles_are_harmless(
        flying,
        trace.stamped,
        trace.queue_piloted,
        trace.queue_projectiles,
        ctx,
    );
    crate::labels::lemma_collectibles_are_harmless(
        flying,
        trace.stamped,
        trace.queue_projectiles,
        trace.queue_collectibles,
        ctx,
    );
    crate::labels::lemma_labels_are_harmless(flying, trace.blinked, dt);
    crate::commands::lemma_joined_harmless(flying, trace.queue_collectibles, label_commands(trace.blinked, dt));
    crate::effects::lemma_sparks_are_harmless(flying, trace.labelled, dt);
    crate::commands::lemma_joined_harmless(flying, trace.queue_labelled, spark_commands(trace.labelled, dt));
    let tail = queue_after.skip(trace.queue_sparked.len() as int);
    lemma_label_spawns_are_harmless(flying, tail, trace.labels, showing_rects(after, font), font);
    assert(queue_after =~= trace.queue_sparked + tail);
    crate::commands::lemma_joined_harmless(flying, trace.queue_sparked, tail);
}

/// Where one row alone holds a ship when the passes after the spawns
/// begin, the answer of the frame is the answer to the damage of that
/// ship.
pub proof fn lemma_late_answers_one_ship(
    before: Seq<Row>,
    queue_before: Seq<Command>,
    after: Seq<Row>,
    queue_after: Seq<Command>,
    outcome: FrameOutcome,
    keys: Keys,
    ctx: StageCtx,
    font: FontMetrics,
    i: int,
)
    requires
        late_simulated(before, queue_before, after, queue_after, outcome, keys, ctx, font),
        0 <= i < before.len(),
        crate::pilot::is_player_row(before[i].c),
        forall|j: int| 0 <= j < before.len() && j != i ==> (#[trigger] before[j]).c.player is None,
    ensures
        outcome.player.response == crate::pilot::response_next(
            before[i].c.player->0,
            before[i].c.transform->0,
            before[i].c.collider->0.collisions@,
            facts_of(before),
            keys,
            ctx,
        ),
{
    let trace = choose|trace: LateTrace| #[trigger]
        is_late_trace(trace, before, queue_before, after, queue_after, outcome, keys, ctx, font);
    let facts = facts_of(before);
    reveal(enemy_pass_done);
    let parts = choose|parts: Seq<Seq<Command>>|
        {
            &&& parts.len() == before.len()
            &&& trace.fought.len() == before.len()
            &&& trace.queue_fought == queue_before + crate::commands::flat(parts)
            &&& forall|k: int|
                0 <= k < before.len() ==> crate::enemy::enemy_row(before[k], trace.fought[k], #[trigger] parts[k], facts, ctx)
        };
    assert forall|j: int| 0 <= j < trace.fought.len() && j != i implies (#[trigger] trace.fought[j]).c.player is None by {
        assert(crate::enemy::enemy_row(before[j], trace.fought[j], parts[j], facts, ctx));
        assert(before[j].c.player is None);
    }
    assert(crate::enemy::enemy_row(before[i], trace.fought[i], parts[i], facts, ctx));
    crate::pilot::lemma_outcome_of_one_ship(trace.fought, facts, keys, ctx, i);
}

/// The passes before the spawns despawn none but entities of their rows.
pub proof fn lemma_early_within(
    before: Seq<Row>,
    queue_before: Seq<Command>,
    after: Seq<Row>,
    queue_after: Seq<Command>,
    ctx: StageCtx,
    ids: Set<u64>,
)
    requires
        early_simulated(before, queue_before, after, queue_after, ctx),
        crate::commands::despawns_within(queue_before, ids),
        forall|i: int| 0 <= i < before.len() ==> ids.contains(#[trigger] before[i].id),
    ensures
        crate::commands::despawns_within(queue_after, ids),
{
    let trace = choose|trace: EarlyTrace| #[trigger]
        is_early_trace(trace, before, queue_before, after, queue_after, ctx);
    let dt = ctx.deltatime;
    lemma_mapped_same_pilots(before, trace.swept, |c: Components| swept(c, dt));
    lemma_mapped_same_pilots(trace.swept, trace.moved, |c: Components| motion_applied(c, dt));
    assert forall|i: int| 0 <= i < trace.moved.len() implies ids.contains(#[trigger] trace.moved[i].id) by {
        assert(trace.moved[i].id == trace.swept[i].id);
        assert(trace.swept[i].id == before[i].id);
    }
    crate::motion::lemma_sweep_within(before, dt, ids);
    crate::commands::lemma_joined_within(queue_before, sweep_commands(before, dt), ids);
    crate::motion::lemma_orphans_within(trace.moved, facts_of(trace.moved), ids);
    crate::commands::lemma_joined_within(trace.queue_swept, orphan_commands(trace.moved, facts_of(trace.moved)), ids);
}

/// Through the passes after the spawns the rows stand for the same
/// entities.
pub proof fn lemma_late_trace_ids(
    trace: LateTrace,
    before: Seq<Row>,
    queue_before: Seq<Command>,
    after: Seq<Row>,
    queue_after: Seq<Command>,
    outcome: FrameOutcome,
    keys: Keys,
    ctx: StageCtx,
    font: FontMetrics,
)
    requires
        is_late_trace(trace, before, queue_before, after, queue_after, outcome, keys, ctx, font),
    ensures
        same_ids(before, trace.fought),
        same_ids(before, trace.piloted),
        same_ids(before, trace.stamped),
        same_ids(before, trace.blinked),
        same_ids(before, trace.labelled),
{
    let dt = ctx.deltatime;
    let facts = facts_of(before);
    assert(same_ids(before, trace.fought)) by {
        reveal(enemy_pass_done);
        let parts = choose|parts: Seq<Seq<Command>>|
            {
                &&& parts.len() == before.len()
                &&& trace.fought.len() == before.len()
                &&& trace.queue_fought == queue_before + crate::commands::flat(parts)
                &&& forall|k: int|
                    0 <= k < before.len() ==> crate::enemy::enemy_row(
                        before[k],
                        trace.fought[k],
                        #[trigger] parts[k],
                        facts,
                        ctx,
                    )
            };
        assert forall|i: int| 0 <= i < before.len() implies (#[trigger] trace.fought[i]).id == before[i].id by {
            assert(crate::enemy::enemy_row(before[i], trace.fought[i], parts[i], facts, ctx));
        }
    }
    assert(same_ids(trace.fought, trace.piloted)) by {
        reveal(player_pass_done);
        let parts = choose|parts: Seq<Seq<Command>>|
            {
                &&& parts.len() == trace.fought.len()
                &&& trace.piloted.len() == trace.fought.len()
                &&& trace.queue_piloted == trace.queue_fought + crate::commands::flat(parts)
                &&& forall|k: int|
                    0 <= k < trace.fought.len() ==> crate::pilot::player_row(
                        trace.fought[k],
                        trace.piloted[k],
                        #[trigger] parts[k],
                        facts,
                        keys,
                        ctx,
                    )
            };
        assert forall|i: int| 0 <= i < trace.fought.len() implies (#[trigger] trace.piloted[i]).id
            == trace.fought[i].id by {
            assert(crate::pilot::player_row(trace.fought[i], trace.piloted[i], parts[i], facts, keys, ctx));
        }
    }
    lemma_mapped_same_pilots(trace.piloted, trace.aged, |c: Components| particle_aged(c, dt));
    lemma_mapped_same_pilots(trace.aged, trace.stamped, |c: Components| stamp_aged(c, dt));
    lemma_mapped_same_pilots(trace.stamped, trace.tweened, |c: Components| tweened(c, dt));
    lemma_mapped_same_pilots(trace.tweened, trace.blinked, |c: Components| blinked(c, dt));
    assert(same_ids(trace.blinked, trace.labelled)) by {
        reveal(label_rows);
        assert forall|i: int| 0 <= i < trace.blinked.len() implies (#[trigger] trace.labelled[i]).id
            == trace.blinked[i].id by {
            assert(crate::labels::label_row(trace.blinked[i], trace.labelled[i], dt));
        }
    }
    assert forall|i: int| 0 <= i < before.len() implies (#[trigger] trace.piloted[i]).id == before[i].id by {
        assert(trace.piloted[i].id == trace.fought[i].id);
        assert(trace.fought[i].id == before[i].id);
    }
    assert forall|i: int| 0 <= i < before.len() implies (#[trigger] trace.stamped[i]).id == before[i].id by {
        assert(trace.stamped[i].id == trace.aged[i].id);
        assert(trace.aged[i].id == trace.piloted[i].id);
    }
    assert forall|i: int| 0 <= i < before.len() implies (#[trigger] trace.blinked[i]).id == before[i].id by {
        assert(trace.blinked[i].id == trace.tweened[i].id);
        assert(trace.tweened[i].id == trace.stamped[i].id);
    }
    assert forall|i: int| 0 <= i < before.len() implies (#[trigger] trace.labelled[i]).id == before[i].id by {
        assert(trace.labelled[i].id == trace.blinked[i].id);
    }
}

/// The passes after the spawns despawn none but entities of their rows.
pub proof fn lemma_late_within(
    before: Seq<Row>,
    queue_before: Seq<Command>,
    after: Seq<Row>,
    queue_after: Seq<Command>,
    outcome: FrameOutcome,
    keys: Keys,
    ctx: StageCtx,
    font: FontMetrics,
    ids: Set<u64>,
)
    requires
        late_simulated(before, queue_before, after, queue_after, outcome, keys, ctx, font),
        crate::commands::despawns_within(queue_before, ids),
        forall|i: int| 0 <= i < before.len() ==> ids.contains(#[trigger] before[i].id),
    ensures
        crate::commands::despawns_within(queue_after, ids),
{
    let trace = choose|trace: LateTrace| #[trigger]
        is_late_trace(trace, before, queue_before, after, queue_after, outcome, keys, ctx, font);
    let dt = ctx.deltatime;
    let facts = facts_of(before);
    lemma_late_trace_ids(trace, before, queue_before, after, queue_after, outcome, keys, ctx, font);
    assert forall|i: int| 0 <= i < before.len() implies ids.contains(#[trigger] trace.fought[i].id) && ids.contains(
        #[trigger] trace.stamped[i].id,
    ) && ids.contains(#[trigger] trace.blinked[i].id) && ids.contains(#[trigger] trace.labelled[i].id) by {
        assert(ids.contains(before[i].id));
    }
    crate::enemy::lemma_enemy_pass_within(before, trace.fought, queue_before, trace.queue_fought, facts, ctx, ids);
    crate::pilot::lemma_player_pass_within(
        trace.fought,
        trace.piloted,
        trace.queue_fought,
        trace.queue_piloted,
        facts,
        keys,
        ctx,
        ids,
    );
    crate::effects::lemma_projectiles_within(trace.stamped, trace.queue_piloted, trace.queue_projectiles, ctx, ids);
    crate::labels::lemma_collectibles_within(
        trace.stamped,
        trace.queue_projectiles,
        trace.queue_collectibles,
        ctx,
        ids,
    );
    crate::labels::lemma_labels_within(trace.blinked, dt, ids);
    crate::commands::lemma_joined_within(trace.queue_collectibles, label_commands(trace.blinked, dt), ids);
    crate::effects::lemma_sparks_within(trace.labelled, dt, ids);
    crate::commands::lemma_joined_within(trace.queue_labelled, spark_commands(trace.labelled, dt), ids);
    let tail = queue_after.skip(trace.queue_sparked.len() as int);
    assert(crate::commands::despawns_within(tail, ids)) by {
        reveal(spawns_labels);
        assert forall|k: int| 0 <= k < tail.len() implies (#[trigger] tail[k]) is Spawn by {
            assert(spawns_label(
                tail[k],
                trace.labels[k],
                placed_at(trace.labels, showing_rects(after, font), font, k as nat),
            ));
        }
    }
    assert(queue_after =~= trace.queue_sparked + tail);
    crate::commands::lemma_joined_within(trace.queue_sparked, tail, ids);
}

/// Whatever the update of a ship queues is in the queue after the passes
/// that come after the spawns.
pub proof fn lemma_late_queues_ship_part(
    before: Seq<Row>,
    queue_before: Seq<Command>,
    after: Seq<Row>,
    queue_after: Seq<Command>,
    outcome: FrameOutcome,
    keys: Keys,
    ctx: StageCtx,
    font: FontMetrics,
    i: int,
) -> (part: Seq<Command>)
    requires
        late_simulated(before, queue_before, after, queue_after, outcome, keys, ctx, font),
        0 <= i < before.len(),
        crate::pilot::is_player_row(before[i].c),
    ensures
        crate::pilot::player_commands(
            part,
            before[i].id,
            before[i].c.player->0,
            before[i].c.transform->0,
            before[i].c.collider->0.collisions@,
            facts_of(before),
            keys,
            ctx,
        ),
        forall|command: Command| part.contains(command) ==> queue_after.contains(command),
{
    let trace = choose|trace: LateTrace| #[trigger]
        is_late_trace(trace, before, queue_before, after, queue_after, outcome, keys, ctx, font);
    let facts = facts_of(before);
    assert(trace.fought.len() == before.len() && trace.fought[i].id == before[i].id
        && crate::pilot::is_player_row(trace.fought[i].c) && trace.fought[i].c.player == before[i].c.player
        && trace.fought[i].c.transform == before[i].c.transform && trace.fought[i].c.collider
        == before[i].c.collider) by {
        reveal(enemy_pass_done);
        let parts = choose|parts: Seq<Seq<Command>>|
            {
                &&& parts.len() == before.len()
                &&& trace.fought.len() == before.len()
                &&& trace.queue_fought == queue_before + crate::commands::flat(parts)
                &&& forall|k: int|
                    0 <= k < before.len() ==> crate::enemy::enemy_row(
                        before[k],
                        trace.fought[k],
                        #[trigger] parts[k],
                        facts,
                        ctx,
                    )
            };
        assert(crate::enemy::enemy_row(before[i], trace.fought[i], parts[i], facts, ctx));
    }
    let part = crate::pilot::lemma_pass_queues_part(
        trace.fought,
        trace.piloted,
        trace.queue_fought,
        trace.queue_piloted,
        facts,
        keys,
        ctx,
        i,
    );
    assert forall|command: Command| part.contains(command) implies queue_after.contains(command) by {
        assert(trace.queue_piloted.contains(command));
        assert(trace.queue_projectiles.contains(command)) by {
            reveal(projectile_pass_done);
            let parts = choose|parts: Seq<Seq<Command>>|
                {
                    &&& parts.len() == trace.stamped.len()
                    &&& trace.queue_projectiles == trace.queue_piloted + crate::commands::flat(parts)
                    &&& forall|k: int|
                        0 <= k < trace.stamped.len() ==> crate::effects::projectile_part(
                            #[trigger] parts[k],
                            trace.stamped[k],
                            ctx,
                        )
                };
            crate::commands::lemma_stays_queued(trace.queue_piloted, crate::commands::flat(parts), command);
        }
        assert(trace.queue_collectibles.contains(command)) by {
            reveal(collectible_pass_done);
            let parts = choose|parts: Seq<Seq<Command>>|
                {
                    &&& parts.len() == trace.stamped.len()
                    &&& trace.queue_collectibles == trace.queue_projectiles + crate::commands::flat(parts)
                    &&& forall|k: int|
                        0 <= k < trace.stamped.len() ==> crate::pickups::is_collectible_part(
                            #[trigger] parts[k],
                            trace.stamped[k],
                            ctx,
                        )
                };
            crate::commands::lemma_stays_queued(trace.queue_projectiles, crate::commands::flat(parts), command);
        }
        crate::commands::lemma_stays_queued(
            trace.queue_collectibles,
            label_commands(trace.blinked, ctx.deltatime),
            command,
        );
        crate::commands::lemma_stays_queued(
            trace.queue_labelled,
            spark_commands(trace.labelled, ctx.deltatime),
            command,
        );
        let k = choose|k: int| 0 <= k < trace.queue_sparked.len() && trace.queue_sparked[k] == command;
        assert(queue_after.take(trace.queue_sparked.len() as int)[k] == queue_after[k]);
    }
    part
}

} // verus!
