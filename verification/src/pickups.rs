//! The end of collectibles: picked up by the player or lost at the edge of
//! the canvas, with the effects that mark either.
use vstd::prelude::*;
use crate::archetypes::Archetypes;
use crate::color::{Color, color_neutral};
use crate::commands::{Command, WorldCommandBuffer};
use crate::components::{Blinker, Collectible, CollectibleType, Components, Motion, Transform, TweenScale};
use crate::easing::EasingType;
use crate::enemy::{StageCtx, random_offset};
use crate::fixed::{fx_mul, smul};
use crate::infotext::InfoText;
use crate::pilot::canvas_of;
use crate::random::Entropy;
use crate::store::Row;
use crate::timer::{TimerStateSwitchBinary, TriggerRepeating};
use crate::trig::FULL_TURN;
use crate::vec2::{Rect, Vec2};

verus! {

/// Whether the collectible has been picked up: something touched it.
pub open spec fn collected(c: Components) -> bool {
    c.collider is Some && c.collider->0.collisions@.len() > 0
}

/// Whether a collectible that nobody picked up is lost. Ammunition homes
/// in on the player and is lost only outside the canvas; everything else
/// is lost once it has crossed the canvas in the direction it moves.
pub open spec fn lost(t: Transform, m: Motion, kind: CollectibleType, ctx: StageCtx) -> bool {
    match kind {
        CollectibleType::Ammo => !canvas_of(ctx).contains_spec(t.pos),
        _ => (m.vel.x > 0 && t.pos.x >= ctx.canvas_width) || (m.vel.x < 0 && t.pos.x < 0),
    }
}

/// An entity that the collectible pass works on.
pub open spec fn is_collectible_row(c: Components) -> bool {
    c.transform is Some && c.motion is Some && c.collectible is Some && c.collider is Some
}

/// Whether the collectible leaves the game this frame.
pub open spec fn gone(c: Components, ctx: StageCtx) -> bool {
    is_collectible_row(c) && (collected(c) || lost(c.transform->0, c.motion->0, c.collectible->0.collectible, ctx))
}

/// The switch that makes a celebration blink.
pub open spec fn party_blinker() -> Blinker {
    TimerStateSwitchBinary { state: true, trigger: TriggerRepeating::new_distinct_spec(200_000, 50_000) }
}

/// A box effect that blinks and, if `tween` is given, grows.
pub open spec fn is_blinking_box(
    c: Components,
    pos: Vec2,
    width: i64,
    height: i64,
    dir_angle: i64,
    first: Color,
    second: Color,
    filled: bool,
    tween: Option<TweenScale>,
) -> bool {
    &&& c.blinker == Some(party_blinker())
    &&& c.tween_scale == tween
    &&& Archetypes::is_hit_effect(
        Components { blinker: None, tween_scale: None, ..c },
        pos,
        width,
        height,
        dir_angle,
        first,
        200_000,
        second,
        350_000,
        filled,
    )
}

/// A ring effect that blinks and grows.
pub open spec fn is_blinking_ring(c: Components, pos: Vec2, first: Color, second: Color, tween: Option<TweenScale>) -> bool {
    &&& c.blinker == Some(party_blinker())
    &&& c.tween_scale == tween
    &&& Archetypes::is_hit_effect_round(
        Components { blinker: None, tween_scale: None, ..c },
        pos,
        1_000_000,
        first,
        200_000,
        second,
        350_000,
        false,
    )
}

/// Growth from `from` to `to` times the size of the collectible.
pub open spec fn growth(size: i64, from: i64, to: i64) -> Option<TweenScale> {
    Some(TweenScale::new_spec(smul(from, size), smul(to, size), 350_000, EasingType::CubicInOut))
}

fn blinking_box(
    pos: Vec2,
    width: i64,
    height: i64,
    dir_angle: i64,
    first: Color,
    second: Color,
    filled: bool,
    tween: Option<TweenScale>,
) -> (c: Components)
    ensures
        is_blinking_box(c, pos, width, height, dir_angle, first, second, filled, tween),
{
    let mut c: Components = Archetypes::new_hit_effect(
        pos,
        width,
        height,
        dir_angle,
        first,
        200_000,
        second,
        350_000,
        filled,
    );
    proof {
        reveal(Archetypes::is_hit_effect);
    }
    let ghost plain = c;
    c.blinker = Some(Blinker::new(true, 200_000, 50_000));
    c.tween_scale = tween;
    assert((Components { blinker: None, tween_scale: None, ..c }) == plain);
    c
}

fn blinking_ring(pos: Vec2, first: Color, second: Color, tween: Option<TweenScale>) -> (c: Components)
    ensures
        is_blinking_ring(c, pos, first, second, tween),
{
    let mut c: Components = Archetypes::new_hit_effect_round(pos, 1_000_000, first, 200_000, second, 350_000, false);
    proof {
        reveal(Archetypes::is_hit_effect_round);
    }
    let ghost plain = c;
    c.blinker = Some(Blinker::new(true, 200_000, 50_000));
    c.tween_scale = tween;
    assert((Components { blinker: None, tween_scale: None, ..c }) == plain);
    c
}

fn grow(size: i64, from: i64, to: i64) -> (t: Option<TweenScale>)
    ensures
        t == growth(size, from, to),
{
    Some(TweenScale::new(fx_mul(from, size), fx_mul(to, size), 350_000, EasingType::CubicInOut))
}

/// The effects that celebrate a pickup, by kind: ammunition leaves a plain
/// burst; boost and skill points a blinking core in a growing frame;
/// health a blinking cross in a growing ring; an attack two growing
/// frames.
pub open spec fn is_celebration(part: Seq<Command>, kind: CollectibleType, pos: Vec2, size: i64, color: Color) -> bool {
    &&& forall|k: int| 0 <= k < part.len() ==> (#[trigger] part[k]) is Spawn
    &&& match kind {
        CollectibleType::Ammo => {
            &&& part.len() == 1
            &&& Archetypes::is_hit_effect(
                part[0]->Spawn_0,
                pos,
                size,
                size,
                45_000_000,
                color_neutral(),
                100_000,
                color,
                150_000,
                true,
            )
        },
        CollectibleType::Hp => {
            &&& part.len() == 3
            &&& is_blinking_box(
                part[0]->Spawn_0,
                pos,
                smul(400_000, size),
                smul(1_200_000, size),
                0,
                color_neutral(),
                color,
                true,
                None,
            )
            &&& is_blinking_box(
                part[1]->Spawn_0,
                pos,
                smul(1_200_000, size),
                smul(400_000, size),
                0,
                color_neutral(),
                color,
                true,
                None,
            )
            &&& is_blinking_ring(part[2]->Spawn_0, pos, color, color_neutral(), growth(size, 1_200_000, 1_700_000))
        },
        CollectibleType::Attack(_) => {
            &&& part.len() == 2
            &&& is_blinking_box(
                part[0]->Spawn_0,
                pos,
                1_000_000,
                1_000_000,
                45_000_000,
                color_neutral(),
                color_neutral(),
                false,
                growth(size, 1_100_000, 3_100_000),
            )
            &&& is_blinking_box(
                part[1]->Spawn_0,
                pos,
                1_000_000,
                1_000_000,
                45_000_000,
                color,
                color,
                false,
                growth(size, 1_400_000, 3_400_000),
            )
        },
        _ => {
            &&& part.len() == 2
            &&& is_blinking_box(part[0]->Spawn_0, pos, size, size, 45_000_000, color_neutral(), color, true, None)
            &&& is_blinking_box(
                part[1]->Spawn_0,
                pos,
                1_000_000,
                1_000_000,
                45_000_000,
                color_neutral(),
                color,
                false,
                growth(size, 1_000_000, 2_500_000),
            )
        },
    }
}

/// Queues the effects that celebrate a pickup.
#[verifier::rlimit(50)]
pub fn celebrate(kind: CollectibleType, pos: Vec2, size: i64, color: Color, commands: &mut WorldCommandBuffer)
    ensures
        final(commands)@.len() >= old(commands)@.len(),
        final(commands)@.take(old(commands)@.len() as int) == old(commands)@,
        is_celebration(final(commands)@.skip(old(commands)@.len() as int), kind, pos, size, color),
{
    let ghost base = commands@;
    match kind {
        CollectibleType::Ammo => {
            commands.add_entity(
                Archetypes::new_hit_effect(
                    pos,
                    size,
                    size,
                    45_000_000,
                    color_neutral(),
                    100_000,
                    color,
                    150_000,
                    true,
                ),
            );
        },
        CollectibleType::Hp => {
            commands.add_entity(
                blinking_box(
                    pos,
                    fx_mul(400_000, size),
                    fx_mul(1_200_000, size),
                    0,
                    color_neutral(),
                    color,
                    true,
                    None,
                ),
            );
            commands.add_entity(
                blinking_box(
                    pos,
                    fx_mul(1_200_000, size),
                    fx_mul(400_000, size),
                    0,
                    color_neutral(),
                    color,
                    true,
                    None,
                ),
            );
            commands.add_entity(blinking_ring(pos, color, color_neutral(), grow(size, 1_200_000, 1_700_000)));
        },
        CollectibleType::Attack(_) => {
            commands.add_entity(
                blinking_box(
                    pos,
                    1_000_000,
                    1_000_000,
                    45_000_000,
                    color_neutral(),
                    color_neutral(),
                    false,
                    grow(size, 1_100_000, 3_100_000),
                ),
            );
            commands.add_entity(
                blinking_box(
                    pos,
                    1_000_000,
                    1_000_000,
                    45_000_000,
                    color,
                    color,
                    false,
                    grow(size, 1_400_000, 3_400_000),
                ),
            );
        },
        _ => {
            commands.add_entity(blinking_box(pos, size, size, 45_000_000, color_neutral(), color, true, None));
            commands.add_entity(
                blinking_box(
                    pos,
                    1_000_000,
                    1_000_000,
                    45_000_000,
                    color_neutral(),
                    color,
                    false,
                    grow(size, 1_000_000, 2_500_000),
                ),
            );
        },
    }
    proof {
        let part = commands@.skip(base.len() as int);
        assert(commands@.take(base.len() as int) =~= base);
        assert forall|k: int| 0 <= k < part.len() implies (#[trigger] part[k]) is Spawn by {
            assert(part[k] == commands@[base.len() + k]);
        }
        assert(part[0] == commands@[base.len() as int]);
        if part.len() > 1 {
            assert(part[1] == commands@[base.len() as int + 1]);
        }
        if part.len() > 2 {
            assert(part[2] == commands@[base.len() as int + 2]);
        }
    }
}

/// A command that spawns one of the sparkles of a vanishing collectible.
pub open spec fn is_sparkle(command: Command, pos: Vec2, color: Color) -> bool {
    &&& command is Spawn
    &&& exists|dir_angle: i64, speed: i64, thickness: i64, length: i64, lifetime: i64|
        {
            &&& 0 <= dir_angle <= FULL_TURN
            &&& 50_000_000 <= speed <= 100_000_000
            &&& 1_000_000 <= thickness <= 2_000_000
            &&& 3_000_000 <= length <= 8_000_000
            &&& 300_000 <= lifetime <= 500_000
            &&& #[trigger] Archetypes::is_explode_particle(
                command->Spawn_0,
                pos,
                dir_angle,
                speed,
                thickness,
                length,
                lifetime,
                color,
            )
        }
}

pub open spec fn all_sparkles(part: Seq<Command>, pos: Vec2, color: Color) -> bool {
    forall|k: int| 0 <= k < part.len() ==> is_sparkle(#[trigger] part[k], pos, color)
}

/// The sparkles of a vanishing collectible: between four and seven, none
/// for an attack pickup.
pub open spec fn is_sparkle_part(part: Seq<Command>, kind: CollectibleType, pos: Vec2, color: Color) -> bool {
    &&& all_sparkles(part, pos, color)
    &&& if kind is Attack {
        part.len() == 0
    } else {
        4 <= part.len() <= 7
    }
}

/// How many sparkles the first word selects: between four and seven, and
/// none for an attack pickup, which takes no draw.
pub open spec fn sparkle_count(kind: CollectibleType, e: Entropy) -> nat {
    if kind is Attack {
        0
    } else {
        crate::random::pick_range(e.word_after(0), 4, 7) as nat
    }
}

/// The draws that the sparkles take: one for their number and five for
/// each.
pub open spec fn sparkle_draws(kind: CollectibleType, e: Entropy) -> nat {
    if kind is Attack {
        0
    } else {
        1 + 5 * sparkle_count(kind, e)
    }
}

/// The sparkles are those that the words of `e` select after the first:
/// each takes five draws, for its direction, speed, thickness, length and
/// lifetime.
pub open spec fn sparkles_picked(part: Seq<Command>, pos: Vec2, color: Color, e: Entropy) -> bool {
    forall|k: int|
        0 <= k < part.len() ==> (#[trigger] part[k]) is Spawn && Archetypes::is_explode_particle(
            part[k]->Spawn_0,
            pos,
            crate::random::pick_range(e.word_after((1 + 5 * k) as nat), 0, FULL_TURN),
            crate::random::pick_range(e.word_after((2 + 5 * k) as nat), 50_000_000, 100_000_000),
            crate::random::pick_range(e.word_after((3 + 5 * k) as nat), 1_000_000, 2_000_000),
            crate::random::pick_range(e.word_after((4 + 5 * k) as nat), 3_000_000, 8_000_000),
            crate::random::pick_range(e.word_after((5 + 5 * k) as nat), 300_000, 500_000),
            color,
        )
}

fn sparkle(kind: CollectibleType, pos: Vec2, color: Color, entropy: &mut Entropy, commands: &mut WorldCommandBuffer)
    ensures
        final(commands)@.len() == old(commands)@.len() + sparkle_count(kind, *old(entropy)),
        final(commands)@.take(old(commands)@.len() as int) == old(commands)@,
        is_sparkle_part(final(commands)@.skip(old(commands)@.len() as int), kind, pos, color),
        sparkles_picked(final(commands)@.skip(old(commands)@.len() as int), pos, color, *old(entropy)),
        old(entropy).drawn(final(entropy), sparkle_draws(kind, *old(entropy))),
{
    let ghost base = commands@;
    let ghost start = *entropy;
    let count: i64 = match kind {
        CollectibleType::Attack(_) => 0,
        _ => {
            let count: i64 = entropy.range(4, 7);
            proof {
                start.lemma_draw_after(&start, entropy, 0);
            }
            count
        },
    };
    let mut k: i64 = 0;
    assert(commands@.take(base.len() as int) =~= base);
    while k < count
        invariant
            0 <= k <= count,
            count == sparkle_count(kind, start),
            commands@.len() == base.len() + k,
            commands@.take(base.len() as int) == base,
            start.drawn(entropy, if kind is Attack { 0nat } else { 1 + 5 * (k as nat) }),
            forall|j: int|
                0 <= j < k ==> (#[trigger] commands@[base.len() + j]) is Spawn && Archetypes::is_explode_particle(
                    commands@[base.len() + j]->Spawn_0,
                    pos,
                    crate::random::pick_range(start.word_after((1 + 5 * j) as nat), 0, FULL_TURN),
                    crate::random::pick_range(start.word_after((2 + 5 * j) as nat), 50_000_000, 100_000_000),
                    crate::random::pick_range(start.word_after((3 + 5 * j) as nat), 1_000_000, 2_000_000),
                    crate::random::pick_range(start.word_after((4 + 5 * j) as nat), 3_000_000, 8_000_000),
                    crate::random::pick_range(start.word_after((5 + 5 * j) as nat), 300_000, 500_000),
                    color,
                ),
            forall|j: int| 0 <= j < k ==> is_sparkle(#[trigger] commands@[base.len() + j], pos, color),
        decreases count - k,
    {
        let ghost before = commands@;
        let ghost e0 = *entropy;
        let dir_angle: i64 = entropy.range(0, FULL_TURN);
        let ghost e1 = *entropy;
        let speed: i64 = entropy.range(50_000_000, 100_000_000);
        let ghost e2 = *entropy;
        let thickness: i64 = entropy.range(1_000_000, 2_000_000);
        let ghost e3 = *entropy;
        let length: i64 = entropy.range(3_000_000, 8_000_000);
        let ghost e4 = *entropy;
        let lifetime: i64 = entropy.range(300_000, 500_000);
        proof {
            start.lemma_draw_after(&e0, &e1, 1 + 5 * (k as nat));
            start.lemma_draw_after(&e1, &e2, 2 + 5 * (k as nat));
            start.lemma_draw_after(&e2, &e3, 3 + 5 * (k as nat));
            start.lemma_draw_after(&e3, &e4, 4 + 5 * (k as nat));
            start.lemma_draw_after(&e4, entropy, 5 + 5 * (k as nat));
        }
        commands.add_entity(
            Archetypes::new_explode_particle(pos, dir_angle, speed, thickness, length, lifetime, color),
        );
        proof {
            assert(commands@.take(base.len() as int) =~= before.take(base.len() as int));
            assert(is_sparkle(commands@[base.len() + k], pos, color));
            assert forall|j: int| 0 <= j < k + 1 implies (#[trigger] commands@[base.len() + j]) is Spawn
                && Archetypes::is_explode_particle(
                commands@[base.len() + j]->Spawn_0,
                pos,
                crate::random::pick_range(start.word_after((1 + 5 * j) as nat), 0, FULL_TURN),
                crate::random::pick_range(start.word_after((2 + 5 * j) as nat), 50_000_000, 100_000_000),
                crate::random::pick_range(start.word_after((3 + 5 * j) as nat), 1_000_000, 2_000_000),
                crate::random::pick_range(start.word_after((4 + 5 * j) as nat), 3_000_000, 8_000_000),
                crate::random::pick_range(start.word_after((5 + 5 * j) as nat), 300_000, 500_000),
                color,
            ) by {
                if j < k {
                    assert(commands@[base.len() + j] == before[base.len() + j]);
                }
            }
            assert forall|j: int| 0 <= j < k + 1 implies is_sparkle(
                #[trigger] commands@[base.len() + j],
                pos,
                color,
            ) by {
                if j < k {
                    assert(commands@[base.len() + j] == before[base.len() + j]);
                }
            }
        }
        k = k + 1;
    }
    proof {
        let part = commands@.skip(base.len() as int);
        assert forall|j: int| 0 <= j < part.len() implies is_sparkle(#[trigger] part[j], pos, color) by {
            assert(part[j] == commands@[base.len() + j]);
        }
        assert forall|j: int| 0 <= j < part.len() implies (#[trigger] part[j]) is Spawn
            && Archetypes::is_explode_particle(
            part[j]->Spawn_0,
            pos,
            crate::random::pick_range(start.word_after((1 + 5 * j) as nat), 0, FULL_TURN),
            crate::random::pick_range(start.word_after((2 + 5 * j) as nat), 50_000_000, 100_000_000),
            crate::random::pick_range(start.word_after((3 + 5 * j) as nat), 1_000_000, 2_000_000),
            crate::random::pick_range(start.word_after((4 + 5 * j) as nat), 3_000_000, 8_000_000),
            crate::random::pick_range(start.word_after((5 + 5 * j) as nat), 300_000, 500_000),
            color,
        ) by {
            assert(part[j] == commands@[base.len() + j]);
        }
    }
}

/// The burst of a collectible that was lost.
pub open spec fn is_fade(part: Seq<Command>, pos: Vec2, size: i64, color: Color) -> bool {
    &&& part.len() == 1
    &&& part[0] is Spawn
    &&& Archetypes::is_hit_effect(
        part[0]->Spawn_0,
        pos,
        size,
        size,
        45_000_000,
        color_neutral(),
        100_000,
        color,
        150_000,
        true,
    )
}

/// The last effects of a collectible: a celebration if it was picked up,
/// a plain burst if it was lost.
pub open spec fn is_finale(part: Seq<Command>, picked_up: bool, item: Collectible, pos: Vec2) -> bool {
    if picked_up {
        is_celebration(part, item.collectible, pos, item.size, item.color)
    } else {
        is_fade(part, pos, item.size, item.color)
    }
}

/// What the pass queues for one row. A collectible that leaves the game
/// is despawned and sparkles; one that was picked up is celebrated, one
/// that was lost just fades.
#[verifier::opaque]
pub open spec fn is_collectible_part(part: Seq<Command>, row: Row, ctx: StageCtx) -> bool {
    if gone(row.c, ctx) {
        let item = row.c.collectible->0;
        let pos = row.c.transform->0.pos;
        exists|sparkles: Seq<Command>, finale: Seq<Command>|
            {
                &&& part == seq![Command::Despawn(row.id)] + sparkles + finale
                &&& #[trigger] is_sparkle_part(sparkles, item.collectible, pos, item.color)
                &&& #[trigger] is_finale(finale, collected(row.c), item, pos)
            }
    } else {
        part.len() == 0
    }
}

/// The label that a pickup leaves: the name of what was picked up, in its
/// color, within one radius of where it was.
pub open spec fn is_pickup_label(label: InfoText, c: Components) -> bool {
    &&& label.wf()
    &&& label.text@ == c.collectible->0.collectible.infotext_spec()
    &&& label.color == c.collectible->0.color
    &&& label.timer.time_cur == 0
    &&& label.timer.started
    &&& label.blinker.state
    &&& crate::enemy::is_near(label.pos, c.transform->0.pos, c.collider->0.radius)
}

/// The draws that ending a collectible takes: those for its sparkles and,
/// if it was picked up, two for the place of its label.
pub open spec fn collectible_draws(c: Components, ctx: StageCtx, e: Entropy) -> nat {
    if gone(c, ctx) {
        sparkle_draws(c.collectible->0.collectible, e) + if collected(c) { 2nat } else { 0nat }
    } else {
        0
    }
}

/// Ends one collectible if it was picked up or lost. A pickup leaves a
/// label in `labels`.
#[verifier::rlimit(50)]
pub fn collectible_step(
    row: &Row,
    ctx: &StageCtx,
    entropy: &mut Entropy,
    commands: &mut WorldCommandBuffer,
    labels: &mut Vec<InfoText>,
)
    ensures
        final(commands)@.len() >= old(commands)@.len(),
        final(commands)@.take(old(commands)@.len() as int) == old(commands)@,
        is_collectible_part(final(commands)@.skip(old(commands)@.len() as int), *row, *ctx),
        final(labels)@.len() == old(labels)@.len() + (if gone(row.c, *ctx) && collected(row.c) { 1int } else { 0int }),
        final(labels)@.take(old(labels)@.len() as int) == old(labels)@,
        gone(row.c, *ctx) && collected(row.c) ==> is_pickup_label(final(labels)@[old(labels)@.len() as int], row.c),
        gone(row.c, *ctx) ==> ({
            let item = row.c.collectible->0;
            let count = sparkle_count(item.collectible, *old(entropy));
            let part = final(commands)@.skip(old(commands)@.len() as int);
            &&& part.len() >= 1 + count
            &&& sparkles_picked(part.skip(1).take(count as int), row.c.transform->0.pos, item.color, *old(entropy))
        }),
        gone(row.c, *ctx) && collected(row.c) ==> final(labels)@[old(labels)@.len() as int].pos
            == row.c.transform->0.pos.plus_spec(
            crate::enemy::offset_picked(
                old(entropy).word_after(sparkle_draws(row.c.collectible->0.collectible, *old(entropy))),
                old(entropy).word_after(sparkle_draws(row.c.collectible->0.collectible, *old(entropy)) + 1),
                row.c.collider->0.radius,
            ),
        ),
        old(entropy).drawn(final(entropy), collectible_draws(row.c, *ctx, *old(entropy))),
{
    reveal(is_collectible_part);
    let ghost base = commands@;
    let ghost start = *entropy;
    let ghost base_labels = labels@;
    assert(commands@.take(base.len() as int) =~= base);
    assert(labels@.take(base_labels.len() as int) =~= base_labels);
    match (&row.c.transform, &row.c.motion, &row.c.collectible, &row.c.collider) {
        (Some(t), Some(m), Some(item), Some(collider)) => {
            let was_collected: bool = collider.collisions.len() > 0;
            let canvas: Rect = Rect::from_width_height(ctx.canvas_width, ctx.canvas_height);
            let was_lost: bool = match item.collectible {
                CollectibleType::Ammo => !canvas.contains_point(t.pos),
                _ => (m.vel.x > 0 && t.pos.x >= ctx.canvas_width) || (m.vel.x < 0 && t.pos.x < 0),
            };
            assert(was_lost == lost(*t, *m, item.collectible, *ctx));
            if was_collected || was_lost {
                commands.remove_entity(row.id);
                let ghost after_despawn = commands@;
                sparkle(item.collectible, t.pos, item.color, entropy, commands);
                let ghost after_sparkles = commands@;
                if !was_collected {
                    commands.add_entity(
                        Archetypes::new_hit_effect(
                            t.pos,
                            item.size,
                            item.size,
                            45_000_000,
                            color_neutral(),
                            100_000,
                            item.color,
                            150_000,
                            true,
                        ),
                    );
                } else {
                    let text: &'static str = item.collectible.get_infotext_string();
                    proof {
                        lemma_label_is_ascii(item.collectible);
                    }
                    let ghost sparkled = *entropy;
                    let text_pos: Vec2 = t.pos.plus(random_offset(entropy, collider.radius));
                    proof {
                        let from = sparkle_draws(item.collectible, start);
                        start.lemma_position_shift(&sparkled, from, 0);
                        start.lemma_position_shift(&sparkled, from, 1);
                        start.lemma_draws_add(&sparkled, entropy, from, 2);
                    }
                    assert(crate::enemy::is_near(text_pos, t.pos, collider.radius));
                    labels.push(InfoText::new(text_pos, text, item.color));
                    celebrate(item.collectible, t.pos, item.size, item.color, commands);
                }
                proof {
                    let part = commands@.skip(base.len() as int);
                    let sparkles = after_sparkles.skip(after_despawn.len() as int);
                    let finale = commands@.skip(after_sparkles.len() as int);
                    assert(after_sparkles =~= after_despawn + sparkles) by {
                        assert(after_sparkles.take(after_despawn.len() as int) == after_despawn);
                    }
                    assert(commands@ =~= after_sparkles + finale) by {
                        assert(commands@.take(after_sparkles.len() as int) =~= after_sparkles);
                    }
                    assert(part =~= seq![Command::Despawn(row.id)] + sparkles + finale);
                    assert(commands@.take(base.len() as int) =~= base);
                    assert(is_sparkle_part(sparkles, item.collectible, t.pos, item.color));
                    if !was_collected {
                        assert(finale[0] == commands@[after_sparkles.len() as int]);
                        assert(is_fade(finale, t.pos, item.size, item.color));
                    }
                    assert(is_finale(finale, was_collected, *item, t.pos));
                    assert(was_collected == collected(row.c));
                    assert(gone(row.c, *ctx));
                    assert(is_collectible_part(part, *row, *ctx));
                    assert(labels@.take(base_labels.len() as int) =~= base_labels);
                    assert(part.skip(1).take(sparkles.len() as int) =~= sparkles);
                }
            }
        },
        _ => {},
    }
}

/// Every label text is plain ASCII.
pub proof fn lemma_label_is_ascii(kind: CollectibleType)
    ensures
        forall|s: &str| s@ == kind.infotext_spec() ==> #[trigger] s.is_ascii(),
{
    reveal_strlit("+BOOST");
    reveal_strlit("+AMMO");
    reveal_strlit("+HP");
    reveal_strlit("+1 SP");
    reveal_strlit("Neutral");
    reveal_strlit("Double");
    reveal_strlit("Triple");
    reveal_strlit("Rapid");
    reveal_strlit("Spread");
    reveal_strlit("Back");
    reveal_strlit("Side");
    assert forall|s: &str| s@ == kind.infotext_spec() implies #[trigger] s.is_ascii() by {
        assert(forall|i: int| 0 <= i < s@.len() ==> (s@[i] as nat) < 128);
    }
}

/// The effects that celebrate a pickup bring no ship and no projectile
/// into the game.
pub proof fn lemma_celebration_is_harmless(
    flying: Set<crate::components::Components>,
    part: Seq<Command>,
    kind: CollectibleType,
    pos: Vec2,
    size: i64,
    color: Color,
)
    requires
        is_celebration(part, kind, pos, size, color),
    ensures
        crate::commands::all_harmless_but(flying, part),
{
    reveal(Archetypes::is_hit_effect);
    reveal(Archetypes::is_hit_effect_round);
    assert forall|k: int| 0 <= k < part.len() implies crate::commands::harmless_but(flying, #[trigger] part[k]) by {
        assert(part[k] is Spawn);
        let c = part[k]->Spawn_0;
        let bare = Components { blinker: None, tween_scale: None, ..c };
        assert(bare.player == c.player);
        assert(bare.plain_part().player == c.player);
        if k == 0 {
            assert(part[0]->Spawn_0.player is None);
        } else if k == 1 {
            assert(part[1]->Spawn_0.player is None);
        } else {
            assert(part[2]->Spawn_0.player is None);
        }
    }
}

/// What the pass queues for one collectible brings no ship and no
/// projectile into the game.
pub proof fn lemma_collectible_part_is_harmless(
    flying: Set<crate::components::Components>,
    part: Seq<Command>,
    row: Row,
    ctx: StageCtx,
)
    requires
        is_collectible_part(part, row, ctx),
    ensures
        crate::commands::all_harmless_but(flying, part),
{
    reveal(is_collectible_part);
    reveal(Archetypes::is_explode_particle);
    reveal(Archetypes::is_hit_effect);
    if gone(row.c, ctx) {
        let item = row.c.collectible->0;
        let pos = row.c.transform->0.pos;
        let (sparkles, finale) = choose|sparkles: Seq<Command>, finale: Seq<Command>|
            {
                &&& part == seq![Command::Despawn(row.id)] + sparkles + finale
                &&& #[trigger] is_sparkle_part(sparkles, item.collectible, pos, item.color)
                &&& #[trigger] is_finale(finale, collected(row.c), item, pos)
            };
        assert forall|k: int| 0 <= k < sparkles.len() implies crate::commands::harmless_but(flying, #[trigger] sparkles[k]) by {
            assert(is_sparkle(sparkles[k], pos, item.color));
        }
        if collected(row.c) {
            lemma_celebration_is_harmless(flying, finale, item.collectible, pos, item.size, item.color);
        }
        let head = seq![Command::Despawn(row.id)];
        assert(crate::commands::harmless_but(flying, head[0]));
        crate::commands::lemma_joined_harmless(flying, head, sparkles);
        crate::commands::lemma_joined_harmless(flying, head + sparkles, finale);
    }
}

/// What the pass queues for one collectible despawns nothing but the
/// collectible.
pub proof fn lemma_collectible_part_despawns_own(part: Seq<Command>, row: Row, ctx: StageCtx)
    requires
        is_collectible_part(part, row, ctx),
    ensures
        crate::commands::despawns_own(part, row.id),
{
    reveal(is_collectible_part);
    if gone(row.c, ctx) {
        let item = row.c.collectible->0;
        let pos = row.c.transform->0.pos;
        let (sparkles, finale) = choose|sparkles: Seq<Command>, finale: Seq<Command>|
            {
                &&& part == seq![Command::Despawn(row.id)] + sparkles + finale
                &&& #[trigger] is_sparkle_part(sparkles, item.collectible, pos, item.color)
                &&& #[trigger] is_finale(finale, collected(row.c), item, pos)
            };
        let head = seq![Command::Despawn(row.id)];
        assert forall|k: int| 0 <= k < part.len() && (#[trigger] part[k]) is Despawn implies part[k]->Despawn_0
            == row.id by {
            if k == 0 {
                assert(part[0] == head[0]);
            } else if k < 1 + sparkles.len() {
                assert(part[k] == sparkles[k - 1]);
                assert(is_sparkle(sparkles[k - 1], pos, item.color));
            } else {
                assert(part[k] == finale[k - 1 - sparkles.len()]);
                if collected(row.c) {
                    lemma_celebration_is_harmless(Set::full(), finale, item.collectible, pos, item.size, item.color);
                    assert(finale[k - 1 - sparkles.len()] is Spawn);
                }
            }
        }
    }
}

} // verus!
