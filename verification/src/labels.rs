//! The passes over collectibles and labels: pickups leave labels, labels
//! scramble and fade, and new labels are placed clear of the ones showing.
use vstd::prelude::*;
use crate::color::color_transparent;
use crate::commands::{Command, WorldCommandBuffer, flat, lemma_flat_push};
use crate::components::{Components, EntityId};
use crate::enemy::StageCtx;
use crate::infotext::{FontMetrics, InfoText, clear_of, colors_scrambled, get_closest_position_without_overlapping,
    label_rect, measure_label, text_scrambled};
use crate::pickups::{collected, collectible_step, gone, is_collectible_part, is_pickup_label};
use crate::random::Entropy;
use crate::store::Row;
use crate::vec2::{Rect};

verus! {

/// The indices of the rows whose collectible was picked up this frame.
pub open spec fn picked_rows(rows: Seq<Row>, ctx: StageCtx) -> Seq<int>
    decreases rows.len(),
{
    if rows.len() == 0 {
        Seq::empty()
    } else {
        let before = picked_rows(rows.drop_last(), ctx);
        if gone(rows.last().c, ctx) && collected(rows.last().c) {
            before.push(rows.len() - 1)
        } else {
            before
        }
    }
}

pub proof fn lemma_picked_rows_in_range(rows: Seq<Row>, ctx: StageCtx, k: int)
    requires
        0 <= k < picked_rows(rows, ctx).len(),
    ensures
        0 <= picked_rows(rows, ctx)[k] < rows.len(),
    decreases rows.len(),
{
    if rows.len() > 0 {
        let before = picked_rows(rows.drop_last(), ctx);
        if k < before.len() {
            lemma_picked_rows_in_range(rows.drop_last(), ctx, k);
        }
    }
}

/// There is one label for each pickup, in the order of the rows.
#[verifier::opaque]
pub open spec fn labels_match(labels: Seq<InfoText>, rows: Seq<Row>, ctx: StageCtx) -> bool {
    &&& labels.len() == picked_rows(rows, ctx).len()
    &&& forall|k: int|
        0 <= k < labels.len() ==> is_pickup_label(#[trigger] labels[k], rows[picked_rows(rows, ctx)[k]].c)
}

#[verifier::opaque]
pub open spec fn collectible_pass_done(rows: Seq<Row>, queue_before: Seq<Command>, queue_after: Seq<Command>, ctx: StageCtx) -> bool {
    exists|parts: Seq<Seq<Command>>|
        {
            &&& parts.len() == rows.len()
            &&& queue_after == queue_before + flat(parts)
            &&& forall|i: int| 0 <= i < rows.len() ==> is_collectible_part(#[trigger] parts[i], rows[i], ctx)
        }
}

/// Ends every collectible that was picked up or lost. Returns a label for
/// each pickup.
#[verifier::rlimit(50)]
pub fn collectible_pass(rows: &Vec<Row>, ctx: &StageCtx, entropy: &mut Entropy, commands: &mut WorldCommandBuffer) -> (labels: Vec<InfoText>)
    ensures
        collectible_pass_done(rows@, old(commands)@, final(commands)@, *ctx),
        labels_match(labels@, rows@, *ctx),
{
    reveal(collectible_pass_done);
    reveal(labels_match);
    let mut labels: Vec<InfoText> = Vec::new();
    let ghost mut parts: Seq<Seq<Command>> = Seq::empty();
    let mut i: usize = 0;
    assert(old(commands)@ + flat(parts) =~= old(commands)@);
    assert(rows@.take(0) == Seq::<Row>::empty());
    while i < rows.len()
        invariant
            i <= rows@.len(),
            parts.len() == i,
            commands@ == old(commands)@ + flat(parts),
            forall|j: int| 0 <= j < i ==> is_collectible_part(#[trigger] parts[j], rows@[j], *ctx),
            labels_match(labels@, rows@.take(i as int), *ctx),
        decreases rows@.len() - i,
    {
        let ghost base = commands@;
        let ghost labels_before = labels@;
        proof {
            reveal(labels_match);
        }
        collectible_step(&rows[i], ctx, entropy, commands, &mut labels);
        proof {
            let part = commands@.skip(base.len() as int);
            assert(commands@ =~= base + part);
            lemma_flat_push(parts, part);
            parts = parts.push(part);
            assert(commands@ =~= old(commands)@ + flat(parts));
            let head = rows@.take(i as int);
            let next = rows@.take(i as int + 1);
            assert(next.drop_last() == head);
            assert(next.last() == rows@[i as int]);
            assert forall|k: int| 0 <= k < labels@.len() implies is_pickup_label(
                #[trigger] labels@[k],
                next[picked_rows(next, *ctx)[k]].c,
            ) by {
                if k < labels_before.len() {
                    assert(labels@[k] == labels_before[k]);
                    lemma_picked_rows_in_range(head, *ctx, k);
                    assert(picked_rows(next, *ctx)[k] == picked_rows(head, *ctx)[k]);
                    assert(next[picked_rows(head, *ctx)[k]] == head[picked_rows(head, *ctx)[k]]);
                }
            }
        }
        i = i + 1;
    }
    assert(rows@.take(rows@.len() as int) == rows@);
    labels
}

/// Whether a label reaches the end of its life with this update.
pub open spec fn label_done(c: Components, dt: i64) -> bool {
    c.infotext is Some && c.infotext->0.timer.advanced(dt as int).finished()
}

pub open spec fn label_commands(rows: Seq<Row>, dt: i64) -> Seq<Command>
    decreases rows.len(),
{
    if rows.len() == 0 {
        Seq::empty()
    } else {
        label_commands(rows.drop_last(), dt) + if label_done(rows.last().c, dt) {
            seq![Command::Despawn(rows.last().id)]
        } else {
            Seq::empty()
        }
    }
}

/// How a label changes with one update.
pub open spec fn label_updated(before: InfoText, after: InfoText, dt: i64) -> bool {
    &&& after.pos == before.pos
    &&& after.color == before.color
    &&& after.timer == before.timer.advanced(dt as int)
    &&& after.blinker == before.blinker.stepped(dt as int)
    &&& after.char_switcher == before.char_switcher.stepped(dt as int)
    &&& before.wf() ==> after.wf()
    &&& if before.char_switcher.fires(dt as int) {
        &&& text_scrambled(before.text@, after.text@)
        &&& before.wf() ==> colors_scrambled(after.text_color_foreground@, before.text@.len() as int, before.color)
        &&& before.wf() ==> colors_scrambled(
            after.text_color_background@,
            before.text@.len() as int,
            color_transparent(),
        )
    } else {
        &&& after.text@ == before.text@
        &&& after.text_color_foreground@ == before.text_color_foreground@
        &&& after.text_color_background@ == before.text_color_background@
    }
}

/// How the label pass changes one row.
pub open spec fn label_row(before: Row, after: Row, dt: i64) -> bool {
    &&& after.id == before.id
    &&& after.c == (Components { infotext: after.c.infotext, ..before.c })
    &&& match before.c.infotext {
        Some(label) => after.c.infotext is Some && label_updated(label, after.c.infotext->0, dt),
        None => after.c.infotext is None,
    }
}

#[verifier::opaque]
pub open spec fn label_rows(before: Seq<Row>, after: Seq<Row>, dt: i64) -> bool {
    &&& after.len() == before.len()
    &&& forall|i: int| 0 <= i < before.len() ==> label_row(before[i], #[trigger] after[i], dt)
}

/// Advances every label and queues the despawn of those that are done.
pub fn infotext_pass(rows: &mut Vec<Row>, entropy: &mut Entropy, deltatime: i64, commands: &mut WorldCommandBuffer)
    ensures
        label_rows(old(rows)@, final(rows)@, deltatime),
        final(commands)@ == old(commands)@ + label_commands(old(rows)@, deltatime),
{
    reveal(label_rows);
    let n: usize = rows.len();
    let mut i: usize = 0;
    assert(old(rows)@.take(0) == Seq::<Row>::empty());
    while i < n
        invariant
            i <= n,
            n == rows@.len(),
            n == old(rows)@.len(),
            forall|j: int| 0 <= j < i ==> label_row(old(rows)@[j], #[trigger] rows@[j], deltatime),
            forall|j: int| i <= j < n ==> rows@[j] == old(rows)@[j],
            commands@ == old(commands)@ + label_commands(old(rows)@.take(i as int), deltatime),
        decreases n - i,
    {
        let row = &mut rows[i];
        let id: EntityId = row.id;
        let mut done: bool = false;
        match &mut row.c.infotext {
            Some(label) => {
                let (finished, _visible): (bool, bool) = label.update_and_check_if_finished(entropy, deltatime);
                done = finished;
            },
            None => {},
        }
        if done {
            commands.remove_entity(id);
        }
        proof {
            assert(old(rows)@.take(i as int + 1).drop_last() == old(rows)@.take(i as int));
            assert(commands@ =~= old(commands)@ + label_commands(old(rows)@.take(i as int + 1), deltatime));
        }
        i = i + 1;
    }
    assert(old(rows)@.take(n as int) == old(rows)@);
}

/// The bounding boxes of the labels that show in this frame, in the order
/// of the rows.
pub open spec fn showing_rects(rows: Seq<Row>, font: FontMetrics) -> Seq<Rect>
    decreases rows.len(),
{
    if rows.len() == 0 {
        Seq::empty()
    } else {
        let before = showing_rects(rows.drop_last(), font);
        match rows.last().c.infotext {
            Some(label) => if label.blinker.state {
                before.push(label_rect(label.pos, label.text@.len() as int, font))
            } else {
                before
            },
            None => before,
        }
    }
}

pub fn showing_label_rects(rows: &Vec<Row>, font: &FontMetrics) -> (rects: Vec<Rect>)
    ensures
        rects@ == showing_rects(rows@, *font),
{
    let mut rects: Vec<Rect> = Vec::new();
    let mut i: usize = 0;
    assert(rows@.take(0) == Seq::<Row>::empty());
    while i < rows.len()
        invariant
            i <= rows@.len(),
            rects@ == showing_rects(rows@.take(i as int), *font),
        decreases rows@.len() - i,
    {
        assert(rows@.take(i as int + 1).drop_last() == rows@.take(i as int));
        match &rows[i].c.infotext {
            Some(label) => {
                if label.blinker.state {
                    rects.push(measure_label(label.pos, label.text.len(), font));
                }
            },
            None => {},
        }
        i = i + 1;
    }
    assert(rows@.take(rows@.len() as int) == rows@);
    rects
}

/// Moves a new label clear of the labels that are showing, as far as a
/// clear place is found near it.
pub fn place_label(label: &mut InfoText, showing: &Vec<Rect>, font: &FontMetrics)
    ensures
        *final(label) == (InfoText {
            pos: crate::infotext::closest_clear(
                label_rect(old(label).pos, old(label).text@.len() as int, *font),
                showing@,
            ),
            ..*old(label)
        }),
        final(label).pos.x == old(label).pos.x,
        clear_of(label_rect(old(label).pos, old(label).text@.len() as int, *font), showing@) ==> final(label).pos
            == old(label).pos,
        final(label).pos == old(label).pos || clear_of(
            label_rect(final(label).pos, old(label).text@.len() as int, *font),
            showing@,
        ),
{
    let rect: Rect = measure_label(label.pos, label.text.len(), font);
    label.pos = get_closest_position_without_overlapping(rect, showing);
}

/// The label pass queues nothing but despawns.
pub proof fn lemma_labels_are_harmless(flying: Set<crate::components::Components>, rows: Seq<Row>, dt: i64)
    ensures
        crate::commands::all_harmless_but(flying, label_commands(rows, dt)),
    decreases rows.len(),
{
    if rows.len() > 0 {
        lemma_labels_are_harmless(flying, rows.drop_last(), dt);
        let more = if label_done(rows.last().c, dt) {
            seq![Command::Despawn(rows.last().id)]
        } else {
            Seq::empty()
        };
        crate::commands::lemma_joined_harmless(flying, label_commands(rows.drop_last(), dt), more);
    }
}

/// The collectible pass brings no ship and no projectile into the game.
pub proof fn lemma_collectibles_are_harmless(
    flying: Set<crate::components::Components>,
    rows: Seq<Row>,
    queue_before: Seq<Command>,
    queue_after: Seq<Command>,
    ctx: StageCtx,
)
    requires
        collectible_pass_done(rows, queue_before, queue_after, ctx),
        crate::commands::all_harmless_but(flying, queue_before),
    ensures
        crate::commands::all_harmless_but(flying, queue_after),
{
    reveal(collectible_pass_done);
    let parts = choose|parts: Seq<Seq<Command>>|
        {
            &&& parts.len() == rows.len()
            &&& queue_after == queue_before + flat(parts)
            &&& forall|i: int| 0 <= i < rows.len() ==> is_collectible_part(#[trigger] parts[i], rows[i], ctx)
        };
    assert forall|i: int| 0 <= i < parts.len() implies crate::commands::all_harmless_but(flying, #[trigger] parts[i]) by {
        crate::pickups::lemma_collectible_part_is_harmless(flying, parts[i], rows[i], ctx);
    }
    crate::commands::lemma_flat_harmless(flying, parts);
    crate::commands::lemma_joined_harmless(flying, queue_before, flat(parts));
}

/// The label pass despawns none but entities of its rows.
pub proof fn lemma_labels_within(rows: Seq<Row>, dt: i64, ids: Set<u64>)
    requires
        forall|i: int| 0 <= i < rows.len() ==> ids.contains(#[trigger] rows[i].id),
    ensures
        crate::commands::despawns_within(label_commands(rows, dt), ids),
    decreases rows.len(),
{
    if rows.len() > 0 {
        let head = rows.drop_last();
        assert forall|i: int| 0 <= i < head.len() implies ids.contains(#[trigger] head[i].id) by {
            assert(head[i] == rows[i]);
        }
        lemma_labels_within(head, dt, ids);
        assert(ids.contains(rows[rows.len() - 1].id));
        let more = if label_done(rows.last().c, dt) {
            seq![Command::Despawn(rows.last().id)]
        } else {
            Seq::empty()
        };
        crate::commands::lemma_joined_within(label_commands(head, dt), more, ids);
    }
}

/// The collectible pass despawns none but entities of its rows.
pub proof fn lemma_collectibles_within(
    rows: Seq<Row>,
    queue_before: Seq<Command>,
    queue_after: Seq<Command>,
    ctx: StageCtx,
    ids: Set<u64>,
)
    requires
        collectible_pass_done(rows, queue_before, queue_after, ctx),
        crate::commands::despawns_within(queue_before, ids),
        forall|i: int| 0 <= i < rows.len() ==> ids.contains(#[trigger] rows[i].id),
    ensures
        crate::commands::despawns_within(queue_after, ids),
{
    reveal(collectible_pass_done);
    let parts = choose|parts: Seq<Seq<Command>>|
        {
            &&& parts.len() == rows.len()
            &&& queue_after == queue_before + flat(parts)
            &&& forall|i: int| 0 <= i < rows.len() ==> is_collectible_part(#[trigger] parts[i], rows[i], ctx)
        };
    assert forall|i: int| 0 <= i < parts.len() implies crate::commands::despawns_within(#[trigger] parts[i], ids) by {
        crate::pickups::lemma_collectible_part_despawns_own(parts[i], rows[i], ctx);
        crate::commands::lemma_own_is_within(parts[i], rows[i].id, ids);
    }
    crate::commands::lemma_flat_within(parts, ids);
    crate::commands::lemma_joined_within(queue_before, flat(parts), ids);
}

} // verus!
