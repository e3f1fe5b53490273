//! Turns drawables into draw calls for the host's renderer.
use vstd::prelude::*;
use crate::color::Color;
use crate::components::{BlendMode, Drawable, EnemyChargeParticle, MeshType, TextAlignment, Transform,
    DEPTH_EFFECTS};
use crate::fixed::{UNIT, fx_add, fx_lerp, fx_mul, sadd, slerp, smul, tdiv};
use crate::random::{Entropy, pick_range};
use crate::shooting::{model_point, model_point_exec};
use crate::store::Row;
use crate::vec2::{Rect, Vec2};

verus! {

/// Paint order, color and blend mode of a draw call.
#[derive(Clone, Copy, Debug, PartialEq, Eq, Structural)]
pub struct Paint {
    /// Calls with a higher depth are painted later, on top.
    pub depth: i64,
    pub color: Color,
    pub additivity: BlendMode,
}

/// One call to the renderer.
#[derive(Clone, Debug, PartialEq, Eq)]
pub enum DrawCall {
    Circle { center: Vec2, radius: i64, filled: bool, paint: Paint },
    Rect { rect: Rect, filled: bool, paint: Paint },
    RectTransformed { dim: Vec2, pivot: Vec2, pos: Vec2, scale: Vec2, dir: Vec2, paint: Paint },
    Linestrip { points: Vec<Vec2>, paint: Paint },
    Line { start: Vec2, end: Vec2, thickness: i64, smooth_edges: bool, paint: Paint },
    Text {
        text: String,
        font_name: String,
        font_scale: i64,
        pos: Vec2,
        alignment: Option<TextAlignment>,
        color_background: Option<Color>,
        paint: Paint,
    },
}

pub open spec fn paint_of(d: Drawable) -> Paint {
    Paint { depth: d.depth, color: d.color, additivity: d.additivity }
}

/// Half of a size, rounded toward zero.
pub open spec fn half(v: i64) -> i64 {
    tdiv(v as int, 2) as i64
}

/// The rectangle of the given size at `pos`, moved so that `pos` is its
/// center if `centered`, and then moved by `pivot`.
pub open spec fn placed_rect(pos: Vec2, width: i64, height: i64, centered: bool, pivot: Vec2) -> Rect {
    let corner = if centered {
        pos.minus_spec(Vec2 { x: half(width), y: half(height) })
    } else {
        pos
    };
    Rect { pos: corner.plus_spec(pivot), dim: Vec2 { x: width, y: height } }
}

/// The outline of a rectangle: its corners clockwise from the top left,
/// and the top left again.
pub open spec fn outline(r: Rect) -> Seq<Vec2> {
    let right = sadd(r.pos.x, r.dim.x);
    let bottom = sadd(r.pos.y, r.dim.y);
    seq![
        r.pos,
        Vec2 { x: right, y: r.pos.y },
        Vec2 { x: right, y: bottom },
        Vec2 { x: r.pos.x, y: bottom },
        r.pos,
    ]
}

pub fn rect_outline(r: &Rect) -> (points: Vec<Vec2>)
    ensures
        points@ == outline(*r),
{
    let right: i64 = fx_add(r.pos.x, r.dim.x);
    let bottom: i64 = fx_add(r.pos.y, r.dim.y);
    let mut points: Vec<Vec2> = Vec::new();
    points.push(r.pos);
    points.push(Vec2 { x: right, y: r.pos.y });
    points.push(Vec2 { x: right, y: bottom });
    points.push(Vec2 { x: r.pos.x, y: bottom });
    points.push(r.pos);
    assert(points@ =~= outline(*r));
    points
}

/// The point lies up to one unit to the right of and below `exact`.
pub open spec fn jittered(exact: Vec2, placed: Vec2) -> bool {
    exists|off: Vec2| 0 <= off.x <= UNIT && 0 <= off.y <= UNIT && placed == #[trigger] off.plus_spec(exact)
}

/// How a model point appears in the scene: carried into it exactly, or
/// with jitter.
pub open spec fn point_placed(p: Vec2, placed: Vec2, pos: Vec2, pivot: Vec2, scale: Vec2, dir: Vec2, jitter: bool) -> bool {
    let exact = p.transformed_spec(pivot, pos, scale, dir);
    if jitter {
        jittered(exact, placed)
    } else {
        placed == exact
    }
}

/// How a strip of model points appears in the scene, point by point.
pub open spec fn strip_placed(
    points: Seq<Vec2>,
    placed: Seq<Vec2>,
    pos: Vec2,
    pivot: Vec2,
    scale: Vec2,
    dir: Vec2,
    jitter: bool,
) -> bool {
    &&& placed.len() == points.len()
    &&& forall|k: int|
        0 <= k < points.len() ==> point_placed(points[k], #[trigger] placed[k], pos, pivot, scale, dir, jitter)
}

/// The offset that jitter gives the `k`-th point of a strip that is
/// placed after `from` draws. Each point takes two draws: the first
/// selects the offset along x, the second the one along y.
pub open spec fn jitter_at(entropy: Entropy, from: nat, k: int) -> Vec2 {
    Vec2 {
        x: pick_range(entropy.word_after((from + 2 * k) as nat), 0, UNIT),
        y: pick_range(entropy.word_after((from + 2 * k + 1) as nat), 0, UNIT),
    }
}

/// How a strip of model points appears in the scene with jitter, where
/// the words after `from` draws select the jitter: every point is carried
/// into the scene and moved by its offset.
pub open spec fn strip_jittered(
    points: Seq<Vec2>,
    placed: Seq<Vec2>,
    pos: Vec2,
    pivot: Vec2,
    scale: Vec2,
    dir: Vec2,
    entropy: Entropy,
    from: nat,
) -> bool {
    &&& placed.len() == points.len()
    &&& forall|k: int|
        0 <= k < points.len() ==> #[trigger] placed[k] == jitter_at(entropy, from, k).plus_spec(
            points[k].transformed_spec(pivot, pos, scale, dir),
        )
}

/// The draws that a strip of `len` points takes: two for each point if
/// it jitters, none if not.
pub open spec fn strip_draws(len: nat, jitter: bool) -> nat {
    if jitter {
        2 * len
    } else {
        0
    }
}

/// Carries a strip of points from model into scene coordinates. With
/// jitter every point is moved by an offset that the next two words
/// select; without it no word is drawn.
pub fn linestrip_transform(
    linestrip: &Vec<Vec2>,
    pos: Vec2,
    pivot: Vec2,
    scale: Vec2,
    dir: Vec2,
    jitter: bool,
    entropy: &mut Entropy,
) -> (placed: Vec<Vec2>)
    ensures
        strip_placed(linestrip@, placed@, pos, pivot, scale, dir, jitter),
        jitter ==> strip_jittered(linestrip@, placed@, pos, pivot, scale, dir, *old(entropy), 0),
        old(entropy).drawn(final(entropy), strip_draws(linestrip@.len(), jitter)),
{
    let ghost start = *entropy;
    let mut placed: Vec<Vec2> = Vec::new();
    let mut k: usize = 0;
    while k < linestrip.len()
        invariant
            k <= linestrip@.len(),
            strip_placed(linestrip@.take(k as int), placed@, pos, pivot, scale, dir, jitter),
            placed@.len() == k,
            jitter ==> forall|j: int|
                0 <= j < k ==> #[trigger] placed@[j] == jitter_at(start, 0, j).plus_spec(
                    linestrip@[j].transformed_spec(pivot, pos, scale, dir),
                ),
            start.drawn(entropy, strip_draws(k as nat, jitter)),
        decreases linestrip@.len() - k,
    {
        let exact: Vec2 = linestrip[k].transformed(pivot, pos, scale, dir);
        let ghost before = placed@;
        if jitter {
            let ghost first = *entropy;
            let x: i64 = entropy.range(0, UNIT);
            let ghost second = *entropy;
            let y: i64 = entropy.range(0, UNIT);
            proof {
                start.lemma_draw_after(&first, &second, (2 * k) as nat);
                start.lemma_draw_after(&second, entropy, (2 * k + 1) as nat);
            }
            let off: Vec2 = Vec2 { x, y };
            assert(off == jitter_at(start, 0, k as int));
            placed.push(off.plus(exact));
        } else {
            placed.push(exact);
        }
        proof {
            let head = linestrip@.take(k as int);
            let next = linestrip@.take(k as int + 1);
            assert forall|j: int| 0 <= j < next.len() implies point_placed(
                next[j],
                #[trigger] placed@[j],
                pos,
                pivot,
                scale,
                dir,
                jitter,
            ) by {
                if j < k {
                    assert(next[j] == head[j]);
                    assert(placed@[j] == before[j]);
                    assert(point_placed(head[j], before[j], pos, pivot, scale, dir, jitter));
                }
            }
        }
        k = k + 1;
    }
    assert(linestrip@.take(linestrip@.len() as int) == linestrip@);
    placed
}

/// The points of a model outline in scene units.
pub open spec fn model_strip(points: Seq<(i32, i32)>) -> Seq<Vec2> {
    Seq::new(points.len(), |k: int| model_point(points[k]))
}

pub fn model_strip_exec(points: &Vec<(i32, i32)>) -> (strip: Vec<Vec2>)
    ensures
        strip@ == model_strip(points@),
{
    let mut strip: Vec<Vec2> = Vec::new();
    let mut k: usize = 0;
    while k < points.len()
        invariant
            k <= points@.len(),
            strip@.len() == k,
            forall|j: int| 0 <= j < k ==> strip@[j] == model_point(points@[j]),
        decreases points@.len() - k,
    {
        strip.push(model_point_exec(points[k]));
        k = k + 1;
    }
    assert(strip@ =~= model_strip(points@));
    strip
}

/// The points of all the strips together.
pub open spec fn strips_points(strips: Seq<Vec<(i32, i32)>>) -> nat
    decreases strips.len(),
{
    if strips.len() == 0 {
        0
    } else {
        strips_points(strips.drop_last()) + strips.last()@.len()
    }
}

/// The draws that drawing a drawable takes: two for each point of an
/// outline that shows and jitters, none for anything else.
pub open spec fn jitter_draws(d: Drawable) -> nat {
    if d.visible && d.add_jitter {
        match d.mesh {
            MeshType::Linestrip(points) => 2 * points@.len(),
            MeshType::Linestrips(strips) => 2 * strips_points(strips@),
            _ => 0,
        }
    } else {
        0
    }
}

/// The direction that a drawable faces on an entity with pose `t`.
pub open spec fn facing(t: Transform, d: Drawable) -> Vec2 {
    Vec2::from_angle_spec(sadd(t.dir_angle, d.dir_angle_offset))
}

/// A call that draws a strip of points of the drawable.
pub open spec fn is_strip_call(call: DrawCall, points: Seq<Vec2>, t: Transform, d: Drawable, jitter: bool) -> bool {
    &&& call is Linestrip
    &&& call->Linestrip_paint == paint_of(d)
    &&& strip_placed(points, call->Linestrip_points@, t.pos, d.pos_offset, d.scale, facing(t, d), jitter)
}

/// The jitter of the drawn outlines is the one that the words of
/// `entropy` select, strip after strip and point after point.
pub open spec fn is_jittered(calls: Seq<DrawCall>, t: Transform, d: Drawable, entropy: Entropy) -> bool {
    if d.visible && d.add_jitter {
        match d.mesh {
            MeshType::Linestrip(points) => {
                &&& calls.len() == 1
                &&& calls[0] is Linestrip
                &&& strip_jittered(
                    points@,
                    calls[0]->Linestrip_points@,
                    t.pos,
                    d.pos_offset,
                    d.scale,
                    facing(t, d),
                    entropy,
                    0,
                )
            },
            MeshType::Linestrips(strips) => {
                &&& calls.len() == strips@.len()
                &&& forall|j: int|
                    0 <= j < strips@.len() ==> (#[trigger] calls[j]) is Linestrip && strip_jittered(
                        model_strip(strips@[j]@),
                        calls[j]->Linestrip_points@,
                        t.pos,
                        d.pos_offset,
                        d.scale,
                        facing(t, d),
                        entropy,
                        2 * strips_points(strips@.take(j)),
                    )
            },
            _ => true,
        }
    } else {
        true
    }
}

/// The calls that draw one drawable of an entity with pose `t`. A hidden
/// drawable draws nothing. Circles and rectangles stay upright; only
/// outlines can jitter.
pub open spec fn is_drawn(calls: Seq<DrawCall>, t: Transform, d: Drawable) -> bool {
    if !d.visible {
        calls.len() == 0
    } else {
        match d.mesh {
            MeshType::Circle { radius, filled } => calls == seq![
                DrawCall::Circle { center: t.pos, radius: smul(d.scale.x, radius), filled, paint: paint_of(d) },
            ],
            MeshType::Rectangle { width, height, filled, centered } => calls == seq![
                DrawCall::Rect {
                    rect: placed_rect(t.pos, smul(d.scale.x, width), smul(d.scale.y, height), centered, d.pos_offset),
                    filled,
                    paint: paint_of(d),
                },
            ],
            MeshType::RectangleTransformed { width, height, filled, centered } => {
                &&& calls.len() == 1
                &&& if filled {
                    calls[0] == (DrawCall::RectTransformed {
                        dim: Vec2 { x: width, y: height },
                        pivot: if centered {
                            d.pos_offset.plus_spec(Vec2 { x: half(width), y: half(height) })
                        } else {
                            d.pos_offset
                        },
                        pos: t.pos,
                        scale: d.scale,
                        dir: facing(t, d),
                        paint: paint_of(d),
                    })
                } else {
                    is_strip_call(
                        calls[0],
                        outline(
                            placed_rect(
                                if centered { Vec2 { x: 0, y: 0 } } else { t.pos },
                                width,
                                height,
                                centered,
                                Vec2 { x: 0, y: 0 },
                            ),
                        ),
                        t,
                        d,
                        false,
                    )
                }
            },
            MeshType::Linestrips(strips) => {
                &&& calls.len() == strips@.len()
                &&& forall|k: int|
                    0 <= k < calls.len() ==> is_strip_call(
                        #[trigger] calls[k],
                        model_strip(strips@[k]@),
                        t,
                        d,
                        d.add_jitter,
                    )
            },
            MeshType::Linestrip(points) => {
                &&& calls.len() == 1
                &&& is_strip_call(calls[0], points@, t, d, d.add_jitter)
            },
            MeshType::LineWithThickness { length, thickness, smooth_edges, centered } => calls == seq![
                DrawCall::Line {
                    start: if centered {
                        t.pos.minus_spec(facing(t, d).scaled_spec(half(length)))
                    } else {
                        t.pos
                    },
                    end: if centered {
                        t.pos.plus_spec(facing(t, d).scaled_spec(half(length)))
                    } else {
                        t.pos.plus_spec(facing(t, d).scaled_spec(length))
                    },
                    thickness,
                    smooth_edges,
                    paint: paint_of(d),
                },
            ],
            MeshType::Text { text, font_name, font_scale, alignment, color_background } => {
                &&& calls.len() == 1
                &&& calls[0] is Text
                &&& calls[0]->Text_text@ == text@
                &&& calls[0]->Text_font_name@ == font_name@
                &&& calls[0]->font_scale == font_scale
                &&& calls[0]->Text_pos == t.pos
                &&& calls[0]->alignment == alignment
                &&& calls[0]->color_background == color_background
                &&& calls[0]->Text_paint == paint_of(d)
            },
        }
    }
}

fn place_rect(pos: Vec2, width: i64, height: i64, centered: bool, pivot: Vec2) -> (r: Rect)
    ensures
        r == placed_rect(pos, width, height, centered, pivot),
{
    let corner: Vec2 = if centered {
        pos.minus(Vec2 { x: width / 2, y: height / 2 })
    } else {
        pos
    };
    Rect { pos: corner.plus(pivot), dim: Vec2 { x: width, y: height } }
}

/// Queues the draw calls for one drawable of an entity with pose `xform`.
#[verifier::rlimit(50)]
pub fn draw_drawable(calls: &mut Vec<DrawCall>, entropy: &mut Entropy, xform: &Transform, drawable: &Drawable)
    ensures
        final(calls)@.len() >= old(calls)@.len(),
        final(calls)@.take(old(calls)@.len() as int) == old(calls)@,
        is_drawn(final(calls)@.skip(old(calls)@.len() as int), *xform, *drawable),
        is_jittered(final(calls)@.skip(old(calls)@.len() as int), *xform, *drawable, *old(entropy)),
        old(entropy).drawn(final(entropy), jitter_draws(*drawable)),
{
    let ghost base = calls@;
    let ghost start = *entropy;
    assert(calls@.take(base.len() as int) =~= base);
    if !drawable.visible {
        return ;
    }
    let pos: Vec2 = xform.pos;
    let scale: Vec2 = drawable.scale;
    let dir: Vec2 = Vec2::from_angle_flipped_y(fx_add(xform.dir_angle, drawable.dir_angle_offset));
    let pivot: Vec2 = drawable.pos_offset;
    let paint: Paint = Paint { depth: drawable.depth, color: drawable.color, additivity: drawable.additivity };
    match &drawable.mesh {
        MeshType::Circle { radius, filled } => {
            calls.push(DrawCall::Circle { center: pos, radius: fx_mul(scale.x, *radius), filled: *filled, paint });
            assert(calls@.skip(base.len() as int) =~= seq![calls@[base.len() as int]]);
        },
        MeshType::Rectangle { width, height, filled, centered } => {
            let rect: Rect = place_rect(pos, fx_mul(scale.x, *width), fx_mul(scale.y, *height), *centered, pivot);
            calls.push(DrawCall::Rect { rect, filled: *filled, paint });
            assert(calls@.skip(base.len() as int) =~= seq![calls@[base.len() as int]]);
        },
        MeshType::RectangleTransformed { width, height, filled, centered } => {
            if *filled {
                let center_offset: Vec2 = if *centered {
                    Vec2 { x: *width / 2, y: *height / 2 }
                } else {
                    Vec2::zero()
                };
                calls.push(
                    DrawCall::RectTransformed {
                        dim: Vec2 { x: *width, y: *height },
                        pivot: if *centered { pivot.plus(center_offset) } else { pivot },
                        pos,
                        scale,
                        dir,
                        paint,
                    },
                );
            } else {
                let rect: Rect = place_rect(
                    if *centered { Vec2::zero() } else { pos },
                    *width,
                    *height,
                    *centered,
                    Vec2::zero(),
                );
                let corners: Vec<Vec2> = rect_outline(&rect);
                let points: Vec<Vec2> = linestrip_transform(&corners, pos, pivot, scale, dir, false, entropy);
                calls.push(DrawCall::Linestrip { points, paint });
            }
            assert(calls@.skip(base.len() as int)[0] == calls@[base.len() as int]);
        },
        MeshType::Linestrips(strips) => {
            let mut k: usize = 0;
            while k < strips.len()
                invariant
                    k <= strips@.len(),
                    calls@.len() == base.len() + k,
                    calls@.take(base.len() as int) == base,
                    dir == facing(*xform, *drawable),
                    pos == xform.pos,
                    pivot == drawable.pos_offset,
                    scale == drawable.scale,
                    paint == paint_of(*drawable),
                    start.drawn(entropy, strip_draws(strips_points(strips@.take(k as int)), drawable.add_jitter)),
                    drawable.add_jitter ==> forall|j: int|
                        0 <= j < k ==> (#[trigger] calls@[base.len() + j]) is Linestrip && strip_jittered(
                            model_strip(strips@[j]@),
                            calls@[base.len() + j]->Linestrip_points@,
                            pos,
                            pivot,
                            scale,
                            dir,
                            start,
                            2 * strips_points(strips@.take(j)),
                        ),
                    forall|j: int|
                        0 <= j < k ==> is_strip_call(
                            #[trigger] calls@[base.len() + j],
                            model_strip(strips@[j]@),
                            *xform,
                            *drawable,
                            drawable.add_jitter,
                        ),
                decreases strips@.len() - k,
            {
                let ghost before = calls@;
                let ghost mid = *entropy;
                let raw: Vec<Vec2> = model_strip_exec(&strips[k]);
                let points: Vec<Vec2> = linestrip_transform(&raw, pos, pivot, scale, dir, drawable.add_jitter, entropy);
                calls.push(DrawCall::Linestrip { points, paint });
                proof {
                    if drawable.add_jitter {
                        let from = 2 * strips_points(strips@.take(k as int));
                        assert forall|j: int| 0 <= j < k + 1 implies (#[trigger] calls@[base.len() + j]) is Linestrip
                            && strip_jittered(
                            model_strip(strips@[j]@),
                            calls@[base.len() + j]->Linestrip_points@,
                            pos,
                            pivot,
                            scale,
                            dir,
                            start,
                            2 * strips_points(strips@.take(j)),
                        ) by {
                            if j < k {
                                assert(calls@[base.len() + j] == before[base.len() + j]);
                            } else {
                                assert forall|n: int| 0 <= n < raw@.len() implies #[trigger] points@[n] == jitter_at(
                                    start,
                                    from,
                                    n,
                                ).plus_spec(raw@[n].transformed_spec(pivot, pos, scale, dir)) by {
                                    start.lemma_position_shift(&mid, from, (2 * n) as nat);
                                    start.lemma_position_shift(&mid, from, (2 * n + 1) as nat);
                                    assert(points@[n] == jitter_at(mid, 0, n).plus_spec(
                                        raw@[n].transformed_spec(pivot, pos, scale, dir),
                                    ));
                                }
                            }
                        }
                    }
                    assert(strips@.take(k as int + 1).drop_last() == strips@.take(k as int));
                    start.lemma_draws_add(
                        &mid,
                        entropy,
                        strip_draws(strips_points(strips@.take(k as int)), drawable.add_jitter),
                        strip_draws(raw@.len(), drawable.add_jitter),
                    );
                    assert(calls@.take(base.len() as int) =~= before.take(base.len() as int));
                    assert forall|j: int| 0 <= j < k + 1 implies is_strip_call(
                        #[trigger] calls@[base.len() + j],
                        model_strip(strips@[j]@),
                        *xform,
                        *drawable,
                        drawable.add_jitter,
                    ) by {
                        if j < k {
                            assert(calls@[base.len() + j] == before[base.len() + j]);
                        }
                    }
                }
                k = k + 1;
            }
            proof {
                assert(strips@.take(strips@.len() as int) == strips@);
                let part = calls@.skip(base.len() as int);
                if drawable.add_jitter {
                    assert forall|j: int| 0 <= j < strips@.len() implies (#[trigger] part[j]) is Linestrip
                        && strip_jittered(
                        model_strip(strips@[j]@),
                        part[j]->Linestrip_points@,
                        pos,
                        pivot,
                        scale,
                        dir,
                        start,
                        2 * strips_points(strips@.take(j)),
                    ) by {
                        assert(part[j] == calls@[base.len() + j]);
                    }
                }
                assert forall|j: int| 0 <= j < part.len() implies is_strip_call(
                    #[trigger] part[j],
                    model_strip(strips@[j]@),
                    *xform,
                    *drawable,
                    drawable.add_jitter,
                ) by {
                    assert(part[j] == calls@[base.len() + j]);
                }
            }
        },
        MeshType::Linestrip(raw) => {
            let points: Vec<Vec2> = linestrip_transform(raw, pos, pivot, scale, dir, drawable.add_jitter, entropy);
            calls.push(DrawCall::Linestrip { points, paint });
            assert(calls@.skip(base.len() as int)[0] == calls@[base.len() as int]);
        },
        MeshType::LineWithThickness { length, thickness, smooth_edges, centered } => {
            let (start, end): (Vec2, Vec2) = if *centered {
                (pos.minus(dir.scaled(*length / 2)), pos.plus(dir.scaled(*length / 2)))
            } else {
                (pos, pos.plus(dir.scaled(*length)))
            };
            calls.push(DrawCall::Line { start, end, thickness: *thickness, smooth_edges: *smooth_edges, paint });
            assert(calls@.skip(base.len() as int) =~= seq![calls@[base.len() as int]]);
        },
        MeshType::Text { text, font_name, font_scale, alignment, color_background } => {
            calls.push(
                DrawCall::Text {
                    text: text.clone(),
                    font_name: font_name.clone(),
                    font_scale: *font_scale,
                    pos,
                    alignment: *alignment,
                    color_background: *color_background,
                    paint,
                },
            );
            assert(calls@.skip(base.len() as int)[0] == calls@[base.len() as int]);
        },
    }
}

/// Where a charge spark is and how big: it moves from where it started to
/// the muzzle and shrinks on the way.
pub open spec fn spark_sprite(spark: EnemyChargeParticle) -> (Vec2, i64) {
    let share = spark.timer.ratio() as i64;
    (Vec2::lerp_spec(spark.start_pos, spark.muzzle_pos, share), slerp(spark.size, 0, share))
}

/// The call that draws a charge spark: a small square on its corner.
pub open spec fn spark_call(spark: EnemyChargeParticle) -> DrawCall {
    let (pos, size) = spark_sprite(spark);
    DrawCall::RectTransformed {
        dim: Vec2 { x: size, y: size },
        pivot: Vec2 { x: half(size), y: half(size) },
        pos,
        scale: Vec2 { x: UNIT, y: UNIT },
        dir: Vec2::from_angle_spec(45_000_000),
        paint: Paint { depth: DEPTH_EFFECTS, color: crate::color::color_hp(), additivity: BlendMode::Normal },
    }
}

pub fn draw_spark(spark: &EnemyChargeParticle) -> (call: DrawCall)
    ensures
        call == spark_call(*spark),
{
    let share: i64 = spark.timer.completion_ratio();
    let pos: Vec2 = Vec2::lerp(spark.start_pos, spark.muzzle_pos, share);
    let size: i64 = fx_lerp(spark.size, 0, share);
    DrawCall::RectTransformed {
        dim: Vec2 { x: size, y: size },
        pivot: Vec2 { x: size / 2, y: size / 2 },
        pos,
        scale: Vec2::ones(),
        dir: Vec2::from_angle_flipped_y(45_000_000),
        paint: Paint { depth: DEPTH_EFFECTS, color: crate::color::color_hp(), additivity: BlendMode::Normal },
    }
}

/// What one row adds to the calls of a frame: its charge spark, then its
/// drawable.
pub open spec fn is_row_drawn(calls: Seq<DrawCall>, row: Row) -> bool {
    let spark: Seq<DrawCall> = match row.c.charge {
        Some(spark) => seq![spark_call(spark)],
        None => Seq::empty(),
    };
    &&& calls.len() >= spark.len()
    &&& calls.take(spark.len() as int) == spark
    &&& match (row.c.transform, row.c.drawable) {
        (Some(t), Some(d)) => is_drawn(calls.skip(spark.len() as int), t, d),
        _ => calls.len() == spark.len(),
    }
}

/// What the group of drawables of a row adds to the calls of a frame.
pub open spec fn is_group_drawn(parts: Seq<Seq<DrawCall>>, row: Row) -> bool {
    match (row.c.transform, row.c.drawable_multi) {
        (Some(t), Some(group)) => {
            &&& parts.len() == group.drawables@.len()
            &&& forall|k: int| 0 <= k < parts.len() ==> is_drawn(#[trigger] parts[k], t, group.drawables@[k])
        },
        _ => parts.len() == 0,
    }
}

/// The parts joined end to end.
pub open spec fn joined(parts: Seq<Seq<DrawCall>>) -> Seq<DrawCall>
    decreases parts.len(),
{
    if parts.len() == 0 {
        Seq::empty()
    } else {
        joined(parts.drop_last()) + parts.last()
    }
}

/// The calls draw the group of drawables of the row, one after the other.
#[verifier::opaque]
pub open spec fn group_drawn(calls: Seq<DrawCall>, row: Row) -> bool {
    exists|parts: Seq<Seq<DrawCall>>| calls == joined(parts) && #[trigger] is_group_drawn(parts, row)
}

/// Queues the calls for the group of drawables of one row.
pub fn draw_group(calls: &mut Vec<DrawCall>, entropy: &mut Entropy, row: &Row)
    ensures
        final(calls)@.len() >= old(calls)@.len(),
        final(calls)@.take(old(calls)@.len() as int) == old(calls)@,
        group_drawn(final(calls)@.skip(old(calls)@.len() as int), *row),
{
    reveal(group_drawn);
    let ghost mut parts: Seq<Seq<DrawCall>> = Seq::empty();
    assert(calls@ + joined(parts) =~= calls@);
    match (&row.c.transform, &row.c.drawable_multi) {
        (Some(t), Some(group)) => {
            let mut k: usize = 0;
            while k < group.drawables.len()
                invariant
                    k <= group.drawables@.len(),
                    parts.len() == k,
                    calls@ == old(calls)@ + joined(parts),
                    forall|j: int| 0 <= j < k ==> is_drawn(#[trigger] parts[j], *t, group.drawables@[j]),
                decreases group.drawables@.len() - k,
            {
                let ghost base = calls@;
                draw_drawable(calls, entropy, t, &group.drawables[k]);
                proof {
                    let part = calls@.skip(base.len() as int);
                    assert(calls@ =~= base + part);
                    assert(parts.push(part).drop_last() == parts);
                    parts = parts.push(part);
                    assert(calls@ =~= old(calls)@ + joined(parts));
                }
                k = k + 1;
            }
        },
        _ => {},
    }
    proof {
        assert(calls@.skip(old(calls)@.len() as int) =~= joined(parts));
        assert(calls@.take(old(calls)@.len() as int) =~= old(calls)@);
        assert(is_group_drawn(parts, *row));
    }
}

/// Queues the calls for the spark and the drawable of one row.
pub fn draw_row(calls: &mut Vec<DrawCall>, entropy: &mut Entropy, row: &Row)
    ensures
        final(calls)@.len() >= old(calls)@.len(),
        final(calls)@.take(old(calls)@.len() as int) == old(calls)@,
        is_row_drawn(final(calls)@.skip(old(calls)@.len() as int), *row),
{
    let ghost base = calls@;
    assert(calls@.take(base.len() as int) =~= base);
    match &row.c.charge {
        Some(spark) => {
            calls.push(draw_spark(spark));
        },
        None => {},
    }
    let ghost mid = calls@;
    match (&row.c.transform, &row.c.drawable) {
        (Some(t), Some(d)) => {
            draw_drawable(calls, entropy, t, d);
        },
        _ => {},
    }
    proof {
        let part = calls@.skip(base.len() as int);
        let n = mid.len() - base.len();
        assert(calls@.take(mid.len() as int) =~= mid);
        assert(calls@.take(base.len() as int) =~= base);
        assert(part.take(n) =~= mid.skip(base.len() as int));
        assert(part.skip(n) =~= calls@.skip(mid.len() as int));
        if row.c.charge is Some {
            assert(mid.skip(base.len() as int) =~= seq![spark_call(row.c.charge->0)]);
        } else {
            assert(mid.skip(base.len() as int) =~= Seq::<DrawCall>::empty());
        }
        assert(is_row_drawn(part, *row));
    }
}

/// The calls of a frame: first the groups of drawables of all rows, then
/// the spark and the drawable of each row, all in the order of the rows.
#[verifier::opaque]
pub open spec fn frame_drawn(calls: Seq<DrawCall>, rows: Seq<Row>) -> bool {
    exists|groups: Seq<Seq<DrawCall>>, singles: Seq<Seq<DrawCall>>|
        {
            &&& groups.len() == rows.len()
            &&& singles.len() == rows.len()
            &&& calls == joined(groups) + joined(singles)
            &&& forall|i: int| 0 <= i < rows.len() ==> group_drawn(#[trigger] groups[i], rows[i])
            &&& forall|i: int| 0 <= i < rows.len() ==> is_row_drawn(#[trigger] singles[i], rows[i])
        }
}

/// The draw calls for all entities of a frame.
#[verifier::rlimit(50)]
pub fn draw_frame(rows: &Vec<Row>, entropy: &mut Entropy) -> (calls: Vec<DrawCall>)
    ensures
        frame_drawn(calls@, rows@),
{
    let mut calls: Vec<DrawCall> = Vec::new();
    let ghost mut groups: Seq<Seq<DrawCall>> = Seq::empty();
    let mut i: usize = 0;
    assert(calls@ =~= joined(groups));
    while i < rows.len()
        invariant
            i <= rows@.len(),
            groups.len() == i,
            calls@ == joined(groups),
            forall|j: int| 0 <= j < i ==> group_drawn(#[trigger] groups[j], rows@[j]),
        decreases rows@.len() - i,
    {
        let ghost base = calls@;
        draw_group(&mut calls, entropy, &rows[i]);
        proof {
            let part = calls@.skip(base.len() as int);
            assert(calls@ =~= base + part);
            assert(groups.push(part).drop_last() == groups);
            groups = groups.push(part);
        }
        i = i + 1;
    }
    let ghost mut singles: Seq<Seq<DrawCall>> = Seq::empty();
    let mut k: usize = 0;
    assert(calls@ =~= joined(groups) + joined(singles));
    while k < rows.len()
        invariant
            k <= rows@.len(),
            singles.len() == k,
            groups.len() == rows@.len(),
            calls@ == joined(groups) + joined(singles),
            forall|j: int| 0 <= j < k ==> is_row_drawn(#[trigger] singles[j], rows@[j]),
        decreases rows@.len() - k,
    {
        let ghost base = calls@;
        draw_row(&mut calls, entropy, &rows[k]);
        proof {
            let part = calls@.skip(base.len() as int);
            assert(calls@ =~= base + part);
            assert(singles.push(part).drop_last() == singles);
            singles = singles.push(part);
            assert(calls@ =~= joined(groups) + joined(singles));
        }
        k = k + 1;
    }
    proof {
        reveal(frame_drawn);
    }
    calls
}

} // verus!
