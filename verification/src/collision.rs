//! Broad-phase collision: every pair of collidable entities is tested once
//! by layer masks and circular bounds, and each hit is entered in the
//! collision lists of both entities.
use vstd::prelude::*;
use crate::components::{Components, EntityId};
use crate::fixed::{fx_add, fx_sub, sadd, ssub};
use crate::store::Row;
use crate::vec2::Vec2;

verus! {

/// What the collision test reads of an entity.
#[derive(Clone, Copy, Debug, PartialEq, Eq, Structural)]
pub struct Body {
    pub id: EntityId,
    pub pos: Vec2,
    pub radius: i64,
    pub layers_own: u64,
    pub layers_affects: u64,
}

/// The body of an entity that has both a transform and a collider.
pub open spec fn body_of(row: Row) -> Option<Body> {
    if row.c.transform is Some && row.c.collider is Some {
        Some(
            Body {
                id: row.id,
                pos: row.c.transform->0.pos,
                radius: row.c.collider->0.radius,
                layers_own: row.c.collider->0.layers_own,
                layers_affects: row.c.collider->0.layers_affects,
            },
        )
    } else {
        None
    }
}

pub open spec fn bodies_of(rows: Seq<Row>) -> Seq<Option<Body>> {
    Seq::new(rows.len(), |i: int| body_of(rows[i]))
}

/// One of the two is on a layer that the other acts on.
pub open spec fn layers_match(a: Body, b: Body) -> bool {
    (a.layers_own & b.layers_affects) != 0 || (b.layers_own & a.layers_affects) != 0
}

/// The circles overlap: the squared distance of the centers is less than
/// the square of the sum of the radii.
pub open spec fn circles_overlap(a: Body, b: Body) -> bool {
    let dx = ssub(a.pos.x, b.pos.x) as int;
    let dy = ssub(a.pos.y, b.pos.y) as int;
    let reach = sadd(a.radius, b.radius) as int;
    dx * dx + dy * dy < reach * reach
}

pub open spec fn collide(a: Option<Body>, b: Option<Body>) -> bool {
    a is Some && b is Some && layers_match(a->0, b->0) && circles_overlap(a->0, b->0)
}

/// The identities of the bodies before index `upto`, other than body `i`
/// itself, that collide with body `i`, in the order of the bodies.
pub open spec fn touching(bodies: Seq<Option<Body>>, i: int, upto: int) -> Seq<EntityId>
    decreases upto,
{
    if upto <= 0 {
        Seq::empty()
    } else {
        let before = touching(bodies, i, upto - 1);
        if upto - 1 != i && 0 <= upto - 1 < bodies.len() && 0 <= i < bodies.len() && collide(
            bodies[i],
            bodies[upto - 1],
        ) {
            before.push(bodies[upto - 1]->0.id)
        } else {
            before
        }
    }
}

/// `after` is `before` with another collision list, if it has a collider.
pub open spec fn same_but_collisions(before: Components, after: Components) -> bool {
    &&& after.transform == before.transform
    &&& after.motion == before.motion
    &&& after.player == before.player
    &&& after.enemy == before.enemy
    &&& after.collectible == before.collectible
    &&& after.projectile == before.projectile
    &&& after.drawable == before.drawable
    &&& after.drawable_multi == before.drawable_multi
    &&& after.tween_color == before.tween_color
    &&& after.tween_scale == before.tween_scale
    &&& after.snap == before.snap
    &&& after.follow == before.follow
    &&& after.autoremove == before.autoremove
    &&& after.autoremove_frames == before.autoremove_frames
    &&& after.tick == before.tick
    &&& after.explode == before.explode
    &&& after.charge == before.charge
    &&& after.infotext == before.infotext
    &&& after.blinker == before.blinker
    &&& (after.collider is Some) == (before.collider is Some)
    &&& before.collider is Some ==> {
        &&& after.collider->0.radius == before.collider->0.radius
        &&& after.collider->0.layers_own == before.collider->0.layers_own
        &&& after.collider->0.layers_affects == before.collider->0.layers_affects
    }
}

pub proof fn lemma_collide_symmetric(a: Option<Body>, b: Option<Body>)
    ensures
        collide(a, b) == collide(b, a),
{
    if a is Some && b is Some {
        let (p, q) = (a->0, b->0);
        let dx = ssub(p.pos.x, q.pos.x) as int;
        let ex = ssub(q.pos.x, p.pos.x) as int;
        let dy = ssub(p.pos.y, q.pos.y) as int;
        let ey = ssub(q.pos.y, p.pos.y) as int;
        assert(ex == -dx);
        assert(ey == -dy);
        assert(ex * ex == dx * dx) by (nonlinear_arith)
            requires
                ex == -dx,
        ;
        assert(ey * ey == dy * dy) by (nonlinear_arith)
            requires
                ey == -dy,
        ;
        assert(sadd(p.radius, q.radius) == sadd(q.radius, p.radius));
    }
}

fn layers_match_exec(a: &Body, b: &Body) -> (r: bool)
    ensures
        r == layers_match(*a, *b),
{
    (a.layers_own & b.layers_affects) != 0 || (b.layers_own & a.layers_affects) != 0
}

fn circles_overlap_exec(a: &Body, b: &Body) -> (r: bool)
    ensures
        r == circles_overlap(*a, *b),
{
    let dx: i64 = fx_sub(a.pos.x, b.pos.x);
    let dy: i64 = fx_sub(a.pos.y, b.pos.y);
    let reach: i64 = fx_add(a.radius, b.radius);
    proof {
        assert(0 <= dx * dx <= 0x3fff_ffff_ffff_ffff_0000_0000_0000_0001) by (nonlinear_arith)
            requires
                -0x7fff_ffff_ffff_ffff <= dx <= 0x7fff_ffff_ffff_ffff,
        ;
        assert(0 <= dy * dy <= 0x3fff_ffff_ffff_ffff_0000_0000_0000_0001) by (nonlinear_arith)
            requires
                -0x7fff_ffff_ffff_ffff <= dy <= 0x7fff_ffff_ffff_ffff,
        ;
        assert(0 <= reach * reach <= 0x3fff_ffff_ffff_ffff_0000_0000_0000_0001) by (nonlinear_arith)
            requires
                -0x7fff_ffff_ffff_ffff <= reach <= 0x7fff_ffff_ffff_ffff,
        ;
    }
    let dist2: i128 = (dx as i128) * (dx as i128) + (dy as i128) * (dy as i128);
    let reach2: i128 = (reach as i128) * (reach as i128);
    dist2 < reach2
}

/// Whether two entities collide this frame.
pub fn bodies_collide(a: &Option<Body>, b: &Option<Body>) -> (r: bool)
    ensures
        r == collide(*a, *b),
{
    match (a, b) {
        (Some(p), Some(q)) => layers_match_exec(p, q) && circles_overlap_exec(p, q),
        _ => false,
    }
}

/// Every entry of a collision list names an entity that collides.
pub proof fn lemma_touching_sound(bodies: Seq<Option<Body>>, i: int, upto: int, k: int)
    requires
        0 <= k < touching(bodies, i, upto).len(),
    ensures
        exists|j: int|
            0 <= j < upto && j < bodies.len() && j != i && collide(bodies[i], bodies[j]) && touching(
                bodies,
                i,
                upto,
            )[k] == (#[trigger] bodies[j])->0.id,
    decreases upto,
{
    if upto > 0 {
        let before = touching(bodies, i, upto - 1);
        if k < before.len() {
            lemma_touching_sound(bodies, i, upto - 1, k);
            let j = choose|j: int|
                0 <= j < upto - 1 && j < bodies.len() && j != i && collide(bodies[i], bodies[j]) && before[k] == (
                #[trigger] bodies[j])->0.id;
            assert(touching(bodies, i, upto)[k] == bodies[j]->0.id);
        } else {
            assert(touching(bodies, i, upto)[k] == bodies[upto - 1]->0.id);
        }
    }
}

/// Every entity that collides is entered in the list.
pub proof fn lemma_touching_complete(bodies: Seq<Option<Body>>, i: int, upto: int, j: int)
    requires
        0 <= i < bodies.len(),
        0 <= j < upto <= bodies.len(),
        j != i,
        collide(bodies[i], bodies[j]),
    ensures
        touching(bodies, i, upto).contains(bodies[j]->0.id),
    decreases upto,
{
    let before = touching(bodies, i, upto - 1);
    let now = touching(bodies, i, upto);
    if j == upto - 1 {
        assert(now == before.push(bodies[j]->0.id));
        assert(now[now.len() - 1] == bodies[j]->0.id);
    } else {
        lemma_touching_complete(bodies, i, upto - 1, j);
        let k = choose|k: int| 0 <= k < before.len() && before[k] == bodies[j]->0.id;
        assert(now[k] == bodies[j]->0.id);
    }
}

/// An entity that overlaps no other has an empty list.
pub proof fn lemma_touching_empty(bodies: Seq<Option<Body>>, i: int, upto: int)
    requires
        forall|j: int| 0 <= j < bodies.len() && j != i ==> !collide(bodies[i], #[trigger] bodies[j]),
    ensures
        touching(bodies, i, upto).len() == 0,
    decreases upto,
{
    if upto > 0 {
        lemma_touching_empty(bodies, i, upto - 1);
    }
}

/// What the pass leaves behind: every row is what it was, but for the
/// collision list of its collider, which names exactly the entities that
/// the row's entity collides with this frame, in the order of the rows.
#[verifier::opaque]
pub open spec fn collisions_rebuilt(before: Seq<Row>, after: Seq<Row>) -> bool {
    &&& after.len() == before.len()
    &&& forall|i: int|
        0 <= i < before.len() ==> {
            &&& (#[trigger] after[i]).id == before[i].id
            &&& same_but_collisions(before[i].c, after[i].c)
            &&& before[i].c.collider is Some ==> after[i].c.collider->0.collisions@ == touching(
                bodies_of(before),
                i,
                before.len() as int,
            )
        }
}

fn read_bodies(rows: &Vec<Row>) -> (bodies: Vec<Option<Body>>)
    ensures
        bodies@ == bodies_of(rows@),
{
    let mut bodies: Vec<Option<Body>> = Vec::new();
    let mut i: usize = 0;
    while i < rows.len()
        invariant
            i <= rows@.len(),
            bodies@.len() == i,
            forall|j: int| 0 <= j < i ==> bodies@[j] == body_of(rows@[j]),
        decreases rows@.len() - i,
    {
        let body: Option<Body> = match (&rows[i].c.transform, &rows[i].c.collider) {
            (Some(transform), Some(collider)) => Some(
                Body {
                    id: rows[i].id,
                    pos: transform.pos,
                    radius: collider.radius,
                    layers_own: collider.layers_own,
                    layers_affects: collider.layers_affects,
                },
            ),
            _ => None,
        };
        bodies.push(body);
        i = i + 1;
    }
    assert(bodies@ =~= bodies_of(rows@));
    bodies
}

/// The list that row `r` holds while the pair `(a, b)` is next to be
/// tested: pairs are tested in the order of their lower, then their higher
/// index.
pub open spec fn touching_so_far(bodies: Seq<Option<Body>>, r: int, a: int, b: int) -> Seq<EntityId> {
    if r < a {
        touching(bodies, r, bodies.len() as int)
    } else if r == a {
        touching(bodies, r, b)
    } else if r < b {
        touching(bodies, r, a + 1)
    } else {
        touching(bodies, r, a)
    }
}

pub proof fn lemma_touching_skips_self(bodies: Seq<Option<Body>>, i: int)
    ensures
        touching(bodies, i, i + 1) == touching(bodies, i, i),
{
}

/// Rebuilds the collision lists of all rows from this frame's geometry.
/// Lists from earlier frames are dropped first.
#[verifier::rlimit(50)]
pub fn collision_pass(rows: &mut Vec<Row>)
    ensures
        collisions_rebuilt(old(rows)@, final(rows)@),
{
    reveal(collisions_rebuilt);
    let bodies: Vec<Option<Body>> = read_bodies(rows);
    let n: usize = rows.len();
    let ghost bs = bodies@;
    let mut c: usize = 0;
    while c < n
        invariant
            c <= n,
            n == rows@.len(),
            n == old(rows)@.len(),
            forall|i: int|
                0 <= i < n ==> {
                    &&& (#[trigger] rows@[i]).id == old(rows)@[i].id
                    &&& same_but_collisions(old(rows)@[i].c, rows@[i].c)
                },
            forall|i: int|
                0 <= i < c && old(rows)@[i].c.collider is Some ==> (#[trigger] rows@[i]).c.collider->0.collisions@.len()
                    == 0,
        decreases n - c,
    {
        match &mut rows[c].c.collider {
            Some(collider) => {
                collider.collisions = Vec::new();
            },
            None => {},
        }
        c = c + 1;
    }
    let mut a: usize = 0;
    while a < n
        invariant
            a <= n,
            n == rows@.len(),
            n == old(rows)@.len(),
            bodies@ == bs,
            bs == bodies_of(old(rows)@),
            forall|i: int|
                0 <= i < n ==> {
                    &&& (#[trigger] rows@[i]).id == old(rows)@[i].id
                    &&& same_but_collisions(old(rows)@[i].c, rows@[i].c)
                },
            forall|r: int|
                0 <= r < n && old(rows)@[r].c.collider is Some ==> (#[trigger] rows@[r]).c.collider->0.collisions@
                    == touching_so_far(bs, r, a as int, a as int),
        decreases n - a,
    {
        let mut b: usize = a + 1;
        proof {
            lemma_touching_skips_self(bs, a as int);
            assert forall|r: int| 0 <= r < n && old(rows)@[r].c.collider is Some implies (
            #[trigger] rows@[r]).c.collider->0.collisions@ == touching_so_far(bs, r, a as int, a as int + 1) by {
                assert(rows@[r].c.collider->0.collisions@ == touching_so_far(bs, r, a as int, a as int));
            }
        }
        while b < n
            invariant
                a < b <= n,
                n == rows@.len(),
                n == old(rows)@.len(),
                bodies@ == bs,
                bs == bodies_of(old(rows)@),
                forall|i: int|
                    0 <= i < n ==> {
                        &&& (#[trigger] rows@[i]).id == old(rows)@[i].id
                        &&& same_but_collisions(old(rows)@[i].c, rows@[i].c)
                    },
                forall|r: int|
                    0 <= r < n && old(rows)@[r].c.collider is Some ==> (#[trigger] rows@[r]).c.collider->0.collisions@
                        == touching_so_far(bs, r, a as int, b as int),
            decreases n - b,
        {
            let hit: bool = bodies_collide(&bodies[a], &bodies[b]);
            proof {
                lemma_collide_symmetric(bs[a as int], bs[b as int]);
            }
            if hit {
                let id_a: EntityId = rows[a].id;
                let id_b: EntityId = rows[b].id;
                assert(bs[a as int] == body_of(old(rows)@[a as int]));
                assert(bs[b as int] == body_of(old(rows)@[b as int]));
                match &mut rows[a].c.collider {
                    Some(collider) => {
                        collider.collisions.push(id_b);
                    },
                    None => {},
                }
                match &mut rows[b].c.collider {
                    Some(collider) => {
                        collider.collisions.push(id_a);
                    },
                    None => {},
                }
            }
            b = b + 1;
        }
        a = a + 1;
    }
}

/// Symmetry: when two entities overlap and their layers match, the pass
/// enters each in the collision list of the other.
pub proof fn lemma_collisions_symmetric(before: Seq<Row>, after: Seq<Row>, i: int, j: int)
    requires
        collisions_rebuilt(before, after),
        0 <= i < before.len(),
        0 <= j < before.len(),
        i != j,
        collide(body_of(before[i]), body_of(before[j])),
    ensures
        after[i].c.collider is Some,
        after[j].c.collider is Some,
        after[i].c.collider->0.collisions@.contains(before[j].id),
        after[j].c.collider->0.collisions@.contains(before[i].id),
{
    reveal(collisions_rebuilt);
    let bodies = bodies_of(before);
    lemma_collide_symmetric(bodies[i], bodies[j]);
    lemma_touching_complete(bodies, i, before.len() as int, j);
    lemma_touching_complete(bodies, j, before.len() as int, i);
    assert(same_but_collisions(before[i].c, after[i].c));
    assert(same_but_collisions(before[j].c, after[j].c));
}

/// An entity whose circle overlaps no other on a matching layer leaves the
/// pass with an empty collision list, whatever the list held before.
pub proof fn lemma_no_overlap_no_collisions(before: Seq<Row>, after: Seq<Row>, i: int)
    requires
        collisions_rebuilt(before, after),
        0 <= i < before.len(),
        before[i].c.collider is Some,
        forall|j: int|
            0 <= j < before.len() && j != i ==> !collide(body_of(before[i]), body_of(#[trigger] before[j])),
    ensures
        after[i].c.collider->0.collisions@.len() == 0,
{
    reveal(collisions_rebuilt);
    let bodies = bodies_of(before);
    assert forall|j: int| 0 <= j < bodies.len() && j != i implies !collide(bodies[i], #[trigger] bodies[j]) by {
        assert(bodies[j] == body_of(before[j]));
    }
    lemma_touching_empty(bodies, i, before.len() as int);
    assert(same_but_collisions(before[i].c, after[i].c));
}

/// A collision list holds nothing but entities that overlap on a matching
/// layer.
pub proof fn lemma_collisions_sound(before: Seq<Row>, after: Seq<Row>, i: int, k: int)
    requires
        collisions_rebuilt(before, after),
        0 <= i < before.len(),
        before[i].c.collider is Some,
        0 <= k < after[i].c.collider->0.collisions@.len(),
    ensures
        exists|j: int|
            0 <= j < before.len() && j != i && collide(body_of(before[i]), body_of(#[trigger] before[j]))
                && after[i].c.collider->0.collisions@[k] == before[j].id,
{
    reveal(collisions_rebuilt);
    let bodies = bodies_of(before);
    assert(same_but_collisions(before[i].c, after[i].c));
    lemma_touching_sound(bodies, i, before.len() as int, k);
    let j = choose|j: int|
        0 <= j < before.len() && j < bodies.len() && j != i && collide(bodies[i], bodies[j]) && touching(
            bodies,
            i,
            before.len() as int,
        )[k] == (#[trigger] bodies[j])->0.id;
    assert(bodies[j] == body_of(before[j]));
    assert(bodies[i] == body_of(before[i]));
}

} // verus!
