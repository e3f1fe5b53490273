//! The passes that move entities: lifetime sweep, motion integration,
//! snapping to a parent, and steering toward a target.
use vstd::prelude::*;
use crate::census::{Fact, find_pose, pose_for};
use crate::commands::{Command, WorldCommandBuffer};
use crate::components::{AutoremoveTimer, AutoremoveTimerFrames, Components, EntityId, Motion,
    SnapToParent, Transform};
use crate::fixed::{fx_add, fx_mul, sadd, smul};
use crate::store::{Row, rows_mapped};
use crate::trig::{wrap_angle, wrap_spec};
use crate::vec2::Vec2;

verus! {

/// Whether the lifetime of an entity ends with this update.
pub open spec fn lifetime_over(c: Components, dt: i64) -> bool {
    c.autoremove is Some && c.autoremove->0.timer.advanced(dt as int).finished()
}

/// Whether the entity has no frame left to live.
pub open spec fn frames_over(c: Components) -> bool {
    c.autoremove_frames is Some && c.autoremove_frames->0.framecount_left == 0
}

/// The record after the lifetime sweep: its clock has advanced and its
/// frame count has gone down by one.
pub open spec fn swept(c: Components, dt: i64) -> Components {
    Components {
        autoremove: match c.autoremove {
            Some(a) => Some(AutoremoveTimer { timer: a.timer.advanced(dt as int) }),
            None => None,
        },
        autoremove_frames: match c.autoremove_frames {
            Some(f) => Some(
                AutoremoveTimerFrames {
                    framecount_left: if f.framecount_left > 0 {
                        (f.framecount_left - 1) as usize
                    } else {
                        0
                    },
                    ..f
                },
            ),
            None => None,
        },
        ..c
    }
}

/// The despawns that the lifetime sweep queues for one entity.
pub open spec fn sweep_commands_of(row: Row, dt: i64) -> Seq<Command> {
    let by_time = if lifetime_over(row.c, dt) { seq![Command::Despawn(row.id)] } else { Seq::empty() };
    let by_frames = if frames_over(row.c) { seq![Command::Despawn(row.id)] } else { Seq::empty() };
    by_time + by_frames
}

/// The despawns that the lifetime sweep queues, row by row.
pub open spec fn sweep_commands(rows: Seq<Row>, dt: i64) -> Seq<Command>
    decreases rows.len(),
{
    if rows.len() == 0 {
        Seq::empty()
    } else {
        sweep_commands(rows.drop_last(), dt) + sweep_commands_of(rows.last(), dt)
    }
}

/// Advances every lifetime and queues the despawn of each entity whose
/// lifetime or frame count has run out.
pub fn autoremove_pass(rows: &mut Vec<Row>, commands: &mut WorldCommandBuffer, deltatime: i64)
    ensures
        rows_mapped(old(rows)@, final(rows)@, |c: Components| swept(c, deltatime)),
        final(commands)@ == old(commands)@ + sweep_commands(old(rows)@, deltatime),
{
    reveal(rows_mapped);
    let n: usize = rows.len();
    let mut i: usize = 0;
    assert(old(rows)@.take(0) == Seq::<Row>::empty());
    while i < n
        invariant
            i <= n,
            n == rows@.len(),
            n == old(rows)@.len(),
            forall|j: int|
                0 <= j < i ==> (#[trigger] rows@[j]).id == old(rows)@[j].id && rows@[j].c == swept(
                    old(rows)@[j].c,
                    deltatime,
                ),
            forall|j: int| i <= j < n ==> rows@[j] == old(rows)@[j],
            commands@ == old(commands)@ + sweep_commands(old(rows)@.take(i as int), deltatime),
        decreases n - i,
    {
        let id: EntityId = rows[i].id;
        let ghost before = commands@;
        let mut by_time: bool = false;
        match &mut rows[i].c.autoremove {
            Some(autoremove) => {
                autoremove.timer.update(deltatime);
                by_time = autoremove.timer.is_finished();
            },
            None => {},
        }
        if by_time {
            commands.remove_entity(id);
        }
        let mut by_frames: bool = false;
        match &mut rows[i].c.autoremove_frames {
            Some(frames) => {
                by_frames = frames.update_and_check_if_finished();
            },
            None => {},
        }
        if by_frames {
            commands.remove_entity(id);
        }
        proof {
            let row = old(rows)@[i as int];
            assert(old(rows)@.take(i as int + 1).drop_last() == old(rows)@.take(i as int));
            assert(old(rows)@.take(i as int + 1).last() == row);
            assert(commands@ =~= before + sweep_commands_of(row, deltatime));
            assert(commands@ =~= old(commands)@ + sweep_commands(old(rows)@.take(i as int + 1), deltatime));
        }
        i = i + 1;
    }
    assert(old(rows)@.take(n as int) == old(rows)@);
}

/// A pose after moving for `dt` seconds: the position advances by the
/// velocity, the facing by the spin, and the facing is brought back into
/// the band of one turn either way.
pub open spec fn moved(t: Transform, m: Motion, dt: i64) -> Transform {
    Transform {
        pos: t.pos.plus_spec(m.vel.scaled_spec(dt)),
        dir_angle: wrap_spec(sadd(t.dir_angle, smul(m.dir_angle_vel, dt)) as int) as i64,
    }
}

pub open spec fn motion_applied(c: Components, dt: i64) -> Components {
    if c.transform is Some && c.motion is Some {
        Components { transform: Some(moved(c.transform->0, c.motion->0, dt)), ..c }
    } else {
        c
    }
}

pub fn integrate(t: Transform, m: &Motion, deltatime: i64) -> (r: Transform)
    ensures
        r == moved(t, *m, deltatime),
{
    Transform {
        pos: t.pos.plus(m.vel.scaled(deltatime)),
        dir_angle: wrap_angle(fx_add(t.dir_angle, fx_mul(m.dir_angle_vel, deltatime))),
    }
}

/// Moves every entity that has a pose and a motion.
pub fn motion_pass(rows: &mut Vec<Row>, deltatime: i64)
    ensures
        rows_mapped(old(rows)@, final(rows)@, |c: Components| motion_applied(c, deltatime)),
{
    reveal(rows_mapped);
    let n: usize = rows.len();
    let mut i: usize = 0;
    while i < n
        invariant
            i <= n,
            n == rows@.len(),
            n == old(rows)@.len(),
            forall|j: int|
                0 <= j < i ==> (#[trigger] rows@[j]).id == old(rows)@[j].id && rows@[j].c == motion_applied(
                    old(rows)@[j].c,
                    deltatime,
                ),
            forall|j: int| i <= j < n ==> rows@[j] == old(rows)@[j],
        decreases n - i,
    {
        let next: Option<Transform> = match (&rows[i].c.transform, &rows[i].c.motion) {
            (Some(t), Some(m)) => Some(integrate(*t, m, deltatime)),
            _ => None,
        };
        if next.is_some() {
            rows[i].c.transform = next;
        }
        i = i + 1;
    }
}

/// The pose of a follower whose parent stands at `parent`.
pub open spec fn snapped(t: Transform, snap: SnapToParent, parent: Transform) -> Transform {
    if snap.pos_snap && snap.dir_angle_snap {
        Transform {
            pos: parent.pos.plus_spec(snap.pos_offset.rotated_spec(parent.dir_angle)),
            dir_angle: sadd(parent.dir_angle, snap.dir_angle_offset),
        }
    } else if snap.pos_snap {
        Transform { pos: parent.pos.plus_spec(snap.pos_offset), ..t }
    } else if snap.dir_angle_snap {
        Transform { dir_angle: sadd(parent.dir_angle, snap.dir_angle_offset), ..t }
    } else {
        t
    }
}

/// The record after snapping: a follower takes its pose from its parent;
/// one whose parent is gone keeps its last pose.
pub open spec fn snap_applied(c: Components, facts: Seq<Fact>) -> Components {
    if c.transform is Some && c.snap is Some && pose_for(facts, c.snap->0.parent) is Some {
        Components {
            transform: Some(snapped(c.transform->0, c.snap->0, pose_for(facts, c.snap->0.parent)->0)),
            ..c
        }
    } else {
        c
    }
}

/// Whether a follower has lost its parent and is to go with it.
pub open spec fn orphaned(c: Components, facts: Seq<Fact>) -> bool {
    c.transform is Some && c.snap is Some && pose_for(facts, c.snap->0.parent) is None
        && c.snap->0.remove_entity_if_lost_parent
}

pub open spec fn orphan_commands(rows: Seq<Row>, facts: Seq<Fact>) -> Seq<Command>
    decreases rows.len(),
{
    if rows.len() == 0 {
        Seq::empty()
    } else {
        orphan_commands(rows.drop_last(), facts) + if orphaned(rows.last().c, facts) {
            seq![Command::Despawn(rows.last().id)]
        } else {
            Seq::empty()
        }
    }
}

pub fn snap_to(t: Transform, snap: &SnapToParent, parent: Transform) -> (r: Transform)
    ensures
        r == snapped(t, *snap, parent),
{
    if snap.pos_snap && snap.dir_angle_snap {
        Transform {
            pos: parent.pos.plus(snap.pos_offset.rotated_flipped_y(parent.dir_angle)),
            dir_angle: fx_add(parent.dir_angle, snap.dir_angle_offset),
        }
    } else if snap.pos_snap {
        Transform { pos: parent.pos.plus(snap.pos_offset), dir_angle: t.dir_angle }
    } else if snap.dir_angle_snap {
        Transform { pos: t.pos, dir_angle: fx_add(parent.dir_angle, snap.dir_angle_offset) }
    } else {
        t
    }
}

/// Snaps every follower to its parent, as the parent stood when the digest
/// `facts` was taken. A follower whose parent is gone is queued for
/// despawn if it is marked so.
pub fn snap_pass(rows: &mut Vec<Row>, facts: &Vec<Fact>, commands: &mut WorldCommandBuffer)
    ensures
        rows_mapped(old(rows)@, final(rows)@, |c: Components| snap_applied(c, facts@)),
        final(commands)@ == old(commands)@ + orphan_commands(old(rows)@, facts@),
{
    reveal(rows_mapped);
    let n: usize = rows.len();
    let mut i: usize = 0;
    assert(old(rows)@.take(0) == Seq::<Row>::empty());
    while i < n
        invariant
            i <= n,
            n == rows@.len(),
            n == old(rows)@.len(),
            forall|j: int|
                0 <= j < i ==> (#[trigger] rows@[j]).id == old(rows)@[j].id && rows@[j].c == snap_applied(
                    old(rows)@[j].c,
                    facts@,
                ),
            forall|j: int| i <= j < n ==> rows@[j] == old(rows)@[j],
            commands@ == old(commands)@ + orphan_commands(old(rows)@.take(i as int), facts@),
        decreases n - i,
    {
        let id: EntityId = rows[i].id;
        let ghost before = commands@;
        let mut next: Option<Transform> = None;
        let mut lost: bool = false;
        match (&rows[i].c.transform, &rows[i].c.snap) {
            (Some(t), Some(snap)) => {
                match find_pose(facts, snap.parent) {
                    Some(parent) => {
                        next = Some(snap_to(*t, snap, parent));
                    },
                    None => {
                        lost = snap.remove_entity_if_lost_parent;
                    },
                }
            },
            _ => {},
        }
        if next.is_some() {
            rows[i].c.transform = next;
        }
        if lost {
            commands.remove_entity(id);
        }
        proof {
            let row = old(rows)@[i as int];
            assert(old(rows)@.take(i as int + 1).drop_last() == old(rows)@.take(i as int));
            assert(old(rows)@.take(i as int + 1).last() == row);
            assert(commands@ =~= old(commands)@ + orphan_commands(old(rows)@.take(i as int + 1), facts@));
        }
        i = i + 1;
    }
    assert(old(rows)@.take(n as int) == old(rows)@);
}

/// A velocity turned part of the way toward a target: the heading is
/// blended with the heading to the target, the speed stays.
pub open spec fn steered(vel: Vec2, from: Vec2, target: Vec2, precision: i64) -> Vec2 {
    let dir_current = vel.normalized_spec();
    let dir_target = target.minus_spec(from).normalized_spec();
    let dir_final = Vec2::lerp_spec(dir_current, dir_target, precision).normalized_spec();
    dir_final.scaled_spec(vel.magnitude_spec())
}

pub open spec fn steering_applied(c: Components, facts: Seq<Fact>) -> Components {
    if c.transform is Some && c.motion is Some && c.follow is Some && pose_for(facts, c.follow->0.target) is Some {
        Components {
            motion: Some(
                Motion {
                    vel: steered(
                        c.motion->0.vel,
                        c.transform->0.pos,
                        pose_for(facts, c.follow->0.target)->0.pos,
                        c.follow->0.follow_precision_percent,
                    ),
                    ..c.motion->0
                },
            ),
            ..c
        }
    } else {
        c
    }
}

pub fn steer(vel: Vec2, from: Vec2, target: Vec2, precision: i64) -> (r: Vec2)
    ensures
        r == steered(vel, from, target, precision),
{
    let dir_current: Vec2 = vel.normalized();
    let dir_target: Vec2 = target.minus(from).normalized();
    let dir_final: Vec2 = Vec2::lerp(dir_current, dir_target, precision).normalized();
    dir_final.scaled(vel.magnitude())
}

/// Turns every follower toward its target, as the target stood when the
/// digest was taken. A follower whose target is gone flies on as it was.
pub fn steering_pass(rows: &mut Vec<Row>, facts: &Vec<Fact>)
    ensures
        rows_mapped(old(rows)@, final(rows)@, |c: Components| steering_applied(c, facts@)),
{
    reveal(rows_mapped);
    let n: usize = rows.len();
    let mut i: usize = 0;
    while i < n
        invariant
            i <= n,
            n == rows@.len(),
            n == old(rows)@.len(),
            forall|j: int|
                0 <= j < i ==> (#[trigger] rows@[j]).id == old(rows)@[j].id && rows@[j].c == steering_applied(
                    old(rows)@[j].c,
                    facts@,
                ),
            forall|j: int| i <= j < n ==> rows@[j] == old(rows)@[j],
        decreases n - i,
    {
        let mut next: Option<Motion> = None;
        match (&rows[i].c.transform, &rows[i].c.motion, &rows[i].c.follow) {
            (Some(t), Some(m), Some(follow)) => {
                match find_pose(facts, follow.target) {
                    Some(target) => {
                        next = Some(
                            Motion {
                                vel: steer(m.vel, t.pos, target.pos, follow.follow_precision_percent),
                                acc: m.acc,
                                dir_angle_vel: m.dir_angle_vel,
                                dir_angle_acc: m.dir_angle_acc,
                            },
                        );
                    },
                    None => {},
                }
            },
            _ => {},
        }
        if next.is_some() {
            rows[i].c.motion = next;
        }
        i = i + 1;
    }
}

/// The lifetime sweep queues nothing but despawns.
pub proof fn lemma_sweep_is_harmless(flying: Set<crate::components::Components>, rows: Seq<Row>, dt: i64)
    ensures
        crate::commands::all_harmless_but(flying, sweep_commands(rows, dt)),
    decreases rows.len(),
{
    if rows.len() > 0 {
        lemma_sweep_is_harmless(flying, rows.drop_last(), dt);
        crate::commands::lemma_joined_harmless(
            flying,
            sweep_commands(rows.drop_last(), dt),
            sweep_commands_of(rows.last(), dt),
        );
    }
}

/// Snapping queues nothing but despawns.
pub proof fn lemma_orphans_are_harmless(flying: Set<crate::components::Components>, rows: Seq<Row>, facts: Seq<Fact>)
    ensures
        crate::commands::all_harmless_but(flying, orphan_commands(rows, facts)),
    decreases rows.len(),
{
    if rows.len() > 0 {
        lemma_orphans_are_harmless(flying, rows.drop_last(), facts);
        let more = if orphaned(rows.last().c, facts) {
            seq![Command::Despawn(rows.last().id)]
        } else {
            Seq::empty()
        };
        crate::commands::lemma_joined_harmless(flying, orphan_commands(rows.drop_last(), facts), more);
    }
}

/// The lifetime sweep despawns none but entities of its rows.
pub proof fn lemma_sweep_within(rows: Seq<Row>, dt: i64, ids: Set<u64>)
    requires
        forall|i: int| 0 <= i < rows.len() ==> ids.contains(#[trigger] rows[i].id),
    ensures
        crate::commands::despawns_within(sweep_commands(rows, dt), ids),
    decreases rows.len(),
{
    if rows.len() > 0 {
        let head = rows.drop_last();
        assert forall|i: int| 0 <= i < head.len() implies ids.contains(#[trigger] head[i].id) by {
            assert(head[i] == rows[i]);
        }
        lemma_sweep_within(head, dt, ids);
        assert(ids.contains(rows[rows.len() - 1].id));
        let more = sweep_commands_of(rows.last(), dt);
        crate::commands::lemma_joined_within(sweep_commands(head, dt), more, ids);
    }
}

/// Snapping despawns none but entities of its rows.
pub proof fn lemma_orphans_within(rows: Seq<Row>, facts: Seq<Fact>, ids: Set<u64>)
    requires
        forall|i: int| 0 <= i < rows.len() ==> ids.contains(#[trigger] rows[i].id),
    ensures
        crate::commands::despawns_within(orphan_commands(rows, facts), ids),
    decreases rows.len(),
{
    if rows.len() > 0 {
        let head = rows.drop_last();
        assert forall|i: int| 0 <= i < head.len() implies ids.contains(#[trigger] head[i].id) by {
            assert(head[i] == rows[i]);
        }
        lemma_orphans_within(head, facts, ids);
        assert(ids.contains(rows[rows.len() - 1].id));
        let more = if orphaned(rows.last().c, facts) {
            seq![Command::Despawn(rows.last().id)]
        } else {
            Seq::empty()
        };
        crate::commands::lemma_joined_within(orphan_commands(head, facts), more, ids);
    }
}

} // verus!
