use stage_sim::collision::{bodies_collide, collision_pass, Body};
use stage_sim::commands::{Command, WorldCommandBuffer};
use stage_sim::components::{Collider, Components, Transform};
use stage_sim::fixed::UNIT;
use stage_sim::store::{Row, Store};
use stage_sim::vec2::Vec2;

fn body_row(id: u64, x: i64, y: i64, radius: i64, own: u64, affects: u64, stale: Vec<u64>) -> Row {
    let mut c = Components::none();
    c.transform = Some(Transform { pos: Vec2::new(x * UNIT, y * UNIT), dir_angle: 0 });
    c.collider = Some(Collider { radius: radius * UNIT, layers_own: own, layers_affects: affects, collisions: stale });
    Row { id, c }
}

fn list(row: &Row) -> Vec<u64> {
    row.c.collider.as_ref().unwrap().collisions.clone()
}

#[test]
fn overlapping_bodies_on_matching_layers_list_each_other() {
    let mut rows = vec![
        body_row(10, 0, 0, 5, 1, 2, vec![]),
        body_row(20, 8, 0, 5, 2, 0, vec![]),
    ];
    collision_pass(&mut rows);
    assert_eq!(list(&rows[0]), vec![20]);
    assert_eq!(list(&rows[1]), vec![10]);
}

#[test]
fn stale_entries_do_not_survive_the_pass() {
    let mut rows = vec![
        body_row(10, 0, 0, 5, 1, 2, vec![99, 98]),
        body_row(20, 100, 0, 5, 2, 1, vec![10]),
    ];
    collision_pass(&mut rows);
    assert_eq!(list(&rows[0]), Vec::<u64>::new());
    assert_eq!(list(&rows[1]), Vec::<u64>::new());
}

#[test]
fn layers_that_do_not_match_never_collide() {
    let mut rows = vec![
        body_row(10, 0, 0, 5, 1, 4, vec![]),
        body_row(20, 1, 0, 5, 2, 8, vec![]),
    ];
    collision_pass(&mut rows);
    assert!(list(&rows[0]).is_empty());
    assert!(list(&rows[1]).is_empty());
}

#[test]
fn circles_that_only_touch_do_not_overlap() {
    let mut rows = vec![
        body_row(10, 0, 0, 5, 1, 1, vec![]),
        body_row(20, 10, 0, 5, 1, 1, vec![]),
        body_row(30, 0, 9, 5, 1, 1, vec![]),
    ];
    collision_pass(&mut rows);
    assert_eq!(list(&rows[0]), vec![30]);
    assert!(list(&rows[1]).is_empty());
    assert_eq!(list(&rows[2]), vec![10]);
}

#[test]
fn each_pair_is_entered_once_in_row_order() {
    let mut rows = vec![
        body_row(1, 0, 0, 5, 1, 1, vec![]),
        body_row(2, 1, 0, 5, 1, 1, vec![]),
        body_row(3, 2, 0, 5, 1, 1, vec![]),
        body_row(4, 3, 0, 5, 1, 1, vec![]),
    ];
    collision_pass(&mut rows);
    assert_eq!(list(&rows[0]), vec![2, 3, 4]);
    assert_eq!(list(&rows[1]), vec![1, 3, 4]);
    assert_eq!(list(&rows[2]), vec![1, 2, 4]);
    assert_eq!(list(&rows[3]), vec![1, 2, 3]);
}

#[test]
fn rows_without_transform_or_collider_are_left_out() {
    let mut bare = Components::none();
    bare.transform = Some(Transform { pos: Vec2::zero(), dir_angle: 0 });
    let mut unplaced = Components::none();
    unplaced.collider = Some(Collider { radius: 50 * UNIT, layers_own: 1, layers_affects: 1, collisions: vec![7] });
    let mut rows = vec![
        Row { id: 1, c: bare.clone() },
        body_row(2, 0, 0, 5, 1, 1, vec![]),
        Row { id: 3, c: unplaced },
    ];
    collision_pass(&mut rows);
    assert_eq!(rows[0].c, bare);
    assert!(list(&rows[1]).is_empty());
    assert!(list(&rows[2]).is_empty());
    assert_eq!(rows[2].c.collider.as_ref().unwrap().radius, 50 * UNIT);
}

#[test]
fn collision_test_is_symmetric() {
    let a = Some(Body { id: 1, pos: Vec2::new(0, 0), radius: 3 * UNIT, layers_own: 1, layers_affects: 0 });
    let b = Some(Body { id: 2, pos: Vec2::new(4 * UNIT, 0), radius: 2 * UNIT, layers_own: 8, layers_affects: 1 });
    assert!(bodies_collide(&a, &b));
    assert!(bodies_collide(&b, &a));
    assert!(!bodies_collide(&a, &None));
    let far = Some(Body { id: 3, pos: Vec2::new(i64::MAX, i64::MIN), radius: 2 * UNIT, layers_own: 8, layers_affects: 1 });
    assert!(!bodies_collide(&a, &far));
    assert!(!bodies_collide(&far, &a));
}

#[test]
fn commands_run_in_the_order_queued() {
    let mut store = Store::new();
    let kept = store.spawn(Components::none());
    let doomed = store.spawn(Components::none());
    let mut buffer = WorldCommandBuffer::new();
    let mut with_transform = Components::none();
    with_transform.transform = Some(Transform { pos: Vec2::new(1, 2), dir_angle: 3 });
    let mut with_collider = Components::none();
    with_collider.collider = Some(Collider::new(5, 1, 2));
    buffer.add_component(kept, with_transform.clone());
    buffer.add_component_bundle(doomed, with_transform.clone());
    buffer.remove_entity(doomed);
    buffer.add_component(doomed, with_collider.clone());
    buffer.add_entity(with_collider.clone());
    buffer.remove_entity(doomed);
    buffer.add_component_bundle(kept, with_collider.clone());
    assert_eq!(buffer.commands.len(), 7);
    assert_eq!(buffer.commands[2], Command::Despawn(doomed));
    let spawned = buffer.execute(&mut store);
    assert!(buffer.commands.is_empty());
    assert_eq!(spawned.len(), 1);
    assert!(!store.contains(doomed));
    assert_ne!(spawned[0], doomed);
    assert_ne!(spawned[0], kept);
    assert_eq!(store.get(spawned[0]), Some(with_collider.clone()));
    let merged = store.get(kept).unwrap();
    assert_eq!(merged.transform, with_transform.transform);
    assert_eq!(merged.collider, with_collider.collider);
    assert_eq!(store.ids().len(), 2);
}

#[test]
fn merging_overwrites_only_what_the_patch_holds() {
    let mut base = Components::none();
    base.transform = Some(Transform { pos: Vec2::new(1, 1), dir_angle: 0 });
    base.collider = Some(Collider::new(5, 1, 2));
    let mut patch = Components::none();
    patch.transform = Some(Transform { pos: Vec2::new(9, 9), dir_angle: 45 });
    let merged = base.clone().merged(patch.clone());
    assert_eq!(merged.transform, patch.transform);
    assert_eq!(merged.collider, base.collider);
    assert_eq!(base.clone().merged(Components::none()), base);
}

#[test]
fn snapshot_and_write_back_round_trip() {
    let mut store = Store::new();
    let a = store.spawn(Components::none());
    let b = store.spawn(Components::none());
    let mut rows = store.snapshot();
    assert_eq!(rows.len(), 2);
    for row in rows.iter_mut() {
        row.c.transform = Some(Transform { pos: Vec2::new(row.id as i64, 0), dir_angle: 0 });
    }
    rows.push(Row { id: 0xdead_beef_0000_0001, c: Components::none() });
    store.write_back(rows);
    assert_eq!(store.ids().len(), 2);
    assert_eq!(store.get(a).unwrap().transform.unwrap().pos, Vec2::new(a as i64, 0));
    assert_eq!(store.get(b).unwrap().transform.unwrap().pos, Vec2::new(b as i64, 0));
    let mut changed = Components::none();
    changed.collider = Some(Collider::new(1, 2, 3));
    assert!(store.set(a, changed.clone()));
    assert_eq!(store.get(a), Some(changed));
}
