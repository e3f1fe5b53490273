use stage_sim::components::Components;
use stage_sim::store::Store;

#[test]
fn spawn_then_get_returns_the_record() {
    let mut store = Store::new();
    let id = store.spawn(Components::none());
    assert!(store.contains(id));
    assert_eq!(store.get(id), Some(Components::none()));
    assert_eq!(store.ids(), vec![id]);
}

#[test]
fn despawn_is_idempotent() {
    let mut store = Store::new();
    let id = store.spawn(Components::none());
    assert!(store.despawn(id));
    assert!(!store.despawn(id));
    assert!(!store.contains(id));
    assert_eq!(store.get(id), None);
}

#[test]
fn identities_are_never_reused() {
    let mut store = Store::new();
    let first = store.spawn(Components::none());
    store.despawn(first);
    let second = store.spawn(Components::none());
    assert_ne!(first, second);
    assert!(!store.contains(first));
    assert!(store.contains(second));
}

#[test]
fn unknown_identity_is_absent() {
    let mut store = Store::new();
    assert!(!store.contains(12345));
    assert!(!store.despawn(12345));
    assert!(!store.set(77, Components::none()));
    let id = store.spawn(Components::none());
    assert!(!store.contains(id + 5));
    assert!(!store.despawn(0xffff_ffff_0000_0000));
}
