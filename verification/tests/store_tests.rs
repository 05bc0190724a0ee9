//! The entity store: spawn, lookup, removal and counting.

use dodge::components::Kind;
use dodge::store::{EntityStore, StoreError};

#[test]
fn spawn_assigns_fresh_ids() {
    let mut store = EntityStore::new();
    let a = store.spawn(Kind::Enemy, 0, 0, 420, 420, 10);
    let b = store.spawn(Kind::Enemy, 100, 100, 420, 420, 20);
    assert_ne!(a, b);
    assert_eq!(store.len(), 2);
}

#[test]
fn position_of_live_entity() {
    let mut store = EntityStore::new();
    let id = store.spawn(Kind::Bullet, -40, 955, 120, 120, 300);
    assert_eq!(store.position_of(id), Ok((-40, 955)));
}

#[test]
fn position_of_despawned_entity_is_not_found() {
    let mut store = EntityStore::new();
    let id = store.spawn(Kind::Enemy, 0, 0, 420, 420, 10);
    store.remove(id);
    assert_eq!(store.position_of(id), Err(StoreError::NotFound));
}

#[test]
fn remove_absent_id_is_a_no_op() {
    let mut store = EntityStore::new();
    let id = store.spawn(Kind::Enemy, 7, 8, 420, 420, 10);
    store.remove(9999);
    assert_eq!(store.len(), 1);
    store.remove(id);
    assert_eq!(store.len(), 0);
    // a second removal of the same id changes nothing
    store.remove(id);
    assert_eq!(store.len(), 0);
}

#[test]
fn ids_are_not_reused_after_removal() {
    let mut store = EntityStore::new();
    let a = store.spawn(Kind::Enemy, 0, 0, 420, 420, 10);
    store.remove(a);
    let b = store.spawn(Kind::Enemy, 0, 0, 420, 420, 10);
    assert_ne!(a, b);
}

#[test]
fn count_by_kind() {
    let mut store = EntityStore::new();
    store.spawn(Kind::Enemy, 0, 0, 420, 420, 10);
    store.spawn(Kind::Enemy, 1, 1, 420, 420, 10);
    store.spawn(Kind::Bullet, 2, 2, 120, 120, 300);
    assert_eq!(store.count(Kind::Enemy), 2);
    assert_eq!(store.count(Kind::Bullet), 1);
    assert_eq!(store.count(Kind::Player), 0);
    assert_eq!(store.count(Kind::Ship), 0);
}

#[test]
fn of_kind_lists_matching_entities_in_spawn_order() {
    let mut store = EntityStore::new();
    let a = store.spawn(Kind::Enemy, 0, 0, 420, 420, 10);
    store.spawn(Kind::Bullet, 1, 1, 120, 120, 300);
    let b = store.spawn(Kind::Enemy, 2, 2, 420, 420, 20);
    let enemies = store.of_kind(Kind::Enemy);
    assert_eq!(enemies.len(), 2);
    assert_eq!(enemies[0].id, a);
    assert_eq!(enemies[1].id, b);
    assert!(store.of_kind(Kind::Player).is_empty());
}
