use ws_server::registry::Registry;

fn sorted(mut ids: Vec<u128>) -> Vec<u128> {
    ids.sort();
    ids
}

#[test]
fn new_registry_is_empty() {
    let registry = Registry::new();
    assert_eq!(registry.count(), 0);
    assert!(registry.ids().is_empty());
    assert!(!registry.contains(1));
}

#[test]
fn register_adds_an_identifier() {
    let mut registry = Registry::new();
    registry.register(41);
    assert_eq!(registry.count(), 1);
    assert!(registry.contains(41));
    assert_eq!(registry.ids(), vec![41]);
}

#[test]
fn register_twice_keeps_one_entry() {
    let mut registry = Registry::new();
    registry.register(41);
    registry.register(41);
    assert_eq!(registry.count(), 1);
    assert_eq!(registry.ids(), vec![41]);
}

#[test]
fn unregister_removes_the_identifier() {
    let mut registry = Registry::new();
    registry.register(1);
    registry.register(2);
    registry.unregister(1);
    assert_eq!(registry.count(), 1);
    assert!(!registry.contains(1));
    assert!(registry.contains(2));
}

#[test]
fn unregister_of_an_absent_identifier_changes_nothing() {
    let mut registry = Registry::new();
    registry.register(7);
    registry.unregister(8);
    registry.unregister(8);
    assert_eq!(registry.count(), 1);
    assert_eq!(registry.ids(), vec![7]);
}

#[test]
fn unregister_on_an_empty_registry_is_a_no_op() {
    let mut registry = Registry::new();
    registry.unregister(7);
    assert_eq!(registry.count(), 0);
}

#[test]
fn ids_lists_every_identifier_once() {
    let mut registry = Registry::new();
    for id in [5u128, 3, 9, 3, 1] {
        registry.register(id);
    }
    assert_eq!(sorted(registry.ids()), vec![1, 3, 5, 9]);
    assert_eq!(registry.count(), 4);
}

#[test]
fn count_follows_a_sequence_of_connects_and_disconnects() {
    // connect 1, connect 2, disconnect 1, connect 3, disconnect 9 (never
    // connected), disconnect 3, connect 1 again
    let mut registry = Registry::new();
    registry.register(1);
    assert_eq!(registry.count(), 1);
    registry.register(2);
    assert_eq!(registry.count(), 2);
    registry.unregister(1);
    assert_eq!(registry.count(), 1);
    registry.register(3);
    assert_eq!(registry.count(), 2);
    registry.unregister(9);
    assert_eq!(registry.count(), 2);
    registry.unregister(3);
    assert_eq!(registry.count(), 1);
    registry.register(1);
    assert_eq!(registry.count(), 2);
    assert_eq!(sorted(registry.ids()), vec![1, 2]);
}

#[test]
fn count_and_ids_agree_for_many_clients() {
    let mut registry = Registry::new();
    for id in 0..1000u128 {
        registry.register(id);
    }
    for id in (0..1000u128).step_by(2) {
        registry.unregister(id);
    }
    assert_eq!(registry.count(), 500);
    let ids = sorted(registry.ids());
    assert_eq!(ids.len(), 500);
    assert!(ids.iter().all(|id| id % 2 == 1));
}

#[test]
fn the_largest_identifier_is_an_identifier_like_any_other() {
    let mut registry = Registry::new();
    registry.register(u128::MAX);
    registry.register(0);
    assert!(registry.contains(u128::MAX));
    assert!(registry.contains(0));
    registry.unregister(u128::MAX);
    assert_eq!(registry.ids(), vec![0]);
}

#[test]
fn vacant_is_the_start_where_that_is_free() {
    let mut registry = Registry::new();
    assert_eq!(registry.vacant(5), 5);
    registry.register(6);
    assert_eq!(registry.vacant(5), 5);
    assert_eq!(registry.vacant(u128::MAX), u128::MAX);
}

#[test]
fn vacant_is_the_first_free_identifier_that_is_tried() {
    let mut registry = Registry::new();
    registry.register(5);
    assert_eq!(registry.vacant(5), 4);
    registry.register(4);
    assert_eq!(registry.vacant(5), 7);
    registry.register(7);
    registry.register(6);
    assert_eq!(registry.vacant(5), 1);
    // from another start the same registry gives another answer
    assert_eq!(registry.vacant(4), 0);
    assert_eq!(registry.vacant(9), 9);
}

#[test]
fn vacant_finds_a_free_identifier_in_a_crowded_registry() {
    let mut registry = Registry::new();
    for id in 0..512u128 {
        registry.register(id);
    }
    let id = registry.vacant(100);
    assert!(!registry.contains(id));
    assert_eq!(id, 100 ^ 512);
    assert_eq!(registry.count(), 512);
}
