use sparse_ecs::ComponentStorage;
use sparse_ecs::Entity;

fn handle(index: u32, version: u32) -> Entity {
    Entity { index, version }
}

#[test]
fn insert_then_get_returns_the_value() {
    let mut storage = ComponentStorage::<u64>::new();
    let e = handle(0, 1);
    storage.insert(e, 99);
    assert_eq!(storage.get(e), Some(&99));
    assert_eq!(storage.len(), 1);
}

#[test]
fn get_on_empty_storage_is_absent() {
    let storage = ComponentStorage::<u64>::new();
    assert_eq!(storage.get(handle(0, 1)), None);
    assert_eq!(storage.get(handle(1000, 1)), None);
}

#[test]
fn upsert_overwrites_in_place() {
    let mut storage = ComponentStorage::<&'static str>::new();
    let e = handle(4, 2);
    storage.insert(e, "first");
    storage.insert(e, "second");
    assert_eq!(storage.len(), 1);
    assert_eq!(storage.get(e), Some(&"second"));
}

#[test]
fn swap_remove_middle_keeps_others() {
    let mut storage = ComponentStorage::<u64>::new();
    let a = handle(0, 1);
    let b = handle(1, 1);
    let c = handle(2, 1);
    storage.insert(a, 10);
    storage.insert(b, 20);
    storage.insert(c, 30);
    assert!(storage.remove(b));
    assert_eq!(storage.len(), 2);
    assert_eq!(storage.get(a), Some(&10));
    assert_eq!(storage.get(c), Some(&30));
    assert_eq!(storage.get(b), None);
}

#[test]
fn remove_last_and_only_entries() {
    let mut storage = ComponentStorage::<u64>::new();
    let a = handle(0, 1);
    let b = handle(1, 1);
    storage.insert(a, 1);
    storage.insert(b, 2);
    // Removing the entry that sits last in the packed arrays.
    assert!(storage.remove(b));
    assert_eq!(storage.get(a), Some(&1));
    // Removing the only remaining entry.
    assert!(storage.remove(a));
    assert_eq!(storage.len(), 0);
    assert_eq!(storage.get(a), None);
}

#[test]
fn remove_is_false_when_absent() {
    let mut storage = ComponentStorage::<u64>::new();
    let a = handle(3, 1);
    assert!(!storage.remove(a));
    storage.insert(a, 5);
    assert!(storage.remove(a));
    assert!(!storage.remove(a));
}

#[test]
fn stale_generation_never_resolves() {
    let mut storage = ComponentStorage::<u64>::new();
    let old_occupant = handle(2, 1);
    storage.insert(old_occupant, 7);
    // A later occupant of the same slot carries a greater generation: the
    // stale entry must not leak to it, in either direction.
    let new_occupant = handle(2, 2);
    assert_eq!(storage.get(new_occupant), None);
    assert!(!storage.remove(new_occupant));
    // Inserting for the new occupant reclaims the slot's entry in place.
    storage.insert(new_occupant, 8);
    assert_eq!(storage.len(), 1);
    assert_eq!(storage.get(new_occupant), Some(&8));
    assert_eq!(storage.get(old_occupant), None);
}

#[test]
fn storage_get_mut_writes_through() {
    let mut storage = ComponentStorage::<u64>::new();
    let e = handle(0, 1);
    storage.insert(e, 1);
    if let Some(v) = storage.get_mut(e) {
        *v = 77;
    }
    assert_eq!(storage.get(e), Some(&77));
    assert_eq!(storage.get_mut(handle(0, 2)), None);
}

#[test]
fn extend_if_necessary_holds_nothing_new() {
    let mut storage = ComponentStorage::<u64>::new();
    storage.extend_if_necessary(50);
    assert_eq!(storage.len(), 0);
    assert_eq!(storage.get(handle(50, 1)), None);
    storage.insert(handle(50, 1), 5);
    assert_eq!(storage.get(handle(50, 1)), Some(&5));
}

#[test]
fn clear_empties_the_storage() {
    let mut storage = ComponentStorage::<u64>::new();
    storage.insert(handle(0, 1), 1);
    storage.insert(handle(1, 1), 2);
    storage.clear();
    assert_eq!(storage.len(), 0);
    assert_eq!(storage.get(handle(0, 1)), None);
    storage.insert(handle(1, 3), 9);
    assert_eq!(storage.get(handle(1, 3)), Some(&9));
}
