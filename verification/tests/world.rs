use sparse_ecs::Entity;
use sparse_ecs::Error;
use sparse_ecs::World;

#[derive(Debug, Clone, Copy, PartialEq, Eq)]
struct Position {
    x: i32,
    y: i32,
}

#[derive(Debug, Clone, Copy, PartialEq, Eq)]
struct Velocity {
    dx: i32,
    dy: i32,
}

#[derive(Debug, Clone, Copy, PartialEq, Eq)]
struct Health(u32);

#[derive(Debug, Clone, Copy, PartialEq, Eq)]
struct Tag;

#[test]
fn spawn_empty_bundle_counts_one() {
    let mut world = World::new();
    let a = world.spawn(());
    assert_eq!(world.size(), 1);
    assert!(world.is_alive(a));
}

#[test]
fn entity_getters() {
    let mut world = World::new();
    let a = world.spawn(());
    assert_eq!(a.index(), 0);
    assert_eq!(a.version(), 1);
}

#[test]
fn despawn_invalidates_every_operation() {
    let mut world = World::new();
    let a = world.spawn(());
    world.add(a, Position { x: 3, y: 4 }).unwrap();
    assert_eq!(world.despawn(a), Ok(()));
    assert!(!world.is_alive(a));
    assert_eq!(world.size(), 0);
    assert_eq!(world.get::<Position>(a), Err(Error::VersionMismatch));
    assert_eq!(world.get_mut::<Position>(a).unwrap_err(), Error::VersionMismatch);
    assert_eq!(world.add(a, Position { x: 0, y: 0 }), Err(Error::VersionMismatch));
    assert_eq!(world.remove::<Position>(a), Err(Error::VersionMismatch));
    assert_eq!(world.despawn(a), Err(Error::VersionMismatch));
}

#[test]
fn reuse_bumps_version_and_old_handle_stays_dead() {
    let mut world = World::new();
    let a = world.spawn(());
    world.despawn(a).unwrap();
    let b = world.spawn(());
    assert_eq!(b.index(), a.index());
    assert!(b.version() > a.version());
    assert_eq!(world.get::<Position>(a), Err(Error::VersionMismatch));
    assert_eq!(world.despawn(a), Err(Error::VersionMismatch));
    assert!(world.is_alive(b));
}

#[test]
fn add_get_round_trip() {
    let mut world = World::new();
    let a = world.spawn(());
    assert_eq!(world.add(a, Position { x: 1, y: 2 }), Ok(()));
    assert_eq!(world.get::<Position>(a), Ok(&Position { x: 1, y: 2 }));
    assert_eq!(world.remove::<Position>(a), Ok(()));
    assert_eq!(world.get::<Position>(a), Err(Error::ComponentNotFound));
}

#[test]
fn upsert_keeps_exactly_one_value() {
    let mut world = World::new();
    let a = world.spawn(());
    world.add(a, Health(10)).unwrap();
    world.add(a, Health(25)).unwrap();
    assert_eq!(world.get::<Health>(a), Ok(&Health(25)));
    // Exactly one entry: after one remove nothing is left behind.
    assert_eq!(world.remove::<Health>(a), Ok(()));
    assert_eq!(world.get::<Health>(a), Err(Error::ComponentNotFound));
    assert_eq!(world.remove::<Health>(a), Err(Error::ComponentNotFound));
}

#[test]
fn swap_remove_leaves_other_entities_untouched() {
    let mut world = World::new();
    let a = world.spawn(());
    let b = world.spawn(());
    let c = world.spawn(());
    world.add(a, Position { x: 1, y: 1 }).unwrap();
    world.add(b, Position { x: 2, y: 2 }).unwrap();
    world.add(c, Position { x: 3, y: 3 }).unwrap();
    assert_eq!(world.remove::<Position>(b), Ok(()));
    assert_eq!(world.get::<Position>(a), Ok(&Position { x: 1, y: 1 }));
    assert_eq!(world.get::<Position>(c), Ok(&Position { x: 3, y: 3 }));
    assert_eq!(world.get::<Position>(b), Err(Error::ComponentNotFound));
}

#[test]
fn lazy_storage_creation() {
    let mut world = World::new();
    let a = world.spawn(());
    // No registration step of any kind has happened for Tag.
    assert_eq!(world.add(a, Tag), Ok(()));
    assert_eq!(world.get::<Tag>(a), Ok(&Tag));
}

#[test]
fn full_scenario() {
    let mut world = World::new();
    let a = world.spawn(());
    assert_eq!(world.size(), 1);
    assert_eq!(world.add(a, Position { x: 1, y: 2 }), Ok(()));
    assert_eq!(world.get::<Position>(a), Ok(&Position { x: 1, y: 2 }));
    assert_eq!(world.despawn(a), Ok(()));
    assert_eq!(world.get::<Position>(a), Err(Error::VersionMismatch));
    let b = world.spawn(());
    assert_eq!(b.index(), a.index());
    assert!(b.version() > a.version());
    // The stale entry the despawned entity left behind must not leak to the
    // slot's next occupant.
    assert_eq!(world.get::<Position>(b), Err(Error::ComponentNotFound));
    world.add(b, Position { x: 9, y: 9 }).unwrap();
    assert_eq!(world.get::<Position>(b), Ok(&Position { x: 9, y: 9 }));
}

#[test]
fn get_without_any_storage_reports_component_not_found() {
    let mut world = World::new();
    let a = world.spawn(());
    assert_eq!(world.get::<Velocity>(a), Err(Error::ComponentNotFound));
    assert_eq!(world.remove::<Velocity>(a), Err(Error::ComponentNotFound));
}

#[test]
fn get_mut_writes_through() {
    let mut world = World::new();
    let a = world.spawn(());
    world.add(a, Health(1)).unwrap();
    {
        let h = world.get_mut::<Health>(a).unwrap();
        h.0 = 42;
    }
    assert_eq!(world.get::<Health>(a), Ok(&Health(42)));
}

#[test]
fn tuple_bundles_insert_in_order() {
    let mut world = World::new();
    let a = world.spawn((Position { x: 5, y: 6 },));
    assert_eq!(world.get::<Position>(a), Ok(&Position { x: 5, y: 6 }));
    let b = world.spawn((Position { x: 7, y: 8 }, Velocity { dx: 1, dy: 1 }));
    assert_eq!(world.get::<Position>(b), Ok(&Position { x: 7, y: 8 }));
    assert_eq!(world.get::<Velocity>(b), Ok(&Velocity { dx: 1, dy: 1 }));
    let c = world.spawn((Position { x: 0, y: 0 }, Velocity { dx: 2, dy: 2 }, Health(3), Tag));
    assert_eq!(world.get::<Health>(c), Ok(&Health(3)));
    assert_eq!(world.get::<Tag>(c), Ok(&Tag));
    assert_eq!(world.size(), 3);
}

#[test]
fn eight_element_bundle() {
    let mut world = World::new();
    let a = world.spawn((1u8, 2u16, 3u32, 4u64, 5i8, 6i16, 7i32, 8i64));
    assert_eq!(world.get::<u8>(a), Ok(&1));
    assert_eq!(world.get::<u16>(a), Ok(&2));
    assert_eq!(world.get::<u32>(a), Ok(&3));
    assert_eq!(world.get::<u64>(a), Ok(&4));
    assert_eq!(world.get::<i8>(a), Ok(&5));
    assert_eq!(world.get::<i16>(a), Ok(&6));
    assert_eq!(world.get::<i32>(a), Ok(&7));
    assert_eq!(world.get::<i64>(a), Ok(&8));
}

#[test]
fn capacity_grows_in_chunks() {
    let mut world = World::new();
    let mut entities = Vec::new();
    for i in 0..130u32 {
        let e = world.spawn((Health(i),));
        assert_eq!(e.index(), i);
        assert_eq!(e.version(), 1);
        entities.push(e);
    }
    assert_eq!(world.size(), 130);
    for (i, e) in entities.iter().enumerate() {
        assert_eq!(world.get::<Health>(*e), Ok(&Health(i as u32)));
    }
}

#[test]
fn freed_slots_are_reused_oldest_first() {
    let mut world = World::new();
    let a = world.spawn(());
    let b = world.spawn(());
    let c = world.spawn(());
    world.despawn(b).unwrap();
    world.despawn(a).unwrap();
    let d = world.spawn(());
    let e = world.spawn(());
    assert_eq!(d.index(), b.index());
    assert_eq!(e.index(), a.index());
    assert_eq!(world.size(), 3);
    assert!(world.is_alive(c));
}

#[test]
fn clear_discards_everything() {
    let mut world = World::new();
    let a = world.spawn((Position { x: 1, y: 1 }, Health(5)));
    world.spawn(());
    world.clear();
    assert_eq!(world.size(), 0);
    assert!(!world.is_alive(a));
    assert_eq!(world.get::<Position>(a), Err(Error::VersionMismatch));
}

#[test]
fn clear_starts_a_fresh_world() {
    let mut world = World::new();
    world.spawn(());
    world.clear();
    let a = world.spawn(());
    assert_eq!(a.index(), 0);
    assert_eq!(a.version(), 1);
    assert_eq!(world.size(), 1);
}

#[test]
fn is_alive_is_false_for_foreign_handles() {
    let world = World::new();
    let stray = Entity { index: 7, version: 1 };
    assert!(!world.is_alive(stray));
}

#[test]
fn default_world_is_empty() {
    let world = World::default();
    assert_eq!(world.size(), 0);
}

#[test]
fn error_messages() {
    assert_eq!(Error::VersionMismatch.message(), "entity no longer exists");
    assert_eq!(Error::ComponentNotFound.message(), "entity does not have this component");
}
