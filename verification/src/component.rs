use crate::entity::Entity;
use crate::world::same_alloc;
use crate::world::Error;
use crate::world::World;
use vstd::prelude::*;

verus! {

/// A value that can be attached to an entity. Blanket-implemented: any
/// thread-safe `'static` type is a component.
pub trait Component: Send + Sync + 'static {

}

impl<T: Send + Sync + 'static> Component for T {

}

/// An ordered, fixed-arity list of components for a freshly spawned entity.
///
/// `add_to` inserts each element in declared order through [`World::add`].
/// The world hands it a fresh, valid handle, and the implementation must
/// succeed and leave the allocator's bookkeeping alone — [`World::add`]
/// guarantees both, so the tuple implementations below verify, and any
/// other implementation must prove the same.
pub trait ComponentBundle: Sized {
    fn add_to(self, world: &mut World, entity: Entity) -> (r: Result<(), Error>)
        requires
            old(world).wf(),
            old(world).spec_valid(entity),
        ensures
            final(world).wf(),
            same_alloc(*old(world), *final(world)),
            r is Ok,
    ;
}

impl ComponentBundle for () {
    fn add_to(self, world: &mut World, entity: Entity) -> (r: Result<(), Error>) {
        Ok(())
    }
}

impl<A: Component> ComponentBundle for (A,) {
    fn add_to(self, world: &mut World, entity: Entity) -> (r: Result<(), Error>) {
        world.add(entity, self.0)
    }
}

impl<A: Component, B: Component> ComponentBundle for (A, B) {
    fn add_to(self, world: &mut World, entity: Entity) -> (r: Result<(), Error>) {
        let (a, b) = self;
        match world.add(entity, a) {
            Ok(()) => {},
            Err(e) => { return Err(e); },
        }
        world.add(entity, b)
    }
}

impl<A: Component, B: Component, C: Component> ComponentBundle for (A, B, C) {
    fn add_to(self, world: &mut World, entity: Entity) -> (r: Result<(), Error>) {
        let (a, b, c) = self;
        match world.add(entity, a) {
            Ok(()) => {},
            Err(e) => { return Err(e); },
        }
        match world.add(entity, b) {
            Ok(()) => {},
            Err(e) => { return Err(e); },
        }
        world.add(entity, c)
    }
}

impl<A: Component, B: Component, C: Component, D: Component> ComponentBundle for (A, B, C, D) {
    fn add_to(self, world: &mut World, entity: Entity) -> (r: Result<(), Error>) {
        let (a, b, c, d) = self;
        match world.add(entity, a) {
            Ok(()) => {},
            Err(e) => { return Err(e); },
        }
        match world.add(entity, b) {
            Ok(()) => {},
            Err(e) => { return Err(e); },
        }
        match world.add(entity, c) {
            Ok(()) => {},
            Err(e) => { return Err(e); },
        }
        world.add(entity, d)
    }
}

impl<A: Component, B: Component, C: Component, D: Component, E: Component> ComponentBundle for (
    A,
    B,
    C,
    D,
    E,
) {
    fn add_to(self, world: &mut World, entity: Entity) -> (r: Result<(), Error>) {
        let (a, b, c, d, e) = self;
        match (a, b, c, d).add_to(world, entity) {
            Ok(()) => {},
            Err(err) => { return Err(err); },
        }
        world.add(entity, e)
    }
}

impl<
    A: Component,
    B: Component,
    C: Component,
    D: Component,
    E: Component,
    F: Component,
> ComponentBundle for (A, B, C, D, E, F) {
    fn add_to(self, world: &mut World, entity: Entity) -> (r: Result<(), Error>) {
        let (a, b, c, d, e, f) = self;
        match (a, b, c, d, e).add_to(world, entity) {
            Ok(()) => {},
            Err(err) => { return Err(err); },
        }
        world.add(entity, f)
    }
}

impl<
    A: Component,
    B: Component,
    C: Component,
    D: Component,
    E: Component,
    F: Component,
    G: Component,
> ComponentBundle for (A, B, C, D, E, F, G) {
    fn add_to(self, world: &mut World, entity: Entity) -> (r: Result<(), Error>) {
        let (a, b, c, d, e, f, g) = self;
        match (a, b, c, d, e, f).add_to(world, entity) {
            Ok(()) => {},
            Err(err) => { return Err(err); },
        }
        world.add(entity, g)
    }
}

impl<
    A: Component,
    B: Component,
    C: Component,
    D: Component,
    E: Component,
    F: Component,
    G: Component,
    H: Component,
> ComponentBundle for (A, B, C, D, E, F, G, H) {
    fn add_to(self, world: &mut World, entity: Entity) -> (r: Result<(), Error>) {
        let (a, b, c, d, e, f, g, h) = self;
        match (a, b, c, d, e, f, g).add_to(world, entity) {
            Ok(()) => {},
            Err(err) => { return Err(err); },
        }
        world.add(entity, h)
    }
}

} // verus!
