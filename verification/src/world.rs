use crate::bitset::bits;
use crate::bitset::LiveBits;
use crate::component::Component;
use crate::component::ComponentBundle;
use crate::counting::count_true;
use crate::counting::lemma_count_true_below_len;
use crate::counting::lemma_count_true_false_extension;
use crate::counting::lemma_count_true_le_len;
use crate::counting::lemma_count_true_update;
use crate::entity::Entity;
use crate::registry::Registry;
use crate::storage::ComponentStorage;
use vstd::prelude::*;

verus! {

/// Why a world operation declined; always an ordinary return value, never a
/// panic, and always recoverable.
#[derive(Debug, Clone, Copy, PartialEq, Eq, Structural)]
pub enum Error {
    /// The supplied handle's slot is not alive, or is alive under a
    /// different generation: the handle no longer designates any entity.
    VersionMismatch,
    /// The requested component type has no storage at all, or this entity
    /// holds no value in it.
    ComponentNotFound,
}

impl Error {
    /// The text the error renders as.
    pub open spec fn spec_message(self) -> Seq<char> {
        match self {
            Error::VersionMismatch => "entity no longer exists"@,
            Error::ComponentNotFound => "entity does not have this component"@,
        }
    }

    /// A short description of the error.
    pub fn message(&self) -> (s: &'static str)
        ensures
            s@ == self.spec_message(),
    {
        match self {
            Error::VersionMismatch => "entity no longer exists",
            Error::ComponentNotFound => "entity does not have this component",
        }
    }
}

/// How many slots the allocator grows by at a time.
pub const GROWTH_CHUNK: usize = 64;

/// The sole public surface: entity lifecycle plus per-type component
/// storage, reached through the type registry.
pub struct World {
    /// Current generation of each slot.
    versions: Vec<u32>,
    /// One bit per slot: alive right now?
    alive: LiveBits,
    /// Freed slot indices awaiting reuse, oldest first.
    free: Vec<u32>,
    /// Per-type component storages, created lazily.
    components: Registry,
    /// Next never-yet-used slot index.
    entity_counter: u32,
    /// Number of entities currently alive.
    num_entities: usize,
}

impl World {
    /// Generation of each slot.
    pub closed spec fn spec_versions(self) -> Seq<u32> {
        self.versions@
    }

    /// Liveness bit of each slot.
    pub closed spec fn spec_alive(self) -> Seq<bool> {
        bits(self.alive)
    }

    /// Freed slot indices awaiting reuse, oldest first.
    pub closed spec fn spec_free(self) -> Seq<u32> {
        self.free@
    }

    /// Next never-yet-used slot index.
    pub closed spec fn spec_counter(self) -> u32 {
        self.entity_counter
    }

    /// Number of entities currently alive.
    pub closed spec fn spec_size(self) -> nat {
        self.num_entities as nat
    }

    /// Allocator invariant: the slot arrays line up, the live count is
    /// tracked exactly, slots past the high-water mark are untouched, and
    /// the free queue holds distinct, dead, already-issued slots.
    pub open spec fn wf(self) -> bool {
        alloc_wf(
            self.spec_versions(),
            self.spec_alive(),
            self.spec_free(),
            self.spec_counter(),
            self.spec_size(),
        )
    }

    /// The handle's slot is alive (generation ignored).
    pub open spec fn spec_is_alive(self, e: Entity) -> bool {
        e.index < self.spec_alive().len() && self.spec_alive()[e.index as int]
    }

    /// The handle designates an entity: its slot is alive and still carries
    /// the handle's generation.
    pub open spec fn spec_valid(self, e: Entity) -> bool {
        &&& self.spec_is_alive(e)
        &&& e.index < self.spec_versions().len()
        &&& self.spec_versions()[e.index as int] == e.version
    }

    /// The next spawn must extend the slot arrays first.
    pub open spec fn spec_needs_growth(self) -> bool {
        self.spec_free().len() == 0 && self.spec_counter() == self.spec_versions().len()
    }

    /// The slot the next spawn hands out: the oldest freed one, else the
    /// high-water mark.
    pub open spec fn spec_spawn_index(self) -> int {
        if self.spec_free().len() > 0 {
            self.spec_free()[0] as int
        } else {
            self.spec_counter() as int
        }
    }

    /// The generation the next spawn stamps: one past the slot's current.
    pub open spec fn spec_spawn_version(self) -> int {
        1 + if self.spec_spawn_index() < self.spec_versions().len() {
            self.spec_versions()[self.spec_spawn_index()] as int
        } else {
            0
        }
    }

    /// The machine limits leave room for the next spawn: the slot arrays
    /// can still grow by a chunk if they must, and the chosen slot's
    /// generation counter has not been exhausted.
    pub open spec fn spec_can_spawn(self) -> bool {
        &&& (!self.spec_needs_growth() || self.spec_versions().len() + GROWTH_CHUNK <= u32::MAX)
        &&& self.spec_spawn_version() <= u32::MAX
    }
}

/// The allocator invariant, over the bookkeeping values themselves: the
/// slot arrays line up within the index space, the live count is tracked
/// exactly, slots at or past the high-water mark are dead with generation
/// zero, and the free queue holds distinct, dead, already-issued slots.
pub open spec fn alloc_wf(
    versions: Seq<u32>,
    alive: Seq<bool>,
    free: Seq<u32>,
    counter: u32,
    size: nat,
) -> bool {
    &&& versions.len() == alive.len()
    &&& versions.len() <= u32::MAX
    &&& counter <= versions.len()
    &&& size == count_true(alive)
    &&& forall|i: int| counter <= i < alive.len() ==> !(#[trigger] alive[i])
    &&& forall|i: int| counter <= i < versions.len() ==> (#[trigger] versions[i]) == 0
    &&& forall|k: int| 0 <= k < free.len() ==> (#[trigger] free[k]) < counter
    &&& forall|k: int| 0 <= k < free.len() ==> !alive[(#[trigger] free[k]) as int]
    &&& forall|k1: int, k2: int| 0 <= k1 < k2 < free.len() ==> free[k1] != free[k2]
}

/// The two worlds carry identical allocator bookkeeping; only their
/// component storages may differ.
pub open spec fn same_alloc(a: World, b: World) -> bool {
    &&& b.spec_versions() == a.spec_versions()
    &&& b.spec_alive() == a.spec_alive()
    &&& b.spec_free() == a.spec_free()
    &&& b.spec_counter() == a.spec_counter()
    &&& b.spec_size() == a.spec_size()
}

/// What one spawn does to the allocator: after growing by a chunk if it had
/// to, it stamps the handed-out slot with the next generation, marks it
/// alive, consumes the front of the free queue or advances the high-water
/// mark, and counts one more live entity.
pub open spec fn spawned(pre: World, post: World, e: Entity) -> bool {
    let grown_versions = if pre.spec_needs_growth() {
        pre.spec_versions() + Seq::new(GROWTH_CHUNK as nat, |i: int| 0u32)
    } else {
        pre.spec_versions()
    };
    let grown_alive = if pre.spec_needs_growth() {
        pre.spec_alive() + Seq::new(GROWTH_CHUNK as nat, |i: int| false)
    } else {
        pre.spec_alive()
    };
    &&& e.index == pre.spec_spawn_index()
    &&& e.version == pre.spec_spawn_version()
    &&& post.spec_versions() == grown_versions.update(e.index as int, e.version)
    &&& post.spec_alive() == grown_alive.update(e.index as int, true)
    &&& post.spec_free() == if pre.spec_free().len() > 0 {
        pre.spec_free().drop_first()
    } else {
        pre.spec_free()
    }
    &&& post.spec_counter() == if pre.spec_free().len() > 0 {
        pre.spec_counter() as int
    } else {
        pre.spec_counter() + 1
    }
    &&& post.spec_size() == pre.spec_size() + 1
}

/// What one successful despawn does to the allocator: the handle was valid,
/// its slot's liveness bit is cleared (the generation stays put until
/// reuse), the slot joins the back of the free queue, and one fewer entity
/// is alive.
pub open spec fn despawned(pre: World, post: World, e: Entity) -> bool {
    &&& pre.spec_valid(e)
    &&& post.spec_versions() == pre.spec_versions()
    &&& post.spec_alive() == pre.spec_alive().update(e.index as int, false)
    &&& post.spec_free() == pre.spec_free().push(e.index)
    &&& post.spec_counter() == pre.spec_counter()
    &&& post.spec_size() == pre.spec_size() - 1
}

/// One public operation other than `clear`: a spawn, a successful despawn,
/// or anything that leaves the allocator alone (component operations,
/// reads, and declined despawns).
pub open spec fn step(pre: World, post: World) -> bool {
    ||| same_alloc(pre, post)
    ||| exists|e: Entity| spawned(pre, post, e)
    ||| exists|e: Entity| despawned(pre, post, e)
}

/// The handle can never again designate an entity: its slot's generation
/// has either moved past the handle's, or still equals it while the slot is
/// dead — and only a spawn that first bumps the generation revives a slot.
pub open spec fn dead_handle(w: World, e: Entity) -> bool {
    &&& e.index < w.spec_versions().len()
    &&& e.version <= w.spec_versions()[e.index as int]
    &&& (e.version == w.spec_versions()[e.index as int] ==> !w.spec_alive()[e.index as int])
}

impl core::default::Default for World {
    /// An empty world, as [`World::new`] makes it.
    fn default() -> (w: World)
        ensures
            w.wf(),
            w.spec_size() == 0,
            w.spec_versions().len() == 0,
            w.spec_free().len() == 0,
            w.spec_counter() == 0,
    {
        World::new()
    }
}

impl World {
    /// An empty world: no slots, no live entities, no storages.
    pub fn new() -> (w: World)
        ensures
            w.wf(),
            w.spec_size() == 0,
            w.spec_versions().len() == 0,
            w.spec_free().len() == 0,
            w.spec_counter() == 0,
    {
        World {
            versions: Vec::new(),
            alive: LiveBits::new(),
            free: Vec::new(),
            components: Registry::new(),
            entity_counter: 0,
            num_entities: 0,
        }
    }

    /// Issues a handle to a fresh entity and applies the bundle's component
    /// insertions to it, in declared order. A freed slot is reused first
    /// (oldest first); otherwise the high-water mark advances, growing the
    /// slot arrays by a fixed chunk when they are exhausted.
    pub fn spawn<B: ComponentBundle>(&mut self, components: B) -> (entity: Entity)
        requires
            old(self).wf(),
            old(self).spec_can_spawn(),
        ensures
            final(self).wf(),
            spawned(*old(self), *final(self), entity),
            final(self).spec_valid(entity),
    {
        let index: u32;
        if self.free.len() == 0 {
            if (self.entity_counter as usize) >= self.versions.len() {
                self.alloc_more_entities();
            }
            proof {
                assert(self.wf());
                assert(self.entity_counter < self.versions@.len());
                assert(!bits(self.alive)[self.entity_counter as int]);
                assert(self.versions@[self.entity_counter as int] == 0);
            }
            index = self.entity_counter;
            self.entity_counter = self.entity_counter + 1;
        } else {
            index = self.free.remove(0);
            proof {
                assert(old(self).spec_free()[0] < old(self).spec_counter());
                assert(!old(self).spec_alive()[old(self).spec_free()[0] as int]);
            }
        }
        let ghost mid = *self;
        proof {
            assert(index as int == old(self).spec_spawn_index());
            assert(index < mid.versions@.len());
            assert(!bits(mid.alive)[index as int]);
            assert(mid.versions@[index as int] + 1 == old(self).spec_spawn_version());
            lemma_count_true_le_len(bits(mid.alive));
            lemma_count_true_below_len(bits(mid.alive), index as int);
            lemma_count_true_update(bits(mid.alive), index as int, true);
        }
        let iu = index as usize;
        let new_version = self.versions[iu] + 1;
        self.versions[iu] = new_version;
        self.alive.set(iu, true);
        self.num_entities = self.num_entities + 1;
        let entity = Entity { index, version: new_version };
        proof {
            assert(bits(self.alive) == bits(mid.alive).update(iu as int, true));
            if old(self).spec_free().len() > 0 {
                assert(self.spec_free() =~= old(self).spec_free().drop_first());
                assert forall|k: int|
                    0 <= k < self.spec_free().len() implies !self.spec_alive()[(
                #[trigger] self.spec_free()[k]) as int] by {
                    assert(old(self).spec_free()[k + 1] != old(self).spec_free()[0]);
                    assert(!old(self).spec_alive()[old(self).spec_free()[k + 1] as int]);
                }
            }
            assert(self.wf());
            assert(spawned(*old(self), *self, entity));
            assert(self.spec_valid(entity));
        }
        let _added = components.add_to(self, entity);
        entity
    }

    /// Retires a valid handle: clears its slot's liveness bit and queues
    /// the slot for reuse. The generation is not bumped here — the spawn
    /// that reuses the slot does that — so the handle fails validation from
    /// now on purely through the liveness check. Declines with
    /// `VersionMismatch` for a handle that is no longer valid.
    pub fn despawn(&mut self, entity: Entity) -> (r: Result<(), Error>)
        requires
            old(self).wf(),
        ensures
            final(self).wf(),
            old(self).spec_valid(entity) ==> r == Ok::<(), Error>(()) && despawned(
                *old(self),
                *final(self),
                entity,
            ),
            !old(self).spec_valid(entity) ==> r == Err::<(), Error>(Error::VersionMismatch)
                && *final(self) == *old(self),
    {
        match self.check_valid_entity(entity) {
            Err(e) => { return Err(e); },
            Ok(()) => {},
        }
        proof {
            lemma_count_true_update(bits(old(self).alive), entity.index as int, false);
            assert(entity.index < old(self).spec_counter()) by {
                if entity.index >= old(self).spec_counter() {
                    assert(!old(self).spec_alive()[entity.index as int]);
                }
            }
            assert forall|k: int|
                0 <= k < old(self).spec_free().len() implies (#[trigger] old(self).spec_free()[k])
                    != entity.index by {
                assert(!old(self).spec_alive()[old(self).spec_free()[k] as int]);
            }
        }
        self.alive.set(entity.index as usize, false);
        self.free.push(entity.index);
        self.num_entities = self.num_entities - 1;
        Ok(())
    }

    /// Liveness-bit lookup only — one half of validity, never sufficient
    /// alone: a freed slot keeps its generation until reuse, so callers
    /// must validate generations through the other operations.
    pub fn is_alive(&self, entity: Entity) -> (r: bool)
        ensures
            r == self.spec_is_alive(entity),
    {
        (entity.index as usize) < self.alive.len() && self.alive.get(entity.index as usize)
    }

    /// Fetches `C` for the handle. Declines with `VersionMismatch` exactly
    /// when the handle no longer designates an entity, and with
    /// `ComponentNotFound` when it does but no storage for `C` exists or
    /// the entity holds no value in it.
    pub fn get<C: Component>(&self, entity: Entity) -> (r: Result<&C, Error>)
        requires
            self.wf(),
        ensures
            r == Err::<&C, Error>(Error::VersionMismatch) <==> !self.spec_valid(entity),
    {
        match self.check_valid_entity(entity) {
            Err(e) => { return Err(e); },
            Ok(()) => {},
        }
        let storage = match self.components.get::<C>() {
            Some(s) => s,
            None => { return Err(Error::ComponentNotFound); },
        };
        match storage.get(entity) {
            Some(v) => Ok(v),
            None => Err(Error::ComponentNotFound),
        }
    }

    /// Like [`World::get`], but hands out a mutable borrow of the stored
    /// value. The allocator's bookkeeping is left alone whatever the caller
    /// writes through the borrow.
    #[verifier::rlimit(50)]
    pub fn get_mut<C: Component>(&mut self, entity: Entity) -> (r: Result<&mut C, Error>)
        requires
            old(self).wf(),
        ensures
            final(self).wf(),
            same_alloc(*old(self), *final(self)),
            r == Err::<&mut C, Error>(Error::VersionMismatch) <==> !old(self).spec_valid(entity),
            !old(self).spec_valid(entity) ==> *final(self) == *old(self),
    {
        match self.check_valid_entity(entity) {
            Err(e) => { return Err(e); },
            Ok(()) => {},
        }
        match self.components.get_mut::<C>() {
            Some(storage) => match storage.get_mut(entity) {
                Some(v) => Ok(v),
                None => Err(Error::ComponentNotFound),
            },
            None => Err(Error::ComponentNotFound),
        }
    }

    /// Attaches `component` to the entity, creating the storage for `C` the
    /// first time any entity receives a `C`, and overwriting in place if
    /// this entity already holds one (upsert). Succeeds if and only if the
    /// handle is valid; never reports `ComponentNotFound`.
    pub fn add<C: Component>(&mut self, entity: Entity, component: C) -> (r: Result<(), Error>)
        requires
            old(self).wf(),
        ensures
            final(self).wf(),
            same_alloc(*old(self), *final(self)),
            r == (if old(self).spec_valid(entity) {
                Ok::<(), Error>(())
            } else {
                Err::<(), Error>(Error::VersionMismatch)
            }),
            !old(self).spec_valid(entity) ==> *final(self) == *old(self),
    {
        match self.check_valid_entity(entity) {
            Err(e) => { return Err(e); },
            Ok(()) => {},
        }
        let mut storage = match self.components.take::<C>() {
            Some(s) => s,
            None => ComponentStorage::<C>::new(),
        };
        storage.insert(entity, component);
        self.components.put(storage);
        Ok(())
    }

    /// Detaches `C` from the entity. Declines with `VersionMismatch`
    /// exactly when the handle is no longer valid, and with
    /// `ComponentNotFound` when it is but there is nothing to remove.
    pub fn remove<C: Component>(&mut self, entity: Entity) -> (r: Result<(), Error>)
        requires
            old(self).wf(),
        ensures
            final(self).wf(),
            same_alloc(*old(self), *final(self)),
            r == Err::<(), Error>(Error::VersionMismatch) <==> !old(self).spec_valid(entity),
            !old(self).spec_valid(entity) ==> *final(self) == *old(self),
    {
        match self.check_valid_entity(entity) {
            Err(e) => { return Err(e); },
            Ok(()) => {},
        }
        let mut storage = match self.components.take::<C>() {
            Some(s) => s,
            None => { return Err(Error::ComponentNotFound); },
        };
        let removed = storage.remove(entity);
        self.components.put(storage);
        if removed {
            Ok(())
        } else {
            Err(Error::ComponentNotFound)
        }
    }

    /// Count of currently alive entities (not capacity).
    pub fn size(&self) -> (n: usize)
        ensures
            n == self.spec_size(),
    {
        self.num_entities
    }

    /// Resets the allocator to empty and discards every storage, running
    /// the destructor of every still-stored component value. Nothing
    /// survives: handles issued before a clear belong to a world that no
    /// longer exists.
    pub fn clear(&mut self)
        ensures
            final(self).wf(),
            final(self).spec_size() == 0,
            final(self).spec_versions().len() == 0,
            final(self).spec_free().len() == 0,
            final(self).spec_counter() == 0,
    {
        self.versions.clear();
        self.alive.clear();
        self.free.clear();
        self.components.clear();
        self.entity_counter = 0;
        self.num_entities = 0;
    }

    /// Grows the slot arrays by one fixed chunk of dead, generation-zero
    /// slots.
    fn alloc_more_entities(&mut self)
        requires
            old(self).wf(),
            old(self).spec_versions().len() + GROWTH_CHUNK <= u32::MAX,
        ensures
            final(self).wf(),
            final(self).spec_versions() == old(self).spec_versions() + Seq::new(
                GROWTH_CHUNK as nat,
                |i: int| 0u32,
            ),
            final(self).spec_alive() == old(self).spec_alive() + Seq::new(
                GROWTH_CHUNK as nat,
                |i: int| false,
            ),
            final(self).spec_free() == old(self).spec_free(),
            final(self).spec_counter() == old(self).spec_counter(),
            final(self).spec_size() == old(self).spec_size(),
    {
        let mut k: usize = 0;
        while k < GROWTH_CHUNK
            invariant
                k <= GROWTH_CHUNK,
                self.versions@.len() == old(self).versions@.len() + k,
                forall|i: int|
                    0 <= i < old(self).versions@.len() ==> self.versions@[i] == old(
                        self).versions@[i],
                forall|i: int|
                    old(self).versions@.len() <= i < self.versions@.len() ==> self.versions@[i]
                        == 0,
                self.alive == old(self).alive,
                self.free == old(self).free,
                self.entity_counter == old(self).entity_counter,
                self.num_entities == old(self).num_entities,
                self.components == old(self).components,
            decreases GROWTH_CHUNK - k,
        {
            self.versions.push(0);
            k = k + 1;
        }
        let new_len = self.alive.len() + GROWTH_CHUNK;
        self.alive.grow(new_len);
        proof {
            lemma_count_true_false_extension(bits(old(self).alive), bits(self.alive));
            assert(self.spec_versions() =~= old(self).spec_versions() + Seq::new(
                GROWTH_CHUNK as nat,
                |i: int| 0u32,
            ));
            assert(self.spec_alive() =~= old(self).spec_alive() + Seq::new(
                GROWTH_CHUNK as nat,
                |i: int| false,
            ));
            assert(self.spec_free() == old(self).spec_free());
            assert forall|k: int|
                0 <= k < self.spec_free().len() implies !self.spec_alive()[(
            #[trigger] self.spec_free()[k]) as int] by {
                assert(old(self).spec_free()[k] < old(self).spec_counter());
                assert(!old(self).spec_alive()[old(self).spec_free()[k] as int]);
            }
            assert(self.wf());
        }
    }

    /// Full validity check — liveness and generation together — performed
    /// before every dispatch; storages themselves never fail.
    fn check_valid_entity(&self, entity: Entity) -> (r: Result<(), Error>)
        requires
            self.wf(),
        ensures
            r == (if self.spec_valid(entity) {
                Ok::<(), Error>(())
            } else {
                Err::<(), Error>(Error::VersionMismatch)
            }),
    {
        if self.is_alive(entity) && self.versions[entity.index as usize] == entity.version {
            Ok(())
        } else {
            Err(Error::VersionMismatch)
        }
    }
}

/// A successful despawn leaves the handle dead: its slot is no longer
/// alive, the handle no longer validates, and [`dead_handle`] holds — so by
/// [`lemma_dead_handle_persists`] every later `get`, `get_mut`, `add` or
/// `remove` on it reports `Error::VersionMismatch`, as those contracts tie
/// that error to failed validity.
pub proof fn lemma_despawn_invalidates(pre: World, post: World, e: Entity)
    requires
        pre.wf(),
        despawned(pre, post, e),
    ensures
        !post.spec_is_alive(e),
        !post.spec_valid(e),
        dead_handle(post, e),
{
}

/// Dead handles stay dead across every operation except `clear` (which
/// discards the whole population and starts a fresh world): spawns — even
/// one that reuses the slot, since it first bumps the generation —
/// despawns, and everything that leaves the allocator alone.
pub proof fn lemma_dead_handle_persists(pre: World, post: World, e: Entity)
    requires
        pre.wf(),
        dead_handle(pre, e),
        step(pre, post),
    ensures
        dead_handle(post, e),
        !post.spec_valid(e),
{
    if exists|f: Entity| spawned(pre, post, f) {
        let f = choose|f: Entity| spawned(pre, post, f);
        assert(dead_handle(post, e));
    } else if exists|f: Entity| despawned(pre, post, f) {
        let f = choose|f: Entity| despawned(pre, post, f);
        assert(dead_handle(post, e));
    }
}

/// A spawn never hands out the slot of a handle that is still valid: only
/// freed or never-yet-issued slots are chosen, and both are dead. So every
/// handle issued earlier for the reused slot was invalid at the reuse, and
/// [`lemma_reuse_version_increases`] applies to it.
pub proof fn lemma_spawn_spares_live_handles(pre: World, post: World, e: Entity, f: Entity)
    requires
        pre.wf(),
        pre.spec_valid(e),
        spawned(pre, post, f),
    ensures
        f.index != e.index,
        post.spec_valid(e),
{
    if pre.spec_free().len() > 0 {
        assert(!pre.spec_alive()[pre.spec_free()[0] as int]);
    }
}

/// Reuse: when a spawn hands a dead handle's slot to a new entity, the new
/// handle carries a strictly greater generation than the old one ever did,
/// and the old handle stays invalid.
pub proof fn lemma_reuse_version_increases(pre: World, post: World, e: Entity, f: Entity)
    requires
        pre.wf(),
        dead_handle(pre, e),
        spawned(pre, post, f),
        f.index == e.index,
    ensures
        f.version > e.version,
        dead_handle(post, e),
        !post.spec_valid(e),
{
    lemma_dead_handle_persists(pre, post, e);
}

} // verus!
