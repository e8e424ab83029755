use crate::counting::count_true;
use crate::counting::lemma_count_true_below_len;
use crate::counting::lemma_count_true_false_extension;
use crate::counting::lemma_count_true_le_len;
use crate::counting::lemma_count_true_update;
use crate::entity::Entity;
use vstd::prelude::*;

verus! {

/// Marker in the sparse array for a slot that holds no component. The
/// maximum representable index is reserved and never a legitimate index.
pub const SENTINEL: u32 = u32::MAX;

/// Which sparse entries are occupied.
pub open spec fn occupied(s: Seq<u32>) -> Seq<bool> {
    Seq::new(s.len(), |i: int| s[i] != SENTINEL)
}

/// Stores components of one type, keyed by entity index.
///
/// The layout is a sparse set: `sparse` maps an entity index to a slot in the
/// packed `dense`/`data` pair, `dense` records which entity owns each slot
/// (index and generation), and `data` holds the values, slot-aligned with
/// `dense`. The packed arrays have no holes: removal swaps the last entry
/// into the freed slot. A despawned entity's entry survives in the storage
/// until the slot's next occupant inserts its own value, but its generation
/// stamp no longer matches any live handle, so it can never be read again.
pub struct ComponentStorage<T> {
    /// Dense slot for each entity index, or `SENTINEL`.
    sparse: Vec<u32>,
    /// Owning entity of each dense slot, a back-pointer used both for
    /// swap-remove fix-up and as a generation check.
    dense: Vec<Entity>,
    /// Component values, slot-aligned with `dense`.
    data: Vec<T>,
}

impl<T> ComponentStorage<T> {
    /// What the storage holds: for each entity index present, the generation
    /// under which the value was stored, and the value.
    pub closed spec fn contents(self) -> Map<u32, (u32, T)> {
        Map::new(
            |i: u32| i < self.sparse@.len() && self.sparse@[i as int] != SENTINEL,
            |i: u32|
                (
                    self.dense@[self.sparse@[i as int] as int].version,
                    self.data@[self.sparse@[i as int] as int],
                ),
        )
    }

    /// Number of entries held; the packed arrays have exactly this length.
    pub closed spec fn spec_count(self) -> nat {
        self.dense@.len()
    }

    /// The sparse array: dense slot per entity index, or `SENTINEL`.
    pub closed spec fn spec_sparse(self) -> Seq<u32> {
        self.sparse@
    }

    /// The packed array of owning entities, one per dense slot.
    pub closed spec fn spec_dense(self) -> Seq<Entity> {
        self.dense@
    }

    /// The packed array of values, slot-aligned with `spec_dense`.
    pub closed spec fn spec_data(self) -> Seq<T> {
        self.data@
    }

    /// The value stored for this handle, if the handle's index is present
    /// under the handle's own generation.
    pub open spec fn spec_get(self, e: Entity) -> Option<T> {
        if self.contents().contains_key(e.index) && self.contents()[e.index].0 == e.version {
            Some(self.contents()[e.index].1)
        } else {
            None
        }
    }

    /// Structural invariant of the sparse set.
    pub closed spec fn wf(self) -> bool {
        &&& self.data@.len() == self.dense@.len()
        &&& self.sparse@.len() <= u32::MAX
        &&& forall|d: int|
            0 <= d < self.dense@.len() ==> {
                &&& (#[trigger] self.dense@[d]).index < self.sparse@.len()
                &&& self.sparse@[self.dense@[d].index as int] == d
            }
        &&& forall|i: int|
            0 <= i < self.sparse@.len() && (#[trigger] self.sparse@[i]) != SENTINEL ==> {
                &&& self.sparse@[i] < self.dense@.len()
                &&& self.dense@[self.sparse@[i] as int].index == i
            }
        &&& count_true(occupied(self.sparse@)) == self.dense@.len()
    }

    /// An empty storage, created lazily the first time its component type is
    /// inserted anywhere.
    pub fn new() -> (s: Self)
        ensures
            s.wf(),
            s.contents() =~= Map::<u32, (u32, T)>::empty(),
            s.spec_count() == 0,
    {
        ComponentStorage { sparse: Vec::new(), dense: Vec::new(), data: Vec::new() }
    }

    /// Grows the sparse array with sentinel entries so that `index` is in
    /// range; holds nothing new.
    pub fn extend_if_necessary(&mut self, index: usize)
        requires
            old(self).wf(),
            index < SENTINEL,
        ensures
            final(self).wf(),
            final(self).contents() == old(self).contents(),
            final(self).spec_count() == old(self).spec_count(),
            final(self).spec_sparse().len() > index,
            final(self).spec_sparse().len() >= old(self).spec_sparse().len(),
            forall|i: int|
                0 <= i < old(self).spec_sparse().len() ==> final(self).spec_sparse()[i] == old(
                    self).spec_sparse()[i],
            forall|i: int|
                old(self).spec_sparse().len() <= i < final(self).spec_sparse().len() ==> final(
                    self).spec_sparse()[i] == SENTINEL,
            final(self).spec_dense() == old(self).spec_dense(),
            final(self).spec_data() == old(self).spec_data(),
    {
        let ghost orig = *self;
        while self.sparse.len() <= index
            invariant
                orig.wf(),
                index < SENTINEL,
                self.dense@ == orig.dense@,
                self.data@ == orig.data@,
                self.sparse@.len() >= orig.sparse@.len(),
                orig.sparse@.len() > index ==> self.sparse@ == orig.sparse@,
                orig.sparse@.len() <= index ==> self.sparse@.len() <= index + 1,
                forall|i: int| 0 <= i < orig.sparse@.len() ==> self.sparse@[i] == orig.sparse@[i],
                forall|i: int|
                    orig.sparse@.len() <= i < self.sparse@.len() ==> self.sparse@[i] == SENTINEL,
            decreases index + 1 - self.sparse@.len(),
        {
            self.sparse.push(SENTINEL);
        }
        proof {
            let s1 = occupied(orig.sparse@);
            let s2 = occupied(self.sparse@);
            assert forall|i: int| 0 <= i < s1.len() implies s2[i] == s1[i] by {}
            assert forall|i: int| s1.len() <= i < s2.len() implies !s2[i] by {}
            lemma_count_true_false_extension(s1, s2);
            assert forall|i: int|
                0 <= i < self.sparse@.len() && (#[trigger] self.sparse@[i])
                    != SENTINEL implies self.sparse@[i] < self.dense@.len()
                && self.dense@[self.sparse@[i] as int].index == i by {
                if i < orig.sparse@.len() {
                    assert(orig.sparse@[i] == self.sparse@[i]);
                }
            }
            assert(self.contents() =~= orig.contents());
        }
    }

    /// Inserts or overwrites: afterwards the handle's index holds exactly
    /// `component`, stamped with the handle's generation. If the index was
    /// already occupied — by this entity or by an entry a despawned previous
    /// occupant left behind — the dense entry is overwritten in place rather
    /// than appended, so no entry is ever orphaned; otherwise the value is
    /// appended to the packed arrays.
    pub fn insert(&mut self, entity: Entity, component: T)
        requires
            old(self).wf(),
            entity.index < SENTINEL,
        ensures
            final(self).wf(),
            final(self).contents() == old(self).contents().insert(
                entity.index,
                (entity.version, component),
            ),
            final(self).spec_count() == old(self).spec_count() + (if old(
                self,
            ).contents().contains_key(entity.index) {
                0int
            } else {
                1int
            }),
    {
        let index = entity.index as usize;
        self.extend_if_necessary(index);
        let ghost mid = *self;
        proof {
            assert(mid.contents() == old(self).contents());
        }
        let d = self.sparse[index];
        if d != SENTINEL {
            let di = d as usize;
            self.dense[di] = entity;
            self.data[di] = component;
            proof {
                assert forall|k: u32|
                    k < mid.sparse@.len() && mid.sparse@[k as int] != SENTINEL && k
                        != entity.index implies mid.sparse@[k as int] != d by {
                    if mid.sparse@[k as int] == d {
                        assert(mid.dense@[d as int].index == k);
                        assert(mid.dense@[d as int].index == index);
                    }
                }
                assert(self.contents() =~= mid.contents().insert(
                    entity.index,
                    (entity.version, component),
                ));
            }
        } else {
            proof {
                lemma_count_true_le_len(occupied(mid.sparse@));
                lemma_count_true_below_len(occupied(mid.sparse@), index as int);
            }
            let nd = self.dense.len() as u32;
            self.dense.push(entity);
            self.data.push(component);
            self.sparse[index] = nd;
            proof {
                assert(occupied(self.sparse@) =~= occupied(mid.sparse@).update(
                    index as int,
                    true,
                ));
                lemma_count_true_update(occupied(mid.sparse@), index as int, true);
                assert forall|dd: int|
                    0 <= dd < self.dense@.len() implies (#[trigger] self.dense@[dd]).index
                        < self.sparse@.len() && self.sparse@[self.dense@[dd].index as int]
                        == dd by {
                    if dd < mid.dense@.len() {
                        assert(mid.sparse@[mid.dense@[dd].index as int] == dd);
                        assert(mid.dense@[dd].index != index as u32);
                    }
                }
                assert(self.contents() =~= mid.contents().insert(
                    entity.index,
                    (entity.version, component),
                ));
            }
        }
    }

    /// Resolves the handle to its dense slot: present only if the sparse
    /// entry is in range and occupied, and the slot's owner carries the
    /// handle's own index and generation.
    fn dense_slot_of(&self, entity: Entity) -> (r: Option<usize>)
        requires
            self.wf(),
        ensures
            match r {
                Some(d) => {
                    &&& d < self.spec_dense().len()
                    &&& entity.index < self.spec_sparse().len()
                    &&& self.spec_sparse()[entity.index as int] as int == d as int
                    &&& self.spec_dense()[d as int].index == entity.index
                    &&& self.spec_dense()[d as int].version == entity.version
                    &&& self.spec_get(entity) == Some(self.spec_data()[d as int])
                },
                None => self.spec_get(entity) is None,
            },
    {
        let index = entity.index as usize;
        if index >= self.sparse.len() {
            return None;
        }
        let d = self.sparse[index];
        if d == SENTINEL {
            return None;
        }
        let di = d as usize;
        let stored = self.dense[di];
        if stored.version != entity.version {
            return None;
        }
        Some(di)
    }

    /// Removes the handle's entry, reporting whether one was present under
    /// the handle's generation. On success the last packed entry is swapped
    /// into the freed slot (unless the freed slot was last) and the moved
    /// entity's sparse entry is fixed up, so the packed arrays stay
    /// contiguous; the removed index's sparse entry becomes the sentinel.
    pub fn remove(&mut self, entity: Entity) -> (r: bool)
        requires
            old(self).wf(),
        ensures
            final(self).wf(),
            r == (old(self).spec_get(entity) is Some),
            r ==> final(self).contents() == old(self).contents().remove(entity.index)
                && final(self).spec_count() == old(self).spec_count() - 1,
            !r ==> *final(self) == *old(self),
    {
        let index = entity.index as usize;
        let di = match self.dense_slot_of(entity) {
            Some(d) => d,
            None => { return false; },
        };
        let ghost pre = *self;
        proof {
            lemma_count_true_le_len(occupied(pre.sparse@));
        }
        let d = di as u32;
        self.sparse[index] = SENTINEL;
        self.dense.swap_remove(di);
        self.data.swap_remove(di);
        if di < self.dense.len() {
            let moved = self.dense[di];
            proof {
                assert(moved == pre.dense@[pre.dense@.len() - 1]);
                assert(pre.sparse@[moved.index as int] == pre.dense@.len() - 1);
                assert(moved.index != index as u32);
            }
            self.sparse[moved.index as usize] = d;
        }
        proof {
            assert(occupied(self.sparse@) =~= occupied(pre.sparse@).update(index as int, false));
            lemma_count_true_update(occupied(pre.sparse@), index as int, false);
            assert forall|dd: int|
                0 <= dd < self.dense@.len() implies (#[trigger] self.dense@[dd]).index
                    < self.sparse@.len() && self.sparse@[self.dense@[dd].index as int] == dd by {
                if dd != di {
                    assert(self.dense@[dd] == pre.dense@[dd]);
                    assert(pre.sparse@[pre.dense@[dd].index as int] == dd);
                    assert(pre.dense@[dd].index != index as u32);
                    if pre.sparse@[pre.dense@[dd].index as int] == pre.dense@.len() - 1 {
                        assert(pre.dense@[pre.dense@.len() - 1].index == pre.dense@[dd].index);
                    }
                }
            }
            assert forall|i: int|
                0 <= i < self.sparse@.len() && (#[trigger] self.sparse@[i])
                    != SENTINEL implies self.sparse@[i] < self.dense@.len()
                && self.dense@[self.sparse@[i] as int].index == i by {
                if i != index && (di >= self.dense@.len() || i != self.dense@[di as int].index) {
                    assert(pre.sparse@[i] == self.sparse@[i]);
                    assert(pre.dense@[pre.sparse@[i] as int].index == i);
                    if pre.sparse@[i] == pre.dense@.len() - 1 {
                        assert(pre.dense@[pre.dense@.len() - 1].index == i);
                    }
                }
            }
            assert(self.contents() =~= pre.contents().remove(entity.index));
        }
        true
    }

    /// Looks the handle up: present only if its index maps to a dense slot
    /// whose owner carries the same index and generation.
    pub fn get(&self, entity: Entity) -> (r: Option<&T>)
        requires
            self.wf(),
        ensures
            match r {
                Some(v) => self.spec_get(entity) == Some(*v),
                None => self.spec_get(entity) is None,
            },
    {
        match self.dense_slot_of(entity) {
            Some(d) => Some(&self.data[d]),
            None => None,
        }
    }

    /// Like [`Self::get`], but hands out a mutable borrow of the stored
    /// value; whatever the caller writes through it is what the index then
    /// holds, still under the handle's generation.
    pub fn get_mut(&mut self, entity: Entity) -> (r: Option<&mut T>)
        requires
            old(self).wf(),
        ensures
            match r {
                Some(v) => {
                    &&& old(self).spec_get(entity) == Some(*v)
                    &&& final(self).wf()
                    &&& final(self).contents() =~= old(self).contents().insert(
                        entity.index,
                        (entity.version, *final(v)),
                    )
                    &&& final(self).spec_count() == old(self).spec_count()
                },
                None => {
                    &&& old(self).spec_get(entity) is None
                    &&& *final(self) == *old(self)
                },
            },
    {
        let ghost pre = *self;
        let di = match self.dense_slot_of(entity) {
            Some(d) => d,
            None => { return None; },
        };
        let ghost d = pre.sparse@[entity.index as int];
        let r = &mut self.data[di];
        proof {
            assert forall|k: u32|
                k < pre.sparse@.len() && pre.sparse@[k as int] != SENTINEL && k
                    != entity.index implies pre.sparse@[k as int] != d by {
                if pre.sparse@[k as int] == d {
                    assert(pre.dense@[d as int].index == k);
                    assert(pre.dense@[d as int].index == entity.index);
                }
            }
        }
        Some(r)
    }

    /// Number of entries currently held.
    pub fn len(&self) -> (n: usize)
        requires
            self.wf(),
        ensures
            n == self.spec_count(),
    {
        self.dense.len()
    }

    /// Discards every entry, running the stored values' destructors.
    pub fn clear(&mut self)
        ensures
            final(self).wf(),
            final(self).contents() =~= Map::<u32, (u32, T)>::empty(),
            final(self).spec_count() == 0,
    {
        self.sparse.clear();
        self.dense.clear();
        self.data.clear();
    }
}

/// Round trip: inserting a value for a handle and reading the same handle
/// back yields exactly that value.
pub proof fn lemma_insert_then_get<T>(
    pre: ComponentStorage<T>,
    post: ComponentStorage<T>,
    e: Entity,
    v: T,
)
    requires
        post.contents() == pre.contents().insert(e.index, (e.version, v)),
    ensures
        post.spec_get(e) == Some(v),
{
}

/// Round trip, removal side: once a handle's entry is removed, reading any
/// handle with that index finds nothing.
pub proof fn lemma_remove_then_get<T>(pre: ComponentStorage<T>, post: ComponentStorage<T>, e: Entity, f: Entity)
    requires
        post.contents() == pre.contents().remove(e.index),
        f.index == e.index,
    ensures
        post.spec_get(f) is None,
{
}

/// Upsert: two inserts for the same handle leave exactly one entry for its
/// index — the second value, counted once; no entry is duplicated or
/// orphaned.
pub proof fn lemma_upsert<T>(
    s0: ComponentStorage<T>,
    s1: ComponentStorage<T>,
    s2: ComponentStorage<T>,
    e: Entity,
    v1: T,
    v2: T,
)
    requires
        s1.contents() == s0.contents().insert(e.index, (e.version, v1)),
        s1.spec_count() == s0.spec_count() + (if s0.contents().contains_key(e.index) {
            0int
        } else {
            1int
        }),
        s2.contents() == s1.contents().insert(e.index, (e.version, v2)),
        s2.spec_count() == s1.spec_count() + (if s1.contents().contains_key(e.index) {
            0int
        } else {
            1int
        }),
    ensures
        s2.contents() == s0.contents().insert(e.index, (e.version, v2)),
        s2.spec_count() == s0.spec_count() + (if s0.contents().contains_key(e.index) {
            0int
        } else {
            1int
        }),
        s2.spec_get(e) == Some(v2),
{
    assert(s2.contents() =~= s0.contents().insert(e.index, (e.version, v2)));
}

/// Swap-remove disturbs nobody else: after removing one handle's entry,
/// every handle with a different index reads exactly what it read before.
pub proof fn lemma_remove_preserves_others<T>(
    pre: ComponentStorage<T>,
    post: ComponentStorage<T>,
    e: Entity,
    f: Entity,
)
    requires
        post.contents() == pre.contents().remove(e.index),
        f.index != e.index,
    ensures
        post.spec_get(f) == pre.spec_get(f),
{
}

} // verus!
