use crate::component::Component;
use crate::storage::ComponentStorage;
use vstd::prelude::*;

verus! {

/// The type-erased side of the world: one boxed [`ComponentStorage<C>`] per
/// component type `C`, keyed by `C`'s runtime type identity and created
/// lazily on first insertion.
///
/// Verus sees nothing of the map or its values. The contracts below are the
/// trusted account of the registry, and they rest on one invariant that the
/// checked downcast enforces dynamically and that [`Registry::put`] keeps:
/// the entry under `TypeId::of::<C>()`, if any, is a `ComponentStorage<C>`
/// that arrived through `put`, whose caller had to establish the storage's
/// well-formedness.
#[verifier::external_body]
pub(crate) struct Registry {
    map: ahash::AHashMap<std::any::TypeId, std::boxed::Box<dyn std::any::Any>>,
}

impl Registry {
    /// Relies on ahash's `AHashMap::new`: an empty registry.
    #[verifier::external_body]
    pub(crate) fn new() -> Registry {
        Registry { map: ahash::AHashMap::new() }
    }

    /// Relies on ahash's `AHashMap::get` and std's `Any::downcast_ref`: the
    /// storage registered for `C`, if one was registered. Whatever comes out
    /// went in through [`Registry::put`], which requires well-formedness.
    #[verifier::external_body]
    pub(crate) fn get<C: Component>(&self) -> (r: Option<&ComponentStorage<C>>)
        ensures
            r matches Some(s) ==> s.wf(),
    {
        self.map.get(&std::any::TypeId::of::<C>()).and_then(|b| b.downcast_ref())
    }

    /// Relies on ahash's `AHashMap::get_mut` and std's `Any::downcast_mut`;
    /// the same promise as [`Registry::get`].
    #[verifier::external_body]
    pub(crate) fn get_mut<C: Component>(&mut self) -> (r: Option<&mut ComponentStorage<C>>)
        ensures
            r matches Some(s) ==> s.wf(),
    {
        self.map.get_mut(&std::any::TypeId::of::<C>()).and_then(|b| b.downcast_mut())
    }

    /// Relies on ahash's `AHashMap::remove` and std's `Box::downcast`: hands
    /// the storage registered for `C` back out, leaving no entry for `C`;
    /// the same promise as [`Registry::get`].
    #[verifier::external_body]
    pub(crate) fn take<C: Component>(&mut self) -> (r: Option<ComponentStorage<C>>)
        ensures
            r matches Some(s) ==> s.wf(),
    {
        self.map.remove(&std::any::TypeId::of::<C>()).and_then(
            |b| b.downcast().ok(),
        ).map(|b| *b)
    }

    /// Relies on ahash's `AHashMap::insert`: registers (or replaces) the
    /// storage for `C`.
    #[verifier::external_body]
    pub(crate) fn put<C: Component>(&mut self, storage: ComponentStorage<C>)
        requires
            storage.wf(),
    {
        self.map.insert(std::any::TypeId::of::<C>(), std::boxed::Box::new(storage));
    }

    /// Relies on ahash's `AHashMap::clear`: drops every storage and with it
    /// every stored component value, running their destructors.
    #[verifier::external_body]
    pub(crate) fn clear(&mut self) {
        self.map.clear();
    }
}

} // verus!
