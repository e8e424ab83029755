//! An in-memory entity/component store: generational entity handles with
//! free-slot recycling, and one sparse-set storage per component type,
//! reached through a type-erased registry behind a single `World` facade.

mod bitset;
mod component;
mod counting;
mod entity;
mod query;
mod registry;
mod storage;
mod world;

pub use component::Component;
pub use component::ComponentBundle;
pub use counting::count_true;
pub use entity::Entity;
pub use query::Query;
pub use storage::lemma_insert_then_get;
pub use storage::lemma_remove_preserves_others;
pub use storage::lemma_remove_then_get;
pub use storage::lemma_upsert;
pub use storage::ComponentStorage;
pub use storage::SENTINEL;
pub use world::alloc_wf;
pub use world::dead_handle;
pub use world::despawned;
pub use world::lemma_dead_handle_persists;
pub use world::lemma_despawn_invalidates;
pub use world::lemma_reuse_version_increases;
pub use world::lemma_spawn_spares_live_handles;
pub use world::same_alloc;
pub use world::spawned;
pub use world::step;
pub use world::Error;
pub use world::World;
pub use world::GROWTH_CHUNK;
