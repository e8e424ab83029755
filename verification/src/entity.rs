use vstd::prelude::*;

verus! {

/// A handle to an entity: a slot index paired with the generation stamp under
/// which the slot was issued. A handle designates an entity only while its
/// slot is alive and still carries the same generation, so a handle kept
/// across a despawn can never resolve to the slot's next occupant.
#[derive(Debug, Clone, Copy, PartialEq, Eq, Hash, Structural)]
pub struct Entity {
    pub index: u32,
    pub version: u32,
}

impl Entity {
    /// The slot index of this handle.
    pub fn index(self) -> (i: u32)
        ensures
            i == self.index,
    {
        self.index
    }

    /// The generation stamp of this handle.
    pub fn version(self) -> (v: u32)
        ensures
            v == self.version,
    {
        self.version
    }
}

} // verus!
