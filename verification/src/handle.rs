//! Entity identities: an index into the slot table plus a generation tag.

use vstd::prelude::*;

verus! {

/// Index of an entity's slot in the manager's slot table.
pub type EntityIndex = u32;

/// Generation tag; bumped when a slot's entity is destroyed and swept.
pub type EntityVersion = u32;

/// A handle names an entity: the slot index together with the generation the
/// slot had when the entity was created. A handle is valid only while the slot
/// is alive and still carries the same generation.
#[derive(Clone, Copy, PartialEq, Eq, Structural, Debug)]
pub struct EntityHandle {
    pub index: EntityIndex,
    pub version: EntityVersion,
}

/// One slot of the entity manager's table.
#[derive(Clone, Copy, PartialEq, Eq, Structural, Debug)]
pub struct EntitySlot {
    pub version: EntityVersion,
    pub alive: bool,
}

impl EntitySlot {
    /// A fresh slot: generation zero, not alive.
    pub fn new() -> (slot: EntitySlot)
        ensures
            slot.version == 0,
            !slot.alive,
    {
        EntitySlot { version: 0, alive: false }
    }
}

} // verus!
