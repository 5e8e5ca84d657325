//! Slot keys: the identifiers by which the store's slots are addressed.

use vstd::prelude::*;

verus! {

/// Identifier of a concrete type.  Resource slots are keyed by a `TypeKey`
/// alone; component slots are keyed by a `TypeKey` together with an
/// [`EntityId`].
#[derive(Clone, Copy, PartialEq, Eq, Structural, Debug)]
pub struct TypeKey {
    pub id: u64,
}

/// Identifier of an entity in the store.
#[derive(Clone, Copy, PartialEq, Eq, Structural, Debug)]
pub struct EntityId {
    pub id: u64,
}

/// Key of a component slot: one component type at one entity.
#[derive(Clone, Copy, PartialEq, Eq, Structural, Debug)]
pub struct EntityComponent {
    pub entity: EntityId,
    pub type_id: TypeKey,
}

/// Slot key types: copyable values whose executable equality test agrees
/// with equality in specifications.
pub trait SlotKeyEq: Sized + Copy {
    /// Decides equality of two keys.
    fn key_eq(&self, other: &Self) -> (r: bool)
        ensures
            r == (*self == *other),
    ;
}

impl SlotKeyEq for TypeKey {
    fn key_eq(&self, other: &Self) -> (r: bool)
        ensures
            r == (*self == *other),
    {
        self.id == other.id
    }
}

impl SlotKeyEq for EntityId {
    fn key_eq(&self, other: &Self) -> (r: bool)
        ensures
            r == (*self == *other),
    {
        self.id == other.id
    }
}

impl SlotKeyEq for EntityComponent {
    fn key_eq(&self, other: &Self) -> (r: bool)
        ensures
            r == (*self == *other),
    {
        self.entity.id == other.entity.id && self.type_id.id == other.type_id.id
    }
}

} // verus!
