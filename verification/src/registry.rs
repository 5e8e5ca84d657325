//! The type descriptor registry consumed by the dynamic accessors.
//!
//! A registration says that a type is known to the registry; the
//! reinterpret capability additionally allows a type-erased slot reference
//! to be read back as a dynamically typed value.  A missing registration or
//! a registration without that capability is a first-class error of the
//! accessors, never assumed absent.

use vstd::prelude::*;

use crate::keys::TypeKey;

verus! {

broadcast use
    vstd::set::group_set_axioms,
    vstd::seq_lib::lemma_seq_contains,
    vstd::seq_lib::lemma_seq_contains_after_push,
    vstd::seq_lib::lemma_seq_empty_contains_nothing,
;

/// The registry: which types are registered, and which of them carry the
/// capability to reinterpret a type-erased slot reference.
pub struct TypeRegistry {
    registered: Vec<TypeKey>,
    reinterpret: Vec<TypeKey>,
}

impl TypeRegistry {
    /// The registered types.
    pub closed spec fn registered_model(self) -> Set<TypeKey> {
        self.registered@.to_set()
    }

    /// The types whose registration carries the reinterpret capability.
    pub closed spec fn reinterpret_model(self) -> Set<TypeKey> {
        self.reinterpret@.to_set()
    }

    /// A registry with no registrations.
    pub fn empty() -> (r: TypeRegistry)
        ensures
            r.registered_model() == Set::<TypeKey>::empty(),
            r.reinterpret_model() == Set::<TypeKey>::empty(),
    {
        let r = TypeRegistry { registered: Vec::new(), reinterpret: Vec::new() };
        proof {
            assert(r.registered_model() =~= Set::<TypeKey>::empty());
            assert(r.reinterpret_model() =~= Set::<TypeKey>::empty());
        }
        r
    }

    /// Registers `type_id` with the reinterpret capability.
    pub fn register(&mut self, type_id: TypeKey)
        ensures
            final(self).registered_model() == old(self).registered_model().insert(type_id),
            final(self).reinterpret_model() == old(self).reinterpret_model().insert(type_id),
    {
        self.registered.push(type_id);
        self.reinterpret.push(type_id);
        proof {
            assert(self.registered@.to_set() =~= old(self).registered_model().insert(type_id));
            assert(self.reinterpret@.to_set() =~= old(self).reinterpret_model().insert(type_id));
        }
    }

    /// Registers `type_id` without the reinterpret capability.  An earlier
    /// registration that carries the capability keeps it.
    pub fn register_without_data(&mut self, type_id: TypeKey)
        ensures
            final(self).registered_model() == old(self).registered_model().insert(type_id),
            final(self).reinterpret_model() == old(self).reinterpret_model(),
    {
        self.registered.push(type_id);
        proof {
            assert(self.registered@.to_set() =~= old(self).registered_model().insert(type_id));
        }
    }

    /// Is `type_id` registered?
    pub fn is_registered(&self, type_id: TypeKey) -> (r: bool)
        ensures
            r == self.registered_model().contains(type_id),
    {
        crate::allowed::list_contains(&self.registered, type_id)
    }

    /// Does the registration of `type_id` carry the reinterpret capability?
    pub fn has_reinterpret(&self, type_id: TypeKey) -> (r: bool)
        ensures
            r == self.reinterpret_model().contains(type_id),
    {
        crate::allowed::list_contains(&self.reinterpret, type_id)
    }
}

} // verus!
