//! The laws of the splitting protocol, stated once over the capability
//! sets that every split's contract is written in.
//!
//! Each split's own `ensures` pins the child's and the remainder's
//! capability sets exactly; these lemmas state what follows for any such
//! pair of sets, so the protocol's guarantees are on record rather than
//! left implicit.

use vstd::prelude::*;

use crate::keys::TypeKey;
use crate::registry::TypeRegistry;
use crate::store::Store;
use crate::view::Error;
use crate::view::RestrictedWorldView;

verus! {

/// A split-off child and the remainder are disjoint: the child holds
/// exactly the split key, and the remainder no longer holds it.  This is
/// the disjointness-by-construction invariant at one split; it carries to
/// all live views by induction over the split tree.
pub proof fn lemma_split_disjoint<T>(caps: Set<T>, key: T)
    ensures
        Set::<T>::empty().insert(key).disjoint(caps.remove(key)),
{
}

/// Splitting loses no capability: the child and the remainder together
/// cover exactly what the parent held.
pub proof fn lemma_split_partition<T>(caps: Set<T>, key: T)
    requires
        caps.contains(key),
    ensures
        Set::<T>::empty().insert(key).union(caps.remove(key)) == caps,
{
    assert(Set::<T>::empty().insert(key).union(caps.remove(key)) =~= caps);
}

/// Splitting preserves disjointness with every other live view: when a
/// view's capabilities are disjoint from a sibling's, both the child and
/// the remainder of a split stay disjoint from that sibling.  Together
/// with [`lemma_split_disjoint`] this is the inductive step that keeps all
/// live views pairwise disjoint.
pub proof fn lemma_split_keeps_sibling_disjoint<T>(caps: Set<T>, sibling: Set<T>, key: T)
    requires
        caps.disjoint(sibling),
        caps.contains(key),
    ensures
        Set::<T>::empty().insert(key).disjoint(sibling),
        caps.remove(key).disjoint(sibling),
{
}

/// A split touches only the split key: for every other key, the remainder
/// holds it exactly when the parent did.
pub proof fn lemma_split_preserves_other_keys<T>(caps: Set<T>, key: T, other: T)
    requires
        other != key,
    ensures
        caps.remove(key).contains(other) == caps.contains(other),
{
}

/// Splitting off two keys in either order leaves the remainder with the
/// same capabilities, and the children are the same singleton capability
/// sets either way: the final partition does not depend on the order.
pub proof fn lemma_split_order_independent<T>(caps: Set<T>, key1: T, key2: T)
    requires
        caps.contains(key1),
        caps.contains(key2),
        key1 != key2,
    ensures
        caps.remove(key1).contains(key2),
        caps.remove(key2).contains(key1),
        caps.remove(key1).remove(key2) == caps.remove(key2).remove(key1),
{
    assert(caps.remove(key1).remove(key2) =~= caps.remove(key2).remove(key1));
}

/// After a key is split off, the remainder no longer holds it, so
/// splitting the same key off the remainder a second time is impossible:
/// its precondition can never hold.
pub proof fn lemma_resplit_forbidden<T>(caps: Set<T>, key: T)
    ensures
        !caps.remove(key).contains(key),
{
}

/// The dynamically typed accessor observes the same slot as the typed
/// accessor: whenever the dynamic path succeeds, checked typed access to
/// the same key returns the very same payload.
pub proof fn lemma_dynamic_typed_agree(
    view: RestrictedWorldView,
    store: Store,
    registry: TypeRegistry,
    type_id: TypeKey,
)
    ensures
        view.resource_reflect_result(store, registry, type_id) matches Ok(v)
            ==> view.resource_access_result(store, type_id) == Ok::<u64, Error>(v),
{
}

} // verus!
