//! Capability sets over slot keys.
//!
//! A capability set is stored either as an explicit allow-list or as its
//! logical complement, a forbid-list.  After repeated splitting the remainder
//! view still permits almost every key, so keeping the remainder as a
//! forbid-list makes every operation proportional to the number of keys ever
//! split off, not to the number of keys in the store.

use vstd::prelude::*;

use crate::keys::SlotKeyEq;

verus! {

broadcast use
    vstd::set::group_set_axioms,
    vstd::seq_lib::lemma_seq_contains,
    vstd::seq_lib::lemma_seq_contains_after_push,
    vstd::seq_lib::lemma_seq_concat_contains_all_elements,
    vstd::seq_lib::lemma_seq_empty_contains_nothing,
;

/// A capability set: which slot keys a view may touch.
pub enum Allowed<T> {
    /// Access is allowed to exactly the listed keys.
    AllowList(Vec<T>),
    /// Access is allowed to every key except the listed ones.
    ForbidList(Vec<T>),
}

/// Does `list` contain `value`?
pub(crate) fn list_contains<T: SlotKeyEq>(list: &Vec<T>, value: T) -> (r: bool)
    ensures
        r == list@.contains(value),
{
    for i in 0..list.len()
        invariant
            forall|j: int| 0 <= j < i ==> list@[j] != value,
    {
        if list[i].key_eq(&value) {
            assert(list@.contains(value));
            return true;
        }
    }
    false
}

/// A copy of `list` with every occurrence of `value` dropped.
fn list_remove_all<T: SlotKeyEq>(list: &Vec<T>, value: T) -> (r: Vec<T>)
    ensures
        r@.to_set() == list@.to_set().remove(value),
{
    let mut kept: Vec<T> = Vec::new();
    for i in 0..list.len()
        invariant
            forall|y: T| #[trigger] kept@.contains(y) ==> list@.contains(y) && y != value,
            forall|j: int| 0 <= j < i && list@[j] != value ==> kept@.contains(#[trigger] list@[j]),
    {
        let x = list[i];
        if !x.key_eq(&value) {
            kept.push(x);
            proof {
                assert(list@.contains(list@[i as int]));
            }
        }
    }
    proof {
        assert forall|y: T| list@.to_set().remove(value).contains(y) implies kept@.to_set().contains(
            y,
        ) by {
            let j = choose|j: int| 0 <= j < list@.len() && list@[j] == y;
            assert(kept@.contains(list@[j]));
        }
        assert(kept@.to_set() =~= list@.to_set().remove(value));
    }
    kept
}

/// Appends a copy of every element of `src` to `dst`.
fn list_append<T: SlotKeyEq>(dst: &mut Vec<T>, src: &Vec<T>)
    ensures
        final(dst)@ == old(dst)@ + src@,
{
    for i in 0..src.len()
        invariant
            dst@ == old(dst)@ + src@.subrange(0, i as int),
    {
        dst.push(src[i]);
        proof {
            assert(dst@ =~= old(dst)@ + src@.subrange(0, (i as int) + 1));
        }
    }
    proof {
        assert(dst@ =~= old(dst)@ + src@);
    }
}

impl<T: SlotKeyEq> Allowed<T> {
    /// The mathematical set of keys this capability set permits.
    pub open spec fn as_set(self) -> Set<T> {
        match self {
            Allowed::AllowList(list) => list@.to_set(),
            Allowed::ForbidList(list) => list@.to_set().complement(),
        }
    }

    /// Whether this capability set is stored as an explicit allow-list.
    pub open spec fn is_allow_list(self) -> bool {
        self matches Allowed::AllowList(_)
    }

    /// Capability over exactly one key.
    pub fn allow_just(value: T) -> (r: Allowed<T>)
        ensures
            r.as_set() == Set::empty().insert(value),
            r.is_allow_list(),
    {
        let mut list: Vec<T> = Vec::new();
        list.push(value);
        proof {
            assert(list@.to_set() =~= Set::empty().insert(value));
        }
        Allowed::AllowList(list)
    }

    /// Capability over exactly the listed keys.
    pub fn allow(values: Vec<T>) -> (r: Allowed<T>)
        ensures
            r.as_set() == values@.to_set(),
            r.is_allow_list(),
    {
        Allowed::AllowList(values)
    }

    /// Capability over every key.
    pub fn everything() -> (r: Allowed<T>)
        ensures
            r.as_set() == Set::<T>::full(),
            !r.is_allow_list(),
    {
        let list: Vec<T> = Vec::new();
        proof {
            assert(list@.to_set().complement() =~= Set::<T>::full());
        }
        Allowed::ForbidList(list)
    }

    /// Capability over no key at all.
    pub fn nothing() -> (r: Allowed<T>)
        ensures
            r.as_set() == Set::<T>::empty(),
            r.is_allow_list(),
    {
        let list: Vec<T> = Vec::new();
        proof {
            assert(list@.to_set() =~= Set::<T>::empty());
        }
        Allowed::AllowList(list)
    }

    /// Membership test: may a holder of this capability set touch `value`?
    pub fn allows_access_to(&self, value: T) -> (r: bool)
        ensures
            r == self.as_set().contains(value),
    {
        match self {
            Allowed::AllowList(list) => list_contains(list, value),
            Allowed::ForbidList(list) => !list_contains(list, value),
        }
    }

    /// This capability set with `value` removed.  Splitting always removes a
    /// key the caller just proved it holds, so a missing key is a caller bug
    /// and is excluded by precondition rather than handled at run time.
    pub fn without(&self, value: T) -> (r: Allowed<T>)
        requires
            self.as_set().contains(value),
        ensures
            r.as_set() == self.as_set().remove(value),
            r.is_allow_list() == self.is_allow_list(),
    {
        match self {
            Allowed::AllowList(list) => Allowed::AllowList(list_remove_all(list, value)),
            Allowed::ForbidList(list) => {
                let mut extended = list_remove_all(list, value);
                proof {
                    let before = extended@;
                    assert(before.push(value).to_set() =~= before.to_set().insert(value));
                }
                extended.push(value);
                proof {
                    assert(extended@.to_set() =~= list@.to_set().remove(value).insert(value));
                    assert(list@.to_set().remove(value).insert(value).complement()
                        =~= list@.to_set().complement().remove(value));
                }
                Allowed::ForbidList(extended)
            },
        }
    }

    /// This capability set with every key in `values` removed, applied to one
    /// running set: removing a key that the running set no longer holds is a
    /// caller bug.  For an allow-list that rules out duplicated keys, which
    /// the precondition therefore excludes.
    pub fn without_many(&self, values: &Vec<T>) -> (r: Allowed<T>)
        requires
            forall|i: int| 0 <= i < values@.len() ==> self.as_set().contains(#[trigger] values@[i]),
            self.is_allow_list() ==> forall|i: int, j: int|
                0 <= i < j < values@.len() ==> values@[i] != values@[j],
        ensures
            r.as_set() == self.as_set().difference(values@.to_set()),
            r.is_allow_list() == self.is_allow_list(),
    {
        match self {
            Allowed::AllowList(_) => {
                let mut running = self.clone_capability();
                for i in 0..values.len()
                    invariant
                        forall|k: int| 0 <= k < values@.len() ==> self.as_set().contains(
                            #[trigger] values@[k],
                        ),
                        forall|k: int, j: int|
                            0 <= k < j < values@.len() ==> values@[k] != values@[j],
                        running.is_allow_list() == self.is_allow_list(),
                        running.as_set() == self.as_set().difference(
                            values@.subrange(0, i as int).to_set(),
                        ),
                {
                    proof {
                        assert(!values@.subrange(0, i as int).contains(values@[i as int])) by {
                            assert(forall|j: int|
                                0 <= j < i ==> values@.subrange(0, i as int)[j] == values@[j]);
                        }
                        assert(running.as_set().contains(values@[i as int]));
                    }
                    running = running.without(values[i]);
                    proof {
                        let prefix = values@.subrange(0, i as int);
                        assert(values@.subrange(0, (i as int) + 1) =~= prefix.push(
                            values@[i as int],
                        ));
                        assert(prefix.push(values@[i as int]).to_set() =~= prefix.to_set().insert(
                            values@[i as int],
                        ));
                        assert(running.as_set() =~= self.as_set().difference(
                            values@.subrange(0, (i as int) + 1).to_set(),
                        ));
                    }
                }
                proof {
                    assert(values@.subrange(0, values@.len() as int) =~= values@);
                    assert(running.as_set() =~= self.as_set().difference(values@.to_set()));
                }
                running
            },
            Allowed::ForbidList(list) => {
                let mut extended: Vec<T> = Vec::new();
                list_append(&mut extended, list);
                list_append(&mut extended, values);
                proof {
                    assert(extended@ == list@ + values@) by {
                        assert(Seq::<T>::empty() + list@ =~= list@);
                    }
                    assert(extended@.to_set() =~= list@.to_set().union(values@.to_set()));
                    assert(list@.to_set().union(values@.to_set()).complement() =~= list@.to_set()
                        .complement()
                        .difference(values@.to_set()));
                }
                Allowed::ForbidList(extended)
            },
        }
    }

    /// An equal capability set, element for element.
    pub fn clone_capability(&self) -> (r: Allowed<T>)
        ensures
            r.as_set() == self.as_set(),
            r.is_allow_list() == self.is_allow_list(),
    {
        match self {
            Allowed::AllowList(list) => {
                let mut copied: Vec<T> = Vec::new();
                list_append(&mut copied, list);
                proof {
                    assert(copied@ =~= list@);
                }
                Allowed::AllowList(copied)
            },
            Allowed::ForbidList(list) => {
                let mut copied: Vec<T> = Vec::new();
                list_append(&mut copied, list);
                proof {
                    assert(copied@ =~= list@);
                }
                Allowed::ForbidList(copied)
            },
        }
    }
}

} // verus!
