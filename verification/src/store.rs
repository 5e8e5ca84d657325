//! The shared mutable slot store and its change-tracking marker.
//!
//! The store owns every slot: resource slots keyed by a [`TypeKey`] alone,
//! one per type, and component slots keyed by an [`EntityComponent`].  Each
//! slot carries a payload word and a changed flag for change tracking.
//! Views never own any part of the store; they only carry the permission to
//! touch it, so every access method here takes the store itself.

use vstd::prelude::*;

use crate::keys::EntityComponent;
use crate::keys::EntityId;
use crate::keys::SlotKeyEq;
use crate::keys::TypeKey;

verus! {

broadcast use
    vstd::set::group_set_axioms,
    vstd::map::group_map_axioms,
    vstd::seq_lib::lemma_seq_contains,
    vstd::seq_lib::lemma_seq_contains_after_push,
    vstd::seq_lib::lemma_seq_empty_contains_nothing,
;

/// The observable state of one slot: its payload and its changed flag.
#[derive(Clone, Copy, PartialEq, Eq, Structural, Debug)]
pub struct SlotState {
    pub value: u64,
    pub changed: bool,
}

/// One stored slot, keyed by `K`.
struct Slot<K> {
    key: K,
    value: u64,
    changed: bool,
}

/// Does some slot in `s` carry the key `k`?
spec fn slot_has<K>(s: Seq<Slot<K>>, k: K) -> bool {
    exists|i: int| 0 <= i < s.len() && (#[trigger] s[i]).key == k
}

/// The index of the slot carrying `k`, when there is exactly one.
spec fn slot_index<K>(s: Seq<Slot<K>>, k: K) -> int {
    choose|i: int| 0 <= i < s.len() && (#[trigger] s[i]).key == k
}

/// No two slots carry the same key.
spec fn slot_distinct<K>(s: Seq<Slot<K>>) -> bool {
    forall|i: int, j: int| 0 <= i < j < s.len() ==> (#[trigger] s[i]).key != (#[trigger] s[j]).key
}

/// The slots of `s` as a map from key to observable slot state.
spec fn slot_map<K>(s: Seq<Slot<K>>) -> Map<K, SlotState> {
    Map::new(
        |k: K| slot_has(s, k),
        |k: K| SlotState { value: s[slot_index(s, k)].value, changed: s[slot_index(s, k)].changed },
    )
}

/// With distinct keys, any index carrying `k` is the index of `k`.
proof fn lemma_slot_index_of<K>(s: Seq<Slot<K>>, k: K, i: int)
    requires
        slot_distinct(s),
        0 <= i < s.len(),
        s[i].key == k,
    ensures
        slot_has(s, k),
        slot_index(s, k) == i,
{
    assert(slot_has(s, k));
    let c = slot_index(s, k);
    if c != i {
        if c < i {
            assert(s[c].key != s[i].key);
        } else {
            assert(s[i].key != s[c].key);
        }
    }
}

/// Overwriting the slot at `i` with a slot of the same key updates the map
/// at that key and nothing else.
proof fn lemma_slot_map_update<K>(s: Seq<Slot<K>>, i: int, slot: Slot<K>)
    requires
        slot_distinct(s),
        0 <= i < s.len(),
        s[i].key == slot.key,
    ensures
        slot_distinct(s.update(i, slot)),
        slot_map(s.update(i, slot)) == slot_map(s).insert(
            slot.key,
            SlotState { value: slot.value, changed: slot.changed },
        ),
{
    let t = s.update(i, slot);
    assert forall|p: int, q: int| 0 <= p < q < t.len() implies (#[trigger] t[p]).key != (
    #[trigger] t[q]).key by {
        assert(s[p].key != s[q].key);
    }
    assert forall|k: K| #[trigger] slot_has(t, k) <==> slot_has(s, k) by {
        if slot_has(t, k) {
            let j = choose|j: int| 0 <= j < t.len() && (#[trigger] t[j]).key == k;
            assert(s[j].key == k || j == i);
            if j == i {
                assert(s[i].key == k);
            }
            assert(slot_has(s, k));
        }
        if slot_has(s, k) {
            let j = choose|j: int| 0 <= j < s.len() && (#[trigger] s[j]).key == k;
            if j == i {
                assert(t[i].key == k);
            } else {
                assert(t[j].key == k);
            }
            assert(slot_has(t, k));
        }
    }
    lemma_slot_index_of(t, slot.key, i);
    lemma_slot_index_of(s, slot.key, i);
    assert forall|k: K| k != slot.key && #[trigger] slot_has(s, k) implies slot_index(t, k)
        == slot_index(s, k) && t[slot_index(t, k)] == s[slot_index(s, k)] by {
        let j = slot_index(s, k);
        assert(0 <= j < s.len() && s[j].key == k);
        assert(j != i);
        assert(t[j].key == k);
        lemma_slot_index_of(t, k, j);
    }
    assert(slot_map(t) =~= slot_map(s).insert(
        slot.key,
        SlotState { value: slot.value, changed: slot.changed },
    ));
}

/// Appending a slot with a fresh key inserts it into the map and changes
/// nothing else.
proof fn lemma_slot_map_push<K>(s: Seq<Slot<K>>, slot: Slot<K>)
    requires
        slot_distinct(s),
        !slot_has(s, slot.key),
    ensures
        slot_distinct(s.push(slot)),
        slot_map(s.push(slot)) == slot_map(s).insert(
            slot.key,
            SlotState { value: slot.value, changed: slot.changed },
        ),
{
    let t = s.push(slot);
    assert forall|p: int, q: int| 0 <= p < q < t.len() implies (#[trigger] t[p]).key != (
    #[trigger] t[q]).key by {
        if q == s.len() {
            assert(t[p] == s[p]);
            if t[p].key == slot.key {
                assert(slot_has(s, slot.key));
            }
        } else {
            assert(s[p].key != s[q].key);
        }
    }
    assert forall|k: K| #[trigger] slot_has(t, k) <==> slot_has(s, k) || k == slot.key by {
        if slot_has(t, k) {
            let j = choose|j: int| 0 <= j < t.len() && (#[trigger] t[j]).key == k;
            if j < s.len() {
                assert(s[j].key == k);
                assert(slot_has(s, k));
            }
        }
        if slot_has(s, k) {
            let j = choose|j: int| 0 <= j < s.len() && (#[trigger] s[j]).key == k;
            assert(t[j].key == k);
            assert(slot_has(t, k));
        }
        if k == slot.key {
            assert(t[s.len() as int].key == k);
            assert(slot_has(t, k));
        }
    }
    lemma_slot_index_of(t, slot.key, s.len() as int);
    assert forall|k: K| k != slot.key && #[trigger] slot_has(s, k) implies slot_index(t, k)
        == slot_index(s, k) && t[slot_index(t, k)] == s[slot_index(s, k)] by {
        let j = slot_index(s, k);
        assert(slot_has(s, k));
        assert(0 <= j < s.len() && s[j].key == k);
        assert(t[j].key == k);
        lemma_slot_index_of(t, k, j);
    }
    assert(slot_map(t) =~= slot_map(s).insert(
        slot.key,
        SlotState { value: slot.value, changed: slot.changed },
    ));
}

/// Finds the index of the slot carrying `key`, if any.
fn find_slot<K: SlotKeyEq>(slots: &Vec<Slot<K>>, key: K) -> (r: Option<usize>)
    ensures
        match r {
            Some(i) => i < slots@.len() && slots@[i as int].key == key,
            None => !slot_has(slots@, key),
        },
{
    for i in 0..slots.len()
        invariant
            forall|j: int| 0 <= j < i ==> (#[trigger] slots@[j]).key != key,
    {
        if slots[i].key.key_eq(&key) {
            return Some(i);
        }
    }
    None
}

/// Inserts or overwrites the slot carrying `key`.
fn upsert_slot<K: SlotKeyEq>(slots: &mut Vec<Slot<K>>, key: K, value: u64, changed: bool)
    requires
        slot_distinct(old(slots)@),
    ensures
        slot_distinct(final(slots)@),
        slot_map(final(slots)@) == slot_map(old(slots)@).insert(key, SlotState { value, changed }),
{
    match find_slot(slots, key) {
        Some(i) => {
            proof {
                lemma_slot_map_update(
                    slots@,
                    i as int,
                    Slot { key, value, changed },
                );
            }
            slots[i] = Slot { key, value, changed };
        },
        None => {
            proof {
                lemma_slot_map_push(slots@, Slot { key, value, changed });
            }
            slots.push(Slot { key, value, changed });
        },
    }
}

/// Writes `value` into the slot carrying `key` and marks it changed;
/// reports whether such a slot existed.
fn write_slot<K: SlotKeyEq>(slots: &mut Vec<Slot<K>>, key: K, value: u64) -> (r: bool)
    requires
        slot_distinct(old(slots)@),
    ensures
        slot_distinct(final(slots)@),
        r == slot_map(old(slots)@).dom().contains(key),
        r ==> slot_map(final(slots)@) == slot_map(old(slots)@).insert(
            key,
            SlotState { value, changed: true },
        ),
        !r ==> final(slots)@ == old(slots)@,
{
    match find_slot(slots, key) {
        Some(i) => {
            proof {
                lemma_slot_index_of(slots@, key, i as int);
                lemma_slot_map_update(slots@, i as int, Slot { key, value, changed: true });
            }
            slots[i] = Slot { key, value, changed: true };
            true
        },
        None => false,
    }
}

/// Marks the slot carrying `key` changed, if it exists.
fn mark_slot_changed<K: SlotKeyEq>(slots: &mut Vec<Slot<K>>, key: K)
    requires
        slot_distinct(old(slots)@),
    ensures
        slot_distinct(final(slots)@),
        slot_map(old(slots)@).dom().contains(key) ==> slot_map(final(slots)@) == slot_map(
            old(slots)@,
        ).insert(
            key,
            SlotState { value: slot_map(old(slots)@)[key].value, changed: true },
        ),
        !slot_map(old(slots)@).dom().contains(key) ==> final(slots)@ == old(slots)@,
{
    match find_slot(slots, key) {
        Some(i) => {
            let value = slots[i].value;
            proof {
                lemma_slot_index_of(slots@, key, i as int);
                lemma_slot_map_update(slots@, i as int, Slot { key, value, changed: true });
            }
            slots[i] = Slot { key, value, changed: true };
        },
        None => {},
    }
}

/// Reads the observable state of the slot carrying `key`.
fn read_slot<K: SlotKeyEq>(slots: &Vec<Slot<K>>, key: K) -> (r: Option<SlotState>)
    requires
        slot_distinct(slots@),
    ensures
        match r {
            Some(state) => slot_map(slots@).dom().contains(key) && state == slot_map(slots@)[key],
            None => !slot_map(slots@).dom().contains(key),
        },
{
    match find_slot(slots, key) {
        Some(i) => {
            proof {
                lemma_slot_index_of(slots@, key, i as int);
            }
            Some(SlotState { value: slots[i].value, changed: slots[i].changed })
        },
        None => None,
    }
}

/// The shared mutable store: all resource slots, all component slots, the
/// set of live entities, and the registered component types.
pub struct Store {
    resources: Vec<Slot<TypeKey>>,
    components: Vec<Slot<EntityComponent>>,
    component_ids: Vec<TypeKey>,
    entities: Vec<EntityId>,
    next_entity: u64,
}

impl Store {
    /// The resource slots: a map from type key to slot state.
    pub closed spec fn resources_model(self) -> Map<TypeKey, SlotState> {
        slot_map(self.resources@)
    }

    /// The component slots: a map from entity/type key to slot state.
    pub closed spec fn components_model(self) -> Map<EntityComponent, SlotState> {
        slot_map(self.components@)
    }

    /// The live entities.
    pub closed spec fn entities_model(self) -> Set<EntityId> {
        self.entities@.to_set()
    }

    /// The component types the store has a slot id for.
    pub closed spec fn component_ids_model(self) -> Set<TypeKey> {
        self.component_ids@.to_set()
    }

    /// Structural well-formedness: slot keys are unique, every component
    /// slot's type is registered, and entity identifiers stay below the
    /// allocation counter.
    pub closed spec fn wf(self) -> bool {
        &&& slot_distinct(self.resources@)
        &&& slot_distinct(self.components@)
        &&& forall|k: EntityComponent|
            #[trigger] self.components_model().dom().contains(k)
                ==> self.component_ids_model().contains(k.type_id)
        &&& forall|i: int|
            0 <= i < self.entities@.len() ==> (#[trigger] self.entities@[i]).id
                < self.next_entity
    }

    /// Can another entity identifier still be allocated?
    pub closed spec fn can_spawn(self) -> bool {
        self.next_entity < u64::MAX
    }

    /// An empty store.
    pub fn new() -> (r: Store)
        ensures
            r.wf(),
            r.can_spawn(),
            r.resources_model() == Map::<TypeKey, SlotState>::empty(),
            r.components_model() == Map::<EntityComponent, SlotState>::empty(),
            r.entities_model() == Set::<EntityId>::empty(),
            r.component_ids_model() == Set::<TypeKey>::empty(),
    {
        let r = Store {
            resources: Vec::new(),
            components: Vec::new(),
            component_ids: Vec::new(),
            entities: Vec::new(),
            next_entity: 0,
        };
        proof {
            assert(r.resources_model() =~= Map::<TypeKey, SlotState>::empty());
            assert(r.components_model() =~= Map::<EntityComponent, SlotState>::empty());
            assert(r.entities_model() =~= Set::<EntityId>::empty());
            assert(r.component_ids_model() =~= Set::<TypeKey>::empty());
        }
        r
    }

    /// Inserts or replaces the resource slot for `type_id`; the slot starts
    /// unmarked.
    pub fn insert_resource(&mut self, type_id: TypeKey, value: u64)
        requires
            old(self).wf(),
        ensures
            final(self).wf(),
            final(self).resources_model() == old(self).resources_model().insert(
                type_id,
                (SlotState { value, changed: false }),
            ),
            final(self).components_model() == old(self).components_model(),
            final(self).entities_model() == old(self).entities_model(),
            final(self).component_ids_model() == old(self).component_ids_model(),
            final(self).can_spawn() == old(self).can_spawn(),
    {
        upsert_slot(&mut self.resources, type_id, value, false);
        proof {
            assert(slot_distinct(self.resources@));
            assert(slot_distinct(self.components@));
            assert(self.components_model() == old(self).components_model());
            assert(self.component_ids_model() == old(self).component_ids_model());
            assert(forall|k: EntityComponent|
                #[trigger] self.components_model().dom().contains(k)
                    ==> self.component_ids_model().contains(k.type_id));
            assert(forall|i: int|
                0 <= i < self.entities@.len() ==> (#[trigger] self.entities@[i]).id
                    < self.next_entity);
            assert(self.wf());
        }
    }

    /// Allocates a fresh entity.
    pub fn spawn(&mut self) -> (e: EntityId)
        requires
            old(self).wf(),
            old(self).can_spawn(),
        ensures
            final(self).wf(),
            !old(self).entities_model().contains(e),
            final(self).entities_model() == old(self).entities_model().insert(e),
            final(self).resources_model() == old(self).resources_model(),
            final(self).components_model() == old(self).components_model(),
            final(self).component_ids_model() == old(self).component_ids_model(),
    {
        let e = EntityId { id: self.next_entity };
        proof {
            if self.entities@.to_set().contains(e) {
                let j = choose|j: int|
                    0 <= j < self.entities@.len() && self.entities@[j] == e;
                assert(self.entities@[j].id < self.next_entity);
            }
        }
        self.next_entity = self.next_entity + 1;
        self.entities.push(e);
        proof {
            assert(self.entities@.to_set() =~= old(self).entities_model().insert(e));
            assert(self.components_model() == old(self).components_model());
            assert(self.component_ids_model() == old(self).component_ids_model());
            assert(forall|k: EntityComponent|
                #[trigger] self.components_model().dom().contains(k)
                    ==> self.component_ids_model().contains(k.type_id));
            assert forall|i: int|
                0 <= i < self.entities@.len() implies (#[trigger] self.entities@[i]).id
                < self.next_entity by {
                if i < self.entities@.len() - 1 {
                    assert(self.entities@[i] == old(self).entities@[i]);
                    assert(old(self).entities@[i].id < old(self).next_entity);
                } else {
                    assert(self.entities@[i] == e);
                }
            }
            assert(self.wf());
        }
        e
    }

    /// Does the store hold the entity `e`?
    pub fn has_entity(&self, e: EntityId) -> (r: bool)
        ensures
            r == self.entities_model().contains(e),
    {
        crate::allowed::list_contains(&self.entities, e)
    }

    /// Inserts or replaces the component slot for `type_id` at `entity`,
    /// registering the component type; the slot starts unmarked.
    pub fn insert_component(&mut self, entity: EntityId, type_id: TypeKey, value: u64)
        requires
            old(self).wf(),
            old(self).entities_model().contains(entity),
        ensures
            final(self).wf(),
            final(self).components_model() == old(self).components_model().insert(
                (EntityComponent { entity, type_id }),
                (SlotState { value, changed: false }),
            ),
            final(self).component_ids_model() == old(self).component_ids_model().insert(type_id),
            final(self).resources_model() == old(self).resources_model(),
            final(self).entities_model() == old(self).entities_model(),
            final(self).can_spawn() == old(self).can_spawn(),
    {
        if !crate::allowed::list_contains(&self.component_ids, type_id) {
            self.component_ids.push(type_id);
        }
        proof {
            assert(self.component_ids@.to_set() =~= old(self).component_ids_model().insert(
                type_id,
            ));
        }
        upsert_slot(
            &mut self.components,
            EntityComponent { entity, type_id },
            value,
            false,
        );
        proof {
            let key = EntityComponent { entity, type_id };
            assert(slot_distinct(self.resources@));
            assert(self.resources_model() == old(self).resources_model());
            assert forall|k: EntityComponent|
                #[trigger] self.components_model().dom().contains(
                    k,
                ) implies self.component_ids_model().contains(k.type_id) by {
                if k != key {
                    assert(old(self).components_model().dom().contains(k));
                    assert(old(self).component_ids_model().contains(k.type_id));
                }
            }
            assert(forall|i: int|
                0 <= i < self.entities@.len() ==> (#[trigger] self.entities@[i]).id
                    < self.next_entity);
            assert(self.wf());
        }
    }

    /// Is a slot id registered for the component type `type_id`?
    pub fn has_component_id(&self, type_id: TypeKey) -> (r: bool)
        ensures
            r == self.component_ids_model().contains(type_id),
    {
        crate::allowed::list_contains(&self.component_ids, type_id)
    }

    /// Reads the resource slot for `type_id`.
    pub fn get_resource(&self, type_id: TypeKey) -> (r: Option<u64>)
        requires
            self.wf(),
        ensures
            match r {
                Some(v) => self.resources_model().dom().contains(type_id) && v
                    == self.resources_model()[type_id].value,
                None => !self.resources_model().dom().contains(type_id),
            },
    {
        match read_slot(&self.resources, type_id) {
            Some(state) => Some(state.value),
            None => None,
        }
    }

    /// Reads the resource slot for `type_id`: payload and changed flag.
    pub fn get_resource_state(&self, type_id: TypeKey) -> (r: Option<(u64, bool)>)
        requires
            self.wf(),
        ensures
            match r {
                Some(p) => self.resources_model().dom().contains(type_id) && p.0
                    == self.resources_model()[type_id].value && p.1
                    == self.resources_model()[type_id].changed,
                None => !self.resources_model().dom().contains(type_id),
            },
    {
        match read_slot(&self.resources, type_id) {
            Some(state) => Some((state.value, state.changed)),
            None => None,
        }
    }

    /// Reads the component slot for `key`: payload and changed flag.
    pub fn get_component_state(&self, key: EntityComponent) -> (r: Option<(u64, bool)>)
        requires
            self.wf(),
        ensures
            match r {
                Some(p) => self.components_model().dom().contains(key) && p.0
                    == self.components_model()[key].value && p.1
                    == self.components_model()[key].changed,
                None => !self.components_model().dom().contains(key),
            },
    {
        match read_slot(&self.components, key) {
            Some(state) => Some((state.value, state.changed)),
            None => None,
        }
    }

    /// Writes the resource slot for `type_id` and marks it changed;
    /// reports whether the slot existed.
    pub(crate) fn write_resource(&mut self, type_id: TypeKey, value: u64) -> (r: bool)
        requires
            old(self).wf(),
        ensures
            final(self).wf(),
            r == old(self).resources_model().dom().contains(type_id),
            r ==> final(self).resources_model() == old(self).resources_model().insert(
                type_id,
                (SlotState { value, changed: true }),
            ),
            !r ==> final(self).resources_model() == old(self).resources_model(),
            final(self).components_model() == old(self).components_model(),
            final(self).entities_model() == old(self).entities_model(),
            final(self).component_ids_model() == old(self).component_ids_model(),
            final(self).can_spawn() == old(self).can_spawn(),
    {
        let r = write_slot(&mut self.resources, type_id, value);
        proof {
            assert(slot_distinct(self.components@));
            assert(self.components_model() == old(self).components_model());
            assert(self.component_ids_model() == old(self).component_ids_model());
            assert(forall|k: EntityComponent|
                #[trigger] self.components_model().dom().contains(k)
                    ==> self.component_ids_model().contains(k.type_id));
            assert(forall|i: int|
                0 <= i < self.entities@.len() ==> (#[trigger] self.entities@[i]).id
                    < self.next_entity);
            assert(self.wf());
        }
        r
    }

    /// Writes the component slot for `key` and marks it changed; reports
    /// whether the slot existed.
    pub(crate) fn write_component(&mut self, key: EntityComponent, value: u64) -> (r: bool)
        requires
            old(self).wf(),
        ensures
            final(self).wf(),
            r == old(self).components_model().dom().contains(key),
            r ==> final(self).components_model() == old(self).components_model().insert(
                key,
                (SlotState { value, changed: true }),
            ),
            !r ==> final(self).components_model() == old(self).components_model(),
            final(self).resources_model() == old(self).resources_model(),
            final(self).entities_model() == old(self).entities_model(),
            final(self).component_ids_model() == old(self).component_ids_model(),
            final(self).can_spawn() == old(self).can_spawn(),
    {
        let r = write_slot(&mut self.components, key, value);
        proof {
            assert(slot_distinct(self.resources@));
            assert(self.resources_model() == old(self).resources_model());
            assert(self.component_ids_model() == old(self).component_ids_model());
            assert forall|k: EntityComponent|
                #[trigger] self.components_model().dom().contains(
                    k,
                ) implies self.component_ids_model().contains(k.type_id) by {
                assert(old(self).components_model().dom().contains(k));
                assert(old(self).component_ids_model().contains(k.type_id));
            }
            assert(forall|i: int|
                0 <= i < self.entities@.len() ==> (#[trigger] self.entities@[i]).id
                    < self.next_entity);
            assert(self.wf());
        }
        r
    }
}

/// Which slot a change marker refers to.
#[derive(Clone, Copy, PartialEq, Eq, Structural, Debug)]
pub enum SlotRef {
    /// The resource slot of this type.
    Resource(TypeKey),
    /// The component slot of this entity/type pair.
    Component(EntityComponent),
}

/// A deferred change marker: a one-shot token that, when applied, flags the
/// slot it was minted for as changed.  Marking is deferred so that it does
/// not interfere with the caller's mutation of the slot it came from.
pub struct SetChanged {
    target: SlotRef,
}

impl SetChanged {
    /// The slot this marker flags.
    pub closed spec fn target(self) -> SlotRef {
        self.target
    }

    /// A marker for `target`.
    pub(crate) fn new(target: SlotRef) -> (r: SetChanged)
        ensures
            r.target() == target,
    {
        SetChanged { target }
    }

    /// Applies the marker: flags its slot as changed, leaving the payload
    /// and every other slot untouched.  A slot that has disappeared is left
    /// alone.
    pub fn set(self, store: &mut Store)
        requires
            old(store).wf(),
        ensures
            final(store).wf(),
            final(store).entities_model() == old(store).entities_model(),
            final(store).component_ids_model() == old(store).component_ids_model(),
            final(store).can_spawn() == old(store).can_spawn(),
            self.target() matches SlotRef::Resource(t) ==> {
                &&& final(store).components_model() == old(store).components_model()
                &&& old(store).resources_model().dom().contains(t)
                    ==> final(store).resources_model() == old(store).resources_model().insert(
                    t,
                    (SlotState { value: old(store).resources_model()[t].value, changed: true }),
                )
                &&& !old(store).resources_model().dom().contains(t)
                    ==> final(store).resources_model() == old(store).resources_model()
            },
            self.target() matches SlotRef::Component(k) ==> {
                &&& final(store).resources_model() == old(store).resources_model()
                &&& old(store).components_model().dom().contains(k)
                    ==> final(store).components_model() == old(store).components_model().insert(
                    k,
                    (SlotState { value: old(store).components_model()[k].value, changed: true }),
                )
                &&& !old(store).components_model().dom().contains(k)
                    ==> final(store).components_model() == old(store).components_model()
            },
    {
        match self.target {
            SlotRef::Resource(t) => mark_slot_changed(&mut store.resources, t),
            SlotRef::Component(k) => mark_slot_changed(&mut store.components, k),
        }
    }
}

} // verus!
