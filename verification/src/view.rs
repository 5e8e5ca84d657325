//! Capability-scoped views over the store, and their accessors.
//!
//! A view couples two capability sets, one over resource keys and one over
//! component keys.  The root view holds universal capability; every split
//! moves some keys from the parent into a child, so the child and the
//! remainder are disjoint by subtraction and, transitively, all live views
//! stay pairwise disjoint.  Splits consume the parent, so no view with the
//! parent's unsplit capability survives a split.
//!
//! Accessors check the capability set, then read or write the store; the
//! dynamic accessors additionally consult the type registry and hand back a
//! deferred change marker.

use vstd::prelude::*;

use crate::allowed::Allowed;
use crate::keys::EntityComponent;
use crate::keys::EntityId;
use crate::keys::TypeKey;
use crate::registry::TypeRegistry;
use crate::store::SetChanged;
use crate::store::SlotRef;
use crate::store::SlotState;
use crate::store::Store;

verus! {

/// Why an accessor refused.
#[derive(Clone, Copy, PartialEq, Eq, Structural, Debug)]
pub enum Error {
    /// The view's capability set does not cover this resource key.
    NoAccessToResource(TypeKey),
    /// The view's capability set does not cover this component key.
    NoAccessToComponent(EntityComponent),
    /// Capability present, but the store holds no such resource slot.
    ResourceDoesNotExist(TypeKey),
    /// Capability present, but the store holds no such component slot.
    ComponentDoesNotExist(EntityComponent),
    /// The store has no slot id registered for this component type.
    NoComponentId(TypeKey),
    /// The registry holds no registration for this type.
    NoTypeRegistration(TypeKey),
    /// The registration lacks the reinterpret capability.
    NoTypeData(TypeKey),
}

/// A view into the store which may only touch certain resource and
/// component slots: a restricted form of exclusive access to the whole
/// store.
pub struct RestrictedWorldView {
    resources: Allowed<TypeKey>,
    components: Allowed<EntityComponent>,
}

impl RestrictedWorldView {
    /// The resource keys this view may touch.
    pub closed spec fn resources_set(self) -> Set<TypeKey> {
        self.resources.as_set()
    }

    /// The component keys this view may touch.
    pub closed spec fn components_set(self) -> Set<EntityComponent> {
        self.components.as_set()
    }

    /// Whether the component capability set is stored as an explicit
    /// allow-list.  Only the multi-key split cares: removing keys from an
    /// allow-list applies them one by one to a running set, so there a
    /// duplicated key is a caller bug.
    pub closed spec fn components_allow_listed(self) -> bool {
        self.components.is_allow_list()
    }

    /// What checked resource access returns: the capability is checked
    /// first, then the slot's existence, and only then is its payload
    /// handed out.
    pub open spec fn resource_access_result(self, store: Store, type_id: TypeKey) -> Result<
        u64,
        Error,
    > {
        if !self.resources_set().contains(type_id) {
            Err(Error::NoAccessToResource(type_id))
        } else if !store.resources_model().dom().contains(type_id) {
            Err(Error::ResourceDoesNotExist(type_id))
        } else {
            Ok(store.resources_model()[type_id].value)
        }
    }

    /// What checked resource writing returns, by the same two checks.
    pub open spec fn resource_write_result(self, store: Store, type_id: TypeKey) -> Result<
        (),
        Error,
    > {
        if !self.resources_set().contains(type_id) {
            Err(Error::NoAccessToResource(type_id))
        } else if !store.resources_model().dom().contains(type_id) {
            Err(Error::ResourceDoesNotExist(type_id))
        } else {
            Ok(())
        }
    }

    /// What dynamic resource access returns: capability, slot existence,
    /// then the registry's registration and its reinterpret capability.
    pub open spec fn resource_reflect_result(
        self,
        store: Store,
        registry: TypeRegistry,
        type_id: TypeKey,
    ) -> Result<u64, Error> {
        if !self.resources_set().contains(type_id) {
            Err(Error::NoAccessToResource(type_id))
        } else if !store.resources_model().dom().contains(type_id) {
            Err(Error::ResourceDoesNotExist(type_id))
        } else if !registry.registered_model().contains(type_id) {
            Err(Error::NoTypeRegistration(type_id))
        } else if !registry.reinterpret_model().contains(type_id) {
            Err(Error::NoTypeData(type_id))
        } else {
            Ok(store.resources_model()[type_id].value)
        }
    }

    /// What dynamic component access returns: capability, the component
    /// type's slot id, slot existence, then the registry.
    pub open spec fn component_reflect_result(
        self,
        store: Store,
        registry: TypeRegistry,
        entity: EntityId,
        type_id: TypeKey,
    ) -> Result<u64, Error> {
        let key = EntityComponent { entity, type_id };
        if !self.components_set().contains(key) {
            Err(Error::NoAccessToComponent(key))
        } else if !store.component_ids_model().contains(type_id) {
            Err(Error::NoComponentId(type_id))
        } else if !store.components_model().dom().contains(key) {
            Err(Error::ComponentDoesNotExist(key))
        } else if !registry.registered_model().contains(type_id) {
            Err(Error::NoTypeRegistration(type_id))
        } else if !registry.reinterpret_model().contains(type_id) {
            Err(Error::NoTypeData(type_id))
        } else {
            Ok(store.components_model()[key].value)
        }
    }

    /// What checked component writing returns.
    pub open spec fn component_write_result(self, store: Store, key: EntityComponent) -> Result<
        (),
        Error,
    > {
        if !self.components_set().contains(key) {
            Err(Error::NoAccessToComponent(key))
        } else if !store.components_model().dom().contains(key) {
            Err(Error::ComponentDoesNotExist(key))
        } else {
            Ok(())
        }
    }

    /// A view with permission to touch everything.
    pub fn new() -> (r: RestrictedWorldView)
        ensures
            r.resources_set() == Set::<TypeKey>::full(),
            r.components_set() == Set::<EntityComponent>::full(),
            !r.components_allow_listed(),
    {
        RestrictedWorldView {
            resources: Allowed::everything(),
            components: Allowed::everything(),
        }
    }

    /// The standard top-level partition: one view which may only be used
    /// for resource access, and one which may only be used for component
    /// access.
    pub fn resources_components() -> (r: (RestrictedWorldView, RestrictedWorldView))
        ensures
            r.0.resources_set() == Set::<TypeKey>::full(),
            r.0.components_set() == Set::<EntityComponent>::empty(),
            r.0.components_allow_listed(),
            r.1.resources_set() == Set::<TypeKey>::empty(),
            r.1.components_set() == Set::<EntityComponent>::full(),
            !r.1.components_allow_listed(),
    {
        let resources = RestrictedWorldView {
            resources: Allowed::everything(),
            components: Allowed::nothing(),
        };
        let components = RestrictedWorldView {
            resources: Allowed::nothing(),
            components: Allowed::everything(),
        };
        (resources, components)
    }

    /// Whether the resource with the given key may be accessed from this
    /// view.
    pub fn allows_access_to_resource(&self, type_id: TypeKey) -> (r: bool)
        ensures
            r == self.resources_set().contains(type_id),
    {
        self.resources.allows_access_to(type_id)
    }

    /// Whether the given component at the given entity may be accessed from
    /// this view.
    pub fn allows_access_to_component(&self, component: EntityComponent) -> (r: bool)
        ensures
            r == self.components_set().contains(component),
    {
        self.components.allows_access_to(component)
    }

    /// Splits this view into one view that only has access to the resource
    /// `resource` and the rest.  The parent is consumed: after the split
    /// only the two disjoint children exist.
    pub fn split_off_resource(self, resource: TypeKey) -> (r: (
        RestrictedWorldView,
        RestrictedWorldView,
    ))
        requires
            self.resources_set().contains(resource),
        ensures
            r.0.resources_set() == Set::<TypeKey>::empty().insert(resource),
            r.0.components_set() == Set::<EntityComponent>::empty(),
            r.0.components_allow_listed(),
            r.1.resources_set() == self.resources_set().remove(resource),
            r.1.components_set() == self.components_set(),
            r.1.components_allow_listed() == self.components_allow_listed(),
    {
        let split = RestrictedWorldView {
            resources: Allowed::allow_just(resource),
            components: Allowed::nothing(),
        };
        let rest = RestrictedWorldView {
            resources: self.resources.without(resource),
            components: self.components,
        };
        (split, rest)
    }

    /// Like [`RestrictedWorldView::split_off_resource`], but hands out the
    /// resource's payload directly.  The capability is consumed whether or
    /// not the slot exists: when it does not, the whole view is gone and
    /// nothing is returned.
    pub fn split_off_resource_typed(self, store: &Store, resource: TypeKey) -> (r: Option<
        (u64, RestrictedWorldView),
    >)
        requires
            store.wf(),
            self.resources_set().contains(resource),
        ensures
            store.resources_model().dom().contains(resource) ==> (r matches Some(p)
                && p.0 == store.resources_model()[resource].value
                && p.1.resources_set() == self.resources_set().remove(resource)
                && p.1.components_set() == self.components_set()
                && p.1.components_allow_listed() == self.components_allow_listed()),
            !store.resources_model().dom().contains(resource) ==> r is None,
    {
        match store.get_resource(resource) {
            Some(value) => {
                let rest = RestrictedWorldView {
                    resources: self.resources.without(resource),
                    components: self.components,
                };
                Some((value, rest))
            },
            None => None,
        }
    }

    /// Splits this view into one view that only has access to the component
    /// `component.type_id` at the entity `component.entity` and the rest.
    pub fn split_off_component(self, component: EntityComponent) -> (r: (
        RestrictedWorldView,
        RestrictedWorldView,
    ))
        requires
            self.components_set().contains(component),
        ensures
            r.0.resources_set() == Set::<TypeKey>::empty(),
            r.0.components_set() == Set::<EntityComponent>::empty().insert(component),
            r.0.components_allow_listed(),
            r.1.resources_set() == self.resources_set(),
            r.1.components_set() == self.components_set().remove(component),
            r.1.components_allow_listed() == self.components_allow_listed(),
    {
        let split = RestrictedWorldView {
            resources: Allowed::nothing(),
            components: Allowed::allow_just(component),
        };
        let rest = RestrictedWorldView {
            resources: self.resources,
            components: self.components.without(component),
        };
        (split, rest)
    }

    /// Splits this view into one view that only has access to the listed
    /// entity/component pairs and the rest.  Every key must be held, and a
    /// view whose component capability is an allow-list must be handed
    /// distinct keys; the preconditions are checked before any capability
    /// moves, so a split is all or nothing.
    pub fn split_off_components(self, components: Vec<EntityComponent>) -> (r: (
        RestrictedWorldView,
        RestrictedWorldView,
    ))
        requires
            forall|i: int|
                0 <= i < components@.len() ==> self.components_set().contains(
                    #[trigger] components@[i],
                ),
            self.components_allow_listed() ==> forall|i: int, j: int|
                0 <= i < j < components@.len() ==> components@[i] != components@[j],
        ensures
            r.0.resources_set() == Set::<TypeKey>::empty(),
            r.0.components_set() == components@.to_set(),
            r.0.components_allow_listed(),
            r.1.resources_set() == self.resources_set(),
            r.1.components_set() == self.components_set().difference(components@.to_set()),
            r.1.components_allow_listed() == self.components_allow_listed(),
    {
        let rest_components = self.components.without_many(&components);
        let split = RestrictedWorldView {
            resources: Allowed::nothing(),
            components: Allowed::allow(components),
        };
        let rest = RestrictedWorldView {
            resources: self.resources,
            components: rest_components,
        };
        (split, rest)
    }

    /// A pure metadata query against the store: always permitted, whatever
    /// this view's capability sets hold, since it exposes no slot.
    pub fn contains_entity(&self, store: &Store, entity: EntityId) -> (r: bool)
        ensures
            r == store.entities_model().contains(entity),
    {
        store.has_entity(entity)
    }

    /// Reads the resource slot of the given key, after checking the
    /// capability.
    pub fn get_resource_mut(&self, store: &Store, type_id: TypeKey) -> (r: Result<u64, Error>)
        requires
            store.wf(),
        ensures
            r == self.resource_access_result(*store, type_id),
    {
        if !self.allows_access_to_resource(type_id) {
            return Err(Error::NoAccessToResource(type_id));
        }
        match store.get_resource(type_id) {
            Some(value) => Ok(value),
            None => Err(Error::ResourceDoesNotExist(type_id)),
        }
    }

    /// Reads two resource slots from the same view.  Two keys naming the
    /// same slot would alias, so equal keys are excluded outright.
    pub fn get_two_resources_mut(&self, store: &Store, first: TypeKey, second: TypeKey) -> (r: (
        Result<u64, Error>,
        Result<u64, Error>,
    ))
        requires
            store.wf(),
            first != second,
        ensures
            r.0 == self.resource_access_result(*store, first),
            r.1 == self.resource_access_result(*store, second),
    {
        (self.get_resource_mut(store, first), self.get_resource_mut(store, second))
    }

    /// Writes the resource slot of the given key, after checking the
    /// capability; a successful write marks the slot changed.
    pub fn set_resource(&self, store: &mut Store, type_id: TypeKey, value: u64) -> (r: Result<
        (),
        Error,
    >)
        requires
            old(store).wf(),
        ensures
            final(store).wf(),
            r == self.resource_write_result(*old(store), type_id),
            r matches Ok(_) ==> final(store).resources_model() == old(
                store,
            ).resources_model().insert(type_id, (SlotState { value, changed: true })),
            r matches Err(_) ==> final(store).resources_model() == old(store).resources_model(),
            final(store).components_model() == old(store).components_model(),
            final(store).entities_model() == old(store).entities_model(),
            final(store).component_ids_model() == old(store).component_ids_model(),
            final(store).can_spawn() == old(store).can_spawn(),
    {
        if !self.allows_access_to_resource(type_id) {
            return Err(Error::NoAccessToResource(type_id));
        }
        if store.write_resource(type_id, value) {
            Ok(())
        } else {
            Err(Error::ResourceDoesNotExist(type_id))
        }
    }

    /// Writes the component slot of the given key, after checking the
    /// capability; a successful write marks the slot changed.
    pub fn set_entity_component(&self, store: &mut Store, key: EntityComponent, value: u64) -> (r:
        Result<(), Error>)
        requires
            old(store).wf(),
        ensures
            final(store).wf(),
            r == self.component_write_result(*old(store), key),
            r matches Ok(_) ==> final(store).components_model() == old(
                store,
            ).components_model().insert(key, (SlotState { value, changed: true })),
            r matches Err(_) ==> final(store).components_model() == old(store).components_model(),
            final(store).resources_model() == old(store).resources_model(),
            final(store).entities_model() == old(store).entities_model(),
            final(store).component_ids_model() == old(store).component_ids_model(),
            final(store).can_spawn() == old(store).can_spawn(),
    {
        if !self.allows_access_to_component(key) {
            return Err(Error::NoAccessToComponent(key));
        }
        if store.write_component(key, value) {
            Ok(())
        } else {
            Err(Error::ComponentDoesNotExist(key))
        }
    }

    /// Reads the resource slot given by `type_id` in its dynamically typed
    /// form, going through the registry, and hands back a deferred marker
    /// that flags the slot as changed when applied.
    pub fn get_resource_reflect_mut_by_id(
        &self,
        store: &Store,
        type_id: TypeKey,
        type_registry: &TypeRegistry,
    ) -> (r: Result<(u64, SetChanged), Error>)
        requires
            store.wf(),
        ensures
            r matches Ok(p) ==> self.resource_reflect_result(*store, *type_registry, type_id)
                == Ok::<u64, Error>(p.0) && p.1.target() == SlotRef::Resource(type_id),
            r matches Err(e) ==> self.resource_reflect_result(*store, *type_registry, type_id)
                == Err::<u64, Error>(e),
    {
        if !self.allows_access_to_resource(type_id) {
            return Err(Error::NoAccessToResource(type_id));
        }
        let value = match store.get_resource(type_id) {
            Some(value) => value,
            None => {
                return Err(Error::ResourceDoesNotExist(type_id));
            },
        };
        reflect_bridge(value, type_registry, type_id, SlotRef::Resource(type_id))
    }

    /// Reads the component slot of `component` at `entity` in its
    /// dynamically typed form.  Besides the payload and the deferred change
    /// marker, reports whether the slot was already marked changed before
    /// this access, so callers can avoid redundant change notifications.
    pub fn get_entity_component_reflect(
        &self,
        store: &Store,
        entity: EntityId,
        component: TypeKey,
        type_registry: &TypeRegistry,
    ) -> (r: Result<(u64, bool, SetChanged), Error>)
        requires
            store.wf(),
        ensures
            r matches Ok(p) ==> self.component_reflect_result(
                *store,
                *type_registry,
                entity,
                component,
            ) == Ok::<u64, Error>(p.0) && p.1 == store.components_model()[
                (EntityComponent { entity, type_id: component })
            ].changed && p.2.target() == SlotRef::Component(
                (EntityComponent { entity, type_id: component }),
            ),
            r matches Err(e) ==> self.component_reflect_result(
                *store,
                *type_registry,
                entity,
                component,
            ) == Err::<u64, Error>(e),
    {
        let key = EntityComponent { entity, type_id: component };
        if !self.allows_access_to_component(key) {
            return Err(Error::NoAccessToComponent(key));
        }
        if !store.has_component_id(component) {
            return Err(Error::NoComponentId(component));
        }
        let (value, changed) = match store.get_component_state(key) {
            Some(p) => p,
            None => {
                return Err(Error::ComponentDoesNotExist(key));
            },
        };
        match reflect_bridge(value, type_registry, component, SlotRef::Component(key)) {
            Ok(p) => Ok((p.0, changed, p.1)),
            Err(e) => Err(e),
        }
    }
}

/// The dynamic value bridge: turns a slot payload plus its type into the
/// dynamically typed form, by way of the registry.  Fails when the type was
/// never registered, or its registration lacks the reinterpret capability.
fn reflect_bridge(
    value: u64,
    type_registry: &TypeRegistry,
    type_id: TypeKey,
    target: SlotRef,
) -> (r: Result<(u64, SetChanged), Error>)
    ensures
        !type_registry.registered_model().contains(type_id) ==> r == Err::<(u64, SetChanged), Error>(
            Error::NoTypeRegistration(type_id),
        ),
        type_registry.registered_model().contains(type_id)
            && !type_registry.reinterpret_model().contains(type_id) ==> r == Err::<
            (u64, SetChanged),
            Error,
        >(Error::NoTypeData(type_id)),
        type_registry.registered_model().contains(type_id)
            && type_registry.reinterpret_model().contains(type_id) ==> (r matches Ok(p) && p.0
            == value && p.1.target() == target),
{
    if !type_registry.is_registered(type_id) {
        return Err(Error::NoTypeRegistration(type_id));
    }
    if !type_registry.has_reinterpret(type_id) {
        return Err(Error::NoTypeData(type_id));
    }
    Ok((value, SetChanged::new(target)))
}

} // verus!
