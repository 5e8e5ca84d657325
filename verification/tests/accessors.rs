//! Tests of the checked accessors, the dynamic value bridge, and change
//! tracking.

use restricted_world_view::EntityComponent;
use restricted_world_view::Error;
use restricted_world_view::RestrictedWorldView;
use restricted_world_view::Store;
use restricted_world_view::TypeKey;
use restricted_world_view::TypeRegistry;

fn tk(id: u64) -> TypeKey {
    TypeKey { id }
}

#[test]
fn disjoint_resource_access() {
    let a = tk(1);
    let b = tk(2);
    let mut store = Store::new();
    store.insert_resource(a, 10);
    store.insert_resource(b, 20);

    let world = RestrictedWorldView::new();

    let (a_view, world) = world.split_off_resource(a);
    assert_eq!(a_view.get_resource_mut(&store, a), Ok(10));
    assert_eq!(world.get_resource_mut(&store, b), Ok(20));
    assert_eq!(
        a_view.get_resource_mut(&store, b),
        Err(Error::NoAccessToResource(b))
    );

    a_view.set_resource(&mut store, a, 0).unwrap();
    world.set_resource(&mut store, b, 0).unwrap();
    assert_eq!(a_view.get_resource_mut(&store, a), Ok(0));
    assert_eq!(world.get_resource_mut(&store, b), Ok(0));
}

#[test]
fn disjoint_resource_access_by_id() {
    let a = tk(1);
    let b = tk(2);
    let mut store = Store::new();
    store.insert_resource(a, 10);
    store.insert_resource(b, 20);

    let world = RestrictedWorldView::new();

    let (a_view, world) = world.split_off_resource(a);
    assert_eq!(a_view.get_resource_mut(&store, a), Ok(10));

    let mut type_registry = TypeRegistry::empty();
    type_registry.register(b);
    let (value, set_changed) = world
        .get_resource_reflect_mut_by_id(&store, b, &type_registry)
        .unwrap();
    assert_eq!(value, 20);

    a_view.set_resource(&mut store, a, 0).unwrap();
    set_changed.set(&mut store);
    assert_eq!(store.get_resource_state(b), Some((20, true)));
}

#[test]
fn get_two_resources_mut() {
    let a = tk(1);
    let b = tk(2);
    let mut store = Store::new();
    store.insert_resource(a, 10);
    store.insert_resource(b, 20);

    let world = RestrictedWorldView::new();
    let (ra, rb) = world.get_two_resources_mut(&store, a, b);
    assert_eq!(ra.unwrap(), 10);
    assert_eq!(rb.unwrap(), 20);

    world.set_resource(&mut store, a, 0).unwrap();
    world.set_resource(&mut store, b, 0).unwrap();
    let (ra, rb) = world.get_two_resources_mut(&store, a, b);
    assert_eq!(ra.unwrap(), 0);
    assert_eq!(rb.unwrap(), 0);
}

#[test]
fn get_two_resources_one_missing() {
    let a = tk(1);
    let b = tk(2);
    let mut store = Store::new();
    store.insert_resource(a, 10);

    let world = RestrictedWorldView::new();
    let (ra, rb) = world.get_two_resources_mut(&store, a, b);
    assert_eq!(ra, Ok(10));
    assert_eq!(rb, Err(Error::ResourceDoesNotExist(b)));
}

#[test]
fn disjoint_component_access() {
    let a = tk(1);
    let component_a = tk(7);
    let mut type_registry = TypeRegistry::empty();
    type_registry.register(component_a);

    let mut store = Store::new();
    store.insert_resource(a, 10);
    let entity = store.spawn();
    store.insert_component(entity, component_a, 5);

    let world = RestrictedWorldView::new();

    let key = EntityComponent { entity, type_id: component_a };
    let (component_view, world) = world.split_off_component(key);
    let (value, was_changed, set_changed) = component_view
        .get_entity_component_reflect(&store, entity, component_a, &type_registry)
        .unwrap();
    assert_eq!(value, 5);
    assert!(!was_changed);
    assert_eq!(world.get_resource_mut(&store, a), Ok(10));

    world.set_resource(&mut store, a, 0).unwrap();
    set_changed.set(&mut store);
    assert_eq!(store.get_component_state(key), Some((5, true)));
}

#[test]
fn capability_present_but_slot_absent() {
    let a = tk(1);
    let store = Store::new();

    let world = RestrictedWorldView::new();
    let (a_view, _) = world.split_off_resource(a);

    assert_eq!(
        a_view.get_resource_mut(&store, a),
        Err(Error::ResourceDoesNotExist(a))
    );
}

#[test]
fn resources_components_partition() {
    let a = tk(1);
    let component_c = tk(7);
    let mut type_registry = TypeRegistry::empty();
    type_registry.register(component_c);

    let mut store = Store::new();
    store.insert_resource(a, 10);
    let entity = store.spawn();
    store.insert_component(entity, component_c, 5);

    let (resources_view, components_view) = RestrictedWorldView::resources_components();

    assert_eq!(resources_view.get_resource_mut(&store, a), Ok(10));
    assert_eq!(
        components_view.get_resource_mut(&store, a),
        Err(Error::NoAccessToResource(a))
    );
    let (value, _, _) = components_view
        .get_entity_component_reflect(&store, entity, component_c, &type_registry)
        .unwrap();
    assert_eq!(value, 5);
}

#[test]
fn component_access_errors() {
    let registered = tk(7);
    let unregistered = tk(8);
    let mut type_registry = TypeRegistry::empty();
    type_registry.register(registered);

    let mut store = Store::new();
    let entity = store.spawn();
    let other = store.spawn();
    store.insert_component(entity, registered, 5);

    let world = RestrictedWorldView::new();

    // No slot id is registered in the store for this component type.
    assert!(matches!(
        world.get_entity_component_reflect(&store, entity, unregistered, &type_registry),
        Err(Error::NoComponentId(k)) if k == unregistered
    ));

    // The type has a slot id, but this entity has no such component.
    let missing = EntityComponent { entity: other, type_id: registered };
    assert!(matches!(
        world.get_entity_component_reflect(&store, other, registered, &type_registry),
        Err(Error::ComponentDoesNotExist(k)) if k == missing
    ));

    // A restricted view may not touch the slot at all.
    let key = EntityComponent { entity, type_id: registered };
    let (_, narrowed) = world.split_off_component(key);
    assert!(matches!(
        narrowed.get_entity_component_reflect(&store, entity, registered, &type_registry),
        Err(Error::NoAccessToComponent(k)) if k == key
    ));
    assert_eq!(
        narrowed.set_entity_component(&mut store, key, 6),
        Err(Error::NoAccessToComponent(key))
    );
}

#[test]
fn registry_errors() {
    let a = tk(1);
    let b = tk(2);
    let mut store = Store::new();
    store.insert_resource(a, 10);
    store.insert_resource(b, 20);

    let mut type_registry = TypeRegistry::empty();
    type_registry.register_without_data(b);

    let world = RestrictedWorldView::new();

    assert!(matches!(
        world.get_resource_reflect_mut_by_id(&store, a, &type_registry),
        Err(Error::NoTypeRegistration(k)) if k == a
    ));
    assert!(matches!(
        world.get_resource_reflect_mut_by_id(&store, b, &type_registry),
        Err(Error::NoTypeData(k)) if k == b
    ));
}

#[test]
fn dynamic_and_typed_access_agree() {
    let a = tk(1);
    let mut store = Store::new();
    store.insert_resource(a, 42);

    let mut type_registry = TypeRegistry::empty();
    type_registry.register(a);

    let world = RestrictedWorldView::new();

    // The dynamic handle observes the same slot as the typed accessor,
    // before and after a write through the view.
    let (dynamic, _) = world
        .get_resource_reflect_mut_by_id(&store, a, &type_registry)
        .unwrap();
    assert_eq!(world.get_resource_mut(&store, a), Ok(dynamic));

    world.set_resource(&mut store, a, 43).unwrap();
    let (dynamic, _) = world
        .get_resource_reflect_mut_by_id(&store, a, &type_registry)
        .unwrap();
    assert_eq!(dynamic, 43);
    assert_eq!(world.get_resource_mut(&store, a), Ok(43));
}

#[test]
fn change_marker_flags_component_once_applied() {
    let c = tk(7);
    let mut type_registry = TypeRegistry::empty();
    type_registry.register(c);

    let mut store = Store::new();
    let entity = store.spawn();
    store.insert_component(entity, c, 5);

    let world = RestrictedWorldView::new();

    let (_, was_changed, set_changed) = world
        .get_entity_component_reflect(&store, entity, c, &type_registry)
        .unwrap();
    assert!(!was_changed);

    set_changed.set(&mut store);

    let (value, was_changed, _) = world
        .get_entity_component_reflect(&store, entity, c, &type_registry)
        .unwrap();
    assert_eq!(value, 5);
    assert!(was_changed);
}

#[test]
fn writes_mark_slots_changed() {
    let a = tk(1);
    let c = tk(7);
    let mut store = Store::new();
    store.insert_resource(a, 10);
    let entity = store.spawn();
    store.insert_component(entity, c, 5);
    let key = EntityComponent { entity, type_id: c };

    assert_eq!(store.get_resource_state(a), Some((10, false)));
    assert_eq!(store.get_component_state(key), Some((5, false)));

    let world = RestrictedWorldView::new();
    world.set_resource(&mut store, a, 11).unwrap();
    world.set_entity_component(&mut store, key, 6).unwrap();

    assert_eq!(store.get_resource_state(a), Some((11, true)));
    assert_eq!(store.get_component_state(key), Some((6, true)));
}

#[test]
fn contains_entity_ignores_capabilities() {
    let mut store = Store::new();
    let entity = store.spawn();
    let dead = EntityComponent { entity, type_id: tk(1) };

    let universal = RestrictedWorldView::new();
    let (narrow, rest) = RestrictedWorldView::new().split_off_component(dead);

    assert!(universal.contains_entity(&store, entity));
    assert!(narrow.contains_entity(&store, entity));
    assert!(rest.contains_entity(&store, entity));

    let other = store.spawn();
    let fresh_only = Store::new();
    assert!(!universal.contains_entity(&fresh_only, other));
}

#[test]
fn split_off_resource_typed_present() {
    let a = tk(1);
    let b = tk(2);
    let mut store = Store::new();
    store.insert_resource(a, 10);
    store.insert_resource(b, 20);

    let world = RestrictedWorldView::new();
    let (value, rest) = world.split_off_resource_typed(&store, a).unwrap();
    assert_eq!(value, 10);
    assert!(!rest.allows_access_to_resource(a));
    assert_eq!(rest.get_resource_mut(&store, b), Ok(20));
}

#[test]
fn split_off_resource_typed_absent() {
    let a = tk(1);
    let store = Store::new();

    let world = RestrictedWorldView::new();
    assert!(world.split_off_resource_typed(&store, a).is_none());
}

#[test]
fn spawn_allocates_fresh_entities() {
    let mut store = Store::new();
    let e1 = store.spawn();
    let e2 = store.spawn();
    assert_ne!(e1, e2);
    assert!(store.has_entity(e1));
    assert!(store.has_entity(e2));
}
