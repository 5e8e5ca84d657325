//! Tests of the view-splitting protocol and the capability sets.

use restricted_world_view::Allowed;
use restricted_world_view::EntityComponent;
use restricted_world_view::RestrictedWorldView;
use restricted_world_view::Store;
use restricted_world_view::TypeKey;

fn tk(id: u64) -> TypeKey {
    TypeKey { id }
}

#[test]
fn invalid_resource_access() {
    let a = tk(1);
    let b = tk(2);

    let world = RestrictedWorldView::new();

    let (a_view, a_remaining) = world.split_off_resource(a);

    assert!(a_view.allows_access_to_resource(a));
    assert!(!a_remaining.allows_access_to_resource(a));
    assert!(!a_view.allows_access_to_resource(b));
    assert!(a_remaining.allows_access_to_resource(b));

    let (b_view, b_remaining) = a_remaining.split_off_resource(b);

    assert!(b_view.allows_access_to_resource(b));
    assert!(!b_remaining.allows_access_to_resource(b));
}

#[test]
fn split_order_is_irrelevant() {
    let a = tk(1);
    let b = tk(2);
    let probe = tk(3);

    let (_, rest_ab) = RestrictedWorldView::new().split_off_resource(a);
    let (_, rest_ab) = rest_ab.split_off_resource(b);

    let (_, rest_ba) = RestrictedWorldView::new().split_off_resource(b);
    let (_, rest_ba) = rest_ba.split_off_resource(a);

    for key in [a, b, probe] {
        assert_eq!(
            rest_ab.allows_access_to_resource(key),
            rest_ba.allows_access_to_resource(key)
        );
    }
    assert!(!rest_ab.allows_access_to_resource(a));
    assert!(!rest_ab.allows_access_to_resource(b));
    assert!(rest_ab.allows_access_to_resource(probe));
}

#[test]
fn resplit_capability_is_gone() {
    let mut store = Store::new();
    let entity = store.spawn();
    let c = tk(9);
    let key = EntityComponent { entity, type_id: c };

    let world = RestrictedWorldView::new();
    let (child, rest) = world.split_off_component(key);

    // The child holds the key; the remainder does not, so splitting the
    // same key off the remainder a second time is a programmer error the
    // splitting precondition rules out.
    assert!(child.allows_access_to_component(key));
    assert!(!rest.allows_access_to_component(key));
}

#[test]
fn split_keeps_component_capabilities_intact() {
    let a = tk(1);
    let mut store = Store::new();
    let entity = store.spawn();
    let key = EntityComponent { entity, type_id: tk(5) };

    let world = RestrictedWorldView::new();
    let (a_view, rest) = world.split_off_resource(a);

    assert!(!a_view.allows_access_to_component(key));
    assert!(rest.allows_access_to_component(key));
}

#[test]
fn split_off_components_removes_every_key() {
    let mut store = Store::new();
    let e1 = store.spawn();
    let e2 = store.spawn();
    let k1 = EntityComponent { entity: e1, type_id: tk(1) };
    let k2 = EntityComponent { entity: e2, type_id: tk(1) };
    let k3 = EntityComponent { entity: e1, type_id: tk(2) };

    let world = RestrictedWorldView::new();
    let (child, rest) = world.split_off_components(vec![k1, k2]);

    assert!(child.allows_access_to_component(k1));
    assert!(child.allows_access_to_component(k2));
    assert!(!child.allows_access_to_component(k3));
    assert!(!rest.allows_access_to_component(k1));
    assert!(!rest.allows_access_to_component(k2));
    assert!(rest.allows_access_to_component(k3));

    // The same again from an allow-list parent: removing two keys from a
    // small allow-list view must actually remove both.
    let (grandchild, child_rest) = child.split_off_components(vec![k1, k2]);
    assert!(grandchild.allows_access_to_component(k1));
    assert!(grandchild.allows_access_to_component(k2));
    assert!(!child_rest.allows_access_to_component(k1));
    assert!(!child_rest.allows_access_to_component(k2));
}

#[test]
fn split_off_components_tolerates_duplicates_on_forbid_list() {
    let mut store = Store::new();
    let e = store.spawn();
    let k1 = EntityComponent { entity: e, type_id: tk(1) };
    let k2 = EntityComponent { entity: e, type_id: tk(2) };

    // The universal view keeps its remainder as a forbid-list, where a
    // repeated key is harmless: it is simply forbidden twice.
    let world = RestrictedWorldView::new();
    let (child, rest) = world.split_off_components(vec![k1, k1, k2]);

    assert!(child.allows_access_to_component(k1));
    assert!(child.allows_access_to_component(k2));
    assert!(!rest.allows_access_to_component(k1));
    assert!(!rest.allows_access_to_component(k2));
}

#[test]
fn without_many_removes_both_from_allow_list() {
    let k1 = tk(1);
    let k2 = tk(2);
    let k3 = tk(3);

    let caps: Allowed<TypeKey> = Allowed::allow(vec![k1, k2, k3]);
    let remaining = caps.without_many(&vec![k1, k2]);

    assert!(!remaining.allows_access_to(k1));
    assert!(!remaining.allows_access_to(k2));
    assert!(remaining.allows_access_to(k3));
}

#[test]
fn without_many_extends_forbid_list() {
    let k1 = tk(1);
    let k2 = tk(2);

    let caps: Allowed<TypeKey> = Allowed::everything();
    let remaining = caps.without_many(&vec![k1, k2]);

    assert!(!remaining.allows_access_to(k1));
    assert!(!remaining.allows_access_to(k2));
    assert!(remaining.allows_access_to(tk(3)));
}

#[test]
fn universal_and_empty_capability_sets() {
    let universal: Allowed<TypeKey> = Allowed::everything();
    let empty: Allowed<TypeKey> = Allowed::nothing();
    let single: Allowed<TypeKey> = Allowed::allow_just(tk(4));

    assert!(universal.allows_access_to(tk(4)));
    assert!(!empty.allows_access_to(tk(4)));
    assert!(single.allows_access_to(tk(4)));
    assert!(!single.allows_access_to(tk(5)));

    let without = universal.without(tk(4));
    assert!(!without.allows_access_to(tk(4)));
    assert!(without.allows_access_to(tk(5)));
}
