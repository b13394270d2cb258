use std::cmp::Ordering;

use component_identity::component::{ComponentTypeId, TypeId};

#[derive(Clone, Copy)]
struct Position;

#[derive(Clone, Copy)]
struct Velocity;

#[derive(Clone, Copy)]
struct Health;

fn sample_handles() -> Vec<ComponentTypeId> {
    vec![
        ComponentTypeId::of::<Position>(),
        ComponentTypeId::of::<Velocity>(),
        ComponentTypeId::of::<Health>(),
        ComponentTypeId { type_id: TypeId::External(5), name: None },
        ComponentTypeId { type_id: TypeId::External(1), name: None },
        ComponentTypeId { type_id: TypeId::External(42), name: None },
    ]
}

#[test]
fn order_is_total() {
    let handles = sample_handles();
    for a in &handles {
        for b in &handles {
            assert!(a.partial_cmp(b).is_some());
        }
    }
}

#[test]
fn order_is_antisymmetric() {
    let handles = sample_handles();
    for a in &handles {
        for b in &handles {
            match a.partial_cmp(b).unwrap() {
                Ordering::Less => assert_eq!(b.partial_cmp(a), Some(Ordering::Greater)),
                Ordering::Greater => assert_eq!(b.partial_cmp(a), Some(Ordering::Less)),
                Ordering::Equal => {
                    assert_eq!(b.partial_cmp(a), Some(Ordering::Equal));
                    assert_eq!(a, b);
                },
            }
        }
    }
}

#[test]
fn order_is_transitive() {
    let handles = sample_handles();
    for a in &handles {
        for b in &handles {
            for c in &handles {
                if a.partial_cmp(b) != Some(Ordering::Greater)
                    && b.partial_cmp(c) != Some(Ordering::Greater)
                {
                    assert_ne!(a.partial_cmp(c), Some(Ordering::Greater));
                }
            }
        }
    }
}

#[test]
fn sorting_is_deterministic() {
    let mut first = sample_handles();
    let mut second = sample_handles();
    second.reverse();
    first.sort_by(|a, b| a.partial_cmp(b).unwrap());
    second.sort_by(|a, b| a.partial_cmp(b).unwrap());
    assert_eq!(first, second);
}

#[test]
fn external_identities_sort_by_tag() {
    let mut tags = vec![
        TypeId::External(42),
        TypeId::External(1),
        TypeId::External(5),
    ];
    tags.sort_by(|a, b| a.partial_cmp(b).unwrap());
    assert_eq!(
        tags,
        vec![TypeId::External(1), TypeId::External(5), TypeId::External(42)]
    );
}

#[test]
fn derived_total_order_agrees_with_comparison() {
    let mut by_partial = vec![
        TypeId::External(9),
        ComponentTypeId::of::<Position>().type_id,
        TypeId::External(2),
        ComponentTypeId::of::<Velocity>().type_id,
    ];
    let mut by_derived = by_partial.clone();
    by_partial.sort_by(|a, b| a.partial_cmp(b).unwrap());
    by_derived.sort();
    assert_eq!(by_partial, by_derived);
}

#[test]
fn verified_sort_builds_deterministic_signature() {
    let forward = component_identity::component::sort_handles(sample_handles());
    let mut shuffled = sample_handles();
    shuffled.reverse();
    shuffled.swap(0, 2);
    let backward = component_identity::component::sort_handles(shuffled);
    assert_eq!(forward, backward);
    for pair in forward.windows(2) {
        assert_ne!(pair[0].partial_cmp(&pair[1]), Some(Ordering::Greater));
    }
}

#[test]
fn name_never_affects_order() {
    let plain = ComponentTypeId::of::<Position>();
    let named = plain.with_name("Position");
    let other = ComponentTypeId { type_id: TypeId::External(3), name: None };
    assert_eq!(plain.partial_cmp(&named), Some(Ordering::Equal));
    assert_eq!(plain.partial_cmp(&other), named.partial_cmp(&other));
}
