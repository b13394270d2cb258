use std::collections::hash_map::DefaultHasher;
use std::collections::HashMap;
use std::hash::{Hash, Hasher};

use component_identity::component::{ComponentTypeId, TypeId};

#[derive(Clone, Copy, PartialEq, Debug)]
struct Position {
    x: i64,
    y: i64,
}

#[derive(Clone, Copy, PartialEq, Debug)]
struct Velocity {
    dx: i64,
    dy: i64,
}

fn hash_of<T: Hash>(value: &T) -> u64 {
    let mut hasher = DefaultHasher::new();
    value.hash(&mut hasher);
    hasher.finish()
}

#[test]
fn same_type_gives_equal_identities() {
    let a = ComponentTypeId::of::<Position>();
    let b = ComponentTypeId::of::<Position>();
    assert_eq!(a, b);
    assert_eq!(hash_of(&a), hash_of(&b));
}

#[test]
fn distinct_types_give_distinct_identities() {
    let p = ComponentTypeId::of::<Position>();
    let v = ComponentTypeId::of::<Velocity>();
    assert_ne!(p, v);
}

#[test]
fn runtime_tags_decide_equality() {
    assert_eq!(TypeId::External(7), TypeId::External(7));
    assert_ne!(TypeId::External(1), TypeId::External(2));
    let a = ComponentTypeId { type_id: TypeId::External(7), name: None };
    let b = ComponentTypeId { type_id: TypeId::External(7), name: None };
    let c = ComponentTypeId { type_id: TypeId::External(8), name: None };
    assert_eq!(a, b);
    assert_eq!(hash_of(&a), hash_of(&b));
    assert_ne!(a, c);
}

#[test]
fn build_time_never_equals_runtime() {
    let internal = ComponentTypeId::of::<Position>();
    for tag in [0u64, 1, 42, u64::MAX] {
        let external = ComponentTypeId { type_id: TypeId::External(tag), name: None };
        assert_ne!(internal, external);
        assert_ne!(external, internal);
    }
}

#[test]
fn name_never_affects_equality_or_hash() {
    let plain = ComponentTypeId::of::<Position>();
    let named = plain.with_name("Position");
    assert_eq!(plain, named);
    assert_eq!(named, plain);
    assert_eq!(hash_of(&plain), hash_of(&named));

    let tagged = ComponentTypeId { type_id: TypeId::External(42), name: None };
    let tagged_named = tagged.with_name("scripted component");
    assert_eq!(tagged, tagged_named);
    assert_eq!(hash_of(&tagged), hash_of(&tagged_named));
}

#[test]
fn handles_key_a_map_stably() {
    let mut table: HashMap<ComponentTypeId, &str> = HashMap::new();
    table.insert(ComponentTypeId::of::<Position>(), "position column");
    table.insert(ComponentTypeId::of::<Velocity>(), "velocity column");
    assert_eq!(table.len(), 2);
    let rederived = ComponentTypeId::of::<Position>();
    assert_eq!(table.get(&rederived), Some(&"position column"));
    let named = ComponentTypeId::of::<Velocity>().with_name("Velocity");
    assert_eq!(table.get(&named), Some(&"velocity column"));
}

#[test]
fn runtime_tag_distinct_from_every_build_time_handle() {
    let scripted = ComponentTypeId { type_id: TypeId::External(42), name: None };
    let build_time = [
        ComponentTypeId::of::<Position>(),
        ComponentTypeId::of::<Velocity>(),
        ComponentTypeId::of::<u64>(),
        ComponentTypeId::of::<String>(),
    ];
    for handle in build_time {
        assert_ne!(scripted, handle);
    }
}
