use mmolib::component::{
    get_type_id, get_type_id_from_str, ComponentInstanceId, ComponentTypeId,
};
use mmolib::entity_id::EntityId;
use mmolib::hashing::string_hash;
use mmolib::position::Position;

#[test]
fn entity_id_keeps_its_number() {
    assert_eq!(EntityId::new_with_number(42).id(), 42);
    assert_eq!(EntityId::new_with_number(u64::MAX).id(), u64::MAX);
    assert_eq!(EntityId::default().id(), 0);
    assert_eq!(EntityId::new_with_number(7), EntityId::new_with_number(7));
    assert_ne!(EntityId::new_with_number(7), EntityId::new_with_number(8));
}

#[test]
fn entity_id_prints_in_upper_case_hexadecimal() {
    assert_eq!(EntityId::new_with_number(255).to_string(), "entity<FF>");
    assert_eq!(EntityId::new_with_number(0).to_string(), "entity<0>");
    assert_eq!(EntityId::new_with_number(0xDEADBEEF).to_string(), "entity<DEADBEEF>");
    assert_eq!(
        EntityId::new_with_number(u64::MAX).to_string(),
        format!("entity<{:X}>", u64::MAX)
    );
}

#[test]
fn fresh_entity_ids_differ() {
    let a = EntityId::new();
    let b = EntityId::new();
    let c = EntityId::new();
    assert!(a != b || b != c);
}

#[test]
fn string_hash_is_fnv_1a() {
    assert_eq!(string_hash(""), 0xcbf29ce484222325);
    assert_eq!(string_hash("a"), 0xaf63dc4c8601ec8c);
    assert_eq!(string_hash("foobar"), 0x85944171f73967e8);
}

#[test]
fn type_id_is_the_hash_of_the_name() {
    assert_eq!(get_type_id_from_str("foobar").get_number(), 0x85944171f73967e8);
    assert_eq!(
        get_type_id::<Position>(),
        get_type_id_from_str("mmolib::position::Position")
    );
    assert_eq!(ComponentTypeId::new::<Position>(), get_type_id::<Position>());
    assert_ne!(get_type_id_from_str("Position"), get_type_id_from_str("Velocity"));
    assert_eq!(ComponentTypeId::new_with_number(9).get_number(), 9);
}

#[test]
fn type_id_prints_in_upper_case_hexadecimal() {
    assert_eq!(ComponentTypeId::new_with_number(0xAB).to_string(), "type<AB>");
    assert_eq!(ComponentTypeId::new_with_number(16).to_string(), "type<10>");
}

#[test]
fn instance_id_is_entity_and_type() {
    let e = EntityId::new_with_number(3);
    let t = ComponentTypeId::new_with_number(4);
    let id = ComponentInstanceId::new_explicit(e, t);
    assert_eq!(id.get_entity_id(), e);
    assert_eq!(id.get_component_type_id(), t);
    let typed = ComponentInstanceId::new::<Position>(e);
    assert_eq!(typed.get_entity_id(), e);
    assert_eq!(typed.get_component_type_id(), get_type_id::<Position>());
    assert_eq!(typed, ComponentInstanceId::new_explicit(e, get_type_id::<Position>()));
    assert_ne!(id, typed);
}
