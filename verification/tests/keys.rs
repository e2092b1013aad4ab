use mmolib::component::ComponentTypeId;
use mmolib::entity_id::EntityId;
use mmolib::keys::{
    component_data_key, component_entity_key, entity_key, is_world_name, key_in_world,
    world_key_pattern,
};
use mmolib::server_world::get_redis_connection_string;

#[test]
fn keys_have_the_documented_shape() {
    let e = EntityId::new_with_number(17);
    let t = ComponentTypeId::new_with_number(9000);
    assert_eq!(component_data_key("test", e, t), "test:17:9000");
    assert_eq!(entity_key("test", e), "test:17");
    assert_eq!(component_entity_key("test", t), "test:9000");
    assert_eq!(world_key_pattern("test"), "test:*");
    assert_eq!(
        component_data_key("w", EntityId::new_with_number(u64::MAX), t),
        format!("w:{}:9000", u64::MAX)
    );
    assert_eq!(entity_key("", EntityId::new_with_number(0)), ":0");
}

#[test]
fn keys_agree_with_formatting() {
    for (w, e, t) in [("a", 0u64, 0u64), ("wörld", 5, 7), ("x:y", 123456789, u64::MAX)] {
        let entity = EntityId::new_with_number(e);
        let kind = ComponentTypeId::new_with_number(t);
        assert_eq!(component_data_key(w, entity, kind), format!("{}:{}:{}", w, e, t));
        assert_eq!(entity_key(w, entity), format!("{}:{}", w, e));
        assert_eq!(component_entity_key(w, kind), format!("{}:{}", w, t));
        assert_eq!(world_key_pattern(w), format!("{}:*", w));
    }
}

#[test]
fn an_entity_and_a_type_with_one_number_share_their_index_key() {
    assert_eq!(
        entity_key("w", EntityId::new_with_number(5)),
        component_entity_key("w", ComponentTypeId::new_with_number(5))
    );
}

#[test]
fn key_in_world_tests_the_namespace_prefix() {
    assert!(key_in_world("test:1:2", "test"));
    assert!(key_in_world("test:1", "test"));
    assert!(key_in_world("test:", "test"));
    assert!(!key_in_world("test", "test"));
    assert!(!key_in_world("tes", "test"));
    assert!(!key_in_world("test2:1", "test"));
    assert!(!key_in_world("other:1:2", "test"));
    assert!(!key_in_world("", "test"));
    assert!(key_in_world(":1", ""));
    assert!(key_in_world("wörld:1", "wörld"));
    // a world whose name extends another's by a colon lies inside its namespace
    assert!(key_in_world("a:b:1:2", "a"));
    assert!(!key_in_world("a:1:2", "a:b"));
}

#[test]
fn a_world_name_holds_no_colon() {
    assert!(is_world_name("test"));
    assert!(is_world_name(""));
    assert!(is_world_name("wörld 1*"));
    assert!(!is_world_name("a:b"));
    assert!(!is_world_name(":"));
    assert!(!is_world_name("test:"));
    assert!(!is_world_name(":test"));
    // the key of one world that a name with a colon would share with another
    assert_eq!(
        component_data_key("w", EntityId::new_with_number(1), ComponentTypeId::new_with_number(2)),
        component_entity_key("w:1", ComponentTypeId::new_with_number(2))
    );
}

#[test]
fn connection_string_names_host_and_port() {
    assert_eq!(get_redis_connection_string("localhost", 6379), "redis://localhost:6379/");
    assert_eq!(get_redis_connection_string("10.0.0.1", 0), "redis://10.0.0.1:0/");
    assert_eq!(get_redis_connection_string("h", u16::MAX), "redis://h:65535/");
}
