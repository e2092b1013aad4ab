use mmolib::change_tracker::{ChangeTracker, ChangeType};
use mmolib::component::{get_type_id, get_type_id_from_str, Component, ComponentTypeId};
use mmolib::entity_id::EntityId;
use mmolib::position::Position;

#[test]
fn component_keeps_kind_and_value() {
    let c = Component::new::<Position>("{\"x\":1,\"y\":2}".to_string());
    assert_eq!(c.get_type_id(), get_type_id::<Position>());
    assert_eq!(c.serialize(), "{\"x\":1,\"y\":2}");
    let d = Component::new_with_type_id(ComponentTypeId::new_with_number(5), "v".to_string());
    assert_eq!(d.get_type_id().get_number(), 5);
    let shared = d.share();
    assert_eq!(shared.get_type_id().get_number(), 5);
    assert_eq!(shared.serialize(), "v");
    assert_eq!(d.serialize(), "v");
}

#[test]
fn get_ref_fails_on_another_kind() {
    let c = Component::new::<Position>("p".to_string());
    assert!(c.get_ref::<Position>().is_some());
    assert!(c.get_ref_with_type_id(get_type_id::<Position>()).is_some());
    assert!(c.get_ref_with_type_id(get_type_id_from_str("Velocity")).is_none());
    let d = Component::new_with_type_id(get_type_id_from_str("Velocity"), "v".to_string());
    assert!(d.get_ref::<Position>().is_none());
}

#[test]
fn a_fresh_reference_reads_the_shared_value() {
    let c = Component::new::<Position>("shared".to_string());
    let r = c.get_ref::<Position>().unwrap();
    assert_eq!(r.get(), "shared");
    assert!(!r.is_changed());
}

#[test]
fn a_write_through_one_reference_is_not_seen_through_another() {
    let c = Component::new::<Position>("shared".to_string());
    let r1 = c.get_ref::<Position>().unwrap();
    let mut r2 = c.get_ref::<Position>().unwrap();
    *r2.get_mut() = "changed".to_string();
    assert_eq!(r2.get(), "changed");
    assert!(r2.is_changed());
    assert_eq!(r1.get(), "shared");
    assert!(!r1.is_changed());
    let r3 = c.get_ref::<Position>().unwrap();
    assert_eq!(r3.get(), "shared");
    assert_eq!(c.serialize(), "shared");
}

#[test]
fn the_first_write_starts_from_the_shared_value() {
    let c = Component::new::<Position>("ab".to_string());
    let mut r = c.get_ref::<Position>().unwrap();
    r.get_mut().push('c');
    assert_eq!(r.get(), "abc");
    r.get_mut().push('d');
    assert_eq!(r.get(), "abcd");
}

#[test]
fn clearing_discards_the_private_copy() {
    let c = Component::new::<Position>("shared".to_string());
    let mut r = c.get_ref::<Position>().unwrap();
    *r.get_mut() = "changed".to_string();
    r.clear_changed_data();
    assert_eq!(r.get(), "shared");
    assert!(!r.is_changed());
    r.clear_changed_data();
    assert_eq!(r.get(), "shared");
}

#[test]
fn change_tracker_records_what_changed() {
    let e = EntityId::new_with_number(11);
    let t = get_type_id::<Position>();

    let add = ChangeTracker::new_add::<Position>(e, "a".to_string());
    assert_eq!(add.get_entity_id(), e);
    assert_eq!(add.get_component_type(), t);
    assert_eq!(add.get_key(), (e, t));
    match add.get_change_type() {
        ChangeType::Add(c) => {
            assert_eq!(c.get_type_id(), t);
            assert_eq!(c.share().serialize(), "a");
        }
        _ => panic!("an addition was recorded"),
    }

    let change = ChangeTracker::new_change::<Position>(e, "b".to_string());
    assert_eq!(change.get_key(), (e, t));
    match change.get_change_type() {
        ChangeType::Change(c) => assert_eq!(c.share().serialize(), "b"),
        _ => panic!("a change was recorded"),
    }

    let other = ComponentTypeId::new_with_number(77);
    let remove = ChangeTracker::new_remove(e, other);
    assert_eq!(remove.get_key(), (e, other));
    assert!(matches!(remove.get_change_type(), ChangeType::Remove));

    let by_id = ChangeTracker::new_add_with_type_id(e, other, "c".to_string());
    assert_eq!(by_id.get_component_type(), other);
    match by_id.get_change_type() {
        ChangeType::Add(c) => assert_eq!(c.get_type_id(), other),
        _ => panic!("an addition was recorded"),
    }
    let by_id = ChangeTracker::new_change_with_type_id(e, other, "d".to_string());
    assert!(matches!(by_id.get_change_type(), ChangeType::Change(_)));
}
