use mmolib::cache::{ComponentCache, EntitySet};
use mmolib::component::{Component, ComponentTypeId};
use mmolib::entity_id::EntityId;

fn component(kind: u64, value: &str) -> Component {
    Component::new_with_type_id(ComponentTypeId::new_with_number(kind), value.to_string())
}

fn value(cache: &ComponentCache, entity: u64, kind: u64) -> Option<String> {
    cache
        .get(EntityId::new_with_number(entity), ComponentTypeId::new_with_number(kind))
        .map(|c| c.share().serialize())
}

#[test]
fn the_cache_holds_components_by_instance() {
    let mut cache = ComponentCache::new();
    assert_eq!(value(&cache, 1, 2), None);
    cache.insert(EntityId::new_with_number(1), component(2, "a"));
    cache.insert(EntityId::new_with_number(1), component(3, "b"));
    cache.insert(EntityId::new_with_number(2), component(2, "c"));
    assert_eq!(value(&cache, 1, 2), Some("a".to_string()));
    assert_eq!(value(&cache, 1, 3), Some("b".to_string()));
    assert_eq!(value(&cache, 2, 2), Some("c".to_string()));
    assert_eq!(value(&cache, 2, 1), None);
    cache.insert(EntityId::new_with_number(1), component(2, "d"));
    assert_eq!(value(&cache, 1, 2), Some("d".to_string()));
    cache.remove(EntityId::new_with_number(1), ComponentTypeId::new_with_number(2));
    assert_eq!(value(&cache, 1, 2), None);
    assert_eq!(value(&cache, 1, 3), Some("b".to_string()));
    cache.remove(EntityId::new_with_number(1), ComponentTypeId::new_with_number(2));
    assert_eq!(value(&cache, 2, 2), Some("c".to_string()));
}

#[test]
fn an_entity_set_holds_each_entity_once() {
    let mut set = EntitySet::new();
    assert!(set.to_vec().is_empty());
    assert!(!set.contains(EntityId::new_with_number(1)));
    set.insert(EntityId::new_with_number(1));
    set.insert(EntityId::new_with_number(5));
    set.insert(EntityId::new_with_number(1));
    assert!(set.contains(EntityId::new_with_number(1)));
    assert!(set.contains(EntityId::new_with_number(5)));
    assert!(!set.contains(EntityId::new_with_number(2)));
    let mut ids: Vec<u64> = set.to_vec().iter().map(|e| e.id()).collect();
    ids.sort();
    assert_eq!(ids, vec![1, 5]);
}
