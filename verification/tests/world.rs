use std::collections::{BTreeMap, BTreeSet};

use mmolib::component::{get_type_id, get_type_id_from_str, ComponentTypeId};
use mmolib::entity_id::EntityId;
use mmolib::position::Position;
use mmolib::query::{Query, QueryResult};
use mmolib::raws::RawTree;
use mmolib::server_world::{
    entities_from_reply, parse_entity_id, ComponentLookup, ServerWorld, ServerWorldError,
};

/// What a backend holds under a key.
enum Held {
    Text(String),
    Members(BTreeSet<String>),
}

/// What a backend answers.
#[derive(Debug, PartialEq)]
enum Reply {
    Done,
    Nil,
    Text(String),
    List(Vec<String>),
}

/// A backend in memory, for the commands that the world store issues.
struct Backend {
    held: BTreeMap<String, Held>,
}

fn refused(why: &'static str) -> redis::RedisError {
    redis::RedisError::from((redis::ErrorKind::ResponseError, why))
}

fn words(cmd: &redis::Cmd) -> Vec<String> {
    let mut out = Vec::new();
    for arg in cmd.args_iter() {
        match arg {
            redis::Arg::Simple(bytes) => out.push(String::from_utf8(bytes.to_vec()).unwrap()),
            redis::Arg::Cursor => panic!("no command here has a cursor"),
        }
    }
    out
}

impl Backend {
    fn new() -> Backend {
        Backend { held: BTreeMap::new() }
    }

    fn run(&mut self, cmd: &redis::Cmd) -> Result<Reply, redis::RedisError> {
        let w = words(cmd);
        match w[0].as_str() {
            "SET" => {
                self.held.insert(w[1].clone(), Held::Text(w[2].clone()));
                Ok(Reply::Done)
            }
            "GET" => match self.held.get(&w[1]) {
                None => Ok(Reply::Nil),
                Some(Held::Text(t)) => Ok(Reply::Text(t.clone())),
                Some(Held::Members(_)) => Err(refused("WRONGTYPE")),
            },
            "DEL" => {
                self.held.remove(&w[1]);
                Ok(Reply::Done)
            }
            "SADD" => match self.held.entry(w[1].clone()).or_insert(Held::Members(BTreeSet::new())) {
                Held::Members(s) => {
                    s.insert(w[2].clone());
                    Ok(Reply::Done)
                }
                Held::Text(_) => Err(refused("WRONGTYPE")),
            },
            "SREM" => {
                let mut empty = false;
                match self.held.get_mut(&w[1]) {
                    None => {}
                    Some(Held::Members(s)) => {
                        s.remove(&w[2]);
                        empty = s.is_empty();
                    }
                    Some(Held::Text(_)) => return Err(refused("WRONGTYPE")),
                }
                if empty {
                    self.held.remove(&w[1]);
                }
                Ok(Reply::Done)
            }
            "SINTER" => {
                if w.len() < 2 {
                    return Err(refused("wrong number of arguments for 'sinter' command"));
                }
                let mut common: Option<BTreeSet<String>> = None;
                for key in &w[1..] {
                    let members = match self.held.get(key) {
                        None => BTreeSet::new(),
                        Some(Held::Members(s)) => s.clone(),
                        Some(Held::Text(_)) => return Err(refused("WRONGTYPE")),
                    };
                    common = Some(match common {
                        None => members,
                        Some(c) => c.intersection(&members).cloned().collect(),
                    });
                }
                Ok(Reply::List(common.unwrap().into_iter().collect()))
            }
            "KEYS" => {
                let prefix = w[1].strip_suffix('*').expect("a prefix pattern");
                Ok(Reply::List(
                    self.held.keys().filter(|k| k.starts_with(prefix)).cloned().collect(),
                ))
            }
            other => panic!("unexpected command {}", other),
        }
    }

    fn run_all(&mut self, cmds: &[redis::Cmd]) {
        for cmd in cmds {
            self.run(cmd).unwrap();
        }
    }

    fn get(&mut self, cmd: &redis::Cmd) -> Option<String> {
        match self.run(cmd) {
            Ok(Reply::Text(t)) => Some(t),
            _ => None,
        }
    }

    fn list(&mut self, cmd: &redis::Cmd) -> Result<Vec<String>, redis::RedisError> {
        match self.run(cmd)? {
            Reply::List(l) => Ok(l),
            other => panic!("unexpected reply {:?}", other),
        }
    }

    fn keys(&self) -> Vec<String> {
        self.held.keys().cloned().collect()
    }

    fn members(&self, key: &str) -> Vec<String> {
        match self.held.get(key) {
            Some(Held::Members(s)) => s.iter().cloned().collect(),
            _ => Vec::new(),
        }
    }
}

fn world(name: &str) -> ServerWorld {
    ServerWorld::new(name, RawTree::new_empty())
}

/// Sends the write buffer and ends the flush.
fn flush(world: &mut ServerWorld, backend: &mut Backend) {
    let batch: Vec<redis::Cmd> = world.pending_writes().cmd_iter().cloned().collect();
    backend.run_all(&batch);
    assert!(world.write_all_changes(Ok(())).is_ok());
}

/// A whole read: the cache first, then the backend.
fn read(
    world: &mut ServerWorld,
    backend: &mut Backend,
    entity: EntityId,
    kind: ComponentTypeId,
) -> Result<String, ServerWorldError> {
    match world.get_component_ref_with_type_id(entity, kind) {
        ComponentLookup::Cached(reference) => Ok(reference.get().clone()),
        ComponentLookup::Fetch(cmd) => {
            let fetched = backend.get(&cmd);
            world.component_fetched(entity, kind, fetched).map(|r| r.get().clone())
        }
    }
}

fn entities(
    world: &ServerWorld,
    backend: &mut Backend,
    kinds: &[ComponentTypeId],
) -> Result<Vec<u64>, ServerWorldError> {
    let cmd = world.get_entities_with_component_type_ids(&kinds.to_vec());
    let set = entities_from_reply(backend.list(&cmd))?;
    let mut ids: Vec<u64> = set.to_vec().iter().map(|e| e.id()).collect();
    ids.sort();
    Ok(ids)
}

fn pending(world: &ServerWorld) -> Vec<Vec<String>> {
    world.pending_writes().cmd_iter().map(words).collect()
}

fn strings(list: &[&str]) -> Vec<String> {
    list.iter().map(|s| s.to_string()).collect()
}

#[test]
fn every_error_has_its_name() {
    assert_eq!(format!("{:?}", ServerWorldError::ComponentChanged), "ComponentChanged");
    assert_eq!(format!("{:?}", ServerWorldError::ComponentNotFound), "ComponentNotFound");
    let broken = serde_json::from_str::<serde_json::Value>("{").unwrap_err();
    assert!(format!("{:?}", ServerWorldError::SerdeError(broken)).starts_with("SerdeError("));
    assert!(format!("{:?}", ServerWorldError::RedisError(refused("no"))).starts_with("RedisError("));
}

#[test]
fn a_new_world_is_empty() {
    let w = world("test");
    assert_eq!(w.world_name(), "test");
    assert_eq!(w.tick(), 0);
    assert!(pending(&w).is_empty());
    assert!(w.raws().search_for_all(&[]).is_empty());
    assert!(matches!(
        w.get_component_ref::<Position>(EntityId::new_with_number(1)),
        ComponentLookup::Fetch(_)
    ));
}

#[test]
fn the_tick_counts_and_wraps() {
    let mut w = world("test");
    w.advance_tick();
    w.advance_tick();
    assert_eq!(w.tick(), 2);
}

#[test]
fn a_write_buffers_three_commands() {
    let mut w = world("test");
    let e = EntityId::new_with_number(17);
    let t = ComponentTypeId::new_with_number(9);
    w.write_component_with_type_id(e, t, "{\"x\":1,\"y\":2}");
    assert_eq!(
        pending(&w),
        vec![
            strings(&["SET", "test:17:9", "{\"x\":1,\"y\":2}"]),
            strings(&["SADD", "test:17", "9"]),
            strings(&["SADD", "test:9", "17"]),
        ]
    );
    w.write_component_with_type_id(e, t, "second");
    assert_eq!(pending(&w).len(), 6);
    assert_eq!(pending(&w)[3], strings(&["SET", "test:17:9", "second"]));
}

#[test]
fn a_typed_write_uses_the_id_of_the_type() {
    let mut typed = world("test");
    let mut by_id = world("test");
    let e = EntityId::new_with_number(3);
    typed.write_component::<Position>(e, "p");
    by_id.write_component_with_type_id(e, get_type_id::<Position>(), "p");
    assert_eq!(pending(&typed), pending(&by_id));
    assert_eq!(
        pending(&typed)[0][1],
        format!("test:3:{}", get_type_id::<Position>().get_number())
    );
}

#[test]
fn nothing_reaches_the_backend_before_the_flush() {
    let mut w = world("test");
    let mut backend = Backend::new();
    w.write_component::<Position>(EntityId::new_with_number(1), "p");
    assert!(backend.keys().is_empty());
    flush(&mut w, &mut backend);
    assert_eq!(backend.keys().len(), 3);
}

#[test]
fn a_flush_empties_the_buffer() {
    let mut w = world("test");
    let mut backend = Backend::new();
    w.write_component::<Position>(EntityId::new_with_number(1), "p");
    flush(&mut w, &mut backend);
    assert!(pending(&w).is_empty());
    // nothing is sent twice
    let before = backend.keys();
    flush(&mut w, &mut backend);
    assert_eq!(backend.keys(), before);
}

#[test]
fn a_flush_of_nothing_is_a_no_op() {
    let mut w = world("test");
    let mut backend = Backend::new();
    flush(&mut w, &mut backend);
    assert!(pending(&w).is_empty());
    assert!(backend.keys().is_empty());
}

#[test]
fn a_failed_flush_keeps_the_buffer() {
    let mut w = world("test");
    w.write_component::<Position>(EntityId::new_with_number(1), "p");
    let before = pending(&w);
    match w.write_all_changes(Err(refused("connection lost"))) {
        Err(ServerWorldError::RedisError(e)) => {
            assert_eq!(e.kind(), redis::ErrorKind::ResponseError)
        }
        other => panic!("unexpected outcome {:?}", other),
    }
    assert_eq!(pending(&w), before);
    let mut backend = Backend::new();
    flush(&mut w, &mut backend);
    assert_eq!(backend.get(&w.get_component(EntityId::new_with_number(1), get_type_id::<Position>())),
        Some("p".to_string()));
}

#[test]
fn what_was_written_is_read_back_after_the_flush() {
    let mut backend = Backend::new();
    let mut w = world("test");
    let e = EntityId::new();
    let t = get_type_id::<Position>();
    w.write_component::<Position>(e, "{\"x\":1,\"y\":2}");
    flush(&mut w, &mut backend);
    assert_eq!(read(&mut w, &mut backend, e, t).unwrap(), "{\"x\":1,\"y\":2}");
    // a store that did not write reads it from the backend
    let mut reader = world("test");
    assert!(matches!(
        reader.get_component_ref::<Position>(e),
        ComponentLookup::Fetch(_)
    ));
    assert_eq!(read(&mut reader, &mut backend, e, t).unwrap(), "{\"x\":1,\"y\":2}");
    // and holds it in its cache from then on
    assert!(matches!(
        reader.get_component_ref::<Position>(e),
        ComponentLookup::Cached(_)
    ));
}

#[test]
fn the_last_write_wins() {
    let mut backend = Backend::new();
    let mut w = world("test");
    let e = EntityId::new();
    let t = get_type_id::<Position>();
    w.write_component::<Position>(e, "{\"x\":1,\"y\":2}");
    flush(&mut w, &mut backend);
    assert_eq!(read(&mut w, &mut backend, e, t).unwrap(), "{\"x\":1,\"y\":2}");
    w.write_component::<Position>(e, "{\"x\":5,\"y\":5}");
    flush(&mut w, &mut backend);
    assert_eq!(read(&mut w, &mut backend, e, t).unwrap(), "{\"x\":5,\"y\":5}");
    let mut reader = world("test");
    assert_eq!(read(&mut reader, &mut backend, e, t).unwrap(), "{\"x\":5,\"y\":5}");
}

#[test]
fn of_two_writes_in_one_flush_the_second_is_stored() {
    let mut backend = Backend::new();
    let mut w = world("test");
    let e = EntityId::new_with_number(4);
    let t = get_type_id::<Position>();
    w.write_component::<Position>(e, "first");
    w.write_component::<Position>(e, "second");
    flush(&mut w, &mut backend);
    assert_eq!(read(&mut w, &mut backend, e, t).unwrap(), "second");
    assert_eq!(read(&mut world("test"), &mut backend, e, t).unwrap(), "second");
}

#[test]
fn a_read_after_a_write_sees_the_write_before_the_flush() {
    let mut backend = Backend::new();
    let mut w = world("test");
    let e = EntityId::new_with_number(4);
    let t = get_type_id::<Position>();
    w.write_component::<Position>(e, "old");
    flush(&mut w, &mut backend);
    w.write_component::<Position>(e, "new");
    assert_eq!(read(&mut w, &mut backend, e, t).unwrap(), "new");
    assert_eq!(read(&mut world("test"), &mut backend, e, t).unwrap(), "old");
}

#[test]
fn a_reference_taken_before_a_write_keeps_its_value() {
    let mut w = world("test");
    let e = EntityId::new_with_number(4);
    w.write_component::<Position>(e, "old");
    let before = match w.get_component_ref::<Position>(e) {
        ComponentLookup::Cached(r) => r,
        ComponentLookup::Fetch(_) => panic!("the cache holds what was written"),
    };
    w.write_component::<Position>(e, "new");
    assert_eq!(before.get(), "old");
}

#[test]
fn a_missing_component_is_not_found() {
    let mut backend = Backend::new();
    let mut w = world("test");
    let e = EntityId::new_with_number(1);
    let t = get_type_id::<Position>();
    assert!(matches!(
        read(&mut w, &mut backend, e, t),
        Err(ServerWorldError::ComponentNotFound)
    ));
    // a miss is not cached
    assert!(matches!(w.get_component_ref::<Position>(e), ComponentLookup::Fetch(_)));
    // another kind of the same entity is another instance
    w.write_component::<Position>(e, "p");
    assert!(matches!(
        read(&mut w, &mut backend, e, get_type_id_from_str("Velocity")),
        Err(ServerWorldError::ComponentNotFound)
    ));
}

#[test]
fn the_first_value_to_arrive_stays_in_the_cache() {
    let mut w = world("test");
    let e = EntityId::new_with_number(1);
    let t = get_type_id::<Position>();
    let first = w.component_fetched(e, t, Some("first".to_string())).unwrap();
    let second = w.component_fetched(e, t, Some("second".to_string())).unwrap();
    assert_eq!(first.get(), "first");
    assert_eq!(second.get(), "first");
    match w.get_component_ref::<Position>(e) {
        ComponentLookup::Cached(r) => assert_eq!(r.get(), "first"),
        ComponentLookup::Fetch(_) => panic!("the cache holds the fetched value"),
    }
    // a fetch that found nothing changes nothing
    assert!(matches!(
        w.component_fetched(e, t, None),
        Err(ServerWorldError::ComponentNotFound)
    ));
    assert!(matches!(w.get_component_ref::<Position>(e), ComponentLookup::Cached(_)));
}

#[test]
fn the_fetch_asks_for_the_data_record() {
    let w = world("test");
    let e = EntityId::new_with_number(8);
    let t = ComponentTypeId::new_with_number(9);
    assert_eq!(words(&w.get_component(e, t)), strings(&["GET", "test:8:9"]));
    match w.get_component_ref_with_type_id(e, t) {
        ComponentLookup::Fetch(cmd) => assert_eq!(words(&cmd), strings(&["GET", "test:8:9"])),
        ComponentLookup::Cached(_) => panic!("the cache is empty"),
    }
}

#[test]
fn a_deleted_component_is_not_found() {
    let mut backend = Backend::new();
    let mut w = world("test");
    let e = EntityId::new_with_number(1);
    let t = get_type_id::<Position>();
    w.write_component::<Position>(e, "p");
    flush(&mut w, &mut backend);
    assert_eq!(read(&mut w, &mut backend, e, t).unwrap(), "p");
    let cmds = w.delete_component::<Position>(e);
    backend.run_all(&cmds);
    assert!(matches!(
        read(&mut w, &mut backend, e, t),
        Err(ServerWorldError::ComponentNotFound)
    ));
    assert!(matches!(
        read(&mut world("test"), &mut backend, e, t),
        Err(ServerWorldError::ComponentNotFound)
    ));
    assert!(backend.keys().is_empty());
}

#[test]
fn a_deletion_is_three_commands() {
    let mut w = world("test");
    let cmds = w.delete_component_with_type_id(
        EntityId::new_with_number(17),
        ComponentTypeId::new_with_number(9),
    );
    let got: Vec<Vec<String>> = cmds.iter().map(words).collect();
    assert_eq!(
        got,
        vec![
            strings(&["DEL", "test:17:9"]),
            strings(&["SREM", "test:17", "9"]),
            strings(&["SREM", "test:9", "17"]),
        ]
    );
    assert!(pending(&w).is_empty());
}

#[test]
fn a_second_deletion_leaves_other_entities_alone() {
    let mut backend = Backend::new();
    let mut w = world("test");
    let t = ComponentTypeId::new_with_number(1000);
    let e1 = EntityId::new_with_number(1);
    let e2 = EntityId::new_with_number(2);
    w.write_component_with_type_id(e1, t, "one");
    w.write_component_with_type_id(e2, t, "two");
    flush(&mut w, &mut backend);
    assert_eq!(entities(&w, &mut backend, &[t]).unwrap(), vec![1, 2]);
    let cmds = w.delete_component_with_type_id(e1, t);
    backend.run_all(&cmds);
    let after_first = backend.keys();
    assert_eq!(entities(&w, &mut backend, &[t]).unwrap(), vec![2]);
    let cmds = w.delete_component_with_type_id(e1, t);
    backend.run_all(&cmds);
    assert_eq!(backend.keys(), after_first);
    assert_eq!(entities(&w, &mut backend, &[t]).unwrap(), vec![2]);
    assert_eq!(backend.members("test:2"), strings(&["1000"]));
    assert_eq!(read(&mut w, &mut backend, e2, t).unwrap(), "two");
    assert_eq!(read(&mut world("test"), &mut backend, e2, t).unwrap(), "two");
}

#[test]
fn the_entities_of_two_types_are_those_of_each() {
    let mut backend = Backend::new();
    let mut w = world("test");
    let a = ComponentTypeId::new_with_number(1001);
    let b = ComponentTypeId::new_with_number(1002);
    for (entity, kinds) in [(1u64, vec![a]), (2, vec![a, b]), (3, vec![b]), (4, vec![a, b])] {
        for kind in kinds {
            w.write_component_with_type_id(EntityId::new_with_number(entity), kind, "v");
        }
    }
    flush(&mut w, &mut backend);
    let with_a = entities(&w, &mut backend, &[a]).unwrap();
    let with_b = entities(&w, &mut backend, &[b]).unwrap();
    let with_both = entities(&w, &mut backend, &[a, b]).unwrap();
    assert_eq!(with_a, vec![1, 2, 4]);
    assert_eq!(with_b, vec![2, 3, 4]);
    assert_eq!(with_both, vec![2, 4]);
    let expected: Vec<u64> = with_a.iter().filter(|e| with_b.contains(e)).cloned().collect();
    assert_eq!(with_both, expected);
    assert_eq!(entities(&w, &mut backend, &[b, a]).unwrap(), vec![2, 4]);
    let unknown = ComponentTypeId::new_with_number(1003);
    assert!(entities(&w, &mut backend, &[a, unknown]).unwrap().is_empty());
}

#[test]
fn the_intersection_asks_for_the_type_index_sets() {
    let w = world("test");
    let kinds = vec![ComponentTypeId::new_with_number(5), ComponentTypeId::new_with_number(6)];
    assert_eq!(
        words(&w.get_entities_with_component_type_ids(&kinds)),
        strings(&["SINTER", "test:5", "test:6"])
    );
}

#[test]
fn an_intersection_over_no_types_is_refused_by_the_backend() {
    let mut backend = Backend::new();
    let w = world("test");
    assert_eq!(
        words(&w.get_entities_with_component_type_ids(&Vec::new())),
        strings(&["SINTER"])
    );
    assert!(matches!(
        entities(&w, &mut backend, &[]),
        Err(ServerWorldError::RedisError(_))
    ));
}

#[test]
fn a_reply_names_entities() {
    let set = entities_from_reply(Ok(strings(&["1", "22", "18446744073709551615", "22"]))).unwrap();
    let mut ids: Vec<u64> = set.to_vec().iter().map(|e| e.id()).collect();
    ids.sort();
    assert_eq!(ids, vec![1, 22, u64::MAX]);
    assert!(set.contains(EntityId::new_with_number(22)));
    assert!(!set.contains(EntityId::new_with_number(2)));
    assert!(entities_from_reply(Ok(Vec::new())).unwrap().to_vec().is_empty());
    assert!(matches!(
        entities_from_reply(Err(refused("no"))),
        Err(ServerWorldError::RedisError(_))
    ));
}

#[test]
fn a_member_that_names_no_entity_is_left_out() {
    let members = strings(&["abc", "7", "-1", "", "+3", "004", "18446744073709551616", "1 ", "8"]);
    let set = entities_from_reply(Ok(members.clone())).unwrap();
    let mut ids: Vec<u64> = set.to_vec().iter().map(|e| e.id()).collect();
    ids.sort();
    assert_eq!(ids, vec![7, 8]);
    assert!(entities_from_reply(Ok(strings(&["abc"]))).unwrap().to_vec().is_empty());
    let result = QueryResult::from_reply(Ok(members)).unwrap();
    assert!(result.contains(EntityId::new_with_number(7)));
    assert!(!result.contains(EntityId::new_with_number(3)));
    assert_eq!(result.iter().len(), 2);
}

#[test]
fn a_foreign_member_of_an_index_set_harms_no_query() {
    let mut backend = Backend::new();
    let mut w = world("test");
    let t = ComponentTypeId::new_with_number(1000);
    w.write_component_with_type_id(EntityId::new_with_number(1), t, "one");
    flush(&mut w, &mut backend);
    backend.run(&redis::Cmd::sadd("test:1000", "abc")).unwrap();
    backend.run(&redis::Cmd::sadd("test:1000", "-1")).unwrap();
    assert_eq!(entities(&w, &mut backend, &[t]).unwrap(), vec![1]);
    // the store is as usable as before
    w.write_component_with_type_id(EntityId::new_with_number(2), t, "two");
    flush(&mut w, &mut backend);
    assert_eq!(entities(&w, &mut backend, &[t]).unwrap(), vec![1, 2]);
    assert_eq!(read(&mut w, &mut backend, EntityId::new_with_number(2), t).unwrap(), "two");
}

#[test]
fn the_entities_of_both_are_those_named_by_both_replies() {
    // the same entity under two texts is one member of neither intersection
    let first = strings(&["5", "6", "+7"]);
    let second = strings(&["+5", "6", "7"]);
    let joint: Vec<String> = first.iter().filter(|m| second.contains(m)).cloned().collect();
    let ids = |reply: Vec<String>| {
        let mut v: Vec<u64> =
            entities_from_reply(Ok(reply)).unwrap().to_vec().iter().map(|e| e.id()).collect();
        v.sort();
        v
    };
    let a = ids(first);
    let b = ids(second);
    let both: Vec<u64> = a.iter().filter(|e| b.contains(e)).cloned().collect();
    assert_eq!(a, vec![5, 6]);
    assert_eq!(b, vec![6, 7]);
    assert_eq!(ids(joint), both);
}

#[test]
fn an_entity_id_is_read_from_decimal_text() {
    assert_eq!(parse_entity_id("17"), Some(EntityId::new_with_number(17)));
    assert_eq!(parse_entity_id("18446744073709551615"), Some(EntityId::new_with_number(u64::MAX)));
    assert_eq!(parse_entity_id("18446744073709551616"), None);
    assert_eq!(parse_entity_id("entity<11>"), None);
    assert_eq!(parse_entity_id(""), None);
    assert_eq!(parse_entity_id("0"), Some(EntityId::new_with_number(0)));
    assert_eq!(parse_entity_id("+17"), None);
    assert_eq!(parse_entity_id("017"), None);
    assert_eq!(parse_entity_id("00"), None);
    assert_eq!(parse_entity_id("-1"), None);
    assert_eq!(parse_entity_id("abc"), None);
}

#[test]
fn destroying_a_world_leaves_another_world_alone() {
    let mut backend = Backend::new();
    let mut w1 = world("W1");
    let mut w2 = world("W2");
    let e = EntityId::new_with_number(1);
    let t = get_type_id::<Position>();
    w1.write_component::<Position>(e, "one");
    w2.write_component::<Position>(e, "two");
    flush(&mut w1, &mut backend);
    flush(&mut w2, &mut backend);
    let of_w2: Vec<String> = backend.keys().into_iter().filter(|k| k.starts_with("W2:")).collect();
    assert_eq!(of_w2.len(), 3);

    let listing = w1.destroy_world();
    assert_eq!(words(&listing), strings(&["KEYS", "W1:*"]));
    let listed = backend.list(&listing);
    let cmds = w1.destroy_world_keys(listed).unwrap();
    assert_eq!(cmds.len(), 3);
    backend.run_all(&cmds);

    assert_eq!(backend.keys(), of_w2);
    assert_eq!(read(&mut world("W2"), &mut backend, e, t).unwrap(), "two");
    assert!(matches!(
        read(&mut world("W1"), &mut backend, e, t),
        Err(ServerWorldError::ComponentNotFound)
    ));
}

#[test]
fn only_keys_of_the_namespace_are_deleted() {
    let w = world("W1");
    let listed = strings(&["W1:1:2", "W2:1:2", "W1", "W10:3", "W1:5", "", "W1:"]);
    let cmds = w.destroy_world_keys(Ok(listed)).unwrap();
    let got: Vec<Vec<String>> = cmds.iter().map(words).collect();
    assert_eq!(
        got,
        vec![strings(&["DEL", "W1:1:2"]), strings(&["DEL", "W1:5"]), strings(&["DEL", "W1:"])]
    );
    assert!(world("W1").destroy_world_keys(Ok(Vec::new())).unwrap().is_empty());
    assert!(matches!(
        world("W1").destroy_world_keys(Err(refused("no"))),
        Err(ServerWorldError::RedisError(_))
    ));
}

#[test]
fn a_query_hashes_its_terms_in_order() {
    let mut q = Query::new();
    assert_eq!(q.hash(), 1337);
    q.add_union_with_type_id(ComponentTypeId::new_with_number(1));
    assert_eq!(q.hash(), 1337 ^ 2);
    q.add_option_with_type_id(ComponentTypeId::new_with_number(3));
    assert_eq!(q.hash(), (1337 ^ 2) << 3);
    q.add_union_with_type_id(ComponentTypeId::new_with_number(u64::MAX));
    assert_eq!(q.hash(), (1337 ^ 2) << 3);
    q.add_option_with_type_id(ComponentTypeId::new_with_number(64 + 1));
    assert_eq!(q.hash(), (1337 ^ 2) << 4);

    let mut typed = Query::new();
    typed.add_union::<Position>();
    let mut by_id = Query::new();
    by_id.add_union_with_type_id(get_type_id::<Position>());
    assert_eq!(typed.hash(), by_id.hash());
    assert_eq!(typed.hash(), 1337 ^ get_type_id::<Position>().get_number().wrapping_add(1));

    let mut other_order = Query::new();
    other_order.add_option_with_type_id(ComponentTypeId::new_with_number(3));
    other_order.add_union_with_type_id(ComponentTypeId::new_with_number(1));
    assert_eq!(other_order.hash(), (1337 << 3) ^ 2);
}

#[test]
fn a_query_knows_its_optional_terms() {
    let mut q = Query::new();
    assert!(!q.has_optional_terms());
    q.add_union::<Position>();
    assert!(!q.has_optional_terms());
    q.add_option::<Position>();
    assert!(q.has_optional_terms());
    q.add_union_with_type_id(ComponentTypeId::new_with_number(5));
    assert_eq!(q.required(), vec![get_type_id::<Position>(), ComponentTypeId::new_with_number(5)]);
}

#[test]
fn a_query_resolves_to_the_entities_that_have_every_required_type() {
    let mut backend = Backend::new();
    let mut w = world("test");
    let velocity = get_type_id_from_str("Velocity");
    w.write_component::<Position>(EntityId::new_with_number(1), "p1");
    w.write_component::<Position>(EntityId::new_with_number(2), "p2");
    w.write_component_with_type_id(EntityId::new_with_number(2), velocity, "v2");
    w.write_component_with_type_id(EntityId::new_with_number(3), velocity, "v3");
    flush(&mut w, &mut backend);

    let mut q = Query::new();
    q.add_union::<Position>();
    q.add_union_with_type_id(velocity);
    let cmd = q.execute(&w);
    assert_eq!(
        words(&cmd),
        vec![
            "SINTER".to_string(),
            format!("test:{}", get_type_id::<Position>().get_number()),
            format!("test:{}", velocity.get_number()),
        ]
    );
    let result = QueryResult::from_reply(backend.list(&cmd)).unwrap();
    assert!(result.contains(EntityId::new_with_number(2)));
    assert!(!result.contains(EntityId::new_with_number(1)));
    let found = result.iter();
    assert_eq!(found.len(), 1);
    assert_eq!(found[0].entity_id(), EntityId::new_with_number(2));
    match found[0].get::<Position>(&w) {
        ComponentLookup::Cached(r) => assert_eq!(r.get(), "p2"),
        ComponentLookup::Fetch(_) => panic!("the store wrote this component"),
    }
    match found[0].get_with_type_id(&world("test"), velocity) {
        ComponentLookup::Fetch(cmd) => assert_eq!(backend.get(&cmd), Some("v2".to_string())),
        ComponentLookup::Cached(_) => panic!("a new store has an empty cache"),
    }

    let mut only_position = Query::new();
    only_position.add_union::<Position>();
    let result = QueryResult::from_reply(backend.list(&only_position.execute(&w))).unwrap();
    let mut ids: Vec<u64> = result.iter().iter().map(|e| e.entity_id().id()).collect();
    ids.sort();
    assert_eq!(ids, vec![1, 2]);
    assert!(matches!(
        QueryResult::from_reply(Err(refused("no"))),
        Err(ServerWorldError::RedisError(_))
    ));
}

#[test]
fn a_query_without_terms_is_refused_by_the_backend() {
    let mut backend = Backend::new();
    let w = world("test");
    let q = Query::new();
    let cmd = q.execute(&w);
    assert_eq!(words(&cmd), strings(&["SINTER"]));
    assert!(QueryResult::from_reply(backend.list(&cmd)).is_err());
}
