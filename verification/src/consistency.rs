//! What holds between the world store and the backend: the laws that tie
//! the store's commands to what a reader finds afterwards. They are stated
//! over the store's view and the model of the backend, and hold for every
//! state of both.

use vstd::prelude::*;
use crate::backend::{
    apply_all, common_members, intersection_reply, lemma_apply_all_concat,
    lemma_common_members_concat, lemma_untargeted_key_unchanged, stored_members, stored_text,
    Command, Database, Entry,
};
use crate::component::ComponentTypeId;
use crate::keys::{
    data_key, index_key, lemma_data_key_is_no_index_key, lemma_index_key_injective, lemma_keys_in_namespace, lemma_namespaces_disjoint,
    namespace_prefix, starts_with, valid_world_name,
};
use crate::server_world::{
    delete_commands, is_write_of, namespace_deletions, type_index_keys, write_commands,
    ComponentLookup, ServerWorld, WorldView,
};
use crate::text::{
    decimal_text, decimal_u64_spec, lemma_decimal_text_injective, lemma_decimal_u64,
};

verus! {

/// The backend after the three commands of one write.
proof fn lemma_apply_write(db: Database, world: Seq<char>, entity: u64, kind: u64, data: Seq<char>)
    ensures
        ({
            let cs = write_commands(world, entity, kind, data);
            apply_all(db, cs) == cs[2].apply(cs[1].apply(cs[0].apply(db)))
        }),
{
    let cs = write_commands(world, entity, kind, data);
    reveal_with_fuel(apply_all, 4);
    assert(cs.drop_last() =~= seq![cs[0], cs[1]]);
    assert(cs.drop_last().drop_last() =~= seq![cs[0]]);
    assert(cs.drop_last().drop_last().drop_last() =~= Seq::<Command>::empty());
}

/// The backend after the three commands of one deletion.
proof fn lemma_apply_delete(db: Database, world: Seq<char>, entity: u64, kind: u64)
    ensures
        ({
            let cs = delete_commands(world, entity, kind);
            apply_all(db, cs) == cs[2].apply(cs[1].apply(cs[0].apply(db)))
        }),
{
    let cs = delete_commands(world, entity, kind);
    reveal_with_fuel(apply_all, 4);
    assert(cs.drop_last() =~= seq![cs[0], cs[1]]);
    assert(cs.drop_last().drop_last() =~= seq![cs[0]]);
    assert(cs.drop_last().drop_last().drop_last() =~= Seq::<Command>::empty());
}

/// Round trip. A component that was written is read back as written, once
/// the write buffer has been flushed: the backend then holds the value
/// under the component's data key, which is what a store with an empty
/// cache fetches; and the store that wrote holds it in its cache. This
/// holds whatever the backend held and whatever else waited in the buffer
/// before the write; so of two writes of one component in one flush, the
/// later one is read back.
pub proof fn lemma_write_flush_read(
    world: WorldView,
    db: Database,
    entity: u64,
    kind: u64,
    data: Seq<char>,
)
    ensures
        ({
            let after = world.written(entity, kind, data);
            let stored = apply_all(db, after.pending);
            let reader = WorldView { cache: Map::empty(), pending: Seq::empty(), ..world };
            &&& stored_text(stored, data_key(world.name, entity, kind)) == Some(data)
            &&& reader.fetched(entity, kind, stored_text(stored, data_key(world.name, entity, kind))).cache[(
                entity,
                kind,
            )] == data
            &&& after.flushed().cache.contains_key((entity, kind))
            &&& after.flushed().cache[(entity, kind)] == data
            &&& after.flushed().pending.len() == 0
            &&& forall|step: ComponentLookup| #[trigger]
                after.flushed().lookup_is(entity, kind, step) ==> step is Cached
                    && step->Cached_0@.value() == data
        }),
{
    let cs = write_commands(world.name, entity, kind, data);
    let before = apply_all(db, world.pending);
    lemma_apply_all_concat(db, world.pending, cs);
    lemma_apply_write(before, world.name, entity, kind, data);
    lemma_data_key_is_no_index_key(world.name, entity, kind, entity);
    lemma_data_key_is_no_index_key(world.name, entity, kind, kind);
}

/// Last write wins. Of two writes of one component without a flush between
/// them, the flush stores the second value, and the store reads the second
/// value.
pub proof fn lemma_last_write_wins(
    world: WorldView,
    db: Database,
    entity: u64,
    kind: u64,
    first: Seq<char>,
    second: Seq<char>,
)
    ensures
        ({
            let after = world.written(entity, kind, first).written(entity, kind, second);
            &&& stored_text(apply_all(db, after.pending), data_key(world.name, entity, kind))
                == Some(second)
            &&& after.flushed().cache[(entity, kind)] == second
        }),
{
    lemma_write_flush_read(world.written(entity, kind, first), db, entity, kind, second);
}

/// A flushed write enters both index sets, unless one of the two index keys
/// holds a string by then: the type is among the types of the entity, and
/// the entity among the entities of the type.
pub proof fn lemma_write_is_indexed(
    world: WorldView,
    db: Database,
    entity: u64,
    kind: u64,
    data: Seq<char>,
)
    requires
        stored_text(apply_all(db, world.pending), index_key(world.name, entity)) is None,
        stored_text(apply_all(db, world.pending), index_key(world.name, kind)) is None,
    ensures
        ({
            let stored = apply_all(db, world.written(entity, kind, data).pending);
            &&& stored_members(stored, index_key(world.name, entity)).contains(
                decimal_text(kind as nat),
            )
            &&& stored_members(stored, index_key(world.name, kind)).contains(
                decimal_text(entity as nat),
            )
        }),
{
    let cs = write_commands(world.name, entity, kind, data);
    let before = apply_all(db, world.pending);
    lemma_apply_all_concat(db, world.pending, cs);
    lemma_apply_write(before, world.name, entity, kind, data);
    lemma_data_key_is_no_index_key(world.name, entity, kind, entity);
    lemma_data_key_is_no_index_key(world.name, entity, kind, kind);
    let d1 = cs[0].apply(before);
    let d2 = cs[1].apply(d1);
    assert(stored_text(d1, index_key(world.name, entity)) is None);
    assert(stored_members(d2, index_key(world.name, entity)).contains(decimal_text(kind as nat)));
    assert(stored_text(d2, index_key(world.name, kind)) is None);
}

/// Deletion. After a component is deleted and the deletion's commands are
/// executed, a read of it fails: the store's cache does not hold it, so the
/// read goes to the backend, and the backend holds nothing under its data
/// key; the read ends with no value and leaves the store as it is.
pub proof fn lemma_delete_then_read(world: WorldView, db: Database, entity: u64, kind: u64)
    ensures
        ({
            let after = world.deleted(entity, kind);
            let stored = apply_all(db, delete_commands(world.name, entity, kind));
            &&& !after.cache.contains_key((entity, kind))
            &&& forall|step: ComponentLookup| #[trigger]
                after.lookup_is(entity, kind, step) ==> step is Fetch
            &&& stored_text(stored, data_key(world.name, entity, kind)) is None
            &&& after.fetched(entity, kind, stored_text(stored, data_key(world.name, entity, kind)))
                == after
        }),
{
    lemma_apply_delete(db, world.name, entity, kind);
    lemma_data_key_is_no_index_key(world.name, entity, kind, entity);
    lemma_data_key_is_no_index_key(world.name, entity, kind, kind);
}

/// A deletion touches three keys only: the component's data key and the two
/// index keys. Whatever the backend holds under any other key stays, however
/// often the deletion is repeated.
pub proof fn lemma_delete_touches_own_keys(
    db: Database,
    world: Seq<char>,
    entity: u64,
    kind: u64,
    key: Seq<char>,
)
    requires
        key != data_key(world, entity, kind),
        key != index_key(world, entity),
        key != index_key(world, kind),
    ensures
        ({
            let once = apply_all(db, delete_commands(world, entity, kind));
            let twice = apply_all(once, delete_commands(world, entity, kind));
            &&& once.contains_key(key) == db.contains_key(key)
            &&& twice.contains_key(key) == db.contains_key(key)
            &&& db.contains_key(key) ==> once[key] == db[key] && twice[key] == db[key]
        }),
{
    let cs = delete_commands(world, entity, kind);
    let once = apply_all(db, cs);
    lemma_untargeted_key_unchanged(db, cs, key);
    lemma_untargeted_key_unchanged(once, cs, key);
}

/// A second deletion of a component changes nothing: the backend is as the
/// first deletion left it.
pub proof fn lemma_delete_twice(db: Database, world: Seq<char>, entity: u64, kind: u64)
    ensures
        ({
            let once = apply_all(db, delete_commands(world, entity, kind));
            apply_all(once, delete_commands(world, entity, kind)) == once
        }),
{
    let cs = delete_commands(world, entity, kind);
    let once = apply_all(db, cs);
    lemma_apply_delete(db, world, entity, kind);
    lemma_apply_delete(once, world, entity, kind);
    lemma_data_key_is_no_index_key(world, entity, kind, entity);
    lemma_data_key_is_no_index_key(world, entity, kind, kind);
    let a1 = cs[0].apply(db);
    let a2 = cs[1].apply(a1);
    let a3 = cs[2].apply(a2);
    let b1 = cs[0].apply(a3);
    let b2 = cs[1].apply(b1);
    let b3 = cs[2].apply(b2);
    assert(b1 =~= a3);
    lemma_remove_member_settles(a1, index_key(world, entity), decimal_text(kind as nat));
    lemma_remove_member_settles(a2, index_key(world, kind), decimal_text(entity as nat));
    lemma_remove_member_keeps_absence(
        a2,
        index_key(world, kind),
        decimal_text(entity as nat),
        index_key(world, entity),
        decimal_text(kind as nat),
    );
    lemma_remove_absent_member(a3, index_key(world, entity), decimal_text(kind as nat));
    assert(b2 == a3);
    lemma_remove_absent_member(a3, index_key(world, kind), decimal_text(entity as nat));
}

/// After a member was removed from the set under a key, the set does not
/// hold the member.
proof fn lemma_remove_member_settles(db: Database, key: Seq<char>, member: Seq<char>)
    ensures
        !stored_members((Command::RemoveMember { key, member }).apply(db), key).contains(member),
{
}

/// Removing a member from one set does not bring a member into any set.
proof fn lemma_remove_member_keeps_absence(
    db: Database,
    key: Seq<char>,
    member: Seq<char>,
    other_key: Seq<char>,
    other_member: Seq<char>,
)
    requires
        !stored_members(db, other_key).contains(other_member),
    ensures
        !stored_members((Command::RemoveMember { key, member }).apply(db), other_key).contains(
            other_member,
        ),
{
}

/// Removing a member that the set under a key does not hold changes
/// nothing, provided the backend keeps no empty set.
proof fn lemma_remove_absent_member(db: Database, key: Seq<char>, member: Seq<char>)
    requires
        !stored_members(db, key).contains(member),
    ensures
        db.contains_key(key) && db[key] == Entry::Members(Set::<Seq<char>>::empty())
            || (Command::RemoveMember { key, member }).apply(db) == db,
{
    if db.contains_key(key) {
        match db[key] {
            Entry::Members(s) => {
                assert(s.remove(member) =~= s);
                if s =~= Set::<Seq<char>>::empty() {
                } else {
                    assert((Command::RemoveMember { key, member }).apply(db) =~= db);
                }
            },
            Entry::Text(_) => {},
        }
    }
}

/// A deletion leaves the index memberships of other entities alone, however
/// often it is repeated: whether another entity is among the entities of a
/// type is the same before and after. The one exception is a type whose
/// number is the number of the deleted component's entity: that type's
/// index set shares its key with the set of the entity's types.
pub proof fn lemma_delete_keeps_other_members(
    db: Database,
    world: Seq<char>,
    entity: u64,
    kind: u64,
    other_kind: u64,
    other: u64,
)
    requires
        other != entity,
        other_kind != entity,
    ensures
        ({
            let once = apply_all(db, delete_commands(world, entity, kind));
            let twice = apply_all(once, delete_commands(world, entity, kind));
            let was = stored_members(db, index_key(world, other_kind)).contains(
                decimal_text(other as nat),
            );
            &&& stored_members(once, index_key(world, other_kind)).contains(
                decimal_text(other as nat),
            ) == was
            &&& stored_members(twice, index_key(world, other_kind)).contains(
                decimal_text(other as nat),
            ) == was
        }),
{
    lemma_delete_twice(db, world, entity, kind);
    lemma_apply_delete(db, world, entity, kind);
    lemma_data_key_is_no_index_key(world, entity, kind, other_kind);
    if index_key(world, entity) == index_key(world, other_kind) {
        lemma_index_key_injective(world, entity, other_kind);
    }
    if decimal_text(entity as nat) == decimal_text(other as nat) {
        lemma_decimal_text_injective(entity as nat, other as nat);
    }
    let cs = delete_commands(world, entity, kind);
    let a1 = cs[0].apply(db);
    let a2 = cs[1].apply(a1);
    let key = index_key(world, other_kind);
    assert(stored_members(a1, key) == stored_members(db, key));
    assert(stored_members(a2, key) == stored_members(a1, key));
}

/// The entity numbers that the members of a set name.
pub open spec fn entities_of(members: Set<Seq<char>>) -> Set<u64> {
    Set::new(|n: u64| exists|m: Seq<char>| members.contains(m) && #[trigger] denotes(m, n))
}

/// `member` names the entity with the number `n`: it is the decimal text
/// of `n`.
pub open spec fn denotes(member: Seq<char>, n: u64) -> bool {
    decimal_u64_spec(member) == Some(n)
}

/// Every member of the set is the decimal text of a number, and so names
/// an entity.
pub open spec fn canonical(members: Set<Seq<char>>) -> bool {
    forall|m: Seq<char>| #[trigger]
        members.contains(m) ==> exists|n: u64| m == #[trigger] decimal_text(n as nat)
}

/// The store writes nothing into an index set that a reply would leave
/// out: if every member of the set under a key named an entity before a
/// batch of writes, every member names one after it.
pub proof fn lemma_writes_keep_members_canonical(
    db: Database,
    world: Seq<char>,
    commands: Seq<Command>,
    key: Seq<char>,
)
    requires
        forall|i: int| 0 <= i < commands.len() ==> is_write_of(world, #[trigger] commands[i]),
        canonical(stored_members(db, key)),
    ensures
        canonical(stored_members(apply_all(db, commands), key)),
    decreases commands.len(),
{
    if commands.len() > 0 {
        let front = commands.drop_last();
        assert forall|i: int| 0 <= i < front.len() implies is_write_of(
            world,
            #[trigger] front[i],
        ) by {
            assert(front[i] == commands[i]);
        }
        lemma_writes_keep_members_canonical(db, world, front, key);
        let before = apply_all(db, front);
        let last = commands.last();
        assert(is_write_of(world, commands[commands.len() - 1]));
        let after = last.apply(before);
        assert forall|m: Seq<char>| #[trigger]
            stored_members(after, key).contains(m) implies exists|n: u64|
            m == #[trigger] decimal_text(n as nat) by {
            if !stored_members(before, key).contains(m) {
                match last {
                    Command::AddMember { key: k, member } => {
                        assert(m == member);
                    },
                    _ => {},
                }
            }
        }
    }
}

/// The entities that a reply names are those that its members denote.
pub proof fn lemma_reply_entities(members: Seq<Seq<char>>)
    ensures
        crate::server_world::reply_entities(members) == entities_of(members.to_set()),
{
    let left = crate::server_world::reply_entities(members);
    let right = entities_of(members.to_set());
    assert forall|n: u64| left.contains(n) <==> right.contains(n) by {
        if left.contains(n) {
            let i = choose|i: int|
                0 <= i < members.len() && decimal_u64_spec(#[trigger] members[i]) == Some(n);
            assert(members.to_set().contains(members[i]));
            assert(denotes(members[i], n));
        }
        if right.contains(n) {
            let m = choose|m: Seq<char>| members.to_set().contains(m) && #[trigger] denotes(m, n);
            let i = choose|i: int| 0 <= i < members.len() && members[i] == m;
            assert(decimal_u64_spec(members[i]) == Some(n));
        }
    }
    assert(left =~= right);
}

/// Intersection law, for the backend's sets. The request for the types of
/// two lists together asks for the keys of the first list, then those of
/// the second; the members common to all of them are the members common to
/// the first list's sets that are also common to the second list's sets.
pub proof fn lemma_intersection(
    db: Database,
    world: Seq<char>,
    first: Seq<ComponentTypeId>,
    second: Seq<ComponentTypeId>,
)
    ensures
        type_index_keys(world, first + second) == type_index_keys(world, first) + type_index_keys(
            world,
            second,
        ),
        common_members(db, type_index_keys(world, first + second)) == common_members(
            db,
            type_index_keys(world, first),
        ).intersect(common_members(db, type_index_keys(world, second))),
{
    assert(type_index_keys(world, first + second) =~= type_index_keys(world, first)
        + type_index_keys(world, second));
    lemma_common_members_concat(
        db,
        type_index_keys(world, first),
        type_index_keys(world, second),
    );
}

/// Intersection law, for the entities. The entities that the common
/// members of two sets name are the entities that both sets name: nothing
/// missing, nothing extra. This holds of all sets, because an entity has
/// one text only.
pub proof fn lemma_entities_of_intersection(first: Set<Seq<char>>, second: Set<Seq<char>>)
    ensures
        entities_of(first.intersect(second)) == entities_of(first).intersect(entities_of(second)),
{
    let left = entities_of(first.intersect(second));
    let right = entities_of(first).intersect(entities_of(second));
    assert forall|n: u64| left.contains(n) <==> right.contains(n) by {
        if left.contains(n) {
            let m = choose|m: Seq<char>|
                first.intersect(second).contains(m) && #[trigger] denotes(m, n);
            assert(first.contains(m) && denotes(m, n));
            assert(second.contains(m) && denotes(m, n));
        }
        if right.contains(n) {
            let a = choose|m: Seq<char>| first.contains(m) && #[trigger] denotes(m, n);
            let b = choose|m: Seq<char>| second.contains(m) && #[trigger] denotes(m, n);
            lemma_decimal_u64(a, n);
            lemma_decimal_u64(b, n);
            assert(a == b);
            assert(first.intersect(second).contains(a) && denotes(a, n));
        }
    }
    assert(left =~= right);
}

/// Intersection law, for the store. Asked of one backend for the entities
/// of two lists of component types, each alone and both together, the
/// entities named by the reply for both are exactly those named by both
/// single replies. A reply lists the members that the sets of its request
/// have in common; in which order, and how often, does not matter.
pub proof fn lemma_intersection_of_entities(
    db: Database,
    world: Seq<char>,
    first: Seq<ComponentTypeId>,
    second: Seq<ComponentTypeId>,
    first_reply: Seq<Seq<char>>,
    second_reply: Seq<Seq<char>>,
    joint_reply: Seq<Seq<char>>,
)
    requires
        first_reply.to_set() == common_members(db, type_index_keys(world, first)),
        second_reply.to_set() == common_members(db, type_index_keys(world, second)),
        joint_reply.to_set() == common_members(db, type_index_keys(world, first + second)),
    ensures
        crate::server_world::reply_entities(joint_reply) == crate::server_world::reply_entities(
            first_reply,
        ).intersect(crate::server_world::reply_entities(second_reply)),
{
    lemma_intersection(db, world, first, second);
    lemma_reply_entities(first_reply);
    lemma_reply_entities(second_reply);
    lemma_reply_entities(joint_reply);
    lemma_entities_of_intersection(first_reply.to_set(), second_reply.to_set());
}

/// An intersection over no component types has no reply: the backend
/// refuses the request, and the refusal reaches the caller as an error.
pub proof fn lemma_intersection_of_nothing(db: Database, world: Seq<char>)
    ensures
        intersection_reply(db, type_index_keys(world, Seq::<ComponentTypeId>::empty())) is None,
{
}

/// What the deletions of a destroyed world do to one key: the key is gone
/// if it was listed and lies in the world's namespace; else the backend
/// holds under it what it held.
pub proof fn lemma_destroy_effect(
    db: Database,
    world: Seq<char>,
    listed: Seq<Seq<char>>,
    key: Seq<char>,
)
    ensures
        ({
            let after = apply_all(db, namespace_deletions(world, listed));
            let gone = listed.contains(key) && starts_with(key, namespace_prefix(world));
            &&& after.contains_key(key) == (db.contains_key(key) && !gone)
            &&& after.contains_key(key) ==> after[key] == db[key]
        }),
    decreases listed.len(),
{
    if listed.len() > 0 {
        let front = listed.drop_last();
        lemma_destroy_effect(db, world, front, key);
        assert(listed.contains(key) <==> (front.contains(key) || listed.last() == key)) by {
            if listed.contains(key) {
                let i = choose|i: int| 0 <= i < listed.len() && listed[i] == key;
                if i < front.len() {
                    assert(front[i] == key);
                }
            }
            if front.contains(key) {
                let i = choose|i: int| 0 <= i < front.len() && front[i] == key;
                assert(listed[i] == key);
            }
            if listed.last() == key {
                assert(listed[listed.len() - 1] == key);
            }
        }
        if starts_with(listed.last(), namespace_prefix(world)) {
            let cs = namespace_deletions(world, listed);
            assert(cs.drop_last() =~= namespace_deletions(world, front));
        }
    }
}

/// Namespace isolation. Destroying a world leaves every key outside the
/// world's namespace as it is, whatever the backend listed.
pub proof fn lemma_destroy_stays_in_namespace(
    db: Database,
    world: Seq<char>,
    listed: Seq<Seq<char>>,
    key: Seq<char>,
)
    requires
        !starts_with(key, namespace_prefix(world)),
    ensures
        ({
            let after = apply_all(db, namespace_deletions(world, listed));
            &&& after.contains_key(key) == db.contains_key(key)
            &&& db.contains_key(key) ==> after[key] == db[key]
        }),
{
    lemma_destroy_effect(db, world, listed, key);
}

/// Namespace isolation between worlds. Of two different worlds, destroying
/// the first leaves the data records and index sets of the second as they
/// are.
pub proof fn lemma_destroy_leaves_other_world(
    db: Database,
    first: Seq<char>,
    second: Seq<char>,
    listed: Seq<Seq<char>>,
    entity: u64,
    kind: u64,
)
    requires
        valid_world_name(first),
        valid_world_name(second),
        first != second,
    ensures
        ({
            let after = apply_all(db, namespace_deletions(first, listed));
            &&& stored_text(after, data_key(second, entity, kind)) == stored_text(
                db,
                data_key(second, entity, kind),
            )
            &&& stored_members(after, index_key(second, entity)) == stored_members(
                db,
                index_key(second, entity),
            )
        }),
{
    lemma_keys_in_namespace(second, entity, kind);
    lemma_namespaces_disjoint(first, second, data_key(second, entity, kind));
    lemma_namespaces_disjoint(first, second, index_key(second, entity));
    lemma_destroy_stays_in_namespace(db, first, listed, data_key(second, entity, kind));
    lemma_destroy_stays_in_namespace(db, first, listed, index_key(second, entity));
}

/// Namespace isolation between stores. Of two stores of different worlds,
/// destroying the world of the first leaves the data records and index sets
/// of the second as they are, whatever the backend listed.
pub proof fn lemma_stores_are_isolated(
    first: ServerWorld,
    second: ServerWorld,
    db: Database,
    listed: Seq<Seq<char>>,
    entity: u64,
    kind: u64,
)
    requires
        first.wf(),
        second.wf(),
        first@.name != second@.name,
    ensures
        ({
            let after = apply_all(db, namespace_deletions(first@.name, listed));
            &&& stored_text(after, data_key(second@.name, entity, kind)) == stored_text(
                db,
                data_key(second@.name, entity, kind),
            )
            &&& stored_members(after, index_key(second@.name, entity)) == stored_members(
                db,
                index_key(second@.name, entity),
            )
        }),
{
    first.lemma_pending_are_writes();
    second.lemma_pending_are_writes();
    lemma_destroy_leaves_other_world(db, first@.name, second@.name, listed, entity, kind);
}

/// Destroying a world removes every key of its namespace, provided the
/// backend listed every such key.
pub proof fn lemma_destroy_is_complete(
    db: Database,
    world: Seq<char>,
    listed: Seq<Seq<char>>,
    key: Seq<char>,
)
    requires
        forall|k: Seq<char>|
            db.contains_key(k) && starts_with(k, namespace_prefix(world)) ==> listed.contains(k),
        starts_with(key, namespace_prefix(world)),
    ensures
        !apply_all(db, namespace_deletions(world, listed)).contains_key(key),
{
    lemma_destroy_effect(db, world, listed, key);
}

} // verus!
