//! The world store: one namespaced world, its read cache and its
//! write-behind buffer.
//!
//! The store decides; its caller performs the backend round trips. A call
//! that needs the backend hands out the command to send, and a second call
//! takes the reply.
//!
//! A flush is such a pair: `pending_writes` gives the batch, and
//! `write_all_changes` takes the outcome. The caller holds the store
//! exclusively from the one to the other, so that writes wait while a flush
//! is in flight: none is lost and none is sent twice. A read is such a pair
//! too, but needs no exclusion between its steps: other reads and writes of
//! the same instance may come between them.
//!
//! A world's name holds no colon (`ServerWorld::new` asks for it, and
//! `is_world_name` tells): with that, the namespaces of two worlds have no
//! key in common.
//!
//! Four choices that a world store has to make are made as follows.
//! - Writes go through the cache: a write puts the new value into the read
//!   cache as well as into the buffer, so a read after a write observes the
//!   write, flushed or not.
//! - Deletions are not buffered: `delete_component` hands out commands that
//!   the caller executes at once. Writes of the same instance that are still
//!   in the buffer are not withdrawn; flushed later, they bring the
//!   component back.
//! - An intersection over no component types is the backend's to refuse:
//!   the request is built as for any other list, and the backend's error
//!   comes back as `RedisError`.
//! - A member of an index set names an entity only if it is the decimal
//!   text of the entity's number, as the store writes it. Any other member
//!   of a reply is left out; no reply makes a query fail.

use vstd::prelude::*;
use crate::backend::Command;
use crate::cache::{ComponentCache, EntitySet};
use crate::component::{
    get_type_id, type_id_of_name, Component, ComponentRef, ComponentRefView, ComponentType,
    ComponentTypeId,
};
use crate::entity_id::EntityId;
use crate::raws::{RawTree, RawTreeView};
use crate::keys::{
    component_data_key, component_entity_key, data_key, entity_key, index_key, key_in_world,
    namespace_pattern, namespace_prefix, starts_with, valid_world_name, world_key_pattern,
};
use crate::text::{decimal_text, decimal_u64_spec, parse_decimal_u64};
use crate::wire::{
    cmd_args, del_command, get_command, keys_command, pipeline_add, pipeline_clear,
    pipeline_commands, pipeline_new, sadd_command, set_command, sinter_command, srem_command,
    texts,
};

verus! {

/// An error of the backend's client.
#[verifier::external_type_specification]
#[verifier::external_body]
pub struct ExRedisError(redis::RedisError);

/// An error of the JSON encoder or decoder.
#[verifier::external_type_specification]
#[verifier::external_body]
pub struct ExJsonError(serde_json::Error);

/// `host` and `port` as the address of a backend: `redis://host:port/`.
pub fn get_redis_connection_string(host: &str, port: u16) -> (url: String)
    ensures
        url@ == connection_text(host@, port),
{
    let mut url = String::from_str("redis://");
    url.append(host);
    url.append(":");
    crate::text::push_radix(&mut url, port as u64, false);
    url.append("/");
    url
}

/// The address of the backend at `host` and `port`.
pub open spec fn connection_text(host: Seq<char>, port: u16) -> Seq<char> {
    "redis://"@ + host + ":"@ + decimal_text(port as nat) + "/"@
}

/// Why an operation of the world store failed.
#[derive(Debug)]
pub enum ServerWorldError {
    /// The backend could not be reached or refused the request. The caller
    /// may try again.
    RedisError(redis::RedisError),
    /// A value could not be encoded or decoded.
    SerdeError(serde_json::Error),
    /// Reserved for conflicting concurrent changes; nothing reports it.
    ComponentChanged,
    /// The entity has no such component.
    ComponentNotFound,
}

/// The commands that write the component `kind` of `entity` with the
/// serialized value `data`: the data record, then the two index sets.
pub open spec fn write_commands(world: Seq<char>, entity: u64, kind: u64, data: Seq<char>) -> Seq<
    Command,
> {
    seq![
        Command::Store { key: data_key(world, entity, kind), value: data },
        Command::AddMember { key: index_key(world, entity), member: decimal_text(kind as nat) },
        Command::AddMember { key: index_key(world, kind), member: decimal_text(entity as nat) },
    ]
}

/// Whether `command` is one of the commands of a write in `world`.
pub open spec fn is_write_of(world: Seq<char>, command: Command) -> bool {
    exists|entity: u64, kind: u64, data: Seq<char>|
        command == (#[trigger] write_commands(world, entity, kind, data))[0] || command
            == write_commands(world, entity, kind, data)[1] || command == write_commands(
            world,
            entity,
            kind,
            data,
        )[2]
}

/// The commands that delete the component `kind` of `entity`: the data
/// record, then the two index memberships.
pub open spec fn delete_commands(world: Seq<char>, entity: u64, kind: u64) -> Seq<Command> {
    seq![
        Command::Delete { key: data_key(world, entity, kind) },
        Command::RemoveMember { key: index_key(world, entity), member: decimal_text(kind as nat) },
        Command::RemoveMember { key: index_key(world, kind), member: decimal_text(entity as nat) },
    ]
}

/// The keys of the index sets of the given component types, in order.
pub open spec fn type_index_keys(world: Seq<char>, kinds: Seq<ComponentTypeId>) -> Seq<Seq<char>> {
    kinds.map_values(|k: ComponentTypeId| index_key(world, k.number()))
}

/// One deletion for each of `keys` that lies in the namespace of `world`,
/// in the order of `keys`.
pub open spec fn namespace_deletions(world: Seq<char>, keys: Seq<Seq<char>>) -> Seq<Command>
    decreases keys.len(),
{
    if keys.len() == 0 {
        Seq::empty()
    } else if starts_with(keys.last(), namespace_prefix(world)) {
        namespace_deletions(world, keys.drop_last()).push(Command::Delete { key: keys.last() })
    } else {
        namespace_deletions(world, keys.drop_last())
    }
}

/// The words of each command of a batch.
pub open spec fn wire_form(commands: Seq<Command>) -> Seq<Seq<Seq<u8>>> {
    commands.map_values(|c: Command| c.args())
}

/// The words of each of the client's commands.
pub open spec fn batch_args(cmds: Seq<redis::Cmd>) -> Seq<Seq<Seq<u8>>> {
    cmds.map_values(|c: redis::Cmd| cmd_args(c))
}

/// The entity numbers that a reply to an intersection names: those whose
/// decimal text is among the members. A member that is not the decimal text
/// of a 64-bit number names no entity.
pub open spec fn reply_entities(members: Seq<Seq<char>>) -> Set<u64> {
    Set::new(
        |n: u64|
            exists|i: int|
                0 <= i < members.len() && decimal_u64_spec(#[trigger] members[i]) == Some(n),
    )
}

/// What a world store is: its world's name, what its read cache holds (the
/// serialized value, by entity number and kind number), the commands that
/// wait in its write buffer, its descriptor records, and its tick.
pub struct WorldView {
    pub name: Seq<char>,
    pub cache: Map<(u64, u64), Seq<char>>,
    pub pending: Seq<Command>,
    pub raws: RawTreeView,
    pub tick: u64,
}

/// The first step of a read.
pub enum ComponentLookup {
    /// The read cache held the component: here is a reference to it.
    Cached(ComponentRef),
    /// The read cache did not hold it: send this command and hand the reply
    /// to `component_fetched`.
    Fetch(redis::Cmd),
}

/// The state of one world.
pub struct ServerWorld {
    world_name: String,
    cached_components: ComponentCache,
    write_pipeline: redis::Pipeline,
    pending: Ghost<Seq<Command>>,
    raws: RawTree,
    tick: u64,
}

impl View for ServerWorld {
    type V = WorldView;

    closed spec fn view(&self) -> WorldView {
        WorldView {
            name: self.world_name@,
            cache: self.cached_components.payloads(),
            pending: self.pending@,
            raws: self.raws@,
            tick: self.tick,
        }
    }
}

impl ServerWorld {
    /// The store's invariant: the world's name holds no colon; the write
    /// buffer holds the pending commands, word for word; every pending
    /// command belongs to a write in this world; and every cached component
    /// is of the kind that its key names.
    pub closed spec fn wf(self) -> bool {
        &&& valid_world_name(self.world_name@)
        &&& pipeline_commands(self.write_pipeline) == wire_form(self.pending@)
        &&& forall|i: int|
            0 <= i < self.pending@.len() ==> is_write_of(
                self.world_name@,
                #[trigger] self.pending@[i],
            )
        &&& self.cached_components.coherent()
    }

    /// Nothing but writes in this world waits in the write buffer, and the
    /// world's name is one whose namespace no other world's overlaps.
    pub proof fn lemma_pending_are_writes(self)
        requires
            self.wf(),
        ensures
            valid_world_name(self@.name),
            forall|i: int|
                0 <= i < self@.pending.len() ==> is_write_of(
                    self@.name,
                    #[trigger] self@.pending[i],
                ),
    {
    }

    /// The store of the world `world_name` with the descriptor records
    /// `raws`: its cache and its write buffer are empty, its tick is zero.
    /// The name must hold no colon (`is_world_name` tells): the keys of two
    /// worlds are kept apart by the colon that ends each world's name.
    pub fn new(world_name: &str, raws: RawTree) -> (world: Self)
        requires
            valid_world_name(world_name@),
        ensures
            world.wf(),
            world@ == (WorldView {
                name: world_name@,
                cache: Map::empty(),
                pending: Seq::empty(),
                raws: raws@,
                tick: 0,
            }),
    {
        let world = ServerWorld {
            world_name: String::from_str(world_name),
            cached_components: ComponentCache::new(),
            write_pipeline: pipeline_new(),
            pending: Ghost(Seq::empty()),
            raws,
            tick: 0,
        };
        assert(wire_form(Seq::<Command>::empty()) =~= Seq::<Seq<Seq<u8>>>::empty());
        world
    }

    pub fn world_name(&self) -> (name: &str)
        ensures
            name@ == self@.name,
    {
        self.world_name.as_str()
    }

    /// The descriptor records of this world.
    pub fn raws(&self) -> (raws: &RawTree)
        ensures
            raws@ == self@.raws,
    {
        &self.raws
    }

    pub fn tick(&self) -> (t: u64)
        ensures
            t == self@.tick,
    {
        self.tick
    }

    /// Moves the world one simulation step on. The tick wraps around after
    /// `u64::MAX`.
    pub fn advance_tick(&mut self)
        requires
            old(self).wf(),
        ensures
            final(self).wf(),
            final(self)@ == (WorldView {
                tick: if old(self)@.tick == u64::MAX {
                    0
                } else {
                    (old(self)@.tick + 1) as u64
                },
                ..old(self)@
            }),
    {
        self.tick = self.tick.wrapping_add(1);
    }

    /// Buffers a write of the component `T` of `entity_id` with the
    /// serialized value `data`.
    pub fn write_component<T: ComponentType>(&mut self, entity_id: EntityId, data: &str)
        requires
            old(self).wf(),
        ensures
            final(self).wf(),
            final(self)@ == old(self)@.written(
                entity_id.number(),
                type_id_of_name(T::canonical_name()).number(),
                data@,
            ),
    {
        self.write_component_with_type_id(entity_id, get_type_id::<T>(), data)
    }

    /// Buffers a write of the component `kind` of `entity_id` with the
    /// serialized value `data`: three commands join the write buffer, and
    /// the read cache takes the new value. Nothing is sent.
    pub fn write_component_with_type_id(
        &mut self,
        entity_id: EntityId,
        kind: ComponentTypeId,
        data: &str,
    )
        requires
            old(self).wf(),
        ensures
            final(self).wf(),
            final(self)@ == old(self)@.written(entity_id.number(), kind.number(), data@),
    {
        let component_data_key = component_data_key(self.world_name.as_str(), entity_id, kind);
        let entity_key = entity_key(self.world_name.as_str(), entity_id);
        let component_entity_key = component_entity_key(self.world_name.as_str(), kind);
        pipeline_add(&mut self.write_pipeline, set_command(component_data_key.as_str(), data));
        pipeline_add(
            &mut self.write_pipeline,
            sadd_command(entity_key.as_str(), kind.get_number()),
        );
        pipeline_add(
            &mut self.write_pipeline,
            sadd_command(component_entity_key.as_str(), entity_id.id()),
        );
        proof {
            let added = write_commands(self.world_name@, entity_id.number(), kind.number(), data@);
            assert(wire_form(old(self).pending@ + added) =~= wire_form(old(self).pending@).push(
                added[0].args(),
            ).push(added[1].args()).push(added[2].args()));
            let all = old(self).pending@ + added;
            assert forall|i: int| 0 <= i < all.len() implies is_write_of(
                self.world_name@,
                #[trigger] all[i],
            ) by {
                if i < old(self).pending@.len() {
                    assert(all[i] == old(self).pending@[i]);
                } else {
                    assert(all[i] == added[i - old(self).pending@.len()]);
                }
            }
        }
        self.pending = Ghost(
            self.pending@ + write_commands(
                self.world_name@,
                entity_id.number(),
                kind.number(),
                data@,
            ),
        );
        self.cached_components.insert(
            entity_id,
            Component::new_with_type_id(kind, String::from_str(data)),
        );
    }

    /// The write buffer: the batch to send for a flush. Hand the outcome of
    /// sending it to `write_all_changes`.
    pub fn pending_writes(&self) -> (batch: &redis::Pipeline)
        requires
            self.wf(),
        ensures
            pipeline_commands(*batch) == wire_form(self@.pending),
    {
        &self.write_pipeline
    }

    /// How many commands wait in the write buffer.
    pub open spec fn pending_len(self) -> nat {
        self@.pending.len()
    }

    /// Ends a flush. `sent` is the outcome of sending the batch that
    /// `pending_writes` gave. After a batch that arrived the write buffer is
    /// empty; after one that failed the buffer is kept as it was, for the
    /// caller to flush again as a whole, and the backend's error is
    /// returned.
    pub fn write_all_changes(&mut self, sent: Result<(), redis::RedisError>) -> (r: Result<
        (),
        ServerWorldError,
    >)
        requires
            old(self).wf(),
        ensures
            final(self).wf(),
            match sent {
                Ok(_) => r == Ok::<(), ServerWorldError>(()) && final(self)@ == old(self)@.flushed(),
                Err(e) => r == Err::<(), ServerWorldError>(ServerWorldError::RedisError(e))
                    && final(self)@ == old(self)@,
            },
    {
        match sent {
            Ok(_) => {
                pipeline_clear(&mut self.write_pipeline);
                self.pending = Ghost(Seq::empty());
                assert(wire_form(Seq::<Command>::empty()) =~= Seq::<Seq<Seq<u8>>>::empty());
                Ok(())
            },
            Err(e) => Err(ServerWorldError::RedisError(e)),
        }
    }

    /// Deletes the component `T` of `entity_id`.
    pub fn delete_component<T: ComponentType>(&mut self, entity_id: EntityId) -> (cmds: Vec<
        redis::Cmd,
    >)
        requires
            old(self).wf(),
        ensures
            final(self).wf(),
            final(self)@ == old(self)@.deleted(
                entity_id.number(),
                type_id_of_name(T::canonical_name()).number(),
            ),
            batch_args(cmds@) == wire_form(
                delete_commands(
                    old(self)@.name,
                    entity_id.number(),
                    type_id_of_name(T::canonical_name()).number(),
                ),
            ),
    {
        self.delete_component_with_type_id(entity_id, get_type_id::<T>())
    }

    /// Deletes the component `kind` of `entity_id`: takes it out of the read
    /// cache and hands out the three commands that remove the data record
    /// and both index memberships. The caller executes them at once, in
    /// order; they do not pass through the write buffer.
    pub fn delete_component_with_type_id(&mut self, entity_id: EntityId, kind: ComponentTypeId) -> (cmds:
        Vec<redis::Cmd>)
        requires
            old(self).wf(),
        ensures
            final(self).wf(),
            final(self)@ == old(self)@.deleted(entity_id.number(), kind.number()),
            batch_args(cmds@) == wire_form(
                delete_commands(old(self)@.name, entity_id.number(), kind.number()),
            ),
    {
        let component_data_key = component_data_key(self.world_name.as_str(), entity_id, kind);
        let entity_key = entity_key(self.world_name.as_str(), entity_id);
        let component_entity_key = component_entity_key(self.world_name.as_str(), kind);
        let mut cmds: Vec<redis::Cmd> = Vec::new();
        cmds.push(del_command(component_data_key.as_str()));
        cmds.push(srem_command(entity_key.as_str(), kind.get_number()));
        cmds.push(srem_command(component_entity_key.as_str(), entity_id.id()));
        self.cached_components.remove(entity_id, kind);
        assert(batch_args(cmds@) =~= wire_form(
            delete_commands(old(self)@.name, entity_id.number(), kind.number()),
        ));
        cmds
    }

    /// The request for the data record of the component `kind` of
    /// `entity_id`.
    pub fn get_component(&self, entity_id: EntityId, kind: ComponentTypeId) -> (cmd: redis::Cmd)
        ensures
            cmd_args(cmd) == (Command::Fetch {
                key: data_key(self@.name, entity_id.number(), kind.number()),
            }).args(),
    {
        let key = component_data_key(self.world_name.as_str(), entity_id, kind);
        get_command(key.as_str())
    }

    /// Starts a read of the component `T` of `entity_id`.
    pub fn get_component_ref<T: ComponentType>(&self, entity_id: EntityId) -> (r: ComponentLookup)
        requires
            self.wf(),
        ensures
            self@.lookup_is(
                entity_id.number(),
                type_id_of_name(T::canonical_name()).number(),
                r,
            ),
    {
        self.get_component_ref_with_type_id(entity_id, get_type_id::<T>())
    }

    /// Starts a read of the component `kind` of `entity_id`. If the read
    /// cache holds the component, the result is a fresh reference to the
    /// cached value. If not, the result is the request to send to the
    /// backend; `component_fetched` takes the reply.
    pub fn get_component_ref_with_type_id(&self, entity_id: EntityId, kind: ComponentTypeId) -> (r:
        ComponentLookup)
        requires
            self.wf(),
        ensures
            self@.lookup_is(entity_id.number(), kind.number(), r),
    {
        match self.cached_components.get(entity_id, kind) {
            Some(component) => {
                match component.get_ref_with_type_id(kind) {
                    Some(reference) => ComponentLookup::Cached(reference),
                    None => ComponentLookup::Fetch(self.get_component(entity_id, kind)),
                }
            },
            None => ComponentLookup::Fetch(self.get_component(entity_id, kind)),
        }
    }

    /// Ends a read of the component `kind` of `entity_id` that went to the
    /// backend. `fetched` is the serialized value that came back, or `None`
    /// if the record is missing or cannot be read as a value of its kind.
    ///
    /// Without a value the read fails with `ComponentNotFound` and the cache
    /// stays as it is. With one, the first value to arrive for an instance
    /// stays in the cache: if the cache holds the instance by now, the
    /// result refers to the cached value and the fetched one is dropped;
    /// if not, the fetched value enters the cache and the result refers to
    /// it.
    pub fn component_fetched(
        &mut self,
        entity_id: EntityId,
        kind: ComponentTypeId,
        fetched: Option<String>,
    ) -> (r: Result<ComponentRef, ServerWorldError>)
        requires
            old(self).wf(),
        ensures
            final(self).wf(),
            final(self)@ == old(self)@.fetched(
                entity_id.number(),
                kind.number(),
                match fetched {
                    Some(s) => Some(s@),
                    None => None,
                },
            ),
            match r {
                Ok(reference) => fetched is Some && final(self)@.cache.contains_key(
                    (entity_id.number(), kind.number()),
                ) && reference@ == ComponentRefView::fresh(
                    final(self)@.cache[(entity_id.number(), kind.number())],
                ),
                Err(e) => fetched is None && e == ServerWorldError::ComponentNotFound,
            },
    {
        match fetched {
            None => Err(ServerWorldError::ComponentNotFound),
            Some(data) => {
                let present = self.cached_components.get(entity_id, kind).is_some();
                if !present {
                    self.cached_components.insert(
                        entity_id,
                        Component::new_with_type_id(kind, data),
                    );
                }
                match self.cached_components.get(entity_id, kind) {
                    Some(component) => match component.get_ref_with_type_id(kind) {
                        Some(reference) => Ok(reference),
                        None => Err(ServerWorldError::ComponentNotFound),
                    },
                    None => Err(ServerWorldError::ComponentNotFound),
                }
            },
        }
    }

    /// The request for the entities that have every one of the given
    /// component types: the intersection of the types' index sets.
    pub fn get_entities_with_component_type_ids(&self, component_type_ids: &Vec<ComponentTypeId>) -> (cmd:
        redis::Cmd)
        ensures
            cmd_args(cmd) == (Command::Intersect {
                keys: type_index_keys(self@.name, component_type_ids@),
            }).args(),
    {
        let mut keys: Vec<String> = Vec::new();
        let mut i: usize = 0;
        while i < component_type_ids.len()
            invariant
                i <= component_type_ids.len(),
                keys@.len() == i,
                forall|j: int|
                    0 <= j < i ==> (#[trigger] keys@[j])@ == index_key(
                        self@.name,
                        component_type_ids@[j].number(),
                    ),
            decreases component_type_ids.len() - i,
        {
            keys.push(component_entity_key(self.world_name.as_str(), component_type_ids[i]));
            i = i + 1;
        }
        assert(texts(keys@) =~= type_index_keys(self@.name, component_type_ids@));
        sinter_command(&keys)
    }

    /// The request for the keys of this world.
    pub fn destroy_world(&self) -> (cmd: redis::Cmd)
        ensures
            cmd_args(cmd) == (Command::ListKeys { pattern: namespace_pattern(self@.name) }).args(),
    {
        let pattern = world_key_pattern(self.world_name.as_str());
        keys_command(pattern.as_str())
    }

    /// Ends the destruction of this world. `listed` is the reply to the
    /// request that `destroy_world` gave. The result holds one deletion for
    /// each listed key that lies in this world's namespace, in the order of
    /// the list; a listed key of any other namespace is left alone. The
    /// backend's error is handed on.
    pub fn destroy_world_keys(self, listed: Result<Vec<String>, redis::RedisError>) -> (r: Result<
        Vec<redis::Cmd>,
        ServerWorldError,
    >)
        ensures
            match listed {
                Ok(keys) => r is Ok && batch_args(r->Ok_0@) == wire_form(
                    namespace_deletions(self@.name, texts(keys@)),
                ),
                Err(e) => r == Err::<Vec<redis::Cmd>, ServerWorldError>(
                    ServerWorldError::RedisError(e),
                ),
            },
    {
        match listed {
            Err(e) => Err(ServerWorldError::RedisError(e)),
            Ok(keys) => {
                let mut cmds: Vec<redis::Cmd> = Vec::new();
                let mut i: usize = 0;
                assert(texts(keys@).subrange(0, 0) =~= Seq::<Seq<char>>::empty());
                assert(batch_args(cmds@) =~= wire_form(Seq::<Command>::empty()));
                while i < keys.len()
                    invariant
                        i <= keys.len(),
                        batch_args(cmds@) == wire_form(
                            namespace_deletions(self@.name, texts(keys@).subrange(0, i as int)),
                        ),
                    decreases keys.len() - i,
                {
                    proof {
                        let done = texts(keys@).subrange(0, i as int);
                        let more = texts(keys@).subrange(0, i as int + 1);
                        assert(more.drop_last() =~= done);
                        assert(more.last() == keys@[i as int]@);
                    }
                    if key_in_world(keys[i].as_str(), self.world_name.as_str()) {
                        let ghost before = cmds@;
                        cmds.push(del_command(keys[i].as_str()));
                        proof {
                            let done = namespace_deletions(
                                self@.name,
                                texts(keys@).subrange(0, i as int),
                            );
                            assert(batch_args(cmds@) =~= batch_args(before).push(
                                cmd_args(cmds@.last()),
                            ));
                            assert(wire_form(done.push(Command::Delete { key: keys@[i as int]@ }))
                                =~= wire_form(done).push(
                                (Command::Delete { key: keys@[i as int]@ }).args(),
                            ));
                        }
                    }
                    i = i + 1;
                }
                assert(texts(keys@).subrange(0, i as int) =~= texts(keys@));
                Ok(cmds)
            },
        }
    }
}

/// The entity id that `text` names: the id whose number, written in
/// decimal as the store writes it, is `text`. Other texts name none.
pub fn parse_entity_id(text: &str) -> (r: Option<EntityId>)
    ensures
        match r {
            Some(e) => decimal_u64_spec(text@) == Some(e.number()),
            None => decimal_u64_spec(text@) is None,
        },
{
    match parse_decimal_u64(text) {
        Some(n) => {
            let e = EntityId::new_with_number(n);
            proof {
                EntityId::lemma_number_decides(e, n);
            }
            Some(e)
        },
        None => None,
    }
}

/// The entities that a reply to `get_entities_with_component_type_ids`
/// names. The backend's error is handed on. A member that names no entity
/// is left out: no reply makes this fail.
pub fn entities_from_reply(reply: Result<Vec<String>, redis::RedisError>) -> (r: Result<
    EntitySet,
    ServerWorldError,
>)
    ensures
        match reply {
            Ok(members) => r is Ok && r->Ok_0.members() == reply_entities(texts(members@)),
            Err(e) => r == Err::<EntitySet, ServerWorldError>(ServerWorldError::RedisError(e)),
        },
{
    match reply {
        Err(e) => Err(ServerWorldError::RedisError(e)),
        Ok(members) => {
            let mut set = EntitySet::new();
            let mut i: usize = 0;
            assert(reply_entities(texts(members@).subrange(0, 0)) =~= Set::<u64>::empty());
            while i < members.len()
                invariant
                    i <= members.len(),
                    set.members() == reply_entities(texts(members@).subrange(0, i as int)),
                decreases members.len() - i,
            {
                let ghost done = texts(members@).subrange(0, i as int);
                let ghost more = texts(members@).subrange(0, i as int + 1);
                let ghost before = set.members();
                let parsed = parse_entity_id(members[i].as_str());
                if let Some(entity) = parsed {
                    set.insert(entity);
                }
                proof {
                    assert(more[i as int] == members@[i as int]@);
                    let grown = match parsed {
                        Some(entity) => before.insert(entity.number()),
                        None => before,
                    };
                    assert forall|n: u64| reply_entities(more).contains(n) <==> grown.contains(
                        n,
                    ) by {
                        if reply_entities(more).contains(n) {
                            let j = choose|j: int|
                                0 <= j < more.len() && decimal_u64_spec(#[trigger] more[j])
                                    == Some(n);
                            if j < i {
                                assert(done[j] == more[j]);
                            }
                        }
                        if reply_entities(done).contains(n) {
                            let j = choose|j: int|
                                0 <= j < done.len() && decimal_u64_spec(#[trigger] done[j])
                                    == Some(n);
                            assert(more[j] == done[j]);
                        }
                    }
                    assert(reply_entities(more) =~= grown);
                }
                i = i + 1;
            }
            assert(texts(members@).subrange(0, i as int) =~= texts(members@));
            Ok(set)
        },
    }
}

impl WorldView {
    /// The store after a write of `data` for the component `kind` of
    /// `entity`: the write's commands at the end of the buffer, the value
    /// in the cache.
    pub open spec fn written(self, entity: u64, kind: u64, data: Seq<char>) -> WorldView {
        WorldView {
            cache: self.cache.insert((entity, kind), data),
            pending: self.pending + write_commands(self.name, entity, kind, data),
            ..self
        }
    }

    /// The store after a flush that arrived: the buffer is empty.
    pub open spec fn flushed(self) -> WorldView {
        WorldView { pending: Seq::empty(), ..self }
    }

    /// The store after the deletion of the component `kind` of `entity`:
    /// the cache does not hold it.
    pub open spec fn deleted(self, entity: u64, kind: u64) -> WorldView {
        WorldView { cache: self.cache.remove((entity, kind)), ..self }
    }

    /// The store after a fetch for the component `kind` of `entity` came
    /// back: a value enters the cache unless the cache holds the instance
    /// already.
    pub open spec fn fetched(self, entity: u64, kind: u64, value: Option<Seq<char>>) -> WorldView {
        match value {
            Some(data) if !self.cache.contains_key((entity, kind)) => WorldView {
                cache: self.cache.insert((entity, kind), data),
                ..self
            },
            _ => self,
        }
    }

    /// Whether `step` is the first step of a read of the component `kind`
    /// of `entity`: a fresh reference to the cached value, or the request
    /// for the data record if the cache does not hold the instance.
    pub open spec fn lookup_is(self, entity: u64, kind: u64, step: ComponentLookup) -> bool {
        match step {
            ComponentLookup::Cached(reference) => self.cache.contains_key((entity, kind))
                && reference@ == ComponentRefView::fresh(self.cache[(entity, kind)]),
            ComponentLookup::Fetch(cmd) => !self.cache.contains_key((entity, kind)) && cmd_args(
                cmd,
            ) == (Command::Fetch { key: data_key(self.name, entity, kind) }).args(),
        }
    }
}

} // verus!
