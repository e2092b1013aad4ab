//! Queries: which entities have every one of a set of component types.
//!
//! A query is built term by term, executed into one request to the backend,
//! and resolved from the reply into the set of matching entities. Components
//! are not fetched when the query is resolved; each access to a component
//! of a matching entity is a read of its own.

use vstd::prelude::*;
use crate::backend::Command;
use crate::cache::EntitySet;
use crate::component::{get_type_id, type_id_of_name, ComponentType, ComponentTypeId};
use crate::entity_id::EntityId;
use crate::server_world::{
    entities_from_reply, reply_entities, type_index_keys, ComponentLookup, ServerWorld,
    ServerWorldError,
};
use crate::wire::{cmd_args, texts};

verus! {

/// One term of a query.
#[derive(Clone, Copy, PartialEq, Eq, Debug, Structural)]
pub enum QueryEntry {
    /// Matching entities must have this component type.
    Union(ComponentTypeId),
    /// Matching entities may have this component type. The builder accepts
    /// the term; no query with such a term can be executed.
    Optional(ComponentTypeId),
}

/// A query under construction: its terms, in the order in which they were
/// added.
pub struct Query {
    entries: Vec<QueryEntry>,
}

impl View for Query {
    type V = Seq<QueryEntry>;

    closed spec fn view(&self) -> Seq<QueryEntry> {
        self.entries@
    }
}

/// The hash after one more term: a required type is mixed in by exclusive
/// or with its number plus one, an optional type by a shift to the left by
/// its number; the sum wraps around and the shift counts modulo 64.
pub open spec fn hash_step(hash: u64, entry: QueryEntry) -> u64 {
    match entry {
        QueryEntry::Union(kind) => hash ^ kind.number().wrapping_add(1),
        QueryEntry::Optional(kind) => hash.wrapping_shl((kind.number() % 64) as u32),
    }
}

/// The structural hash of a list of terms: folded from the left over the
/// terms in order, starting from 1337.
pub open spec fn structural_hash(entries: Seq<QueryEntry>) -> u64
    decreases entries.len(),
{
    if entries.len() == 0 {
        1337
    } else {
        hash_step(structural_hash(entries.drop_last()), entries.last())
    }
}

/// The component types that the terms require, in order.
pub open spec fn required_types(entries: Seq<QueryEntry>) -> Seq<ComponentTypeId>
    decreases entries.len(),
{
    if entries.len() == 0 {
        Seq::empty()
    } else {
        match entries.last() {
            QueryEntry::Union(kind) => required_types(entries.drop_last()).push(kind),
            QueryEntry::Optional(_) => required_types(entries.drop_last()),
        }
    }
}

/// Whether one of the terms is optional.
pub open spec fn has_optional(entries: Seq<QueryEntry>) -> bool {
    exists|i: int| 0 <= i < entries.len() && (#[trigger] entries[i]) is Optional
}

impl Query {
    /// A query without terms.
    pub fn new() -> (q: Self)
        ensures
            q@ == Seq::<QueryEntry>::empty(),
    {
        Query { entries: Vec::new() }
    }

    /// The structural hash of this query, by which a caller can keep
    /// resolved queries and find them again. Queries with the same terms in
    /// the same order have the same hash. The store keeps no resolved
    /// queries itself, so it has none to invalidate.
    pub fn hash(&self) -> (h: u64)
        ensures
            h == structural_hash(self@),
    {
        let mut y: u64 = 1337;
        let mut i: usize = 0;
        assert(self.entries@.subrange(0, 0) =~= Seq::<QueryEntry>::empty());
        while i < self.entries.len()
            invariant
                i <= self.entries.len(),
                y == structural_hash(self.entries@.subrange(0, i as int)),
            decreases self.entries.len() - i,
        {
            proof {
                let upto = self.entries@.subrange(0, i as int + 1);
                assert(upto.drop_last() =~= self.entries@.subrange(0, i as int));
                assert(upto.last() == self.entries@[i as int]);
            }
            match self.entries[i] {
                QueryEntry::Union(x) => {
                    y = y ^ x.get_number().wrapping_add(1);
                },
                QueryEntry::Optional(x) => {
                    let by: u64 = x.get_number() % 64;
                    y = y.wrapping_shl(by as u32);
                },
            }
            i = i + 1;
        }
        assert(self.entries@.subrange(0, i as int) =~= self.entries@);
        y
    }

    /// Requires the component type `T` of matching entities.
    pub fn add_union<T: ComponentType>(&mut self)
        ensures
            final(self)@ == old(self)@.push(
                QueryEntry::Union(type_id_of_name(T::canonical_name())),
            ),
    {
        self.add_union_with_type_id(get_type_id::<T>());
    }

    /// Requires the component type `kind` of matching entities.
    pub fn add_union_with_type_id(&mut self, kind: ComponentTypeId)
        ensures
            final(self)@ == old(self)@.push(QueryEntry::Union(kind)),
    {
        self.entries.push(QueryEntry::Union(kind));
    }

    /// Adds the component type `T` as an optional term.
    pub fn add_option<T: ComponentType>(&mut self)
        ensures
            final(self)@ == old(self)@.push(
                QueryEntry::Optional(type_id_of_name(T::canonical_name())),
            ),
    {
        self.add_option_with_type_id(get_type_id::<T>());
    }

    /// Adds the component type `kind` as an optional term.
    pub fn add_option_with_type_id(&mut self, kind: ComponentTypeId)
        ensures
            final(self)@ == old(self)@.push(QueryEntry::Optional(kind)),
    {
        self.entries.push(QueryEntry::Optional(kind));
    }

    /// Whether this query has an optional term, and so cannot be executed.
    pub fn has_optional_terms(&self) -> (b: bool)
        ensures
            b == has_optional(self@),
    {
        let mut i: usize = 0;
        while i < self.entries.len()
            invariant
                i <= self.entries.len(),
                forall|j: int| 0 <= j < i ==> !((#[trigger] self.entries@[j]) is Optional),
            decreases self.entries.len() - i,
        {
            match self.entries[i] {
                QueryEntry::Optional(_) => {
                    return true;
                },
                QueryEntry::Union(_) => {},
            }
            i = i + 1;
        }
        false
    }

    /// The component types that this query requires, in the order of its
    /// terms.
    pub fn required(&self) -> (union: Vec<ComponentTypeId>)
        ensures
            union@ == required_types(self@),
    {
        let mut union: Vec<ComponentTypeId> = Vec::new();
        let mut i: usize = 0;
        assert(self.entries@.subrange(0, 0) =~= Seq::<QueryEntry>::empty());
        while i < self.entries.len()
            invariant
                i <= self.entries.len(),
                union@ == required_types(self.entries@.subrange(0, i as int)),
            decreases self.entries.len() - i,
        {
            proof {
                let upto = self.entries@.subrange(0, i as int + 1);
                assert(upto.drop_last() =~= self.entries@.subrange(0, i as int));
                assert(upto.last() == self.entries@[i as int]);
            }
            match self.entries[i] {
                QueryEntry::Union(x) => {
                    union.push(x);
                },
                QueryEntry::Optional(_) => {},
            }
            i = i + 1;
        }
        assert(self.entries@.subrange(0, i as int) =~= self.entries@);
        union
    }

    /// The request that resolves this query in `world`: the intersection
    /// over all required types, in the order of the terms. A query that has
    /// an optional term cannot be executed. The reply goes to
    /// `QueryResult::from_reply`.
    pub fn execute(&self, world: &ServerWorld) -> (cmd: redis::Cmd)
        requires
            !has_optional(self@),
        ensures
            cmd_args(cmd) == (Command::Intersect {
                keys: type_index_keys(world@.name, required_types(self@)),
            }).args(),
    {
        let union = self.required();
        world.get_entities_with_component_type_ids(&union)
    }
}

/// A resolved query: the set of matching entities.
pub struct QueryResult {
    entities: EntitySet,
}

impl QueryResult {
    /// The numbers of the matching entities.
    pub closed spec fn members(self) -> Set<u64> {
        self.entities.members()
    }

    /// The result that holds the entities of `ids`.
    pub fn new(ids: EntitySet) -> (r: Self)
        ensures
            r.members() == ids.members(),
    {
        QueryResult { entities: ids }
    }

    /// The result that a reply to an executed query names. The backend's
    /// error is handed on. A member that names no entity is left out.
    pub fn from_reply(reply: Result<Vec<String>, redis::RedisError>) -> (r: Result<
        QueryResult,
        ServerWorldError,
    >)
        ensures
            match reply {
                Ok(members) => r is Ok && r->Ok_0.members() == reply_entities(texts(members@)),
                Err(e) => r is Err && r->Err_0 == ServerWorldError::RedisError(e),
            },
    {
        match entities_from_reply(reply) {
            Ok(set) => Ok(QueryResult::new(set)),
            Err(e) => Err(e),
        }
    }

    /// Whether `entity` matches.
    pub fn contains(&self, entity: EntityId) -> (b: bool)
        ensures
            b == self.members().contains(entity.number()),
    {
        self.entities.contains(entity)
    }

    /// One handle for each matching entity, each entity once, in no
    /// particular order.
    pub fn iter(&self) -> (v: Vec<Entity>)
        ensures
            v@.len() == self.members().len(),
            forall|i: int, j: int|
                0 <= i < j < v@.len() ==> (#[trigger] v@[i]).id_number() != (
                #[trigger] v@[j]).id_number(),
            forall|n: u64|
                self.members().contains(n) <==> exists|i: int|
                    0 <= i < v@.len() && (#[trigger] v@[i]).id_number() == n,
    {
        let ids = self.entities.to_vec();
        let mut v: Vec<Entity> = Vec::new();
        let mut i: usize = 0;
        while i < ids.len()
            invariant
                i <= ids.len(),
                v@.len() == i,
                forall|j: int| 0 <= j < i ==> (#[trigger] v@[j]).entity_id == ids@[j],
            decreases ids.len() - i,
        {
            v.push(Entity { entity_id: ids[i] });
            i = i + 1;
        }
        proof {
            assert forall|a: int, b: int| 0 <= a < b < v@.len() implies (#[trigger] v@[a]).id_number()
                != (#[trigger] v@[b]).id_number() by {
                EntityId::lemma_number_decides(ids@[a], 0);
                EntityId::lemma_number_decides(ids@[b], 0);
                assert(ids@[a] != ids@[b]);
            }
            assert forall|n: u64|
                self.members().contains(n) <==> exists|i: int|
                    0 <= i < v@.len() && (#[trigger] v@[i]).id_number() == n by {
                EntityId::lemma_number_decides(EntityId::from_number(n), n);
                if self.members().contains(n) {
                    assert(ids@.contains(EntityId::from_number(n)));
                    let j = choose|j: int| 0 <= j < ids@.len() && ids@[j] == EntityId::from_number(n);
                    assert(v@[j].id_number() == n);
                }
                if exists|i: int| 0 <= i < v@.len() && (#[trigger] v@[i]).id_number() == n {
                    let j = choose|j: int| 0 <= j < v@.len() && (#[trigger] v@[j]).id_number() == n;
                    EntityId::lemma_number_decides(ids@[j], n);
                    assert(ids@[j] == EntityId::from_number(n));
                    assert(ids@.contains(EntityId::from_number(n)));
                }
            }
        }
        v
    }
}

/// A handle to one matching entity. It holds the entity's id and nothing
/// of the entity's components.
pub struct Entity {
    entity_id: EntityId,
}

impl Entity {
    /// The number of the entity's id.
    pub closed spec fn id_number(self) -> u64 {
        self.entity_id.number()
    }

    pub fn entity_id(&self) -> (e: EntityId)
        ensures
            e.number() == self.id_number(),
    {
        self.entity_id
    }

    /// Starts a read of the entity's component `T` in `world`. Each call is
    /// a read of its own.
    pub fn get<T: ComponentType>(&self, world: &ServerWorld) -> (r: ComponentLookup)
        requires
            world.wf(),
        ensures
            world@.lookup_is(self.id_number(), type_id_of_name(T::canonical_name()).number(), r),
    {
        world.get_component_ref::<T>(self.entity_id)
    }

    /// Starts a read of the entity's component `kind` in `world`.
    pub fn get_with_type_id(&self, world: &ServerWorld, kind: ComponentTypeId) -> (r:
        ComponentLookup)
        requires
            world.wf(),
        ensures
            world@.lookup_is(self.id_number(), kind.number(), r),
    {
        world.get_component_ref_with_type_id(self.entity_id, kind)
    }
}

} // verus!
