//! The collections that the world store keeps in hash tables: the read
//! cache of components and the sets of entity ids that queries resolve to.

use vstd::prelude::*;
use crate::component::Component;
use crate::entity_id::EntityId;

verus! {

/// The read cache: components by the numbers of their entity and their
/// kind, in a `hashbrown::HashMap`.
#[verifier::external_body]
pub struct ComponentCache {
    map: hashbrown::HashMap<(u64, u64), Component>,
}

/// What the cache holds: for each pair of entity number and kind number
/// that has an entry, the number of the cached component's kind and the
/// component's serialized value.
pub uninterp spec fn cache_entries(cache: ComponentCache) -> Map<(u64, u64), (u64, Seq<char>)>;

/// `hashbrown::HashMap::new`: a cache without entries.
#[verifier::external_body]
fn cache_new() -> (cache: ComponentCache)
    ensures
        forall|key: (u64, u64)| !cache_entries(cache).contains_key(key),
{
    ComponentCache { map: hashbrown::HashMap::new() }
}

/// `hashbrown::HashMap::get`: the component under the key, if the key has
/// an entry.
#[verifier::external_body]
fn cache_get(cache: &ComponentCache, entity: u64, kind: u64) -> (r: Option<&Component>)
    ensures
        match r {
            Some(c) => cache_entries(*cache).contains_key((entity, kind)) && cache_entries(
                *cache,
            )[(entity, kind)] == (c@.kind.number(), c@.payload),
            None => !cache_entries(*cache).contains_key((entity, kind)),
        },
{
    cache.map.get(&(entity, kind))
}

/// `hashbrown::HashMap::insert`: the key's entry is the given component
/// afterwards, whether or not the key had one; other entries stay.
#[verifier::external_body]
fn cache_insert(cache: &mut ComponentCache, entity: u64, kind: u64, component: Component)
    ensures
        cache_entries(*final(cache)) == cache_entries(*old(cache)).insert(
            (entity, kind),
            (component@.kind.number(), component@.payload),
        ),
{
    cache.map.insert((entity, kind), component);
}

/// `hashbrown::HashMap::remove`: the key has no entry afterwards; other
/// entries stay.
#[verifier::external_body]
fn cache_remove(cache: &mut ComponentCache, entity: u64, kind: u64)
    ensures
        cache_entries(*final(cache)) == cache_entries(*old(cache)).remove((entity, kind)),
{
    cache.map.remove(&(entity, kind));
}

impl ComponentCache {
    /// The cached values: the serialized value under each key that has an
    /// entry.
    pub open spec fn payloads(self) -> Map<(u64, u64), Seq<char>> {
        Map::new(
            |key: (u64, u64)| cache_entries(self).contains_key(key),
            |key: (u64, u64)| cache_entries(self)[key].1,
        )
    }

    /// Every cached component is of the kind that its key names.
    pub open spec fn coherent(self) -> bool {
        forall|key: (u64, u64)| #[trigger]
            cache_entries(self).contains_key(key) ==> cache_entries(self)[key].0 == key.1
    }

    /// An empty cache.
    pub fn new() -> (cache: Self)
        ensures
            cache.coherent(),
            cache.payloads() == Map::<(u64, u64), Seq<char>>::empty(),
    {
        let cache = cache_new();
        assert(cache.payloads() =~= Map::<(u64, u64), Seq<char>>::empty());
        cache
    }

    /// The cached component of the given instance, if there is one.
    pub fn get(&self, entity: EntityId, kind: crate::component::ComponentTypeId) -> (r: Option<
        &Component,
    >)
        requires
            self.coherent(),
        ensures
            match r {
                Some(c) => self.payloads().contains_key((entity.number(), kind.number()))
                    && c@.kind == kind && c@.payload == self.payloads()[(
                    entity.number(),
                    kind.number(),
                )],
                None => !self.payloads().contains_key((entity.number(), kind.number())),
            },
    {
        let r = cache_get(self, entity.id(), kind.get_number());
        proof {
            if let Some(c) = r {
                assert(cache_entries(*self).contains_key((entity.number(), kind.number())));
                crate::component::ComponentTypeId::lemma_number_decides(c@.kind, 0);
                crate::component::ComponentTypeId::lemma_number_decides(kind, 0);
            }
        }
        r
    }

    /// Puts `component` under the instance made of `entity` and the
    /// component's own kind, in place of what was there.
    pub fn insert(&mut self, entity: EntityId, component: Component)
        requires
            old(self).coherent(),
        ensures
            final(self).coherent(),
            final(self).payloads() == old(self).payloads().insert(
                (entity.number(), component@.kind.number()),
                component@.payload,
            ),
    {
        let kind = component.get_type_id().get_number();
        cache_insert(self, entity.id(), kind, component);
        assert(self.payloads() =~= old(self).payloads().insert(
            (entity.number(), kind),
            component@.payload,
        ));
    }

    /// Takes the entry of the given instance out, if there is one.
    pub fn remove(&mut self, entity: EntityId, kind: crate::component::ComponentTypeId)
        requires
            old(self).coherent(),
        ensures
            final(self).coherent(),
            final(self).payloads() == old(self).payloads().remove(
                (entity.number(), kind.number()),
            ),
    {
        cache_remove(self, entity.id(), kind.get_number());
        assert(self.payloads() =~= old(self).payloads().remove((entity.number(), kind.number())));
    }
}

/// A set of entity ids, by their numbers, in a `hashbrown::HashSet`.
#[verifier::external_body]
pub struct EntitySet {
    set: hashbrown::HashSet<u64>,
}

/// The numbers that the set holds.
pub uninterp spec fn entity_set_members(set: EntitySet) -> Set<u64>;

/// `hashbrown::HashSet::new`: a set without members.
#[verifier::external_body]
fn set_new() -> (set: EntitySet)
    ensures
        entity_set_members(set) == Set::<u64>::empty(),
{
    EntitySet { set: hashbrown::HashSet::new() }
}

/// `hashbrown::HashSet::insert`: the number is a member afterwards; the
/// other members stay.
#[verifier::external_body]
fn set_insert(set: &mut EntitySet, number: u64)
    ensures
        entity_set_members(*final(set)) == entity_set_members(*old(set)).insert(number),
{
    set.set.insert(number);
}

/// `hashbrown::HashSet::contains`: whether the number is a member.
#[verifier::external_body]
fn set_contains(set: &EntitySet, number: u64) -> (b: bool)
    ensures
        b == entity_set_members(*set).contains(number),
{
    set.set.contains(&number)
}

/// `hashbrown::HashSet::iter`, collected: every member once, in no
/// particular order.
#[verifier::external_body]
fn set_to_vec(set: &EntitySet) -> (v: Vec<u64>)
    ensures
        v@.no_duplicates(),
        v@.to_set() == entity_set_members(*set),
{
    set.set.iter().copied().collect()
}

impl EntitySet {
    /// The numbers of the entities in this set.
    pub open spec fn members(self) -> Set<u64> {
        entity_set_members(self)
    }

    /// The empty set.
    pub fn new() -> (set: Self)
        ensures
            set.members() == Set::<u64>::empty(),
    {
        set_new()
    }

    /// Adds `entity` to the set.
    pub fn insert(&mut self, entity: EntityId)
        ensures
            final(self).members() == old(self).members().insert(entity.number()),
    {
        set_insert(self, entity.id());
    }

    /// Whether `entity` is in the set.
    pub fn contains(&self, entity: EntityId) -> (b: bool)
        ensures
            b == self.members().contains(entity.number()),
    {
        set_contains(self, entity.id())
    }

    /// The entities of the set, each once, in no particular order.
    pub fn to_vec(&self) -> (v: Vec<EntityId>)
        ensures
            v@.len() == self.members().len(),
            v@.no_duplicates(),
            forall|n: u64|
                self.members().contains(n) <==> v@.contains(#[trigger] EntityId::from_number(n)),
    {
        let numbers = set_to_vec(self);
        let mut v: Vec<EntityId> = Vec::new();
        let mut i: usize = 0;
        while i < numbers.len()
            invariant
                i <= numbers.len(),
                v@.len() == i,
                forall|j: int| 0 <= j < i ==> v@[j] == EntityId::from_number(numbers@[j]),
            decreases numbers.len() - i,
        {
            v.push(EntityId::new_with_number(numbers[i]));
            i = i + 1;
        }
        proof {
            numbers@.unique_seq_to_set();
            assert forall|a: int, b: int| 0 <= a < v@.len() && 0 <= b < v@.len() && a != b implies v@[a]
                != v@[b] by {
                EntityId::lemma_number_decides(v@[a], numbers@[a]);
                EntityId::lemma_number_decides(v@[b], numbers@[b]);
            }
            assert forall|n: u64|
                self.members().contains(n) <==> v@.contains(
                    #[trigger] EntityId::from_number(n),
                ) by {
                if self.members().contains(n) {
                    assert(numbers@.to_set().contains(n));
                    let j = choose|j: int| 0 <= j < numbers@.len() && numbers@[j] == n;
                    assert(v@[j] == EntityId::from_number(n));
                }
                if v@.contains(EntityId::from_number(n)) {
                    let j = choose|j: int| 0 <= j < v@.len() && v@[j] == EntityId::from_number(n);
                    EntityId::lemma_number_decides(v@[j], numbers@[j]);
                    EntityId::lemma_number_decides(v@[j], n);
                    assert(numbers@[j] == n);
                    assert(numbers@.contains(n));
                }
            }
        }
        v
    }
}

} // verus!
