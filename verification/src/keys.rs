//! The key space of the backend. Every key of a world starts with the
//! world's name and a colon:
//!
//! | key                      | holds                                   |
//! |--------------------------|-----------------------------------------|
//! | `{world}:{entity}:{type}`| the serialized component                |
//! | `{world}:{entity}`       | the set of type ids present on entity   |
//! | `{world}:{type}`         | the set of entity ids that have type    |
//!
//! Ids are written in decimal. A world's name holds no colon, so that the
//! namespaces of two worlds never overlap.

use vstd::prelude::*;
use crate::component::ComponentTypeId;
use crate::entity_id::EntityId;
use crate::text::{
    chars_of, decimal_digit, decimal_text, lemma_decimal_text_injective,
    lemma_decimal_text_value, push_radix,
};

verus! {

/// What every key of the world `world` starts with.
pub open spec fn namespace_prefix(world: Seq<char>) -> Seq<char> {
    world + seq![':']
}

/// The key of an index set: the set of type ids on the entity with number
/// `id`, or the set of entity ids that have the type with number `id`.
pub open spec fn index_key(world: Seq<char>, id: u64) -> Seq<char> {
    namespace_prefix(world) + decimal_text(id as nat)
}

/// The key of the data record of the component `kind` on `entity`.
pub open spec fn data_key(world: Seq<char>, entity: u64, kind: u64) -> Seq<char> {
    index_key(world, entity) + seq![':'] + decimal_text(kind as nat)
}

/// The pattern that asks the backend for the keys of `world`.
pub open spec fn namespace_pattern(world: Seq<char>) -> Seq<char> {
    namespace_prefix(world) + seq!['*']
}

/// Whether `world` can name a world: it holds no colon. The namespaces of
/// two different such names have no key in common.
pub open spec fn valid_world_name(world: Seq<char>) -> bool {
    !world.contains(':')
}

/// `text` starts with `prefix`.
pub open spec fn starts_with(text: Seq<char>, prefix: Seq<char>) -> bool {
    prefix.len() <= text.len() && text.subrange(0, prefix.len() as int) == prefix
}

/// `{world}:{entity}:{type}`: where the component's serialized value lives.
pub fn component_data_key(world: &str, entity: EntityId, kind: ComponentTypeId) -> (key: String)
    ensures
        key@ == data_key(world@, entity.number(), kind.number()),
{
    let mut key = String::from_str(world);
    proof {
        reveal_strlit(":");
        assert(":"@ =~= seq![':']);
    }
    key.append(":");
    push_radix(&mut key, entity.id(), false);
    key.append(":");
    push_radix(&mut key, kind.get_number(), false);
    key
}

/// `{world}:{entity}`: the set of type ids present on the entity.
pub fn entity_key(world: &str, entity: EntityId) -> (key: String)
    ensures
        key@ == index_key(world@, entity.number()),
{
    numbered_key(world, entity.id())
}

/// `{world}:{type}`: the set of entity ids that have the type.
pub fn component_entity_key(world: &str, kind: ComponentTypeId) -> (key: String)
    ensures
        key@ == index_key(world@, kind.number()),
{
    numbered_key(world, kind.get_number())
}

fn numbered_key(world: &str, id: u64) -> (key: String)
    ensures
        key@ == index_key(world@, id),
{
    let mut key = String::from_str(world);
    proof {
        reveal_strlit(":");
        assert(":"@ =~= seq![':']);
    }
    key.append(":");
    push_radix(&mut key, id, false);
    key
}

/// `{world}:*`: the pattern that matches the keys of the world.
pub fn world_key_pattern(world: &str) -> (pattern: String)
    ensures
        pattern@ == namespace_pattern(world@),
{
    let mut pattern = String::from_str(world);
    proof {
        reveal_strlit(":*");
        assert(":*"@ =~= seq![':', '*']);
        assert(world@ + seq![':', '*'] =~= world@ + seq![':'] + seq!['*']);
    }
    pattern.append(":*");
    pattern
}

/// Whether `world` can name a world.
pub fn is_world_name(world: &str) -> (b: bool)
    ensures
        b == valid_world_name(world@),
{
    let chars = chars_of(world);
    let mut i: usize = 0;
    while i < chars.len()
        invariant
            i <= chars.len(),
            chars@ == world@,
            forall|j: int| 0 <= j < i ==> chars@[j] != ':',
        decreases chars.len() - i,
    {
        if chars[i] == ':' {
            assert(world@[i as int] == ':');
            return false;
        }
        i = i + 1;
    }
    true
}

/// Whether `key` lies in the namespace of `world`.
pub fn key_in_world(key: &str, world: &str) -> (b: bool)
    ensures
        b == starts_with(key@, namespace_prefix(world@)),
{
    let k = chars_of(key);
    let w = chars_of(world);
    if k.len() <= w.len() {
        return false;
    }
    let mut i: usize = 0;
    while i < w.len()
        invariant
            i <= w.len() < k.len(),
            k@ == key@,
            w@ == world@,
            forall|j: int| 0 <= j < i ==> k[j] == w[j],
        decreases w.len() - i,
    {
        if k[i] != w[i] {
            proof {
                let p = namespace_prefix(world@);
                if starts_with(key@, p) {
                    assert(key@.subrange(0, p.len() as int)[i as int] == p[i as int]);
                }
            }
            return false;
        }
        i = i + 1;
    }
    let b = k[w.len()] == ':';
    proof {
        let p = namespace_prefix(world@);
        if b {
            assert(key@.subrange(0, p.len() as int) =~= p);
        } else if starts_with(key@, p) {
            assert(key@.subrange(0, p.len() as int)[w.len() as int] == p[w.len() as int]);
        }
    }
    b
}

/// No colon stands in the decimal text of a number.
pub proof fn lemma_decimal_text_has_no_colon(n: nat)
    ensures
        forall|i: int| 0 <= i < decimal_text(n).len() ==> decimal_text(n)[i] != ':',
{
    lemma_decimal_text_value(n);
    assert forall|i: int| 0 <= i < decimal_text(n).len() implies decimal_text(n)[i] != ':' by {
        assert(decimal_digit(decimal_text(n)[i]) is Some);
    }
}

/// A text that ends in a colon and a number can be taken apart in one way
/// only.
pub proof fn lemma_numbered_suffix(a: Seq<char>, m: nat, b: Seq<char>, n: nat)
    requires
        a + seq![':'] + decimal_text(m) == b + seq![':'] + decimal_text(n),
    ensures
        a == b,
        m == n,
{
    let s = a + seq![':'] + decimal_text(m);
    let t = b + seq![':'] + decimal_text(n);
    lemma_decimal_text_has_no_colon(m);
    lemma_decimal_text_has_no_colon(n);
    assert(s.len() == a.len() + 1 + decimal_text(m).len());
    assert(t.len() == b.len() + 1 + decimal_text(n).len());
    if a.len() < b.len() {
        assert(t[b.len() as int] == ':');
        assert(s[b.len() as int] == decimal_text(m)[b.len() - a.len() - 1]);
        assert(false);
    }
    if b.len() < a.len() {
        assert(s[a.len() as int] == ':');
        assert(t[a.len() as int] == decimal_text(n)[a.len() - b.len() - 1]);
        assert(false);
    }
    assert(a =~= b) by {
        assert forall|i: int| 0 <= i < a.len() implies a[i] == b[i] by {
            assert(s[i] == a[i]);
            assert(t[i] == b[i]);
        }
    }
    assert(decimal_text(m) =~= decimal_text(n)) by {
        assert forall|i: int| 0 <= i < decimal_text(m).len() implies decimal_text(m)[i]
            == decimal_text(n)[i] by {
            assert(s[a.len() + 1 + i] == decimal_text(m)[i]);
            assert(t[b.len() + 1 + i] == decimal_text(n)[i]);
        }
    }
    lemma_decimal_text_injective(m, n);
}

/// Within a world, an index key belongs to one id only.
pub proof fn lemma_index_key_injective(world: Seq<char>, a: u64, b: u64)
    requires
        index_key(world, a) == index_key(world, b),
    ensures
        a == b,
{
    lemma_numbered_suffix(world, a as nat, world, b as nat);
}

/// Within a world, a data key belongs to one entity and one type only.
pub proof fn lemma_data_key_injective(world: Seq<char>, e1: u64, k1: u64, e2: u64, k2: u64)
    requires
        data_key(world, e1, k1) == data_key(world, e2, k2),
    ensures
        e1 == e2,
        k1 == k2,
{
    lemma_numbered_suffix(index_key(world, e1), k1 as nat, index_key(world, e2), k2 as nat);
    lemma_index_key_injective(world, e1, e2);
}

/// Within a world, no data key is an index key.
pub proof fn lemma_data_key_is_no_index_key(world: Seq<char>, entity: u64, kind: u64, id: u64)
    ensures
        data_key(world, entity, kind) != index_key(world, id),
{
    if data_key(world, entity, kind) == index_key(world, id) {
        lemma_numbered_suffix(index_key(world, entity), kind as nat, world, id as nat);
        assert(index_key(world, entity).len() > world.len());
    }
}

/// Every key of a world lies in the world's namespace.
pub proof fn lemma_keys_in_namespace(world: Seq<char>, entity: u64, kind: u64)
    ensures
        starts_with(index_key(world, entity), namespace_prefix(world)),
        starts_with(data_key(world, entity, kind), namespace_prefix(world)),
{
    let p = namespace_prefix(world);
    assert(index_key(world, entity).subrange(0, p.len() as int) =~= p);
    assert(data_key(world, entity, kind).subrange(0, p.len() as int) =~= p);
}

/// The namespaces of two different worlds do not meet: no text lies in
/// both.
pub proof fn lemma_namespaces_disjoint(first: Seq<char>, second: Seq<char>, key: Seq<char>)
    requires
        valid_world_name(first),
        valid_world_name(second),
        first != second,
        starts_with(key, namespace_prefix(second)),
    ensures
        !starts_with(key, namespace_prefix(first)),
{
    let p = namespace_prefix(first);
    let q = namespace_prefix(second);
    if starts_with(key, p) {
        assert forall|i: int| 0 <= i < p.len() implies key[i] == p[i] by {
            assert(key.subrange(0, p.len() as int)[i] == key[i]);
        }
        assert forall|i: int| 0 <= i < q.len() implies key[i] == q[i] by {
            assert(key.subrange(0, q.len() as int)[i] == key[i]);
        }
        if first.len() < second.len() {
            assert(key[first.len() as int] == ':');
            assert(second[first.len() as int] == ':');
            assert(second.contains(':'));
        } else if second.len() < first.len() {
            assert(key[second.len() as int] == ':');
            assert(first[second.len() as int] == ':');
            assert(first.contains(':'));
        } else {
            assert(first =~= second) by {
                assert forall|i: int| 0 <= i < first.len() implies first[i] == second[i] by {
                    assert(p[i] == first[i]);
                    assert(q[i] == second[i]);
                }
            }
        }
    }
}

} // verus!
