//! Entity identity: an opaque 64-bit value, drawn at random.

use vstd::prelude::*;
use crate::text::{push_radix, upper_hex_text};

verus! {

/// Identifies one logical game entity. Equality is by value.
#[derive(Clone, Copy, PartialEq, Eq, Hash, Debug, Structural)]
pub struct EntityId(u64);

/// Draws one 64-bit value from `rand`'s thread-local generator
/// (`rand::thread_rng` and `Rng::gen`). Nothing is claimed of the value.
#[verifier::external_body]
fn random_u64() -> u64 {
    rand::Rng::gen::<u64>(&mut rand::thread_rng())
}

impl EntityId {
    /// The number behind this identifier.
    pub closed spec fn number(self) -> u64 {
        self.0
    }

    /// The identifier with the given number.
    pub closed spec fn from_number(id: u64) -> Self {
        EntityId(id)
    }

    pub fn new_with_number(id: u64) -> (r: Self)
        ensures
            r == Self::from_number(id),
    {
        EntityId(id)
    }

    /// A fresh identifier with a random number. No registry of issued
    /// identifiers exists, so uniqueness rests on the size of the space.
    pub fn new() -> Self {
        EntityId(random_u64())
    }

    /// An entity id is its number and nothing else.
    pub proof fn lemma_number_decides(a: Self, n: u64)
        ensures
            Self::from_number(n).number() == n,
            Self::from_number(a.number()) == a,
    {
    }

    pub fn id(&self) -> (n: u64)
        ensures
            n == self.number(),
    {
        self.0
    }

    /// The printed form: `entity<` , the number in upper-case hexadecimal, `>`.
    pub open spec fn display_text(self) -> Seq<char> {
        "entity<"@ + upper_hex_text(self.number() as nat) + ">"@
    }

    pub fn to_string(&self) -> (s: String)
        ensures
            s@ == self.display_text(),
    {
        let mut s = String::from_str("entity<");
        push_radix(&mut s, self.0, true);
        s.append(">");
        s
    }
}

impl Default for EntityId {
    fn default() -> (r: Self)
        ensures
            r == EntityId::from_number(0),
    {
        EntityId(0)
    }
}

} // verus!
