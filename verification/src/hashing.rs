//! The name hash behind component type ids and block type ids.

use vstd::prelude::*;

verus! {

/// Start value of the hash.
pub const HASH_BASIS: u64 = 0xcbf2_9ce4_8422_2325;

/// Multiplier of the hash.
pub const HASH_PRIME: u64 = 0x0000_0100_0000_01b3;

/// The hash after one more byte: exclusive or, then multiplication modulo 2^64.
pub open spec fn hash_step(h: u64, byte: u8) -> u64 {
    (h ^ (byte as u64)).wrapping_mul(HASH_PRIME)
}

/// The hash of a run of bytes, folded from the left, starting from `h`.
pub open spec fn hash_bytes(h: u64, bytes: Seq<u8>) -> u64
    decreases bytes.len(),
{
    if bytes.len() == 0 {
        h
    } else {
        hash_step(hash_bytes(h, bytes.drop_last()), bytes.last())
    }
}

/// The hash of a name: 64-bit FNV-1a over its UTF-8 bytes. It depends on the
/// characters alone, so it is the same in every process.
pub open spec fn string_hash_spec(name: Seq<char>) -> u64 {
    hash_bytes(HASH_BASIS, vstd::utf8::encode_utf8(name))
}

pub fn string_hash(name: &str) -> (h: u64)
    ensures
        h == string_hash_spec(name@),
{
    let bytes = name.as_bytes();
    let mut h: u64 = HASH_BASIS;
    let mut i: usize = 0;
    assert(bytes@.subrange(0, 0) =~= Seq::<u8>::empty());
    while i < bytes.len()
        invariant
            i <= bytes.len(),
            h == hash_bytes(HASH_BASIS, bytes@.subrange(0, i as int)),
        decreases bytes.len() - i,
    {
        proof {
            let upto = bytes@.subrange(0, i as int + 1);
            assert(upto.drop_last() =~= bytes@.subrange(0, i as int));
        }
        h = (h ^ (bytes[i] as u64)).wrapping_mul(HASH_PRIME);
        i = i + 1;
    }
    assert(bytes@.subrange(0, i as int) =~= bytes@);
    h
}

} // verus!
