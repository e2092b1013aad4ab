//! Chunks of the block grid and the arithmetic between block positions and
//! chunk ids.

use vstd::prelude::*;
use crate::block_type::BlockTypeId;
use crate::text::{decimal_text, push_radix};

verus! {

/// Side length of a chunk, in blocks.
pub const CHUNK_SIZE: usize = 32;

/// A square of `CHUNK_SIZE` by `CHUNK_SIZE` blocks, each given by its type.
#[derive(Debug, Clone)]
pub struct Chunk {
    blocks: [[BlockTypeId; 32]; 32],
}

impl Chunk {
    /// The blocks of this chunk, row by row.
    pub closed spec fn blocks(self) -> [[BlockTypeId; 32]; 32] {
        self.blocks
    }

    pub fn new_from_array(blocks: [[BlockTypeId; 32]; 32]) -> (c: Self)
        ensures
            c.blocks() == blocks,
    {
        Self { blocks }
    }

    /// The type of the block at row `x`, column `y` of this chunk.
    pub fn block_at(&self, x: usize, y: usize) -> (b: BlockTypeId)
        requires
            x < CHUNK_SIZE,
            y < CHUNK_SIZE,
        ensures
            b == self.blocks()[x as int][y as int],
    {
        self.blocks[x][y]
    }
}

/// Identifies a chunk: the chunk's column in the upper 32 bits, its row in
/// the lower 32 bits.
#[derive(Eq, Hash, PartialEq, Copy, Clone, Debug, Structural)]
pub struct ChunkId(u64);

/// A position on the block grid, or of a chunk on the chunk grid.
pub type Position = (u32, u32);

impl ChunkId {
    /// The number behind this identifier.
    pub closed spec fn number(self) -> u64 {
        self.0
    }

    /// The identifier with the given number.
    pub closed spec fn from_number(n: u64) -> Self {
        ChunkId(n)
    }

    pub fn new_raw(y: u64) -> (r: Self)
        ensures
            r == Self::from_number(y),
            r.number() == y,
    {
        ChunkId(y)
    }

    pub fn id(&self) -> (n: u64)
        ensures
            n == self.number(),
            Self::from_number(n) == *self,
    {
        self.0
    }

    /// The printed form: `chunk<x,y>` with the chunk's position in decimal.
    pub open spec fn display_text(self) -> Seq<char> {
        "chunk<"@ + decimal_text(chunk_position(self.number()).0 as nat) + ","@ + decimal_text(
            chunk_position(self.number()).1 as nat,
        ) + ">"@
    }

    pub fn to_string(&self) -> (s: String)
        ensures
            s@ == self.display_text(),
    {
        let (x, y) = position_of_chunk(ChunkId(self.0));
        let mut s = String::from_str("chunk<");
        push_radix(&mut s, x as u64, false);
        s.append(",");
        push_radix(&mut s, y as u64, false);
        s.append(">");
        s
    }
}

/// The number of the chunk at position `(x, y)` of the chunk grid.
pub open spec fn chunk_number(x: u32, y: u32) -> u64 {
    (x as u64 * 0x1_0000_0000 + y as u64) as u64
}

/// The position on the chunk grid of the chunk with the given number.
pub open spec fn chunk_position(n: u64) -> Position {
    ((n / 0x1_0000_0000) as u32, (n % 0x1_0000_0000) as u32)
}

/// The chunk that holds the block at `position`.
pub fn chunk_id_from_position(position: (u32, u32)) -> (id: ChunkId)
    ensures
        id.number() == chunk_number(position.0 / 32, position.1 / 32),
{
    let x: u64 = (position.0 / CHUNK_SIZE as u32) as u64;
    let y: u64 = (position.1 / CHUNK_SIZE as u32) as u64;
    assert((x << 32) | y == x * 0x1_0000_0000 + y) by (bit_vector)
        requires
            x <= 0xffff_ffff,
            y <= 0xffff_ffff,
    ;
    ChunkId::new_raw(ChunkId::new_raw(x << 32).id() | y)
}

/// Where the block at `position` lies within its chunk.
pub fn convert_to_chunk_relative_position(position: Position) -> (r: Position)
    ensures
        r == (position.0 % 32, position.1 % 32),
{
    let x = position.0;
    let y = position.1;
    assert(x & 31 == x % 32) by (bit_vector);
    assert(y & 31 == y % 32) by (bit_vector);
    (position.0 & (CHUNK_SIZE as u32 - 1), position.1 & (CHUNK_SIZE as u32 - 1))
}

/// The position of a chunk on the chunk grid.
pub fn position_of_chunk(chunk_id: ChunkId) -> (r: Position)
    ensures
        r == chunk_position(chunk_id.number()),
{
    let n = chunk_id.id();
    assert(n >> 32 == n / 0x1_0000_0000) by (bit_vector);
    assert((n >> 32) <= 0xffff_ffff) by (bit_vector);
    assert(n as u32 == n % 0x1_0000_0000) by (bit_vector);
    ((n >> 32) as u32, n as u32)
}

/// A chunk id made from a block position leads back to that block's chunk:
/// the position divided by the chunk size; and every block position is its
/// chunk's corner plus its position within the chunk.
pub proof fn lemma_chunk_round_trip(position: Position)
    ensures
        chunk_position(chunk_number(position.0 / 32, position.1 / 32)) == (
            position.0 / 32,
            position.1 / 32,
        ),
        position.0 == (position.0 / 32) * 32 + position.0 % 32,
        position.1 == (position.1 / 32) * 32 + position.1 % 32,
{
}

} // verus!
