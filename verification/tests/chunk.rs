use mmolib::chunk::{
    chunk_id_from_position, convert_to_chunk_relative_position, position_of_chunk, Chunk, ChunkId,
    Position, CHUNK_SIZE,
};

#[test]
fn test_chunks() {
    let p: Position = (32, 64);
    assert_eq!(position_of_chunk(chunk_id_from_position(p)), (1, 2));
    assert_eq!(convert_to_chunk_relative_position(p), (0, 0))
}

#[test]
fn chunk_id_packs_column_and_row() {
    let id = chunk_id_from_position((33, 95));
    assert_eq!(id.id(), (1u64 << 32) | 2);
    assert_eq!(ChunkId::new_raw(7).id(), 7);
    assert_eq!(position_of_chunk(ChunkId::new_raw(u64::MAX)), (u32::MAX, u32::MAX));
    assert_eq!(
        position_of_chunk(chunk_id_from_position((u32::MAX, 0))),
        (u32::MAX / 32, 0)
    );
}

#[test]
fn relative_position_is_the_remainder() {
    assert_eq!(convert_to_chunk_relative_position((33, 95)), (1, 31));
    assert_eq!(convert_to_chunk_relative_position((u32::MAX, 31)), (31, 31));
    for x in [0u32, 1, 31, 32, 1000, u32::MAX] {
        let (cx, _) = position_of_chunk(chunk_id_from_position((x, 0)));
        let (rx, _) = convert_to_chunk_relative_position((x, 0));
        assert_eq!(cx as u64 * 32 + rx as u64, x as u64);
    }
}

#[test]
fn chunk_id_prints_its_position() {
    assert_eq!(chunk_id_from_position((32, 64)).to_string(), "chunk<1,2>");
    assert_eq!(ChunkId::new_raw(0).to_string(), "chunk<0,0>");
    assert_eq!(
        ChunkId::new_raw(u64::MAX).to_string(),
        format!("chunk<{},{}>", u32::MAX, u32::MAX)
    );
}

#[test]
fn chunk_keeps_its_blocks() {
    assert_eq!(CHUNK_SIZE, 32);
    let mut blocks = [[0u64; 32]; 32];
    blocks[3][5] = 42;
    blocks[31][31] = 7;
    let chunk = Chunk::new_from_array(blocks);
    assert_eq!(chunk.block_at(3, 5), 42);
    assert_eq!(chunk.block_at(31, 31), 7);
    assert_eq!(chunk.block_at(0, 0), 0);
}
