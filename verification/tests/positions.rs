//! Coordinate system tests: the floor-division chunk mapping, origin
//! and conversion round trips, and local and global offsets.

use chunkcore::positions::{BlockOffset, ChunkPos, GlobalBlockPos, LocalBlockPos, OutOfBoundsError};
use chunkcore::errors::{NotLoadedError, OffsetError};

fn gbp_case(global: [isize; 3], chunk: [isize; 2], local: [usize; 3]) {
    let gbp = GlobalBlockPos::new(global[0], global[1], global[2]);
    let expected_chunk_pos = ChunkPos::new(chunk[0], chunk[1]);
    assert_eq!(gbp.chunk(), expected_chunk_pos);
    let expected_local_pos = LocalBlockPos::new(
        local[0],
        local[1],
        local[2],
        expected_chunk_pos,
    );
    assert_eq!(gbp.to_local(), expected_local_pos);
}

#[test]
fn test_global_block_pos() {
    // Global position (base), chunk position (expected), local position (expected)
    gbp_case([0, 0, 0], [0, 0], [0, 0, 0]);
    gbp_case([0, 0, 0], [0, 0], [0, 0, 0]);
    gbp_case([31, 0, 31], [0, 0], [31, 0, 31]);
    gbp_case([32, 0, 32], [1, 1], [0, 0, 0]);
    gbp_case([63, 0, 63], [1, 1], [31, 0, 31]);
    gbp_case([64, 0, 64], [2, 2], [0, 0, 0]);
    gbp_case([-1, 0, -1], [-1, -1], [31, 0, 31]);
    gbp_case([-32, 0, -32], [-1, -1], [0, 0, 0]);
    gbp_case([-33, 0, -33], [-2, -2], [31, 0, 31]);
    gbp_case([-64, 0, -100], [-2, -4], [0, 0, 28]);
    gbp_case([-64, 0, -97], [-2, -4], [0, 0, 31]);
    gbp_case([-64, 0, -96], [-2, -3], [0, 0, 0]);
    gbp_case([32, 0, -64], [1, -2], [0, 0, 0]);
    gbp_case([36, 0, -60], [1, -2], [4, 0, 4]);
    gbp_case([36, 0, -68], [1, -3], [4, 0, 28]);
}

fn origin_case(chunk: [isize; 2], global: [isize; 3]) {
    let chunk = ChunkPos::new(chunk[0], chunk[1]);
    assert_eq!(
        chunk.origin(),
        GlobalBlockPos::new(global[0], global[1], global[2])
    );
}

#[test]
fn test_chunk_origin() {
    // Chunk position (base), origin block position (expected)
    origin_case([-1, -1], [-32, 0, -32]);
    origin_case([0, 0], [0, 0, 0]);
    origin_case([1, 1], [32, 0, 32]);
    origin_case([2, 2], [64, 0, 64]);
    origin_case([-2, -2], [-64, 0, -64]);
    origin_case([-2, -1], [-64, 0, -32]);
    origin_case([-4, 3], [-128, 0, 96]);
}

fn lbp_to_gbp_case(local: [usize; 3], chunk: [isize; 2], global: [isize; 3]) {
    let chunk_pos = ChunkPos::new(chunk[0], chunk[1]);
    let lbp = LocalBlockPos::new(local[0], local[1], local[2], chunk_pos);
    let converted = lbp.to_global();
    assert_eq!(
        converted,
        GlobalBlockPos::new(global[0], global[1], global[2])
    );
    assert_eq!(chunk_pos, converted.chunk());
}

#[test]
fn test_conversions() {
    // Local block position (base), chunk position (base), global block position (expected)
    lbp_to_gbp_case([0, 0, 0], [0, 0], [0, 0, 0]);
    lbp_to_gbp_case([1, 0, 1], [0, 0], [1, 0, 1]);
    lbp_to_gbp_case([31, 0, 31], [0, 0], [31, 0, 31]);
    lbp_to_gbp_case([0, 0, 0], [1, 1], [32, 0, 32]);
    lbp_to_gbp_case([0, 0, 0], [-1, -1], [-32, 0, -32]);
}

fn lbp_offset_case(
    local: [usize; 3],
    chunk: [isize; 2],
    offset: [isize; 3],
    end: [usize; 3],
    end_chunk: [isize; 2],
) {
    let initial = LocalBlockPos::new(
        local[0],
        local[1],
        local[2],
        ChunkPos::new(chunk[0], chunk[1]),
    );
    let offset = BlockOffset::new(offset[0], offset[1], offset[2]);
    assert_eq!(
        initial.offset(offset).unwrap(),
        LocalBlockPos::new(end[0], end[1], end[2], ChunkPos::new(end_chunk[0], end_chunk[1]))
    );
}

#[test]
fn test_local_offest() {
    lbp_offset_case([4, 0, 4], [0, 0], [0, 0, 0], [4, 0, 4], [0, 0]);
    lbp_offset_case([20, 0, 20], [0, 0], [2, 0, 2], [22, 0, 22], [0, 0]);
}

fn lbp_global_offset_case(
    local: [usize; 3],
    chunk: [isize; 2],
    offset: [isize; 3],
    end: [isize; 3],
) {
    let initial = LocalBlockPos::new(
        local[0],
        local[1],
        local[2],
        ChunkPos::new(chunk[0], chunk[1]),
    );
    let offset = BlockOffset::new(offset[0], offset[1], offset[2]);
    assert_eq!(
        initial.offset_global(offset).unwrap(),
        GlobalBlockPos::new(end[0], end[1], end[2])
    );
}

#[test]
fn test_global_offset() {
    lbp_global_offset_case([10, 0, 10], [0, 0], [0, 0, 0], [10, 0, 10]);
    lbp_global_offset_case([31, 0, 31], [0, 0], [1, 0, 1], [32, 0, 32]);
    lbp_global_offset_case([31, 0, 31], [1, 1], [1, 0, 1], [64, 0, 64]);
    lbp_global_offset_case([0, 0, 0], [-1, 0], [0, 0, 0], [-32, 0, 0]);
    lbp_global_offset_case([0, 0, 0], [-1, 0], [4, 2, 0], [-28, 2, 0]);
    lbp_global_offset_case([0, 10, 0], [-1, 0], [-4, 0, 0], [-36, 10, 0]);
}

#[test]
fn test_local_offset_errors() {
    let p = LocalBlockPos::new(31, 0, 31, ChunkPos::new(0, 0));
    // crossing sideways into another chunk
    assert_eq!(
        p.offset(BlockOffset::new(1, 0, 1)),
        Err(OffsetError::DifferentChunk)
    );
    // leaving the world height range downward
    assert_eq!(
        p.offset(BlockOffset::new(0, -1, 0)),
        Err(OffsetError::OutOfBounds)
    );
    // leaving the world height range upward
    let top = LocalBlockPos::new(4, 511, 4, ChunkPos::new(0, 0));
    assert_eq!(
        top.offset(BlockOffset::new(0, 1, 0)),
        Err(OffsetError::OutOfBounds)
    );
}

#[test]
fn test_global_offset_errors() {
    let p = LocalBlockPos::new(0, 0, 0, ChunkPos::new(0, 0));
    assert!(p.offset_global(BlockOffset::new(0, -1, 0)).is_err());
    let g = GlobalBlockPos::new(5, 511, 5);
    assert!(g.offset(BlockOffset::new(0, 1, 0)).is_err());
    assert_eq!(
        g.offset(BlockOffset::new(1, 0, -1)).unwrap(),
        GlobalBlockPos::new(6, 511, 4)
    );
}

#[test]
fn test_error_messages() {
    assert_eq!(
        OutOfBoundsError.message(),
        "block position was offset beyond its boundaries"
    );
    assert_eq!(
        NotLoadedError.message(),
        "The chunk being modified has not been loaded"
    );
    assert_eq!(
        OffsetError::DifferentChunk.message(),
        "tried to offset into different chunk"
    );
    assert_eq!(
        OffsetError::OutOfBounds.message(),
        "tried to offset outside y bounds"
    );
}

#[test]
fn test_adjacent_and_borders() {
    let c = ChunkPos::new(2, -3);
    let adjacent = c.adjacent();
    assert_eq!(
        adjacent,
        [
            ChunkPos::new(3, -3),
            ChunkPos::new(1, -3),
            ChunkPos::new(2, -2),
            ChunkPos::new(2, -4),
        ]
    );

    // an interior block borders nothing
    let interior = LocalBlockPos::new(10, 5, 10, c);
    assert_eq!(interior.borders(), vec![]);
    // a corner block borders two chunks
    let corner = LocalBlockPos::new(0, 5, 31, c);
    assert_eq!(
        corner.borders(),
        vec![ChunkPos::new(1, -3), ChunkPos::new(2, -2)]
    );
    // an edge block borders one chunk
    let edge = LocalBlockPos::new(31, 5, 7, c);
    assert_eq!(edge.borders(), vec![ChunkPos::new(3, -3)]);
}
