//! Chunk store, payload codec and mesh builder tests: bounds-checked
//! cell access, lossless pack and unpack, and face culling against
//! loaded, absent and out-of-world neighbors.

use chunkcore::chunk::ChunkData;
use chunkcore::chunk_mesh::ChunkMeshData;
use chunkcore::errors::DecodeError;
use chunkcore::positions::{ChunkPos, LocalBlockPos};
use chunkcore::registry::{Block, BlockManager};
use chunkcore::world::World;

const STONE: u16 = 5;

fn test_registry() -> BlockManager {
    BlockManager::new(vec![
        Block { id: 0, name: "air".to_string(), transparent: true },
        Block { id: STONE, name: "stone".to_string(), transparent: false },
        Block { id: 21, name: "dirt".to_string(), transparent: false },
        Block { id: 24, name: "leaves".to_string(), transparent: true },
    ])
}

fn total_vertices(mesh: &ChunkMeshData) -> usize {
    mesh.surfaces.iter().map(|s| s.mesh_data.vertices.len()).sum()
}

#[test]
fn test_block_manager() {
    let manager = test_registry();
    let block = manager.block("air").unwrap();
    assert_eq!(block.id, 0);
    assert_eq!(block.transparent, true);
    let block = manager.block("dirt").unwrap();
    assert_eq!(block.id, 21);
    assert_eq!(block.transparent, false);

    assert!(manager.transparent_blocks.contains(&24));
    assert!(manager.transparent_blocks.contains(&0));
    assert!(!manager.transparent_blocks.contains(&21));
    assert!(manager.block("granite").is_none());
    assert!(manager.is_transparent(24));
    assert!(!manager.is_transparent(21));
    // an unknown identifier is opaque
    assert!(!manager.is_transparent(999));
}

#[test]
fn test_get_set_air_start() {
    let position = ChunkPos::new(0, 0);
    let mut chunk = ChunkData::new(position);
    // a fresh chunk is all air
    assert_eq!(chunk.get(LocalBlockPos::new(3, 100, 3, position)), 0);
    assert_eq!(chunk.get_air_start(3, 3), Some(0));
    // ground up to and including y = 4
    for y in 0..5 {
        chunk.set(LocalBlockPos::new(3, y, 3, position), STONE);
    }
    assert_eq!(chunk.get(LocalBlockPos::new(3, 4, 3, position)), STONE);
    assert_eq!(chunk.get(LocalBlockPos::new(3, 5, 3, position)), 0);
    assert_eq!(chunk.get_air_start(3, 3), Some(5));
    // a fully solid column has no air start
    for y in 0..512 {
        chunk.set(LocalBlockPos::new(7, y, 7, position), STONE);
    }
    assert_eq!(chunk.get_air_start(7, 7), None);
}

#[test]
fn test_pack_unpack_roundtrip() {
    let position = ChunkPos::new(4, -2);
    let mut chunk = ChunkData::new(position);
    chunk.set(LocalBlockPos::new(0, 0, 0, position), 1);
    chunk.set(LocalBlockPos::new(31, 511, 31, position), 7);
    chunk.set(LocalBlockPos::new(13, 200, 27, position), 21);
    let packed = chunk.pack();
    // byte layout: per cell, light level then block type, each as a
    // little-endian 16-bit integer; cell (0, 0, 0) comes first
    let mut decompressed = Vec::new();
    lzzzz::lz4f::decompress_to_vec(&packed, &mut decompressed).unwrap();
    assert_eq!(decompressed.len(), 32 * 512 * 32 * 2 * 2);
    assert_eq!(&decompressed[0..4], &[0, 0, 1, 0]);
    let unpacked = ChunkData::unpack(position, &packed).unwrap();
    assert_eq!(unpacked.position(), position);
    for (x, y, z, id) in [
        (0usize, 0usize, 0usize, 1u16),
        (31, 511, 31, 7),
        (13, 200, 27, 21),
        (5, 5, 5, 0),
    ] {
        assert_eq!(unpacked.get(LocalBlockPos::new(x, y, z, position)), id);
    }
}

#[test]
fn test_unpack_rejects_malformed() {
    let position = ChunkPos::new(0, 0);
    // not an LZ4 frame at all
    let garbage = vec![1u8, 2, 3, 4, 5];
    assert_eq!(
        ChunkData::unpack(position, &garbage).err(),
        Some(DecodeError::BadStream)
    );
    // a well-formed frame whose decompressed data has the wrong length
    let mut short = Vec::new();
    let prefs = lzzzz::lz4f::Preferences::default();
    lzzzz::lz4f::compress_to_vec(&[0u8; 16], &mut short, &prefs).unwrap();
    assert_eq!(
        ChunkData::unpack(position, &short).err(),
        Some(DecodeError::BadLength)
    );
}

#[test]
fn test_isolated_block_six_faces() {
    let registry = test_registry();
    let position = ChunkPos::new(0, 0);
    let mut chunk = ChunkData::new(position);
    chunk.set(LocalBlockPos::new(5, 100, 5, position), STONE);
    let world = World::new();
    let mesh = ChunkMeshData::new_from_chunk_data(&chunk, &world, &registry);
    // one isolated opaque block surrounded by air: exactly 6 faces,
    // two triangles each
    assert_eq!(mesh.surfaces.len(), 1);
    assert_eq!(mesh.surfaces[0].block_id, STONE);
    assert_eq!(mesh.surfaces[0].mesh_data.vertices.len(), 36);
    assert_eq!(mesh.surfaces[0].mesh_data.normals.len(), 36);
    assert_eq!(mesh.surfaces[0].mesh_data.uvs.len(), 36);
    assert_eq!(mesh.surfaces[0].mesh_data.colors.len(), 36);
    assert_eq!(mesh.build_collision_shape().len(), 36);
    // the scan emits the top face first: its normal points up, its
    // vertices sit at the block's own height, and its atlas tile
    // coordinates come from the x and z axes in the top tile row
    let data = &mesh.surfaces[0].mesh_data;
    for k in 0..6 {
        assert_eq!((data.normals[k].x, data.normals[k].y, data.normals[k].z), (0, 1, 0));
        assert_eq!(data.vertices[k].y, 100);
        assert_eq!(data.colors[k], (255, 255, 255, 255));
    }
    let top_uvs: Vec<(u8, u8)> = data.uvs[0..6].to_vec();
    assert_eq!(top_uvs, vec![(0, 0), (1, 0), (0, 1), (1, 0), (1, 1), (0, 1)]);
}

#[test]
fn test_air_is_transparent_without_registry_entry() {
    // air lets faces through even when the registry does not list it
    let registry = BlockManager::new(vec![
        Block { id: STONE, name: "stone".to_string(), transparent: false },
    ]);
    let position = ChunkPos::new(0, 0);
    let mut chunk = ChunkData::new(position);
    chunk.set(LocalBlockPos::new(5, 100, 5, position), STONE);
    let mesh = ChunkMeshData::new_from_chunk_data(&chunk, &World::new(), &registry);
    assert_eq!(total_vertices(&mesh), 36);
}

#[test]
fn test_enclosed_block_no_faces() {
    let registry = test_registry();
    let position = ChunkPos::new(0, 0);
    let mut chunk = ChunkData::new(position);
    // a block with all six neighbors opaque contributes no faces
    chunk.set(LocalBlockPos::new(10, 100, 10, position), STONE);
    for (dx, dy, dz) in [(1i32, 0i32, 0i32), (-1, 0, 0), (0, 1, 0), (0, -1, 0), (0, 0, 1), (0, 0, -1)]
    {
        let x = (10 + dx) as usize;
        let y = (100 + dy) as usize;
        let z = (10 + dz) as usize;
        chunk.set(LocalBlockPos::new(x, y, z, position), STONE);
    }
    let world = World::new();
    let mesh = ChunkMeshData::new_from_chunk_data(&chunk, &world, &registry);
    // the six neighbors each show five faces; the center shows none
    assert_eq!(total_vertices(&mesh), 6 * 5 * 6);
}

#[test]
fn test_boundary_faces() {
    let registry = test_registry();
    let position = ChunkPos::new(0, 0);
    let mut chunk = ChunkData::new(position);
    // a block at the chunk floor always draws its bottom face, and a
    // block at the x = 0 boundary with no loaded neighbor draws its
    // x- face: both stay at the full six faces
    chunk.set(LocalBlockPos::new(0, 0, 5, position), STONE);
    let world = World::new();
    let mesh = ChunkMeshData::new_from_chunk_data(&chunk, &world, &registry);
    assert_eq!(total_vertices(&mesh), 36);
    // the bottom face's vertices lie below the block
    let has_bottom_vertex = mesh.surfaces[0]
        .mesh_data
        .vertices
        .iter()
        .any(|v| v.y == -1);
    assert!(has_bottom_vertex);
}

#[test]
fn test_loaded_neighbor_culls_face() {
    let registry = test_registry();
    let position = ChunkPos::new(0, 0);
    let mut chunk = ChunkData::new(position);
    chunk.set(LocalBlockPos::new(31, 100, 5, position), STONE);

    let neighbor_position = ChunkPos::new(1, 0);
    let mut neighbor = ChunkData::new(neighbor_position);
    neighbor.set(LocalBlockPos::new(0, 100, 5, neighbor_position), STONE);

    let mut world = World::new();
    world.add_chunk(neighbor);
    let mesh = ChunkMeshData::new_from_chunk_data(&chunk, &world, &registry);
    // the x+ face is culled against the loaded neighbor's opaque block
    assert_eq!(total_vertices(&mesh), 30);
}
