//! Generator, waitlist and coordinator tests: strata selection, the
//! cross-chunk waitlist, tree placement across a chunk boundary, and
//! the synchronous edit path.

use chunkcore::chunk::ChunkData;
use chunkcore::chunk_mesh::ChunkMeshData;
use chunkcore::coordinator::ServerChunkCreator;
use chunkcore::features::{Feature, FeatureWaitlist};
use chunkcore::generate::{ChunkGenerator, GenerationConfig, TerrainField};
use chunkcore::performance::Timings;
use chunkcore::positions::{BlockOffset, ChunkPos, GlobalBlockPos, LocalBlockPos};
use chunkcore::registry::{Block, BlockManager};
use chunkcore::trees::{TreePlacement, Trees, LEAVES_BLOCK, TRUNK_BLOCK};
use chunkcore::world::World;

const TOP: u16 = 1;
const DIRT: u16 = 21;
const PEBBLED: u16 = 22;
const FILLER: u16 = 5;
const BOTTOM: u16 = 9;

struct FlatField {
    peak: isize,
}

impl TerrainField for FlatField {
    fn terrain_peak(&self, _x: isize, _z: isize) -> isize {
        self.peak
    }
}

struct NoTrees;

impl TreePlacement for NoTrees {
    fn tree_at(&self, _x: isize, _z: isize) -> bool {
        false
    }
}

struct OneColumn {
    x: isize,
    z: isize,
}

impl TreePlacement for OneColumn {
    fn tree_at(&self, x: isize, z: isize) -> bool {
        x == self.x && z == self.z
    }
}

struct NoFeature;

impl Feature for NoFeature {
    fn add_to_chunk(&self, _chunk_data: &mut ChunkData) -> FeatureWaitlist {
        FeatureWaitlist::new()
    }
}

fn test_config() -> GenerationConfig {
    GenerationConfig {
        top: TOP,
        layers: vec![(4, DIRT), (8, PEBBLED)],
        filler: FILLER,
        bottom: BOTTOM,
    }
}

fn plain_generator(peak: isize) -> ChunkGenerator<FlatField, NoFeature> {
    ChunkGenerator::new(FlatField { peak }, test_config(), Vec::new())
}

#[test]
fn test_generate_block_strata() {
    let generator = plain_generator(10);
    // the single top block exactly at the peak
    assert_eq!(generator.generate_block(10, 10), TOP);
    // the bottom-most layer at y = 0
    assert_eq!(generator.generate_block(0, 10), BOTTOM);
    // air above the peak
    assert_eq!(generator.generate_block(11, 10), 0);
    assert_eq!(generator.generate_block(300, 10), 0);
    // distance 2 picks the first layer, distance 5 the second
    assert_eq!(generator.generate_block(8, 10), DIRT);
    assert_eq!(generator.generate_block(5, 10), PEBBLED);
    // beyond the last layer the filler takes over
    assert_eq!(generator.generate_block(1, 10), FILLER);
}

#[test]
fn test_generate_chunk_columns() {
    let mut generator = plain_generator(10);
    let position = ChunkPos::new(0, 0);
    let chunk = generator.generate_chunk(position);
    assert_eq!(chunk.position(), position);
    for (y, id) in [(0usize, BOTTOM), (1, FILLER), (5, PEBBLED), (8, DIRT), (10, TOP), (11, 0)] {
        assert_eq!(chunk.get(LocalBlockPos::new(7, y, 19, position)), id);
    }
}

#[test]
fn test_standard_config() {
    let manager = BlockManager::new(vec![
        Block { id: 0, name: "air".to_string(), transparent: true },
        Block { id: 3, name: "grass".to_string(), transparent: false },
        Block { id: 21, name: "dirt".to_string(), transparent: false },
        Block { id: 22, name: "pebbled_dirt".to_string(), transparent: false },
        Block { id: 5, name: "stone".to_string(), transparent: false },
        Block { id: 25, name: "silicate".to_string(), transparent: false },
    ]);
    let config = GenerationConfig::standard(&manager).unwrap();
    assert_eq!(config.top, 3);
    assert_eq!(config.layers, vec![(4, 21), (8, 22)]);
    assert_eq!(config.filler, 5);
    assert_eq!(config.bottom, 25);

    let missing = BlockManager::new(vec![
        Block { id: 3, name: "grass".to_string(), transparent: false },
    ]);
    assert!(GenerationConfig::standard(&missing).is_none());
}

#[test]
fn test_fill_within_chunk_empty_waitlist() {
    let position = ChunkPos::new(0, 0);
    let mut chunk = ChunkData::new(position);
    let origin = LocalBlockPos::new(10, 100, 10, position);
    let offsets = vec![
        BlockOffset::new(0, 0, 0),
        BlockOffset::new(1, 0, 0),
        BlockOffset::new(0, 1, 0),
    ];
    let waitlist = NoFeature.fill(&mut chunk, origin, &offsets, 7);
    // a feature writing entirely within its own chunk defers nothing
    assert!(waitlist.chunks.is_empty());
    assert_eq!(chunk.get(LocalBlockPos::new(10, 100, 10, position)), 7);
    assert_eq!(chunk.get(LocalBlockPos::new(11, 100, 10, position)), 7);
    assert_eq!(chunk.get(LocalBlockPos::new(10, 101, 10, position)), 7);
}

#[test]
fn test_fill_across_boundary_waitlists_writes() {
    let position = ChunkPos::new(0, 0);
    let neighbor = ChunkPos::new(1, 0);
    let mut chunk = ChunkData::new(position);
    let origin = LocalBlockPos::new(31, 100, 31, position);
    let offsets = vec![
        // three writes land in this chunk
        BlockOffset::new(0, 0, 0),
        BlockOffset::new(0, 1, 0),
        BlockOffset::new(-1, 0, 0),
        // two cross into the x+ neighbor
        BlockOffset::new(1, 0, 0),
        BlockOffset::new(2, 1, 0),
    ];
    let waitlist = NoFeature.fill(&mut chunk, origin, &offsets, 7);
    assert_eq!(waitlist.chunks.len(), 1);
    assert_eq!(waitlist.chunks[0].0, neighbor);
    assert_eq!(
        waitlist.chunks[0].1,
        vec![
            (LocalBlockPos::new(0, 100, 31, neighbor), 7),
            (LocalBlockPos::new(1, 101, 31, neighbor), 7),
        ]
    );
    assert_eq!(chunk.get(LocalBlockPos::new(31, 100, 31, position)), 7);
    assert_eq!(chunk.get(LocalBlockPos::new(30, 100, 31, position)), 7);
}

#[test]
fn test_merge_concatenates_writes() {
    let target = ChunkPos::new(1, 0);
    let other_target = ChunkPos::new(0, 1);
    let w1 = (LocalBlockPos::new(0, 10, 0, target), 7u16);
    let w2 = (LocalBlockPos::new(1, 11, 0, target), 8u16);
    let w3 = (LocalBlockPos::new(2, 12, 0, other_target), 9u16);
    let mut a = FeatureWaitlist { chunks: vec![(target, vec![w1])] };
    let b = FeatureWaitlist { chunks: vec![(target, vec![w2]), (other_target, vec![w3])] };
    a.merge(b);
    // the shared chunk's writes are concatenated, nothing is dropped
    assert_eq!(a.chunks.len(), 2);
    assert_eq!(a.chunks[0].0, target);
    assert_eq!(a.chunks[0].1, vec![w1, w2]);
    assert_eq!(a.chunks[1].0, other_target);
    assert_eq!(a.chunks[1].1, vec![w3]);
}

#[test]
fn test_plant_trees_at_picked_columns() {
    let position = ChunkPos::new(0, 0);
    let mut chunk = ChunkData::new(position);
    // column (5, 5): solid ground up to y = 9, air above
    for y in 0..10 {
        chunk.set(LocalBlockPos::new(5, y, 5, position), FILLER);
    }
    // column (7, 7): solid all the way up, no room for a tree
    for y in 0..512 {
        chunk.set(LocalBlockPos::new(7, y, 7, position), FILLER);
    }
    let trees = Trees::new(NoTrees);
    let waitlist = trees.plant_trees_at(&mut chunk, &vec![(5, 5), (7, 7)]);
    // the tree is rooted at the column's air start
    assert_eq!(chunk.get(LocalBlockPos::new(5, 10, 5, position)), TRUNK_BLOCK);
    assert_eq!(chunk.get(LocalBlockPos::new(6, 10, 5, position)), TRUNK_BLOCK);
    // a canopy corner at offset (4, 4, 0) from the origin
    assert_eq!(chunk.get(LocalBlockPos::new(9, 14, 5, position)), LEAVES_BLOCK);
    // this tree fits inside the chunk: nothing is deferred
    assert!(waitlist.chunks.is_empty());
    // the all-solid column grows nothing at any height
    assert_eq!(chunk.get(LocalBlockPos::new(7, 300, 7, position)), FILLER);
    // planting no columns changes nothing
    let untouched = trees.plant_trees_at(&mut chunk, &Vec::new());
    assert!(untouched.chunks.is_empty());
    assert_eq!(chunk.get(LocalBlockPos::new(5, 10, 5, position)), TRUNK_BLOCK);
}

#[test]
fn test_tree_canopy_crosses_chunk_boundary() {
    let c00 = ChunkPos::new(0, 0);
    let c10 = ChunkPos::new(1, 0);
    let generator = ChunkGenerator::new(
        FlatField { peak: 10 },
        test_config(),
        vec![Trees::new(OneColumn { x: 31, z: 8 })],
    );
    let mut server = ServerChunkCreator::new(generator);

    let first = server.load_chunk(c00, None);
    // the tree sits on the ground where the air starts
    assert_eq!(first.get(LocalBlockPos::new(31, 11, 8, c00)), TRUNK_BLOCK);
    // the canopy blocks that crossed into the absent neighbor are
    // pending in the waitlist, not in this chunk's own data
    assert!(server.generator.waitlist.chunks.iter().any(|e| e.0 == c10));
    server.add_chunk(first);
    assert_eq!(server.get_block(GlobalBlockPos::new(32, 11, 8)), None);

    let second = server.load_chunk(c10, None);
    server.add_chunk(second);
    // generating the neighbor drains its waitlist entry: the trunk
    // column and a canopy block appear at the predicted coordinates
    assert_eq!(
        server.get_block(GlobalBlockPos::new(32, 11, 8)),
        Some(TRUNK_BLOCK)
    );
    assert_eq!(
        server.get_block(GlobalBlockPos::new(35, 15, 8)),
        Some(LEAVES_BLOCK)
    );
    assert!(!server.generator.waitlist.chunks.iter().any(|e| e.0 == c10));
}

#[test]
fn test_load_drains_into_loaded_neighbor() {
    // the reverse order: the neighbor is loaded first, and the tree
    // generated afterwards reaches into it through the load-time drain
    let c00 = ChunkPos::new(0, 0);
    let c10 = ChunkPos::new(1, 0);
    let generator = ChunkGenerator::new(
        FlatField { peak: 10 },
        test_config(),
        vec![Trees::new(OneColumn { x: 31, z: 8 })],
    );
    let mut server = ServerChunkCreator::new(generator);

    let neighbor = server.load_chunk(c10, None);
    server.add_chunk(neighbor);
    assert_eq!(server.get_block(GlobalBlockPos::new(32, 11, 8)), Some(0));

    // loading (0, 0) plants the tree; its canopy writes target the
    // already-loaded neighbor and are drained into it right away
    let first = server.load_chunk(c00, None);
    assert_eq!(
        server.get_block(GlobalBlockPos::new(32, 11, 8)),
        Some(TRUNK_BLOCK)
    );
    assert_eq!(
        server.get_block(GlobalBlockPos::new(35, 15, 8)),
        Some(LEAVES_BLOCK)
    );
    assert!(!server.generator.waitlist.chunks.iter().any(|e| e.0 == c10));
    server.add_chunk(first);
    assert_eq!(
        server.get_block(GlobalBlockPos::new(31, 11, 8)),
        Some(TRUNK_BLOCK)
    );
}

#[test]
fn test_refresh_targets_after_load() {
    let c00 = ChunkPos::new(0, 0);
    let c10 = ChunkPos::new(1, 0);
    let mut server = ServerChunkCreator::new(plain_generator(10));
    let data = server.load_chunk(c10, None);
    server.add_chunk(data);
    // a loaded chunk refreshes itself and its loaded neighbors only
    assert_eq!(server.refresh_targets(c00), vec![c00, c10]);
    assert_eq!(server.refresh_targets(ChunkPos::new(5, 5)), vec![ChunkPos::new(5, 5)]);
}

#[test]
fn test_edit_then_read_is_synchronous() {
    let c00 = ChunkPos::new(0, 0);
    let mut server = ServerChunkCreator::new(plain_generator(10));
    let data = server.load_chunk(c00, None);
    server.add_chunk(data);

    let p = GlobalBlockPos::new(5, 8, 5);
    assert_eq!(server.get_block(p), Some(DIRT));
    server.set_block(p, 7).unwrap();
    // the edit path is synchronous: an immediately following read
    // observes the edit
    assert_eq!(server.get_block(p), Some(7));
    // an edit to an unloaded chunk is refused and changes nothing
    assert!(server.set_block(GlobalBlockPos::new(100, 8, 5), 7).is_err());
    assert_eq!(server.take_modified(), vec![c00]);
    assert!(server.take_modified().is_empty());
}

#[test]
fn test_rebuild_targets_after_edit() {
    let server = ServerChunkCreator::new(plain_generator(10));
    // an interior edit remeshes only its own chunk
    assert_eq!(
        server.rebuild_targets(GlobalBlockPos::new(5, 10, 5)),
        vec![ChunkPos::new(0, 0)]
    );
    // a corner edit also remeshes both bordering neighbors
    assert_eq!(
        server.rebuild_targets(GlobalBlockPos::new(0, 10, 0)),
        vec![ChunkPos::new(0, 0), ChunkPos::new(-1, 0), ChunkPos::new(0, -1)]
    );
}

#[test]
fn test_rebuild_reflects_edit() {
    let registry = BlockManager::new(vec![
        Block { id: 0, name: "air".to_string(), transparent: true },
        Block { id: 5, name: "stone".to_string(), transparent: false },
    ]);
    let position = ChunkPos::new(0, 0);
    let mut world = World::new();
    let mut chunk = ChunkData::new(position);
    chunk.set(LocalBlockPos::new(5, 100, 5, position), 5);
    world.add_chunk(chunk);

    let before = ChunkMeshData::new_from_chunk_data(
        world.get_chunk(position).unwrap(),
        &World::new(),
        &registry,
    );
    assert_eq!(before.surfaces.len(), 1);
    assert_eq!(before.surfaces[0].mesh_data.vertices.len(), 36);

    // remove the block, then rebuild: the new mesh shows the edit
    world.set_block(GlobalBlockPos::new(5, 100, 5), 0).unwrap();
    let after = ChunkMeshData::new_from_chunk_data(
        world.get_chunk(position).unwrap(),
        &World::new(),
        &registry,
    );
    assert_eq!(after.surfaces.len(), 0);
}

#[test]
fn test_load_chunk_from_payload() {
    let c00 = ChunkPos::new(0, 0);
    let mut server = ServerChunkCreator::new(plain_generator(10));
    let mut stored = ChunkData::new(c00);
    stored.set(LocalBlockPos::new(1, 2, 3, c00), 77);
    let payload = stored.pack();

    // a well-formed payload restores the stored data
    let loaded = server.load_chunk(c00, Some(&payload));
    assert_eq!(loaded.get(LocalBlockPos::new(1, 2, 3, c00)), 77);
    assert_eq!(loaded.get(LocalBlockPos::new(4, 10, 4, c00)), 0);

    // a malformed payload falls back to fresh generation
    let garbage = vec![9u8, 9, 9];
    let regenerated = server.load_chunk(c00, Some(&garbage));
    assert_eq!(regenerated.position(), c00);
    assert_eq!(regenerated.get(LocalBlockPos::new(4, 10, 4, c00)), TOP);
}

#[test]
fn test_generate_rect_loads_rectangle() {
    let mut world = World::new();
    let mut generator = plain_generator(10);
    world.generate_rect((-1, -1), (1, 1), &mut generator);
    for x in -1..1 {
        for z in -1..1 {
            assert!(world.get_chunk(ChunkPos::new(x, z)).is_some());
        }
    }
    assert!(world.get_chunk(ChunkPos::new(1, 0)).is_none());
    assert_eq!(world.len(), 4);
}

#[test]
fn test_timings_start_empty() {
    let timings = Timings::new();
    assert!(timings.generate_chunk.is_empty());
    assert!(timings.build_mesh.is_empty());
}
