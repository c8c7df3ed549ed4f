//! Terrain core of a voxel world: chunk-relative and global block
//! coordinates, the dense per-chunk block store, face-culling mesh
//! building, terrain and feature generation with a cross-chunk waitlist,
//! and the bookkeeping that coordinates chunk loads, edits and remeshes.

use vstd::prelude::*;

pub mod chunk;
pub mod chunk_mesh;
pub mod codec;
pub mod coordinator;
pub mod errors;
pub mod features;
pub mod generate;
pub mod mesh;
pub mod performance;
pub mod positions;
pub mod registry;
pub mod trees;
pub mod world;

verus! {

/// Width of a chunk along the x axis, in blocks.
pub const CHUNK_SIZE_X: usize = 32;
/// Height of a chunk along the y axis, in blocks. Chunks span the full
/// world height, so this is also the world height.
pub const CHUNK_SIZE_Y: usize = 512;
/// Depth of a chunk along the z axis, in blocks.
pub const CHUNK_SIZE_Z: usize = 32;
/// Number of cells in one chunk.
pub const CHUNK_VOLUME: usize = 32 * 512 * 32;

/// Identifier of a block type; 0 is reserved for air.
pub type BlockID = u16;

} // verus!
