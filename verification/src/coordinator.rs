//! The server-side chunk coordinator: owns the map of loaded chunks
//! and the generator, serializes block edits, decides which chunks
//! need a mesh rebuild after an edit, loads chunks from a payload or
//! by generation, and tracks which chunks were modified since the
//! last save.
//!
//! Mesh rebuilds themselves run off this path: a caller hands the
//! positions this module decides on to background builders.

use vstd::prelude::*;

verus! {

use crate::BlockID;
use crate::CHUNK_SIZE_Y;
use crate::CHUNK_VOLUME;
use crate::chunk::ChunkData;
use crate::codec::{decoded_block, decoded_light, lz4_unframe};
use crate::errors::{DecodeError, NotLoadedError};
use crate::features::{apply_writes, find_entry, waitlist_remove, writes_of, Feature};
use crate::generate::{terrain_then_drain, ChunkGenerator, TerrainField};
use crate::positions::{ChunkPos, GlobalBlockPos, LocalBlockPos};
use crate::world::World;

/// Owns the loaded chunks and the generator, and serializes every
/// mutation of them.
pub struct ServerChunkCreator<T: TerrainField, F: Feature> {
    /// The loaded chunks.
    pub world: World,
    /// The terrain and feature generator, with its waitlist of
    /// pending cross-chunk writes.
    pub generator: ChunkGenerator<T, F>,
    /// The chunks modified since the last save, each at most once.
    pub modified_chunks: Vec<ChunkPos>,
}

impl<T: TerrainField, F: Feature> ServerChunkCreator<T, F> {
    /// The world and the generator's waitlist are well-formed.
    pub open spec fn wf(self) -> bool {
        &&& self.world.wf()
        &&& self.generator.waitlist.wf()
    }

    /// Creates a coordinator with no loaded chunks around the given
    /// generator.
    pub fn new(generator: ChunkGenerator<T, F>) -> (r: Self)
        requires
            generator.waitlist.wf(),
        ensures
            r.wf(),
            r.generator == generator,
            r.modified_chunks@ == Seq::<ChunkPos>::empty(),
            forall|p: ChunkPos| !r.world.has_chunk(p),
    {
        Self { world: World::new(), generator, modified_chunks: Vec::new() }
    }

    /// Gets a block in global space.
    ///
    /// Returns `None` if the chunk holding it is not loaded.
    pub fn get_block(&self, position: GlobalBlockPos) -> (r: Option<BlockID>)
        requires
            self.wf(),
            0 <= position.y < CHUNK_SIZE_Y,
        ensures
            r is Some <==> self.world.has_chunk(position.local_spec().chunk),
            r matches Some(id) ==> id == self.world.chunk_at(position.local_spec().chunk).block_at(
                position.local_spec().x as int,
                position.local_spec().y as int,
                position.local_spec().z as int,
            ),
    {
        self.world.get_block(position)
    }

    /// Sets a block in global space, recording the edited chunk as
    /// modified.
    ///
    /// Returns `NotLoadedError` if the chunk holding the block is not
    /// loaded; nothing changes then.
    pub fn set_block(&mut self, position: GlobalBlockPos, to: BlockID) -> (r: Result<
        (),
        NotLoadedError,
    >)
        requires
            old(self).wf(),
            0 <= position.y < CHUNK_SIZE_Y,
        ensures
            final(self).wf(),
            final(self).generator == old(self).generator,
            r is Ok <==> old(self).world.has_chunk(position.local_spec().chunk),
            r is Err ==> *final(self) == *old(self),
            r is Ok ==> final(self).world.set_block_result(
                old(self).world,
                position.local_spec(),
                to,
            ) && final(self).modified_chunks@ == (if old(self).modified_chunks@.contains(
                position.local_spec().chunk,
            ) {
                old(self).modified_chunks@
            } else {
                old(self).modified_chunks@.push(position.local_spec().chunk)
            }),
    {
        let local = position.to_local();
        match self.world.set_block_local(local, to) {
            Ok(_) => {
                self.mark_modified(local.chunk);
                Ok(())
            },
            Err(e) => Err(e),
        }
    }

    /// Records a chunk as modified since the last save, once.
    fn mark_modified(&mut self, position: ChunkPos)
        ensures
            final(self).world == old(self).world,
            final(self).generator == old(self).generator,
            final(self).modified_chunks@ == (if old(self).modified_chunks@.contains(position) {
                old(self).modified_chunks@
            } else {
                old(self).modified_chunks@.push(position)
            }),
    {
        let mut i: usize = 0;
        let n = self.modified_chunks.len();
        while i < n
            invariant
                *self == *old(self),
                n == self.modified_chunks@.len(),
                i <= n,
                forall|j: int| 0 <= j < i ==> self.modified_chunks@[j] != position,
            decreases n - i,
        {
            if self.modified_chunks[i] == position {
                proof {
                    assert(self.modified_chunks@[i as int] == position);
                    assert(self.modified_chunks@.contains(position));
                }
                return ;
            }
            i = i + 1;
        }
        proof {
            assert(!self.modified_chunks@.contains(position));
        }
        self.modified_chunks.push(position);
    }

    /// The chunks whose meshes must be rebuilt after an edit at
    /// `position`: the edited chunk itself, and every neighbor the
    /// edited block borders, so that a removed block at a shared face
    /// correctly reveals the neighbor's now-exposed face.
    pub fn rebuild_targets(&self, position: GlobalBlockPos) -> (r: Vec<ChunkPos>)
        requires
            0 <= position.y < CHUNK_SIZE_Y,
            position.local_spec().chunk.in_range(),
        ensures
            r@ == seq![position.local_spec().chunk] + position.local_spec().borders_spec(),
    {
        let local = position.to_local();
        let mut r: Vec<ChunkPos> = Vec::new();
        r.push(local.chunk);
        let borders = local.borders();
        let mut i: usize = 0;
        let n = borders.len();
        while i < n
            invariant
                borders@ == position.local_spec().borders_spec(),
                position.local_spec().chunk == local.chunk,
                n == borders@.len(),
                i <= n,
                r@ == seq![local.chunk] + borders@.take(i as int),
            decreases n - i,
        {
            r.push(borders[i]);
            proof {
                assert(r@ =~= seq![local.chunk] + borders@.take(i + 1));
            }
            i = i + 1;
        }
        proof {
            assert(borders@.take(n as int) =~= borders@);
        }
        r
    }

    /// Loads the chunk at `position` from a serialized payload, or
    /// generates a fresh one when there is no payload or it is
    /// malformed: a failed decode falls back to regeneration rather
    /// than failing the load. Either way, the pending waitlist writes
    /// are then drained into every already-loaded chunk, so that
    /// entries remain pending only for chunks not yet loaded.
    pub fn load_chunk(&mut self, position: ChunkPos, payload: Option<&Vec<u8>>) -> (data:
        ChunkData)
        requires
            old(self).wf(),
            position.in_range(),
        ensures
            final(self).wf(),
            final(self).modified_chunks == old(self).modified_chunks,
            data.wf(),
            data@.position == position,
            forall|p: ChunkPos|
                final(self).world.has_chunk(p) == old(self).world.has_chunk(p),
            forall|p: ChunkPos|
                old(self).world.has_chunk(p) ==> find_entry(
                    final(self).generator.waitlist.view_spec(),
                    p,
                ) == -1,
            forall|p: ChunkPos|
                !old(self).world.has_chunk(p) && p != position ==> (#[trigger] writes_of(
                    old(self).generator.waitlist.view_spec(),
                    p,
                )).is_prefix_of(writes_of(final(self).generator.waitlist.view_spec(), p)),
            payload matches Some(b) ==> ((lz4_unframe(b@) is Some && lz4_unframe(b@).unwrap().len()
                == 4 * CHUNK_VOLUME) ==> ((forall|e: int|
                0 <= e < CHUNK_VOLUME ==> data@.terrain[e] == decoded_block(
                    lz4_unframe(b@).unwrap(),
                    e,
                )) && (forall|e: int|
                0 <= e < CHUNK_VOLUME ==> data@.skylightlevel[e] == decoded_light(
                    lz4_unframe(b@).unwrap(),
                    e,
                )) && (forall|p: ChunkPos|
                old(self).world.has_chunk(p) ==> (#[trigger] final(self).world.chunk_at(
                    p,
                )).position == old(self).world.chunk_at(p).position && final(self).world.chunk_at(
                    p,
                ).terrain == apply_writes(
                    old(self).world.chunk_at(p).terrain,
                    writes_of(old(self).generator.waitlist.view_spec(), p),
                )))),
            (payload is None && old(self).generator.features@.len() == 0) ==> terrain_then_drain(
                data@,
                old(self).generator.config,
                writes_of(old(self).generator.waitlist.view_spec(), position),
            ),
            payload matches Some(b) ==> ((!(lz4_unframe(b@) is Some && lz4_unframe(
                b@,
            ).unwrap().len() == 4 * CHUNK_VOLUME) && old(self).generator.features@.len() == 0)
                ==> terrain_then_drain(
                data@,
                old(self).generator.config,
                writes_of(old(self).generator.waitlist.view_spec(), position),
            )),
    {
        let data = match payload {
            Some(bytes) => {
                match ChunkData::unpack(position, bytes) {
                    Ok(data) => data,
                    Err(e) => {
                        proof {
                            assert(e == DecodeError::BadStream || e == DecodeError::BadLength);
                        }
                        self.generator.generate_chunk(position)
                    },
                }
            },
            None => self.generator.generate_chunk(position),
        };
        let ghost mid = *self;
        self.world.drain_waitlist(&mut self.generator);
        proof {
            assert forall|p: ChunkPos|
                !old(self).world.has_chunk(p) && p != position implies (#[trigger] writes_of(
                old(self).generator.waitlist.view_spec(),
                p,
            )).is_prefix_of(writes_of(self.generator.waitlist.view_spec(), p)) by {
                let a = writes_of(old(self).generator.waitlist.view_spec(), p);
                let b = writes_of(mid.generator.waitlist.view_spec(), p);
                assert(a.is_prefix_of(b));
                assert(writes_of(self.generator.waitlist.view_spec(), p) == b);
            }
        }
        data
    }

    /// The chunks whose meshes must be rebuilt after the chunk at
    /// `position` is loaded: the new chunk itself, and every
    /// already-loaded neighbor, so that their boundary faces adjacent
    /// to the new chunk become correctly culled.
    pub fn refresh_targets(&self, position: ChunkPos) -> (r: Vec<ChunkPos>)
        requires
            self.wf(),
            position.in_range(),
        ensures
            r@ == load_refresh_spec(self.world, position),
    {
        let adjacent = position.adjacent();
        let mut r: Vec<ChunkPos> = Vec::new();
        r.push(position);
        if self.world.get_chunk(adjacent[0]).is_some() {
            r.push(adjacent[0]);
        }
        if self.world.get_chunk(adjacent[1]).is_some() {
            r.push(adjacent[1]);
        }
        if self.world.get_chunk(adjacent[2]).is_some() {
            r.push(adjacent[2]);
        }
        if self.world.get_chunk(adjacent[3]).is_some() {
            r.push(adjacent[3]);
        }
        proof {
            assert(r@ =~= load_refresh_spec(self.world, position));
        }
        r
    }

    /// Takes ownership of `data` and adds it to the loaded set at its
    /// own position, first draining the pending waitlist writes other
    /// chunks' features left for it.
    pub fn add_chunk(&mut self, data: ChunkData)
        requires
            old(self).wf(),
            data.wf(),
        ensures
            final(self).wf(),
            final(self).modified_chunks == old(self).modified_chunks,
            final(self).generator.waitlist.view_spec() == waitlist_remove(
                old(self).generator.waitlist.view_spec(),
                data@.position,
            ),
            final(self).world.has_chunk(data@.position),
            final(self).world.chunk_at(data@.position).position == data@.position,
            final(self).world.chunk_at(data@.position).terrain == apply_writes(
                data@.terrain,
                writes_of(old(self).generator.waitlist.view_spec(), data@.position),
            ),
            forall|p: ChunkPos|
                p != data@.position ==> ((#[trigger] final(self).world.has_chunk(p))
                    == old(self).world.has_chunk(p) && (old(self).world.has_chunk(p)
                    ==> final(self).world.chunk_at(p) == old(self).world.chunk_at(p))),
    {
        let mut data = data;
        self.generator.apply_waitlist_to(&mut data);
        self.world.add_chunk(data);
    }

    /// Hands out the chunks modified since the last save and clears
    /// the record, for the caller to serialize and store.
    pub fn take_modified(&mut self) -> (r: Vec<ChunkPos>)
        ensures
            final(self).world == old(self).world,
            final(self).generator == old(self).generator,
            r == old(self).modified_chunks,
            final(self).modified_chunks@ == Seq::<ChunkPos>::empty(),
    {
        let mut taken: Vec<ChunkPos> = Vec::new();
        core::mem::swap(&mut taken, &mut self.modified_chunks);
        proof {
            assert(self.modified_chunks@ =~= Seq::<ChunkPos>::empty());
        }
        taken
    }
}

/// The rebuild list after loading a chunk: the chunk itself followed
/// by those of its four neighbors that are loaded, in neighbor order.
pub open spec fn load_refresh_spec(world: World, position: ChunkPos) -> Seq<ChunkPos> {
    let a = position.adjacent_spec();
    seq![position] + (if world.has_chunk(a[0]) {
        seq![a[0]]
    } else {
        Seq::<ChunkPos>::empty()
    }) + (if world.has_chunk(a[1]) {
        seq![a[1]]
    } else {
        Seq::<ChunkPos>::empty()
    }) + (if world.has_chunk(a[2]) {
        seq![a[2]]
    } else {
        Seq::<ChunkPos>::empty()
    }) + (if world.has_chunk(a[3]) {
        seq![a[3]]
    } else {
        Seq::<ChunkPos>::empty()
    })
}

} // verus!
