//! The map of loaded chunks: lookup by chunk position, block reads and
//! writes in global space, and insertion of freshly generated or
//! received chunks.

use vstd::prelude::*;

verus! {

use crate::BlockID;
use crate::chunk::{lemma_flat_index_bounds, ChunkData, ChunkDataView, flat_index};
use crate::errors::NotLoadedError;
use crate::features::{
    apply_writes,
    find_entry,
    lemma_remove_entry_effects,
    lemma_writes_iff_entry,
    waitlist_remove,
    writes_of,
    Feature,
    WaitlistEntry,
};
use crate::generate::{terrain_shape, ChunkGenerator, TerrainField};
use crate::positions::{ChunkPos, GlobalBlockPos, LocalBlockPos};
use crate::CHUNK_SIZE_Y;

/// The waitlist with the entries of the first `k` listed chunks
/// removed.
pub open spec fn waitlist_minus_positions(
    wl: Seq<WaitlistEntry>,
    views: Seq<ChunkDataView>,
    k: int,
) -> Seq<WaitlistEntry>
    decreases k,
{
    if k <= 0 {
        wl
    } else {
        waitlist_remove(waitlist_minus_positions(wl, views, k - 1), views[k - 1].position)
    }
}

/// The set of loaded chunks, each at its own position.
pub struct World {
    chunks: Vec<ChunkData>,
}

impl World {
    /// The loaded chunks as a sequence of views, in insertion order.
    pub closed spec fn chunk_views(self) -> Seq<ChunkDataView> {
        Seq::new(self.chunks@.len(), |i: int| self.chunks@[i]@)
    }

    /// Every loaded chunk is well-formed, and no two loaded chunks
    /// share a position.
    pub open spec fn wf(self) -> bool {
        &&& forall|i: int|
            0 <= i < self.chunk_views().len() ==> (#[trigger] self.chunk_views()[i]).wf()
        &&& forall|i: int, j: int|
            0 <= i < j < self.chunk_views().len() ==> self.chunk_views()[i].position
                != self.chunk_views()[j].position
    }

    /// A chunk is loaded at `position`.
    pub open spec fn has_chunk(self, position: ChunkPos) -> bool {
        exists|i: int|
            0 <= i < self.chunk_views().len() && (#[trigger] self.chunk_views()[i]).position
                == position
    }

    /// The index of the loaded chunk at `position`.
    pub open spec fn chunk_index_of(self, position: ChunkPos) -> int {
        choose|i: int|
            0 <= i < self.chunk_views().len() && (#[trigger] self.chunk_views()[i]).position
                == position
    }

    /// The contents of the loaded chunk at `position`.
    pub open spec fn chunk_at(self, position: ChunkPos) -> ChunkDataView
        recommends
            self.has_chunk(position),
    {
        self.chunk_views()[self.chunk_index_of(position)]
    }

    /// Creates a world with no loaded chunks.
    pub fn new() -> (r: Self)
        ensures
            r.wf(),
            r.chunk_views() == Seq::<ChunkDataView>::empty(),
            forall|p: ChunkPos| !r.has_chunk(p),
    {
        let r = World { chunks: Vec::new() };
        proof {
            assert(r.chunk_views() =~= Seq::<ChunkDataView>::empty());
        }
        r
    }

    /// How many chunks are loaded.
    pub fn len(&self) -> (r: usize)
        ensures
            r == self.chunk_views().len(),
    {
        self.chunks.len()
    }

    /// The loaded chunks, in insertion order.
    pub fn chunks(&self) -> (r: &Vec<ChunkData>)
        ensures
            r@.len() == self.chunk_views().len(),
            forall|i: int| 0 <= i < r@.len() ==> (#[trigger] r@[i])@ == self.chunk_views()[i],
    {
        &self.chunks
    }

    /// Looks up the loaded chunk at `position`.
    pub fn get_chunk(&self, position: ChunkPos) -> (r: Option<&ChunkData>)
        requires
            self.wf(),
        ensures
            r is Some <==> self.has_chunk(position),
            r matches Some(c) ==> c@ == self.chunk_at(position) && c@.position == position,
    {
        let mut i: usize = 0;
        while i < self.chunks.len()
            invariant
                self.wf(),
                i <= self.chunk_views().len(),
                forall|j: int| 0 <= j < i ==> (#[trigger] self.chunk_views()[j]).position != position,
            decreases self.chunk_views().len() - i,
        {
            if self.chunks[i].position() == position {
                proof {
                    self.lemma_index_determines_chunk(position, i as int);
                }
                return Some(&self.chunks[i]);
            }
            i = i + 1;
        }
        None
    }

    /// Takes ownership of `data` and adds it to the loaded set at its
    /// own position, replacing any chunk already loaded there.
    pub fn add_chunk(&mut self, data: ChunkData)
        requires
            old(self).wf(),
            data.wf(),
        ensures
            final(self).wf(),
            final(self).has_chunk(data@.position),
            final(self).chunk_at(data@.position) == data@,
            forall|p: ChunkPos|
                p != data@.position ==> (#[trigger] final(self).has_chunk(p) == old(
                    self,
                ).has_chunk(p) && (old(self).has_chunk(p) ==> final(self).chunk_at(p) == old(
                    self,
                ).chunk_at(p))),
    {
        let ghost prev = *self;
        let position = data.position();
        let mut i: usize = 0;
        let n = self.chunks.len();
        while i < n
            invariant
                *self == prev,
                prev == *old(self),
                prev.wf(),
                data.wf(),
                position == data@.position,
                n == self.chunk_views().len(),
                i <= n,
                forall|j: int| 0 <= j < i ==> (#[trigger] self.chunk_views()[j]).position != position,
            decreases n - i,
        {
            if self.chunks[i].position() == position {
                proof {
                    prev.lemma_index_determines_chunk(position, i as int);
                }
                let slot = &mut self.chunks[i];
                *slot = data;
                proof {
                    assert(self.chunk_views() =~= prev.chunk_views().update(i as int, data@));
                    self.lemma_views_updated(prev, i as int, data@, position);
                }
                return ;
            }
            i = i + 1;
        }
        self.chunks.push(data);
        proof {
            assert(self.chunk_views() =~= prev.chunk_views().push(data@));
            self.lemma_views_pushed(prev, data@, position);
        }
    }

    /// Gets the block at `position` in global space.
    ///
    /// Returns `None` if the chunk holding that position is not loaded.
    pub fn get_block(&self, position: GlobalBlockPos) -> (r: Option<BlockID>)
        requires
            self.wf(),
            0 <= position.y < CHUNK_SIZE_Y,
        ensures
            r is Some <==> self.has_chunk(position.local_spec().chunk),
            r matches Some(id) ==> id == self.chunk_at(position.local_spec().chunk).block_at(
                position.local_spec().x as int,
                position.local_spec().y as int,
                position.local_spec().z as int,
            ),
    {
        let local = position.to_local();
        match self.get_chunk(local.chunk) {
            Some(chunk) => Some(chunk.get(local)),
            None => None,
        }
    }

    /// Sets the block at `position` in global space to `to`.
    ///
    /// Returns `NotLoadedError` if the chunk holding that position is
    /// not loaded; the world is then unchanged.
    pub fn set_block(&mut self, position: GlobalBlockPos, to: BlockID) -> (r: Result<
        (),
        NotLoadedError,
    >)
        requires
            old(self).wf(),
            0 <= position.y < CHUNK_SIZE_Y,
        ensures
            final(self).wf(),
            r is Ok <==> old(self).has_chunk(position.local_spec().chunk),
            r is Err ==> *final(self) == *old(self),
            r is Ok ==> final(self).set_block_result(*old(self), position.local_spec(), to),
    {
        let local = position.to_local();
        self.set_block_local(local, to)
    }

    /// How a world looks after one block write at local position `lp`:
    /// the chunk at `lp.chunk` has that one cell changed to `to`, and
    /// everything else is as before.
    pub open spec fn set_block_result(self, prev: World, lp: LocalBlockPos, to: BlockID) -> bool {
        &&& forall|p: ChunkPos| self.has_chunk(p) == prev.has_chunk(p)
        &&& forall|p: ChunkPos|
            p != lp.chunk && prev.has_chunk(p) ==> #[trigger] self.chunk_at(p) == prev.chunk_at(p)
        &&& self.chunk_at(lp.chunk).position == lp.chunk
        &&& self.chunk_at(lp.chunk).terrain == prev.chunk_at(lp.chunk).terrain.update(
            flat_index(lp.x as int, lp.y as int, lp.z as int),
            to,
        )
        &&& self.chunk_at(lp.chunk).skylightlevel == prev.chunk_at(lp.chunk).skylightlevel
    }

    /// Sets the block at the local position `position` to `to`, if the
    /// chunk that owns it is loaded.
    pub fn set_block_local(&mut self, position: LocalBlockPos, to: BlockID) -> (r: Result<
        (),
        NotLoadedError,
    >)
        requires
            old(self).wf(),
            position.wf(),
        ensures
            final(self).wf(),
            r is Ok <==> old(self).has_chunk(position.chunk),
            r is Err ==> *final(self) == *old(self),
            r is Ok ==> final(self).set_block_result(*old(self), position, to),
    {
        let ghost prev = *self;
        let mut i: usize = 0;
        let n = self.chunks.len();
        while i < n
            invariant
                *self == prev,
                prev == *old(self),
                prev.wf(),
                position.wf(),
                n == self.chunk_views().len(),
                i <= n,
                forall|j: int|
                    0 <= j < i ==> (#[trigger] self.chunk_views()[j]).position != position.chunk,
            decreases n - i,
        {
            if self.chunks[i].position() == position.chunk {
                proof {
                    prev.lemma_index_determines_chunk(position.chunk, i as int);
                }
                let slot = &mut self.chunks[i];
                slot.set(position, to);
                proof {
                    assert(self.chunk_views() =~= prev.chunk_views().update(
                        i as int,
                        self.chunk_views()[i as int],
                    ));
                    self.lemma_views_updated(
                        prev,
                        i as int,
                        self.chunk_views()[i as int],
                        position.chunk,
                    );
                }
                return Ok(());
            }
            i = i + 1;
        }
        Err(NotLoadedError)
    }


    /// Generates and adds every chunk whose position lies in the
    /// rectangle from `start` (inclusive) to `end` (exclusive), row by
    /// row.
    pub fn generate_rect<T: TerrainField, F: Feature>(
        &mut self,
        start: (isize, isize),
        end: (isize, isize),
        generator: &mut ChunkGenerator<T, F>,
    )
        requires
            old(self).wf(),
            old(generator).waitlist.wf(),
            forall|cx: int, cz: int|
                start.0 <= cx < end.0 && start.1 <= cz < end.1 ==> (#[trigger] (ChunkPos {
                    x: cx as isize,
                    z: cz as isize,
                }).in_range()),
        ensures
            final(self).wf(),
            final(generator).waitlist.wf(),
            final(generator).field == old(generator).field,
            final(generator).config == old(generator).config,
            final(generator).features == old(generator).features,
            forall|p: ChunkPos| old(self).has_chunk(p) ==> final(self).has_chunk(p),
            forall|cx: int, cz: int|
                start.0 <= cx < end.0 && start.1 <= cz < end.1 ==> (#[trigger] final(self).has_chunk(
                    ChunkPos { x: cx as isize, z: cz as isize },
                )),
            forall|cx: int, cz: int|
                start.0 <= cx < end.0 && start.1 <= cz < end.1 ==> (#[trigger] final(self).chunk_at(
                    ChunkPos { x: cx as isize, z: cz as isize },
                )).position == (ChunkPos { x: cx as isize, z: cz as isize }),
            (old(generator).features@.len() == 0 && old(generator).waitlist.view_spec()
                == Seq::<WaitlistEntry>::empty()) ==> forall|cx: int, cz: int|
                start.0 <= cx < end.0 && start.1 <= cz < end.1 ==> terrain_shape(
                    #[trigger] final(self).chunk_at(ChunkPos { x: cx as isize, z: cz as isize }),
                    old(generator).config,
                ),
    {
        let ghost plain = old(generator).features@.len() == 0 && old(
            generator,
        ).waitlist.view_spec() == Seq::<WaitlistEntry>::empty();
        let mut cx = start.0;
        while cx < end.0
            invariant
                self.wf(),
                generator.waitlist.wf(),
                start.0 <= cx,
                cx <= end.0 || cx == start.0,
                forall|a: int, b: int|
                    start.0 <= a < end.0 && start.1 <= b < end.1 ==> (#[trigger] (ChunkPos {
                        x: a as isize,
                        z: b as isize,
                    }).in_range()),
                generator.field == old(generator).field,
                generator.config == old(generator).config,
                generator.features == old(generator).features,
                plain == (old(generator).features@.len() == 0 && old(
                    generator,
                ).waitlist.view_spec() == Seq::<WaitlistEntry>::empty()),
                plain ==> generator.waitlist.view_spec() == Seq::<WaitlistEntry>::empty(),
                forall|p: ChunkPos| old(self).has_chunk(p) ==> self.has_chunk(p),
                forall|a: int, b: int|
                    start.0 <= a < cx && start.1 <= b < end.1 ==> (#[trigger] self.has_chunk(
                        ChunkPos { x: a as isize, z: b as isize },
                    )),
                forall|a: int, b: int|
                    start.0 <= a < cx && start.1 <= b < end.1 ==> (#[trigger] self.chunk_at(
                        ChunkPos { x: a as isize, z: b as isize },
                    )).position == (ChunkPos { x: a as isize, z: b as isize }),
                plain ==> forall|a: int, b: int|
                    start.0 <= a < cx && start.1 <= b < end.1 ==> terrain_shape(
                        #[trigger] self.chunk_at(ChunkPos { x: a as isize, z: b as isize }),
                        old(generator).config,
                    ),
            decreases end.0 - cx,
        {
            let mut cz = start.1;
            while cz < end.1
                invariant
                    self.wf(),
                    generator.waitlist.wf(),
                    start.0 <= cx < end.0,
                    start.1 <= cz,
                    cz <= end.1 || cz == start.1,
                    forall|a: int, b: int|
                        start.0 <= a < end.0 && start.1 <= b < end.1 ==> (#[trigger] (ChunkPos {
                            x: a as isize,
                            z: b as isize,
                        }).in_range()),
                    generator.field == old(generator).field,
                    generator.config == old(generator).config,
                    generator.features == old(generator).features,
                    plain == (old(generator).features@.len() == 0 && old(
                        generator,
                    ).waitlist.view_spec() == Seq::<WaitlistEntry>::empty()),
                    plain ==> generator.waitlist.view_spec() == Seq::<WaitlistEntry>::empty(),
                    forall|p: ChunkPos| old(self).has_chunk(p) ==> self.has_chunk(p),
                    forall|a: int, b: int|
                        start.0 <= a < cx && start.1 <= b < end.1 ==> (#[trigger] self.has_chunk(
                            ChunkPos { x: a as isize, z: b as isize },
                        )),
                    forall|b: int|
                        start.1 <= b < cz ==> (#[trigger] self.has_chunk(
                            ChunkPos { x: cx, z: b as isize },
                        )),
                    forall|a: int, b: int|
                        start.0 <= a < cx && start.1 <= b < end.1 ==> (#[trigger] self.chunk_at(
                            ChunkPos { x: a as isize, z: b as isize },
                        )).position == (ChunkPos { x: a as isize, z: b as isize }),
                    forall|b: int|
                        start.1 <= b < cz ==> (#[trigger] self.chunk_at(
                            ChunkPos { x: cx, z: b as isize },
                        )).position == (ChunkPos { x: cx, z: b as isize }),
                    plain ==> forall|a: int, b: int|
                        start.0 <= a < cx && start.1 <= b < end.1 ==> terrain_shape(
                            #[trigger] self.chunk_at(ChunkPos { x: a as isize, z: b as isize }),
                            old(generator).config,
                        ),
                    plain ==> forall|b: int|
                        start.1 <= b < cz ==> terrain_shape(
                            #[trigger] self.chunk_at(ChunkPos { x: cx, z: b as isize }),
                            old(generator).config,
                        ),
                decreases end.1 - cz,
            {
                let position = ChunkPos::new(cx, cz);
                proof {
                    assert((ChunkPos { x: (cx as int) as isize, z: (cz as int) as isize }).in_range());
                    assert(position.in_range());
                }
                let ghost before = *self;
                let ghost wl_before = generator.waitlist.view_spec();
                let chunk = generator.generate_chunk(position);
                proof {
                    if plain {
                        assert(find_entry(Seq::<WaitlistEntry>::empty(), position) == -1);
                        assert(waitlist_remove(wl_before, position) == wl_before);
                        assert(writes_of(wl_before, position) == Seq::<
                            crate::features::BlockWrite,
                        >::empty());
                        let t = choose|t: ChunkDataView|
                            #[trigger] terrain_shape(t, generator.config) && t.position == chunk@.position
                                && chunk@.terrain == apply_writes(
                                t.terrain,
                                writes_of(wl_before, position),
                            ) && chunk@.skylightlevel == t.skylightlevel;
                        assert(apply_writes(t.terrain, Seq::<crate::features::BlockWrite>::empty())
                            == t.terrain);
                        assert(chunk@ == t);
                        assert(terrain_shape(chunk@, old(generator).config));
                    }
                }
                self.add_chunk(chunk);
                proof {
                    assert forall|p: ChunkPos| before.has_chunk(p) implies self.has_chunk(p) by {
                        if p != position {
                        }
                    }
                    assert(self.has_chunk(ChunkPos { x: (cx as int) as isize, z: (cz as int) as isize }));
                    assert(self.chunk_at(ChunkPos { x: (cx as int) as isize, z: (cz as int) as isize })
                        == chunk@);
                    assert forall|a: int, b: int|
                        start.0 <= a < cx && start.1 <= b < end.1 implies (#[trigger] self.chunk_at(
                        ChunkPos { x: a as isize, z: b as isize },
                    )) == before.chunk_at(ChunkPos { x: a as isize, z: b as isize }) by {
                        let q = ChunkPos { x: a as isize, z: b as isize };
                        assert(before.has_chunk(q));
                        assert(q != position);
                    }
                    assert forall|b: int|
                        start.1 <= b < cz implies (#[trigger] self.chunk_at(
                        ChunkPos { x: cx, z: b as isize },
                    )) == before.chunk_at(ChunkPos { x: cx, z: b as isize }) by {
                        let q = ChunkPos { x: cx, z: b as isize };
                        assert(before.has_chunk(q));
                        assert(q != position);
                    }
                }
                cz = cz + 1;
            }
            cx = cx + 1;
        }
    }


    /// Drains the generator's pending waitlist writes into every
    /// loaded chunk, in arrival order per chunk: afterwards, entries
    /// remain pending only for chunks that are not loaded.
    pub fn drain_waitlist<T: TerrainField, F: Feature>(
        &mut self,
        generator: &mut ChunkGenerator<T, F>,
    )
        requires
            old(self).wf(),
            old(generator).waitlist.wf(),
        ensures
            final(self).wf(),
            final(generator).waitlist.wf(),
            final(generator).field == old(generator).field,
            final(generator).config == old(generator).config,
            final(generator).features == old(generator).features,
            forall|p: ChunkPos| final(self).has_chunk(p) == old(self).has_chunk(p),
            forall|p: ChunkPos|
                old(self).has_chunk(p) ==> (#[trigger] final(self).chunk_at(p)).position == old(
                    self,
                ).chunk_at(p).position && final(self).chunk_at(p).terrain == apply_writes(
                    old(self).chunk_at(p).terrain,
                    writes_of(old(generator).waitlist.view_spec(), p),
                ) && final(self).chunk_at(p).skylightlevel == old(self).chunk_at(p).skylightlevel,
            forall|p: ChunkPos|
                old(self).has_chunk(p) ==> find_entry(
                    final(generator).waitlist.view_spec(),
                    p,
                ) == -1,
            forall|p: ChunkPos|
                !old(self).has_chunk(p) ==> writes_of(final(generator).waitlist.view_spec(), p)
                    == writes_of(old(generator).waitlist.view_spec(), p),
    {
        let ghost views0 = old(self).chunk_views();
        let ghost wl0 = old(generator).waitlist.view_spec();
        let n = self.chunks.len();
        let mut i: usize = 0;
        while i < n
            invariant
                views0 == old(self).chunk_views(),
                wl0 == old(generator).waitlist.view_spec(),
                old(self).wf(),
                old(generator).waitlist.wf(),
                n == views0.len(),
                i <= n,
                self.wf(),
                self.chunk_views().len() == n,
                generator.waitlist.wf(),
                generator.field == old(generator).field,
                generator.config == old(generator).config,
                generator.features == old(generator).features,
                forall|j: int|
                    0 <= j < n ==> (#[trigger] self.chunk_views()[j]).position
                        == views0[j].position,
                forall|j: int| i <= j < n ==> #[trigger] self.chunk_views()[j] == views0[j],
                forall|j: int|
                    0 <= j < i ==> (#[trigger] self.chunk_views()[j]).terrain == apply_writes(
                        views0[j].terrain,
                        writes_of(wl0, views0[j].position),
                    ) && self.chunk_views()[j].skylightlevel == views0[j].skylightlevel,
                forall|j: int|
                    0 <= j < i ==> find_entry(
                        generator.waitlist.view_spec(),
                        (#[trigger] views0[j]).position,
                    ) == -1,
                forall|p: ChunkPos|
                    (forall|j: int| 0 <= j < i ==> p != (#[trigger] views0[j]).position)
                        ==> #[trigger] writes_of(generator.waitlist.view_spec(), p) == writes_of(
                        wl0,
                        p,
                    ),
            decreases n - i,
        {
            let ghost wprev = *self;
            let ghost gwl = generator.waitlist.view_spec();
            let ghost target = views0[i as int].position;
            proof {
                assert(wprev.chunk_views()[i as int] == views0[i as int]);
                assert forall|j: int| 0 <= j < i implies target != (
                #[trigger] views0[j]).position by {
                    assert(old(self).chunk_views()[j].position != old(
                        self,
                    ).chunk_views()[i as int].position);
                }
                assert(writes_of(gwl, target) == writes_of(wl0, target));
            }
            let slot = &mut self.chunks[i];
            generator.apply_waitlist_to(slot);
            proof {
                let newv = self.chunk_views()[i as int];
                assert(self.chunk_views() =~= wprev.chunk_views().update(i as int, newv));
                self.lemma_views_updated(wprev, i as int, newv, target);
                assert(generator.waitlist.view_spec() == waitlist_remove(gwl, target));
                lemma_remove_entry_effects(gwl, target, target);
                assert forall|j: int|
                    0 <= j < i + 1 implies find_entry(
                    generator.waitlist.view_spec(),
                    (#[trigger] views0[j]).position,
                ) == -1 by {
                    if j < i {
                        lemma_remove_entry_effects(gwl, target, views0[j].position);
                        lemma_writes_iff_entry(gwl, views0[j].position);
                        lemma_writes_iff_entry(generator.waitlist.view_spec(), views0[j].position);
                    }
                }
                assert forall|p: ChunkPos|
                    (forall|j: int| 0 <= j < i + 1 ==> p != (#[trigger] views0[j]).position)
                        implies #[trigger] writes_of(generator.waitlist.view_spec(), p)
                    == writes_of(wl0, p) by {
                    lemma_remove_entry_effects(gwl, target, p);
                }
            }
            i = i + 1;
        }
        proof {
            assert forall|p: ChunkPos| self.has_chunk(p) == old(self).has_chunk(p) by {
                if old(self).has_chunk(p) {
                    let j = old(self).chunk_index_of(p);
                    assert(self.chunk_views()[j].position == p);
                }
                if self.has_chunk(p) {
                    let j = self.chunk_index_of(p);
                    assert(views0[j].position == p);
                }
            }
            assert forall|p: ChunkPos| old(self).has_chunk(p) implies (#[trigger] self.chunk_at(
                p,
            )).position == old(self).chunk_at(p).position && self.chunk_at(p).terrain
                == apply_writes(old(self).chunk_at(p).terrain, writes_of(wl0, p)) && self.chunk_at(
                p,
            ).skylightlevel == old(self).chunk_at(p).skylightlevel && find_entry(
                generator.waitlist.view_spec(),
                p,
            ) == -1 by {
                let j = old(self).chunk_index_of(p);
                old(self).lemma_index_determines_chunk(p, j);
                assert(self.chunk_views()[j].position == p);
                self.lemma_index_determines_chunk(p, j);
            }
            assert forall|p: ChunkPos|
                !old(self).has_chunk(p) implies writes_of(generator.waitlist.view_spec(), p)
                == writes_of(wl0, p) by {
                assert forall|j: int| 0 <= j < n implies p != (#[trigger] views0[j]).position by {
                    if p == views0[j].position {
                        old(self).lemma_index_determines_chunk(p, j);
                    }
                }
            }
        }
    }

    /// A chunk found at index `i` is the chunk that lookup by its
    /// position yields: positions are unique in a well-formed world.
    proof fn lemma_index_determines_chunk(self, position: ChunkPos, i: int)
        requires
            self.wf(),
            0 <= i < self.chunk_views().len(),
            self.chunk_views()[i].position == position,
        ensures
            self.has_chunk(position),
            self.chunk_index_of(position) == i,
            self.chunk_at(position) == self.chunk_views()[i],
    {
        let j = self.chunk_index_of(position);
        if j != i {
            if j < i {
                assert(self.chunk_views()[j].position != self.chunk_views()[i].position);
            } else {
                assert(self.chunk_views()[i].position != self.chunk_views()[j].position);
            }
        }
    }

    /// After replacing the chunk at index `i` by one at the same
    /// position, lookups at that position yield the new chunk and all
    /// other lookups are unchanged.
    proof fn lemma_views_updated(self, prev: World, i: int, v: ChunkDataView, position: ChunkPos)
        requires
            prev.wf(),
            0 <= i < prev.chunk_views().len(),
            prev.chunk_views()[i].position == position,
            v.position == position,
            v.wf(),
            self.chunk_views() == prev.chunk_views().update(i, v),
        ensures
            self.wf(),
            forall|p: ChunkPos| self.has_chunk(p) == prev.has_chunk(p),
            self.chunk_at(position) == v,
            forall|p: ChunkPos|
                p != position && prev.has_chunk(p) ==> #[trigger] self.chunk_at(p)
                    == prev.chunk_at(p),
    {
        assert forall|p: ChunkPos| self.has_chunk(p) == prev.has_chunk(p) by {
            if self.has_chunk(p) {
                let k = choose|k: int|
                    0 <= k < self.chunk_views().len() && (#[trigger] self.chunk_views()[k]).position
                        == p;
                assert(prev.chunk_views()[k].position == p || k == i);
            }
            if prev.has_chunk(p) {
                let k = choose|k: int|
                    0 <= k < prev.chunk_views().len() && (#[trigger] prev.chunk_views()[k]).position
                        == p;
                assert(self.chunk_views()[k].position == p || k == i);
                if k == i {
                    assert(self.chunk_views()[i].position == p);
                }
            }
        }
        assert(self.wf());
        self.lemma_index_determines_chunk(position, i);
        assert forall|p: ChunkPos| p != position && prev.has_chunk(p) implies #[trigger] self
            .chunk_at(p) == prev.chunk_at(p) by {
            let k = choose|k: int|
                0 <= k < prev.chunk_views().len() && (#[trigger] prev.chunk_views()[k]).position
                    == p;
            prev.lemma_index_determines_chunk(p, k);
            assert(self.chunk_views()[k].position == p);
            self.lemma_index_determines_chunk(p, k);
        }
    }

    /// After appending a chunk at a position that was not loaded,
    /// lookups at that position yield it and all other lookups are
    /// unchanged.
    proof fn lemma_views_pushed(self, prev: World, v: ChunkDataView, position: ChunkPos)
        requires
            prev.wf(),
            !prev.has_chunk(position),
            v.position == position,
            v.wf(),
            self.chunk_views() == prev.chunk_views().push(v),
        ensures
            self.wf(),
            self.has_chunk(position),
            self.chunk_at(position) == v,
            forall|p: ChunkPos|
                p != position ==> (#[trigger] self.has_chunk(p) == prev.has_chunk(p) && (
                prev.has_chunk(p) ==> self.chunk_at(p) == prev.chunk_at(p))),
    {
        let n = prev.chunk_views().len() as int;
        assert(self.chunk_views()[n] == v);
        assert forall|i: int, j: int|
            0 <= i < j < self.chunk_views().len() implies self.chunk_views()[i].position
            != self.chunk_views()[j].position by {
            if j < n {
            } else {
                assert(self.chunk_views()[i] == prev.chunk_views()[i]);
                assert(!(prev.chunk_views()[i].position == position));
            }
        }
        self.lemma_index_determines_chunk(position, n);
        assert forall|p: ChunkPos| p != position implies (#[trigger] self.has_chunk(p)
            == prev.has_chunk(p) && (prev.has_chunk(p) ==> self.chunk_at(p) == prev.chunk_at(
            p,
        ))) by {
            if prev.has_chunk(p) {
                let k = choose|k: int|
                    0 <= k < prev.chunk_views().len() && (#[trigger] prev.chunk_views()[k]).position
                        == p;
                prev.lemma_index_determines_chunk(p, k);
                assert(self.chunk_views()[k].position == p);
                self.lemma_index_determines_chunk(p, k);
            }
            if self.has_chunk(p) {
                let k = choose|k: int|
                    0 <= k < self.chunk_views().len() && (#[trigger] self.chunk_views()[k]).position
                        == p;
                assert(k < n);
                assert(prev.chunk_views()[k].position == p);
            }
        }
    }
}

/// An edit to a loaded chunk is observed by an immediately following
/// read of the same block: the edit path is synchronous. A mesh
/// rebuild that starts after the edit therefore builds from data that
/// already shows it.
pub proof fn lemma_edit_then_read(prev: World, cur: World, lp: LocalBlockPos, to: BlockID)
    requires
        prev.wf(),
        lp.wf(),
        prev.has_chunk(lp.chunk),
        cur.set_block_result(prev, lp, to),
    ensures
        cur.has_chunk(lp.chunk),
        cur.chunk_at(lp.chunk).block_at(lp.x as int, lp.y as int, lp.z as int) == to,
{
    lemma_flat_index_bounds(lp.x as int, lp.y as int, lp.z as int);
    let i = prev.chunk_index_of(lp.chunk);
    assert(prev.chunk_views()[i].wf());
    assert(cur.has_chunk(lp.chunk) == prev.has_chunk(lp.chunk));
}

} // verus!
