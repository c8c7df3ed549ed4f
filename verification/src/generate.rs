//! Terrain and feature generation: fills a new chunk column by column
//! from a terrain height field, layering named strata by distance from
//! the peak, then lets features decorate the chunk and drains the
//! waitlist entry that earlier generation left for it.

use vstd::prelude::*;

verus! {

use crate::{BlockID, CHUNK_SIZE_X, CHUNK_SIZE_Y, CHUNK_SIZE_Z, CHUNK_VOLUME};
use crate::chunk::{flat_index, lemma_flat_index_injective, ChunkData, ChunkDataView};
use crate::features::{
    apply_writes,
    find_entry,
    lemma_merge_concatenates,
    lemma_remove_entry_effects,
    waitlist_remove,
    writes_of,
    BlockWrite,
    Feature,
    FeatureWaitlist,
};
use crate::positions::{ChunkPos, LocalBlockPos};
use crate::registry::BlockManager;

/// The terrain height field: for every global column, the y level of
/// the terrain surface. This stands for the noise field of the engine:
/// nothing is promised of its answers, and the generation that
/// consumes them is verified for every answer.
pub trait TerrainField {
    /// The y level of the terrain peak at the global column (x, z).
    fn terrain_peak(&self, x: isize, z: isize) -> isize;
}

/// The named strata of a terrain column: one distinguished block at
/// the peak, one at the bottom, a sequence of layers picked by
/// distance from the peak, and a filler once the layers run out.
pub struct GenerationConfig {
    /// The single block exactly at the peak.
    pub top: BlockID,
    /// Layers by increasing distance from the peak: the first layer
    /// whose threshold is not exceeded wins.
    pub layers: Vec<(isize, BlockID)>,
    /// The block for depths beyond the last configured layer.
    pub filler: BlockID,
    /// The bottom-most block, at y = 0.
    pub bottom: BlockID,
}

/// The block of the first layer whose distance threshold is not
/// exceeded, or the filler when the list is exhausted.
pub open spec fn layer_for(layers: Seq<(isize, BlockID)>, dist: int, filler: BlockID) -> BlockID
    decreases layers.len(),
{
    if layers.len() == 0 {
        filler
    } else if dist <= layers[0].0 {
        layers[0].1
    } else {
        layer_for(layers.drop_first(), dist, filler)
    }
}

/// If the first layer whose threshold holds is at `i`, the layer scan
/// picks exactly that layer.
proof fn lemma_layer_for_at(layers: Seq<(isize, BlockID)>, dist: int, filler: BlockID, i: int)
    requires
        0 <= i < layers.len(),
        dist <= layers[i].0,
        forall|j: int| 0 <= j < i ==> dist > (#[trigger] layers[j]).0,
    ensures
        layer_for(layers, dist, filler) == layers[i].1,
    decreases i,
{
    if i == 0 {
    } else {
        assert(layers.drop_first()[i - 1] == layers[i]);
        assert forall|j: int| 0 <= j < i - 1 implies dist > (#[trigger] layers.drop_first()[j]).0 by {
            assert(layers.drop_first()[j] == layers[j + 1]);
        }
        lemma_layer_for_at(layers.drop_first(), dist, filler, i - 1);
    }
}

/// If every layer's threshold is exceeded, the layer scan falls back
/// to the filler.
proof fn lemma_layer_for_none(layers: Seq<(isize, BlockID)>, dist: int, filler: BlockID)
    requires
        forall|j: int| 0 <= j < layers.len() ==> dist > (#[trigger] layers[j]).0,
    ensures
        layer_for(layers, dist, filler) == filler,
    decreases layers.len(),
{
    if layers.len() == 0 {
    } else {
        assert forall|j: int|
            0 <= j < layers.len() - 1 implies dist > (#[trigger] layers.drop_first()[j]).0 by {
            assert(layers.drop_first()[j] == layers[j + 1]);
        }
        lemma_layer_for_none(layers.drop_first(), dist, filler);
    }
}

impl GenerationConfig {
    /// The block generated at height `y` in a column whose terrain
    /// peak is at `peak`: the top block exactly at the peak, the
    /// bottom block at y = 0, air above the peak, and below it the
    /// layer at the right distance from the peak.
    pub open spec fn spec_generate_block(self, y: int, peak: int) -> BlockID {
        if y == peak {
            self.top
        } else if y == 0 {
            self.bottom
        } else if y > peak {
            0
        } else {
            layer_for(self.layers@, peak - y, self.filler)
        }
    }

    /// The standard strata, looked up by name in the registry: grass
    /// on top, dirt then pebbled dirt below the peak, stone as filler
    /// and silicate at the bottom.
    ///
    /// Returns `None` exactly when some of those names is missing from
    /// the registry.
    pub fn standard(manager: &BlockManager) -> (r: Option<GenerationConfig>)
        requires
            manager.wf(),
        ensures
            r is Some <==> ((exists|i: int|
                0 <= i < manager.blocks@.len() && (#[trigger] manager.blocks@[i]).name@
                    == "grass"@) && (exists|i: int|
                0 <= i < manager.blocks@.len() && (#[trigger] manager.blocks@[i]).name@ == "dirt"@)
                && (exists|i: int|
                0 <= i < manager.blocks@.len() && (#[trigger] manager.blocks@[i]).name@
                    == "pebbled_dirt"@) && (exists|i: int|
                0 <= i < manager.blocks@.len() && (#[trigger] manager.blocks@[i]).name@ == "stone"@)
                && (exists|i: int|
                0 <= i < manager.blocks@.len() && (#[trigger] manager.blocks@[i]).name@
                    == "silicate"@)),
            r matches Some(c) ==> ((exists|i: int|
                0 <= i < manager.blocks@.len() && (#[trigger] manager.blocks@[i]).name@ == "grass"@
                    && manager.blocks@[i].id == c.top) && (exists|i: int|
                0 <= i < manager.blocks@.len() && (#[trigger] manager.blocks@[i]).name@ == "stone"@
                    && manager.blocks@[i].id == c.filler) && (exists|i: int|
                0 <= i < manager.blocks@.len() && (#[trigger] manager.blocks@[i]).name@
                    == "silicate"@ && manager.blocks@[i].id == c.bottom) && c.layers@.len() == 2
                && c.layers@[0].0 == 4 && c.layers@[1].0 == 8 && (exists|i: int|
                0 <= i < manager.blocks@.len() && (#[trigger] manager.blocks@[i]).name@ == "dirt"@
                    && manager.blocks@[i].id == c.layers@[0].1) && (exists|i: int|
                0 <= i < manager.blocks@.len() && (#[trigger] manager.blocks@[i]).name@
                    == "pebbled_dirt"@ && manager.blocks@[i].id == c.layers@[1].1)),
    {
        let top = match manager.block("grass") {
            Some(b) => b.id,
            None => {
                return None;
            },
        };
        let dirt = match manager.block("dirt") {
            Some(b) => b.id,
            None => {
                return None;
            },
        };
        let pebbled_dirt = match manager.block("pebbled_dirt") {
            Some(b) => b.id,
            None => {
                return None;
            },
        };
        let filler = match manager.block("stone") {
            Some(b) => b.id,
            None => {
                return None;
            },
        };
        let bottom = match manager.block("silicate") {
            Some(b) => b.id,
            None => {
                return None;
            },
        };
        let mut layers: Vec<(isize, BlockID)> = Vec::new();
        layers.push((4, dirt));
        layers.push((8, pebbled_dirt));
        Some(GenerationConfig { top, layers, filler, bottom })
    }
}

/// Every cell of the column (x, z) holds the block that the strata
/// prescribe for a terrain peak at `peak`.
pub open spec fn column_matches(
    c: ChunkDataView,
    config: GenerationConfig,
    x: int,
    z: int,
    peak: int,
) -> bool {
    forall|y: int|
        0 <= y < CHUNK_SIZE_Y ==> #[trigger] c.block_at(x, y, z) == config.spec_generate_block(
            y,
            peak,
        )
}

/// The column (x, z) is a terrain column: all of its cells follow the
/// strata for one common peak height.
pub open spec fn column_ok(c: ChunkDataView, config: GenerationConfig, x: int, z: int) -> bool {
    exists|peak: int| #[trigger] column_matches(c, config, x, z, peak)
}

/// Position of the column (x, z) in a flattened per-column array,
/// x outer and z inner.
pub open spec fn column_index(x: int, z: int) -> int {
    x * CHUNK_SIZE_Z + z
}

/// The whole terrain of a chunk as a function of the strata
/// configuration and the per-column peak heights: cell (x, y, z)
/// holds the block the strata prescribe at height y for the peak of
/// column (x, z).
pub open spec fn terrain_of(config: GenerationConfig, peaks: Seq<isize>) -> Seq<BlockID> {
    Seq::new(
        CHUNK_VOLUME as nat,
        |i: int|
            config.spec_generate_block(
                (i / (CHUNK_SIZE_Z as int)) % (CHUNK_SIZE_Y as int),
                peaks[column_index(
                    i / (CHUNK_SIZE_Y as int * CHUNK_SIZE_Z as int),
                    i % (CHUNK_SIZE_Z as int),
                )] as int,
            ),
    )
}

/// A chunk fresh from terrain generation: well-formed, every column
/// follows the strata for one common peak, and every light level is
/// zero.
pub open spec fn terrain_shape(t: ChunkDataView, config: GenerationConfig) -> bool {
    &&& t.wf()
    &&& forall|x: int, z: int|
        0 <= x < CHUNK_SIZE_X && 0 <= z < CHUNK_SIZE_Z ==> #[trigger] column_ok(t, config, x, z)
    &&& forall|i: int| 0 <= i < CHUNK_VOLUME ==> t.skylightlevel[i] == 0
}

/// The chunk is some freshly generated terrain with the given pending
/// writes applied on top of it.
pub open spec fn terrain_then_drain(
    data: ChunkDataView,
    config: GenerationConfig,
    pending: Seq<BlockWrite>,
) -> bool {
    exists|t: ChunkDataView|
        #[trigger] terrain_shape(t, config) && t.position == data.position && data.terrain
            == apply_writes(t.terrain, pending) && data.skylightlevel == t.skylightlevel
}

/// Produces a new chunk's block data from the terrain height field
/// plus a set of features that may write into neighboring, not yet
/// generated chunks through the waitlist.
pub struct ChunkGenerator<T: TerrainField, F: Feature> {
    /// The terrain height field.
    pub field: T,
    /// The strata configuration.
    pub config: GenerationConfig,
    /// The features to place in every generated chunk.
    pub features: Vec<F>,
    /// Pending cross-chunk writes accumulated by features, drained
    /// into each chunk as it is generated or loaded.
    pub waitlist: FeatureWaitlist,
}

impl<T: TerrainField, F: Feature> ChunkGenerator<T, F> {
    pub fn new(field: T, config: GenerationConfig, features: Vec<F>) -> (r: Self)
        ensures
            r.field == field,
            r.config == config,
            r.features == features,
            r.waitlist.wf(),
            r.waitlist.view_spec() == Seq::<crate::features::WaitlistEntry>::empty(),
    {
        Self { field, config, features, waitlist: FeatureWaitlist::new() }
    }

    /// The block generated at height `y` for a column whose terrain
    /// peak is at `terrain_peak`.
    pub fn generate_block(&self, y: isize, terrain_peak: isize) -> (r: BlockID)
        requires
            y >= 0,
        ensures
            r == self.config.spec_generate_block(y as int, terrain_peak as int),
    {
        if y == terrain_peak {
            self.config.top
        } else if y == 0 {
            self.config.bottom
        } else if y > terrain_peak {
            0
        } else {
            let distance_from_peak = terrain_peak - y;
            let mut i: usize = 0;
            let n = self.config.layers.len();
            while i < n
                invariant
                    n == self.config.layers@.len(),
                    i <= n,
                    0 < y < terrain_peak,
                    distance_from_peak == terrain_peak - y,
                    forall|j: int|
                        0 <= j < i ==> distance_from_peak > (#[trigger] self.config.layers@[j]).0,
                decreases n - i,
            {
                let layer = self.config.layers[i];
                if distance_from_peak <= layer.0 {
                    proof {
                        lemma_layer_for_at(
                            self.config.layers@,
                            distance_from_peak as int,
                            self.config.filler,
                            i as int,
                        );
                    }
                    return layer.1;
                }
                i = i + 1;
            }
            // We have run out of layers.
            proof {
                lemma_layer_for_none(
                    self.config.layers@,
                    distance_from_peak as int,
                    self.config.filler,
                );
            }
            self.config.filler
        }
    }

    /// Fills a new chunk's terrain from the height field: every column
    /// follows the strata for the peak that the field reports for it,
    /// and every light level is zero.
    /// Samples the height field once per column of the chunk, in
    /// column order (x outer, z inner). The answers are whatever the
    /// field gives; the terrain built from them is exact in them.
    pub fn sample_peaks(&self, position: ChunkPos) -> (r: Vec<isize>)
        requires
            position.in_range(),
        ensures
            r@.len() == CHUNK_SIZE_X * CHUNK_SIZE_Z,
    {
        let origin = position.origin();
        let mut r: Vec<isize> = Vec::new();
        let mut x: usize = 0;
        while x < CHUNK_SIZE_X
            invariant
                position.in_range(),
                origin.x == CHUNK_SIZE_X as int * position.x,
                origin.z == CHUNK_SIZE_Z as int * position.z,
                x <= CHUNK_SIZE_X,
                r@.len() == x * CHUNK_SIZE_Z,
            decreases CHUNK_SIZE_X - x,
        {
            let mut z: usize = 0;
            while z < CHUNK_SIZE_Z
                invariant
                    position.in_range(),
                    origin.x == CHUNK_SIZE_X as int * position.x,
                    origin.z == CHUNK_SIZE_Z as int * position.z,
                    x < CHUNK_SIZE_X,
                    z <= CHUNK_SIZE_Z,
                    r@.len() == x * CHUNK_SIZE_Z + z,
                decreases CHUNK_SIZE_Z - z,
            {
                let global_x = origin.x + x as isize;
                let global_z = origin.z + z as isize;
                r.push(self.field.terrain_peak(global_x, global_z));
                z = z + 1;
            }
            x = x + 1;
        }
        r
    }

    /// Fills a new chunk's terrain from the given per-column peaks:
    /// the cell array is exactly [`terrain_of`] the configuration and
    /// the peaks, so equal peaks give bit-identical terrain, and every
    /// light level is zero.
    pub fn terrain_from_peaks(&self, position: ChunkPos, peaks: &Vec<isize>) -> (data: ChunkData)
        requires
            position.in_range(),
            peaks@.len() == CHUNK_SIZE_X * CHUNK_SIZE_Z,
        ensures
            data.wf(),
            data@.position == position,
            data@.terrain == terrain_of(self.config, peaks@),
            forall|x: int, z: int|
                0 <= x < CHUNK_SIZE_X && 0 <= z < CHUNK_SIZE_Z ==> #[trigger] column_matches(
                    data@,
                    self.config,
                    x,
                    z,
                    peaks@[column_index(x, z)] as int,
                ),
            forall|i: int| 0 <= i < CHUNK_VOLUME ==> data@.skylightlevel[i] == 0,
    {
        let mut data = ChunkData::new(position);
        let mut x: usize = 0;
        while x < CHUNK_SIZE_X
            invariant
                position.in_range(),
                peaks@.len() == CHUNK_SIZE_X * CHUNK_SIZE_Z,
                x <= CHUNK_SIZE_X,
                data.wf(),
                data@.position == position,
                forall|i: int| 0 <= i < CHUNK_VOLUME ==> data@.skylightlevel[i] == 0,
                forall|a: int, b: int|
                    0 <= a < x && 0 <= b < CHUNK_SIZE_Z ==> #[trigger] column_matches(
                        data@,
                        self.config,
                        a,
                        b,
                        peaks@[column_index(a, b)] as int,
                    ),
            decreases CHUNK_SIZE_X - x,
        {
            let mut z: usize = 0;
            while z < CHUNK_SIZE_Z
                invariant
                    position.in_range(),
                    peaks@.len() == CHUNK_SIZE_X * CHUNK_SIZE_Z,
                    x < CHUNK_SIZE_X,
                    z <= CHUNK_SIZE_Z,
                    data.wf(),
                    data@.position == position,
                    forall|i: int| 0 <= i < CHUNK_VOLUME ==> data@.skylightlevel[i] == 0,
                    forall|a: int, b: int|
                        0 <= a < x && 0 <= b < CHUNK_SIZE_Z ==> #[trigger] column_matches(
                            data@,
                            self.config,
                            a,
                            b,
                            peaks@[column_index(a, b)] as int,
                        ),
                    forall|b: int|
                        0 <= b < z ==> #[trigger] column_matches(
                            data@,
                            self.config,
                            x as int,
                            b,
                            peaks@[column_index(x as int, b)] as int,
                        ),
                decreases CHUNK_SIZE_Z - z,
            {
                let terrain_peak = peaks[x * CHUNK_SIZE_Z + z];
                proof {
                    assert(terrain_peak == peaks@[column_index(x as int, z as int)]);
                }
                let ghost before = data@;
                let mut y: usize = 0;
                while y < CHUNK_SIZE_Y
                    invariant
                        x < CHUNK_SIZE_X,
                        z < CHUNK_SIZE_Z,
                        y <= CHUNK_SIZE_Y,
                        data.wf(),
                        data@.position == before.position,
                        data@.skylightlevel == before.skylightlevel,
                        before.wf(),
                        forall|a: int, b: int, yy: int|
                            0 <= a < CHUNK_SIZE_X && 0 <= b < CHUNK_SIZE_Z && 0 <= yy
                                < CHUNK_SIZE_Y && !(a == x && b == z)
                                ==> #[trigger] data@.block_at(a, yy, b) == before.block_at(
                                a,
                                yy,
                                b,
                            ),
                        forall|yy: int|
                            0 <= yy < y ==> #[trigger] data@.block_at(x as int, yy, z as int)
                                == self.config.spec_generate_block(yy, terrain_peak as int),
                    decreases CHUNK_SIZE_Y - y,
                {
                    let block = self.generate_block(y as isize, terrain_peak);
                    let ghost prev = data@;
                    data.set(LocalBlockPos::new(x, y, z, position), block);
                    proof {
                        assert forall|a: int, b: int, yy: int|
                            0 <= a < CHUNK_SIZE_X && 0 <= b < CHUNK_SIZE_Z && 0 <= yy
                                < CHUNK_SIZE_Y && !(a == x && b == z) implies #[trigger] data@
                            .block_at(a, yy, b) == before.block_at(a, yy, b) by {
                            crate::chunk::lemma_flat_index_bounds(a, yy, b);
                            if flat_index(a, yy, b) == flat_index(x as int, y as int, z as int) {
                                lemma_flat_index_injective(
                                    a,
                                    yy,
                                    b,
                                    x as int,
                                    y as int,
                                    z as int,
                                );
                            }
                            assert(prev.block_at(a, yy, b) == before.block_at(a, yy, b));
                        }
                        assert forall|yy: int|
                            0 <= yy < y + 1 implies #[trigger] data@.block_at(x as int, yy, z as int)
                            == self.config.spec_generate_block(yy, terrain_peak as int) by {
                            if yy < y {
                                if flat_index(x as int, yy, z as int) == flat_index(
                                    x as int,
                                    y as int,
                                    z as int,
                                ) {
                                    lemma_flat_index_injective(
                                        x as int,
                                        yy,
                                        z as int,
                                        x as int,
                                        y as int,
                                        z as int,
                                    );
                                }
                                assert(prev.block_at(x as int, yy, z as int)
                                    == self.config.spec_generate_block(yy, terrain_peak as int));
                            }
                        }
                    }
                    y = y + 1;
                }
                proof {
                    assert(column_matches(data@, self.config, x as int, z as int,
                        terrain_peak as int));
                    assert forall|a: int, b: int|
                        0 <= a < x && 0 <= b < CHUNK_SIZE_Z implies #[trigger] column_matches(
                        data@,
                        self.config,
                        a,
                        b,
                        peaks@[column_index(a, b)] as int,
                    ) by {
                        assert(column_matches(before, self.config, a, b,
                            peaks@[column_index(a, b)] as int));
                    }
                    assert forall|b: int| 0 <= b < z implies #[trigger] column_matches(
                        data@,
                        self.config,
                        x as int,
                        b,
                        peaks@[column_index(x as int, b)] as int,
                    ) by {
                        assert(column_matches(before, self.config, x as int, b,
                            peaks@[column_index(x as int, b)] as int));
                    }
                }
                z = z + 1;
            }
            x = x + 1;
        }
        proof {
            lemma_columns_determine_terrain(data@, self.config, peaks@);
        }
        data
    }

    /// Fills a new chunk's terrain from the height field: every column
    /// follows the strata for the peak that the field reports for it,
    /// and every light level is zero.
    pub fn generate_terrain(&self, position: ChunkPos) -> (data: ChunkData)
        requires
            position.in_range(),
        ensures
            data.wf(),
            data@.position == position,
            forall|x: int, z: int|
                0 <= x < CHUNK_SIZE_X && 0 <= z < CHUNK_SIZE_Z ==> #[trigger] column_ok(
                    data@,
                    self.config,
                    x,
                    z,
                ),
            forall|i: int| 0 <= i < CHUNK_VOLUME ==> data@.skylightlevel[i] == 0,
    {
        let peaks = self.sample_peaks(position);
        let data = self.terrain_from_peaks(position, &peaks);
        proof {
            assert forall|x: int, z: int|
                0 <= x < CHUNK_SIZE_X && 0 <= z < CHUNK_SIZE_Z implies #[trigger] column_ok(
                data@,
                self.config,
                x,
                z,
            ) by {
                assert(column_matches(data@, self.config, x, z,
                    peaks@[column_index(x, z)] as int));
            }
        }
        data
    }

    /// Adds every feature to `chunk_data`, accumulating their
    /// cross-chunk writes into the generator's waitlist.
    pub fn add_features(&mut self, chunk_data: &mut ChunkData)
        requires
            old(self).waitlist.wf(),
            old(chunk_data).wf(),
            old(chunk_data)@.position.in_range(),
        ensures
            final(self).waitlist.wf(),
            final(self).field == old(self).field,
            final(self).config == old(self).config,
            final(self).features == old(self).features,
            final(chunk_data).wf(),
            final(chunk_data)@.position == old(chunk_data)@.position,
            final(chunk_data)@.skylightlevel == old(chunk_data)@.skylightlevel,
            old(self).features@.len() == 0 ==> (*final(chunk_data) == *old(chunk_data)
                && final(self).waitlist == old(self).waitlist),
            forall|p: ChunkPos|
                (#[trigger] writes_of(old(self).waitlist.view_spec(), p)).is_prefix_of(
                    writes_of(final(self).waitlist.view_spec(), p),
                ),
    {
        let mut i: usize = 0;
        let n = self.features.len();
        while i < n
            invariant
                n == self.features@.len(),
                i <= n,
                self.waitlist.wf(),
                self.field == old(self).field,
                self.config == old(self).config,
                self.features == old(self).features,
                chunk_data.wf(),
                chunk_data@.position == old(chunk_data)@.position,
                chunk_data@.skylightlevel == old(chunk_data)@.skylightlevel,
                old(chunk_data)@.position.in_range(),
                old(self).features@.len() == 0 ==> (*chunk_data == *old(chunk_data) && self.waitlist
                    == old(self).waitlist),
                forall|p: ChunkPos|
                    (#[trigger] writes_of(old(self).waitlist.view_spec(), p)).is_prefix_of(
                        writes_of(self.waitlist.view_spec(), p),
                    ),
            decreases n - i,
        {
            let add_blocks = self.features[i].add_to_chunk(chunk_data);
            let ghost cur = self.waitlist.view_spec();
            let ghost extra = add_blocks.view_spec();
            self.waitlist.merge(add_blocks);
            proof {
                assert forall|p: ChunkPos|
                    (#[trigger] writes_of(old(self).waitlist.view_spec(), p)).is_prefix_of(
                        writes_of(self.waitlist.view_spec(), p),
                    ) by {
                    lemma_merge_concatenates(cur, extra, p);
                    let a = writes_of(old(self).waitlist.view_spec(), p);
                    let b = writes_of(cur, p);
                    let c = writes_of(self.waitlist.view_spec(), p);
                    assert(a.is_prefix_of(b));
                    assert(c == b + writes_of(extra, p));
                    assert(c.subrange(0, b.len() as int) =~= b);
                    assert(c.subrange(0, a.len() as int) =~= b.subrange(0, a.len() as int));
                }
            }
            i = i + 1;
        }
    }

    /// Drains the waitlist entry for `data`'s position, if any, and
    /// applies its pending writes to `data` in arrival order.
    pub fn apply_waitlist_to(&mut self, data: &mut ChunkData)
        requires
            old(self).waitlist.wf(),
            old(data).wf(),
        ensures
            final(self).waitlist.wf(),
            final(self).waitlist.view_spec() == waitlist_remove(
                old(self).waitlist.view_spec(),
                old(data)@.position,
            ),
            final(self).field == old(self).field,
            final(self).config == old(self).config,
            final(self).features == old(self).features,
            final(data).wf(),
            final(data)@.position == old(data)@.position,
            final(data)@.skylightlevel == old(data)@.skylightlevel,
            final(data)@.terrain == apply_writes(
                old(data)@.terrain,
                writes_of(old(self).waitlist.view_spec(), old(data)@.position),
            ),
    {
        let ghost wl = self.waitlist.view_spec();
        let position = data.position();
        let mut i: usize = 0;
        let n = self.waitlist.chunks.len();
        while i < n
            invariant
                *self == *old(self),
                wl == self.waitlist.view_spec(),
                old(self).waitlist.wf(),
                position == old(data)@.position,
                *data == *old(data),
                old(data).wf(),
                n == self.waitlist.chunks@.len(),
                i <= n,
                forall|j: int| 0 <= j < i ==> (#[trigger] wl[j]).0 != position,
            decreases n - i,
        {
            if self.waitlist.chunks[i].0 == position {
                proof {
                    crate::features::lemma_find_entry_at(wl, position, i as int);
                }
                let entry = self.waitlist.chunks.remove(i);
                proof {
                    assert(self.waitlist.view_spec() =~~= wl.remove(i as int));
                    crate::features::lemma_waitlist_remove_wf(
                        old(self).waitlist,
                        self.waitlist,
                        i as int,
                    );
                }
                let ghost ws = wl[i as int].1;
                let m = entry.1.len();
                let mut k: usize = 0;
                while k < m
                    invariant
                        old(self).waitlist.wf(),
                        0 <= i < wl.len(),
                        wl == old(self).waitlist.view_spec(),
                        wl[i as int].0 == position,
                        ws == wl[i as int].1,
                        self.waitlist.view_spec() == wl.remove(i as int),
                        self.waitlist.wf(),
                        self.field == old(self).field,
                        self.config == old(self).config,
                        self.features == old(self).features,
                        entry.1@ == ws,
                        m == ws.len(),
                        k <= m,
                        position == old(data)@.position,
                        data.wf(),
                        data@.position == old(data)@.position,
                        data@.skylightlevel == old(data)@.skylightlevel,
                        data@.terrain == apply_writes(old(data)@.terrain, ws.take(k as int)),
                    decreases m - k,
                {
                    let write = entry.1[k];
                    proof {
                        assert(ws[k as int] == write);
                        assert(write.0.wf());
                    }
                    data.set(write.0, write.1);
                    proof {
                        assert(ws.take(k + 1).drop_last() =~= ws.take(k as int));
                        assert(ws.take(k + 1).last() == ws[k as int]);
                    }
                    k = k + 1;
                }
                proof {
                    assert(ws.take(m as int) =~= ws);
                    assert(writes_of(wl, position) == ws);
                    assert(waitlist_remove(wl, position) == wl.remove(i as int));
                }
                return ;
            }
            i = i + 1;
        }
        proof {
            crate::features::lemma_find_entry_none(wl, position);
            assert(apply_writes(old(data)@.terrain, writes_of(wl, position)) == old(
                data,
            )@.terrain);
        }
    }

    /// Generates the chunk at `position`: terrain from the height
    /// field, then features, then the pending writes other chunks'
    /// features left for this one.
    ///
    /// Given the same height field, placement decisions and
    /// accumulated waitlist, the result is determined by `position`.
    pub fn generate_chunk(&mut self, position: ChunkPos) -> (data: ChunkData)
        requires
            old(self).waitlist.wf(),
            position.in_range(),
        ensures
            data.wf(),
            data@.position == position,
            forall|i: int| 0 <= i < CHUNK_VOLUME ==> data@.skylightlevel[i] == 0,
            final(self).waitlist.wf(),
            final(self).field == old(self).field,
            final(self).config == old(self).config,
            final(self).features == old(self).features,
            find_entry(final(self).waitlist.view_spec(), position) == -1,
            forall|p: ChunkPos|
                p != position ==> (#[trigger] writes_of(old(self).waitlist.view_spec(),
                p)).is_prefix_of(writes_of(final(self).waitlist.view_spec(), p)),
            old(self).features@.len() == 0 ==> (terrain_then_drain(
                data@,
                old(self).config,
                writes_of(old(self).waitlist.view_spec(), position),
            ) && final(self).waitlist.view_spec() == waitlist_remove(
                old(self).waitlist.view_spec(),
                position,
            )),
    {
        let ghost wl0 = self.waitlist.view_spec();
        let mut data = self.generate_terrain(position);
        let ghost shaped = data@;
        self.add_features(&mut data);
        let ghost wl1 = self.waitlist.view_spec();
        self.apply_waitlist_to(&mut data);
        proof {
            lemma_remove_entry_effects(wl1, position, position);
            assert forall|p: ChunkPos|
                p != position implies (#[trigger] writes_of(wl0, p)).is_prefix_of(
                writes_of(self.waitlist.view_spec(), p),
            ) by {
                lemma_remove_entry_effects(wl1, position, p);
                assert(writes_of(wl0, p).is_prefix_of(writes_of(wl1, p)));
            }
            if old(self).features@.len() == 0 {
                assert(terrain_shape(shaped, old(self).config));
                assert(terrain_then_drain(data@, old(self).config, writes_of(wl0, position)));
            }
        }
        data
    }
}

/// A chunk whose every column follows the strata for its listed peak
/// holds exactly the terrain determined by the configuration and the
/// peaks.
proof fn lemma_columns_determine_terrain(
    c: ChunkDataView,
    config: GenerationConfig,
    peaks: Seq<isize>,
)
    requires
        c.wf(),
        peaks.len() == CHUNK_SIZE_X * CHUNK_SIZE_Z,
        forall|x: int, z: int|
            0 <= x < CHUNK_SIZE_X && 0 <= z < CHUNK_SIZE_Z ==> #[trigger] column_matches(
                c,
                config,
                x,
                z,
                peaks[column_index(x, z)] as int,
            ),
    ensures
        c.terrain == terrain_of(config, peaks),
{
    assert forall|i: int| 0 <= i < CHUNK_VOLUME implies c.terrain[i] == terrain_of(
        config,
        peaks,
    )[i] by {
        vstd::arithmetic::div_mod::lemma_fundamental_div_mod(i, CHUNK_SIZE_Z as int);
        let p = i / (CHUNK_SIZE_Z as int);
        let z = i % (CHUNK_SIZE_Z as int);
        vstd::arithmetic::div_mod::lemma_fundamental_div_mod(p, CHUNK_SIZE_Y as int);
        let x = p / (CHUNK_SIZE_Y as int);
        let y = p % (CHUNK_SIZE_Y as int);
        assert(i == flat_index(x, y, z));
        vstd::arithmetic::div_mod::lemma_fundamental_div_mod_converse(
            i,
            CHUNK_SIZE_Y as int * CHUNK_SIZE_Z as int,
            x,
            CHUNK_SIZE_Z as int * y + z,
        );
        assert(column_matches(c, config, x, z, peaks[column_index(x, z)] as int));
        assert(c.block_at(x, y, z) == config.spec_generate_block(
            y,
            peaks[column_index(x, z)] as int,
        ));
    }
    assert(c.terrain =~= terrain_of(config, peaks));
}

} // verus!
