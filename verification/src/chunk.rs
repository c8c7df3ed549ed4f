//! The dense per-chunk block store: a fixed-size 3D array of block
//! type identifiers and a parallel array of light levels, keyed by the
//! chunk's position.

use vstd::prelude::*;

verus! {

use crate::{BlockID, CHUNK_SIZE_X, CHUNK_SIZE_Y, CHUNK_SIZE_Z, CHUNK_VOLUME};
use crate::codec::{
    decoded_block,
    decoded_light,
    lemma_byte_position,
    lemma_u16_parts,
    lz4_compress,
    lz4_decompress,
    lz4_frame,
    lz4_unframe,
    payload_byte,
    payload_of,
};
use crate::errors::DecodeError;
use crate::positions::{ChunkPos, LocalBlockPos};

/// Position of the cell (x, y, z) in the flattened block array: x is
/// the outermost axis, z the innermost.
pub open spec fn flat_index(x: int, y: int, z: int) -> int {
    (x * CHUNK_SIZE_Y as int + y) * CHUNK_SIZE_Z as int + z
}

/// The mathematical content of a [`ChunkData`]: its position and the
/// two cell arrays as sequences in flat index order.
pub struct ChunkDataView {
    pub position: ChunkPos,
    pub terrain: Seq<BlockID>,
    pub skylightlevel: Seq<u16>,
}

impl ChunkDataView {
    /// Both arrays hold exactly one cell per block of the chunk.
    pub open spec fn wf(self) -> bool {
        &&& self.terrain.len() == CHUNK_VOLUME
        &&& self.skylightlevel.len() == CHUNK_VOLUME
    }

    /// The block type stored for the cell (x, y, z).
    pub open spec fn block_at(self, x: int, y: int, z: int) -> BlockID {
        self.terrain[flat_index(x, y, z)]
    }
}

/// One chunk's worth of block data: a block type and a light level for
/// every cell, plus the chunk's position.
pub struct ChunkData {
    position: ChunkPos,
    terrain: Vec<BlockID>,
    skylightlevel: Vec<u16>,
}

impl View for ChunkData {
    type V = ChunkDataView;

    closed spec fn view(&self) -> ChunkDataView {
        ChunkDataView {
            position: self.position,
            terrain: self.terrain@,
            skylightlevel: self.skylightlevel@,
        }
    }
}

impl ChunkData {
    /// Shorthand for the well-formedness of the view.
    pub open spec fn wf(self) -> bool {
        self@.wf()
    }

    /// The chunk's position.
    pub open spec fn spec_position(self) -> ChunkPos {
        self@.position
    }

    /// Creates a chunk with every block empty (air) and every light
    /// level zero.
    pub fn new(position: ChunkPos) -> (r: Self)
        ensures
            r.wf(),
            r@.position == position,
            forall|i: int| 0 <= i < CHUNK_VOLUME ==> r@.terrain[i] == 0,
            forall|i: int| 0 <= i < CHUNK_VOLUME ==> r@.skylightlevel[i] == 0,
    {
        let mut terrain: Vec<BlockID> = Vec::new();
        let mut skylightlevel: Vec<u16> = Vec::new();
        let mut i: usize = 0;
        while i < CHUNK_VOLUME
            invariant
                i <= CHUNK_VOLUME,
                terrain@.len() == i,
                skylightlevel@.len() == i,
                forall|j: int| 0 <= j < i ==> terrain@[j] == 0,
                forall|j: int| 0 <= j < i ==> skylightlevel@[j] == 0,
            decreases CHUNK_VOLUME - i,
        {
            terrain.push(0);
            skylightlevel.push(0);
            i = i + 1;
        }
        Self { position, terrain, skylightlevel }
    }

    /// The chunk's position.
    pub fn position(&self) -> (r: ChunkPos)
        ensures
            r == self@.position,
    {
        self.position
    }

    /// Gets the block at `position`. The caller guarantees that the
    /// position belongs to this chunk; cross-chunk access goes through
    /// the world instead.
    pub fn get(&self, position: LocalBlockPos) -> (r: BlockID)
        requires
            self.wf(),
            position.wf(),
        ensures
            r == self@.block_at(position.x as int, position.y as int, position.z as int),
    {
        proof {
            lemma_flat_index_bounds(position.x as int, position.y as int, position.z as int);
        }
        let idx = (position.x * CHUNK_SIZE_Y + position.y) * CHUNK_SIZE_Z + position.z;
        self.terrain[idx]
    }

    /// Sets the block at `position` to `to`. The caller guarantees that
    /// the position belongs to this chunk.
    pub fn set(&mut self, position: LocalBlockPos, to: BlockID)
        requires
            old(self).wf(),
            position.wf(),
        ensures
            final(self).wf(),
            final(self)@.position == old(self)@.position,
            final(self)@.skylightlevel == old(self)@.skylightlevel,
            final(self)@.terrain == old(self)@.terrain.update(
                flat_index(position.x as int, position.y as int, position.z as int),
                to,
            ),
    {
        proof {
            lemma_flat_index_bounds(position.x as int, position.y as int, position.z as int);
        }
        let idx = (position.x * CHUNK_SIZE_Y + position.y) * CHUNK_SIZE_Z + position.z;
        self.terrain.set(idx, to);
    }

    /// Gets the y level of the first empty (air) block of the column at
    /// `x` and `z`, scanning upward from y = 0.
    ///
    /// Returns `None` if the whole column is solid.
    pub fn get_air_start(&self, x: usize, z: usize) -> (r: Option<usize>)
        requires
            self.wf(),
            x < CHUNK_SIZE_X,
            z < CHUNK_SIZE_Z,
        ensures
            r matches Some(y) ==> y < CHUNK_SIZE_Y && self@.block_at(x as int, y as int, z as int)
                == 0 && (forall|yy: int|
                0 <= yy < y ==> self@.block_at(x as int, yy, z as int) != 0),
            r is None ==> forall|yy: int|
                0 <= yy < CHUNK_SIZE_Y ==> self@.block_at(x as int, yy, z as int) != 0,
    {
        let mut y: usize = 0;
        while y < CHUNK_SIZE_Y
            invariant
                self.wf(),
                x < CHUNK_SIZE_X,
                z < CHUNK_SIZE_Z,
                y <= CHUNK_SIZE_Y,
                forall|yy: int| 0 <= yy < y ==> self@.block_at(x as int, yy, z as int) != 0,
            decreases CHUNK_SIZE_Y - y,
        {
            let position = LocalBlockPos::new(x, y, z, self.position);
            if self.get(position) == 0 {
                return Some(y);
            }
            y = y + 1;
        }
        None
    }
}

impl ChunkData {
    /// Serializes this chunk's cell arrays into one compressed byte
    /// buffer, the payload handed to the network and storage
    /// collaborators. The chunk's position is carried alongside the
    /// buffer, not inside it.
    pub fn pack(&self) -> (r: Vec<u8>)
        requires
            self.wf(),
        ensures
            r@ == lz4_frame(payload_of(self@)),
            lz4_unframe(r@) == Some(payload_of(self@)),
    {
        let mut bytes: Vec<u8> = Vec::new();
        let mut i: usize = 0;
        while i < CHUNK_VOLUME
            invariant
                self.wf(),
                i <= CHUNK_VOLUME,
                bytes@.len() == 4 * i,
                forall|k: int| 0 <= k < 4 * i ==> bytes@[k] == payload_byte(self@, k),
            decreases CHUNK_VOLUME - i,
        {
            let light = self.skylightlevel[i];
            let block = self.terrain[i];
            proof {
                lemma_u16_parts(light);
                lemma_u16_parts(block);
            }
            bytes.push((light & 0xff) as u8);
            bytes.push((light >> 8) as u8);
            bytes.push((block & 0xff) as u8);
            bytes.push((block >> 8) as u8);
            proof {
                assert forall|k: int| 0 <= k < 4 * (i + 1) implies bytes@[k] == payload_byte(
                    self@,
                    k,
                ) by {
                    if 4 * i <= k {
                        lemma_byte_position(i as int, k - 4 * i);
                    }
                }
            }
            i = i + 1;
        }
        proof {
            assert(bytes@ =~= payload_of(self@));
        }
        lz4_compress(&bytes)
    }

    /// Deserializes a chunk from a compressed payload produced by
    /// [`ChunkData::pack`], giving it the supplied position.
    ///
    /// Fails with `DecodeError::BadStream` if the buffer is not a
    /// well-formed LZ4 frame, and with `DecodeError::BadLength` if the
    /// decompressed data does not have the exact payload length.
    pub fn unpack(position: ChunkPos, packed: &Vec<u8>) -> (r: Result<ChunkData, DecodeError>)
        ensures
            r matches Ok(c) ==> (lz4_unframe(packed@) matches Some(bytes) && bytes.len() == 4
                * CHUNK_VOLUME && c.wf() && c@.position == position && (forall|e: int|
                0 <= e < CHUNK_VOLUME ==> c@.terrain[e] == decoded_block(bytes, e)) && (forall|
                e: int,
            |
                0 <= e < CHUNK_VOLUME ==> c@.skylightlevel[e] == decoded_light(bytes, e))),
            r == Err::<ChunkData, DecodeError>(DecodeError::BadStream) <==> lz4_unframe(packed@)
                is None,
            r == Err::<ChunkData, DecodeError>(DecodeError::BadLength) <==> (lz4_unframe(packed@)
                matches Some(bytes) && bytes.len() != 4 * CHUNK_VOLUME),
    {
        let decompressed = match lz4_decompress(packed) {
            Some(v) => v,
            None => {
                return Err(DecodeError::BadStream);
            },
        };
        if decompressed.len() != 4 * CHUNK_VOLUME {
            return Err(DecodeError::BadLength);
        }
        let mut terrain: Vec<BlockID> = Vec::new();
        let mut skylightlevel: Vec<u16> = Vec::new();
        let mut e: usize = 0;
        while e < CHUNK_VOLUME
            invariant
                decompressed@.len() == 4 * CHUNK_VOLUME,
                e <= CHUNK_VOLUME,
                terrain@.len() == e,
                skylightlevel@.len() == e,
                forall|j: int| 0 <= j < e ==> terrain@[j] == decoded_block(decompressed@, j),
                forall|j: int|
                    0 <= j < e ==> skylightlevel@[j] == decoded_light(decompressed@, j),
            decreases CHUNK_VOLUME - e,
        {
            let b0 = decompressed[4 * e];
            let b1 = decompressed[4 * e + 1];
            let b2 = decompressed[4 * e + 2];
            let b3 = decompressed[4 * e + 3];
            skylightlevel.push(b0 as u16 + 256 * (b1 as u16));
            terrain.push(b2 as u16 + 256 * (b3 as u16));
            e = e + 1;
        }
        Ok(ChunkData { position, terrain, skylightlevel })
    }
}

/// The first height at or above `y` at which the column (x, z) of the
/// cell array `t` holds air, or -1 when the rest of the column is
/// solid.
pub open spec fn air_start_from(t: Seq<BlockID>, x: int, z: int, y: int) -> int
    decreases CHUNK_SIZE_Y - y,
{
    if y < 0 || y >= CHUNK_SIZE_Y {
        -1
    } else if t[flat_index(x, y, z)] == 0 {
        y
    } else {
        air_start_from(t, x, z, y + 1)
    }
}

/// The ground level of the column (x, z): the first air cell from the
/// bottom, or -1 when the whole column is solid.
pub open spec fn spec_air_start(t: Seq<BlockID>, x: int, z: int) -> int {
    air_start_from(t, x, z, 0)
}

/// A column whose first air cell is at `y` has ground level `y`.
pub proof fn lemma_air_start_some(t: Seq<BlockID>, x: int, z: int, y: int)
    requires
        0 <= y < CHUNK_SIZE_Y,
        t[flat_index(x, y, z)] == 0,
        forall|yy: int| 0 <= yy < y ==> t[#[trigger] flat_index(x, yy, z)] != 0,
    ensures
        spec_air_start(t, x, z) == y,
{
    lemma_air_start_some_from(t, x, z, y, 0);
}

/// The upward search below the first air cell always reaches it.
proof fn lemma_air_start_some_from(t: Seq<BlockID>, x: int, z: int, y: int, j: int)
    requires
        0 <= j <= y < CHUNK_SIZE_Y,
        t[flat_index(x, y, z)] == 0,
        forall|yy: int| j <= yy < y ==> t[#[trigger] flat_index(x, yy, z)] != 0,
    ensures
        air_start_from(t, x, z, j) == y,
    decreases y - j,
{
    if j == y {
    } else {
        assert(t[flat_index(x, j, z)] != 0);
        lemma_air_start_some_from(t, x, z, y, j + 1);
    }
}

/// A column with no air cell has no ground level.
pub proof fn lemma_air_start_none(t: Seq<BlockID>, x: int, z: int)
    requires
        forall|yy: int| 0 <= yy < CHUNK_SIZE_Y ==> t[#[trigger] flat_index(x, yy, z)] != 0,
    ensures
        spec_air_start(t, x, z) == -1,
{
    lemma_air_start_none_from(t, x, z, 0);
}

/// The upward search through a solid column comes back empty.
proof fn lemma_air_start_none_from(t: Seq<BlockID>, x: int, z: int, j: int)
    requires
        0 <= j,
        forall|yy: int| 0 <= yy < CHUNK_SIZE_Y ==> t[#[trigger] flat_index(x, yy, z)] != 0,
    ensures
        air_start_from(t, x, z, j) == -1,
    decreases CHUNK_SIZE_Y - j,
{
    if j >= CHUNK_SIZE_Y {
    } else {
        assert(t[flat_index(x, j, z)] != 0);
        lemma_air_start_none_from(t, x, z, j + 1);
    }
}

/// The coordinates of an in-bounds cell can be recovered from its
/// flat index, so distinct cells have distinct flat indices.
pub proof fn lemma_flat_index_injective(
    x1: int,
    y1: int,
    z1: int,
    x2: int,
    y2: int,
    z2: int,
)
    requires
        0 <= x1 < CHUNK_SIZE_X,
        0 <= y1 < CHUNK_SIZE_Y,
        0 <= z1 < CHUNK_SIZE_Z,
        0 <= x2 < CHUNK_SIZE_X,
        0 <= y2 < CHUNK_SIZE_Y,
        0 <= z2 < CHUNK_SIZE_Z,
        flat_index(x1, y1, z1) == flat_index(x2, y2, z2),
    ensures
        x1 == x2,
        y1 == y2,
        z1 == z2,
{
    lemma_flat_index_decomposes(x1, y1, z1);
    lemma_flat_index_decomposes(x2, y2, z2);
}

/// Dividing a flat index by the axis extents recovers the cell's
/// coordinates.
pub proof fn lemma_flat_index_decomposes(x: int, y: int, z: int)
    requires
        0 <= x < CHUNK_SIZE_X,
        0 <= y < CHUNK_SIZE_Y,
        0 <= z < CHUNK_SIZE_Z,
    ensures
        flat_index(x, y, z) / (CHUNK_SIZE_Z as int) == x * CHUNK_SIZE_Y + y,
        flat_index(x, y, z) % (CHUNK_SIZE_Z as int) == z,
        (x * CHUNK_SIZE_Y + y) / (CHUNK_SIZE_Y as int) == x,
        (x * CHUNK_SIZE_Y + y) % (CHUNK_SIZE_Y as int) == y,
{
    vstd::arithmetic::div_mod::lemma_fundamental_div_mod_converse(
        flat_index(x, y, z),
        CHUNK_SIZE_Z as int,
        x * CHUNK_SIZE_Y as int + y,
        z,
    );
    vstd::arithmetic::div_mod::lemma_fundamental_div_mod_converse(
        x * CHUNK_SIZE_Y as int + y,
        CHUNK_SIZE_Y as int,
        x,
        y,
    );
}

/// The flat index of an in-bounds cell lies within the chunk volume,
/// and distinct cells have distinct flat indices.
pub proof fn lemma_flat_index_bounds(x: int, y: int, z: int)
    requires
        0 <= x < CHUNK_SIZE_X,
        0 <= y < CHUNK_SIZE_Y,
        0 <= z < CHUNK_SIZE_Z,
    ensures
        0 <= flat_index(x, y, z) < CHUNK_VOLUME,
{
    assert(0 <= (x * 512 + y) * 32 + z < 524288) by (nonlinear_arith)
        requires
            0 <= x < 32,
            0 <= y < 512,
            0 <= z < 32,
    ;
}

} // verus!
