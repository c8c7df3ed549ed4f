//! Pure value types for block and chunk coordinates, and the
//! conversions between chunk-relative (local) and world (global) space.
//!
//! The mapping from a global block coordinate to its chunk uses floor
//! division, so negative coordinates map continuously: block x = -33
//! lies in chunk -2, while x = -32 still lies in chunk -1.

use vstd::prelude::*;

verus! {

use crate::{CHUNK_SIZE_X, CHUNK_SIZE_Y, CHUNK_SIZE_Z};
use crate::errors::OffsetError;
use vstd::arithmetic::div_mod::lemma_fundamental_div_mod_converse;

/// A block position was offset beyond its boundaries.
#[derive(Debug, Clone, Copy, PartialEq, Eq, Structural)]
pub struct OutOfBoundsError;

impl OutOfBoundsError {
    /// A human-readable description of this error.
    pub fn message(&self) -> String {
        "block position was offset beyond its boundaries".to_string()
    }
}

/// The chunk coordinate that contains block coordinate `b`, by floor
/// division. The chunk width along x and depth along z are equal, so
/// one mapping serves both axes.
pub open spec fn chunk_coord(b: int) -> int {
    b / (CHUNK_SIZE_X as int)
}

/// A chunk in the world.
///
/// The x and z values here are chunk coordinates, not block positions;
/// use [`ChunkPos::origin`] for the position of the chunk's origin block.
#[derive(Debug, Clone, Copy, PartialEq, Eq, Structural, Hash)]
pub struct ChunkPos {
    pub x: isize,
    pub z: isize,
}

impl ChunkPos {
    /// The chunk's origin block and everything up to one chunk beyond it
    /// on either side stay inside the machine integer range. Chunks
    /// further out have no representable origin.
    pub open spec fn in_range(self) -> bool {
        &&& isize::MIN + 2 * CHUNK_SIZE_X <= CHUNK_SIZE_X as int * self.x
        &&& CHUNK_SIZE_X as int * self.x + 2 * CHUNK_SIZE_X <= isize::MAX
        &&& isize::MIN + 2 * CHUNK_SIZE_Z <= CHUNK_SIZE_Z as int * self.z
        &&& CHUNK_SIZE_Z as int * self.z + 2 * CHUNK_SIZE_Z <= isize::MAX
    }

    /// The four axis-aligned neighbors of this chunk, no diagonals.
    pub open spec fn adjacent_spec(self) -> Seq<ChunkPos> {
        seq![
            ChunkPos { x: (self.x + 1) as isize, z: self.z },
            ChunkPos { x: (self.x - 1) as isize, z: self.z },
            ChunkPos { x: self.x, z: (self.z + 1) as isize },
            ChunkPos { x: self.x, z: (self.z - 1) as isize },
        ]
    }

    pub fn new(x: isize, z: isize) -> (r: Self)
        ensures
            r == (ChunkPos { x, z }),
    {
        ChunkPos { x, z }
    }

    /// Returns the origin (in global coordinates) of this chunk.
    pub fn origin(&self) -> (r: GlobalBlockPos)
        requires
            self.in_range(),
        ensures
            r.x == CHUNK_SIZE_X as int * self.x,
            r.y == 0,
            r.z == CHUNK_SIZE_Z as int * self.z,
    {
        let x = self.x * (CHUNK_SIZE_X as isize);
        let z = self.z * (CHUNK_SIZE_Z as isize);
        GlobalBlockPos::new(x, 0, z)
    }

    /// Returns the `ChunkPos` that are adjacent to this one.
    ///
    /// This does not include diagonals.
    pub fn adjacent(&self) -> (r: [ChunkPos; 4])
        requires
            self.in_range(),
        ensures
            r@ == self.adjacent_spec(),
    {
        let r = [
            ChunkPos::new(self.x + 1, self.z),
            ChunkPos::new(self.x - 1, self.z),
            ChunkPos::new(self.x, self.z + 1),
            ChunkPos::new(self.x, self.z - 1),
        ];
        proof {
            assert(r@ =~= self.adjacent_spec());
        }
        r
    }
}

/// An offset from some block position. Does not represent anything
/// specifically in local or global space.
#[derive(Debug, Clone, Copy, PartialEq, Eq, Structural)]
pub struct BlockOffset {
    pub x: isize,
    pub y: isize,
    pub z: isize,
}

impl BlockOffset {
    pub fn new(x: isize, y: isize, z: isize) -> (r: Self)
        ensures
            r == (BlockOffset { x, y, z }),
    {
        Self { x, y, z }
    }
}

/// A local block position, i.e. one that is tied to a chunk.
///
/// x and z lie within `0..CHUNK_SIZE_X` and `0..CHUNK_SIZE_Z`, y within
/// `0..CHUNK_SIZE_Y`.
#[derive(Debug, Clone, Copy, PartialEq, Eq, Structural)]
pub struct LocalBlockPos {
    pub x: usize,
    pub y: usize,
    pub z: usize,
    pub chunk: ChunkPos,
}

impl LocalBlockPos {
    /// The coordinates lie within the chunk's bounds.
    pub open spec fn wf(self) -> bool {
        &&& self.x < CHUNK_SIZE_X
        &&& self.y < CHUNK_SIZE_Y
        &&& self.z < CHUNK_SIZE_Z
    }

    /// The global (x, y, z) coordinates of this block.
    pub open spec fn global_coords(self) -> (int, int, int) {
        (
            CHUNK_SIZE_X as int * self.chunk.x + self.x,
            self.y as int,
            CHUNK_SIZE_Z as int * self.chunk.z + self.z,
        )
    }

    /// The chunks a boundary block touches: one entry per axis on which
    /// the block sits at the chunk's edge, so 0, 1, or 2 entries.
    pub open spec fn borders_spec(self) -> Seq<ChunkPos> {
        let bx: Seq<ChunkPos> = if self.x == 0 {
            seq![ChunkPos { x: (self.chunk.x - 1) as isize, z: self.chunk.z }]
        } else if self.x == CHUNK_SIZE_X - 1 {
            seq![ChunkPos { x: (self.chunk.x + 1) as isize, z: self.chunk.z }]
        } else {
            Seq::empty()
        };
        let bz: Seq<ChunkPos> = if self.z == 0 {
            seq![ChunkPos { x: self.chunk.x, z: (self.chunk.z - 1) as isize }]
        } else if self.z == CHUNK_SIZE_Z - 1 {
            seq![ChunkPos { x: self.chunk.x, z: (self.chunk.z + 1) as isize }]
        } else {
            Seq::empty()
        };
        bx + bz
    }

    pub fn new(x: usize, y: usize, z: usize, chunk: ChunkPos) -> (r: Self)
        requires
            x < CHUNK_SIZE_X,
            y < CHUNK_SIZE_Y,
            z < CHUNK_SIZE_Z,
        ensures
            r == (LocalBlockPos { x, y, z, chunk }),
            r.wf(),
    {
        Self { x, y, z, chunk }
    }

    /// Offsets this block position by `offset`, staying within the same
    /// chunk.
    ///
    /// Fails with `OffsetError::OutOfBounds` if the resulting y level
    /// would leave the world height range, and with
    /// `OffsetError::DifferentChunk` if the resulting x or z coordinate
    /// would leave this chunk. (See [`LocalBlockPos::offset_global`] for
    /// crossing into a neighboring chunk.)
    pub fn offset(&self, offset: BlockOffset) -> (r: Result<Self, OffsetError>)
        requires
            self.wf(),
        ensures
            r is Ok <==> (0 <= self.x + offset.x < CHUNK_SIZE_X && 0 <= self.y + offset.y
                < CHUNK_SIZE_Y && 0 <= self.z + offset.z < CHUNK_SIZE_Z),
            r matches Ok(p) ==> p.x == self.x + offset.x && p.y == self.y + offset.y && p.z
                == self.z + offset.z && p.chunk == self.chunk && p.wf(),
            r == Err::<Self, OffsetError>(OffsetError::OutOfBounds) <==> !(0 <= self.y + offset.y
                < CHUNK_SIZE_Y),
            r == Err::<Self, OffsetError>(OffsetError::DifferentChunk) <==> (0 <= self.y + offset.y
                < CHUNK_SIZE_Y && !(0 <= self.x + offset.x < CHUNK_SIZE_X && 0 <= self.z + offset.z
                < CHUNK_SIZE_Z)),
    {
        let y = match (self.y as isize).checked_add(offset.y) {
            Some(y) => y,
            None => {
                return Err(OffsetError::OutOfBounds);
            },
        };
        if y < 0 || y >= CHUNK_SIZE_Y as isize {
            return Err(OffsetError::OutOfBounds);
        }
        let x = match (self.x as isize).checked_add(offset.x) {
            Some(x) => x,
            None => {
                return Err(OffsetError::DifferentChunk);
            },
        };
        let z = match (self.z as isize).checked_add(offset.z) {
            Some(z) => z,
            None => {
                return Err(OffsetError::DifferentChunk);
            },
        };
        if x < 0 || x >= CHUNK_SIZE_X as isize || z < 0 || z >= CHUNK_SIZE_Z as isize {
            return Err(OffsetError::DifferentChunk);
        }
        Ok(Self::new(x as usize, y as usize, z as usize, self.chunk))
    }

    /// Offsets this block position by `offset`, returning a
    /// `GlobalBlockPos`.
    ///
    /// To offset in local space, see [`LocalBlockPos::offset`].
    pub fn offset_global(&self, offset: BlockOffset) -> (r: Result<
        GlobalBlockPos,
        OutOfBoundsError,
    >)
        requires
            self.wf(),
            self.chunk.in_range(),
            isize::MIN <= self.global_coords().0 + offset.x <= isize::MAX,
            isize::MIN <= self.global_coords().2 + offset.z <= isize::MAX,
        ensures
            r is Ok <==> 0 <= self.global_coords().1 + offset.y < CHUNK_SIZE_Y,
            r matches Ok(p) ==> p.x == self.global_coords().0 + offset.x && p.y
                == self.global_coords().1 + offset.y && p.z == self.global_coords().2 + offset.z,
    {
        let global_position = self.to_global();
        global_position.offset(offset)
    }

    /// Converts this position to global space.
    pub fn to_global(&self) -> (r: GlobalBlockPos)
        requires
            self.wf(),
            self.chunk.in_range(),
        ensures
            r.x == self.global_coords().0,
            r.y == self.global_coords().1,
            r.z == self.global_coords().2,
    {
        let chunk_origin = self.chunk.origin();
        let x = chunk_origin.x + self.x as isize;
        let y = chunk_origin.y + self.y as isize;
        let z = chunk_origin.z + self.z as isize;
        GlobalBlockPos::new(x, y, z)
    }

    /// Returns the `ChunkPos` that this block position borders.
    ///
    /// For example: x = 0 borders the chunk to the left (x-), while
    /// z = 31 borders the chunk below (z+).
    pub fn borders(&self) -> (r: Vec<ChunkPos>)
        requires
            self.wf(),
            self.chunk.in_range(),
        ensures
            r@ == self.borders_spec(),
    {
        let mut borders: Vec<ChunkPos> = Vec::new();
        if self.x == 0 {
            borders.push(ChunkPos::new(self.chunk.x - 1, self.chunk.z));
        } else if self.x == CHUNK_SIZE_X - 1 {
            borders.push(ChunkPos::new(self.chunk.x + 1, self.chunk.z));
        }
        if self.z == 0 {
            borders.push(ChunkPos::new(self.chunk.x, self.chunk.z - 1));
        } else if self.z == CHUNK_SIZE_Z - 1 {
            borders.push(ChunkPos::new(self.chunk.x, self.chunk.z + 1));
        }
        proof {
            assert(borders@ =~= self.borders_spec());
        }
        borders
    }
}

/// A global block position, i.e. one that is anywhere in the world.
#[derive(Debug, Clone, Copy, PartialEq, Eq, Structural, Hash)]
pub struct GlobalBlockPos {
    pub x: isize,
    pub y: isize,
    pub z: isize,
}

impl GlobalBlockPos {
    /// The local position of this block within the chunk that contains
    /// it. Meaningful for y levels within the world height range.
    pub open spec fn local_spec(self) -> LocalBlockPos {
        LocalBlockPos {
            x: (self.x as int % (CHUNK_SIZE_X as int)) as usize,
            y: self.y as usize,
            z: (self.z as int % (CHUNK_SIZE_Z as int)) as usize,
            chunk: ChunkPos {
                x: chunk_coord(self.x as int) as isize,
                z: chunk_coord(self.z as int) as isize,
            },
        }
    }

    pub fn new(x: isize, y: isize, z: isize) -> (r: Self)
        ensures
            r == (GlobalBlockPos { x, y, z }),
    {
        Self { x, y, z }
    }

    /// Returns the `ChunkPos` that this block resides in.
    ///
    /// Negative coordinates round downwards, not towards zero: the
    /// mapping must not flick to the next chunk at -32, -64, and so on,
    /// but at -33, -65, and so on instead.
    pub fn chunk(&self) -> (r: ChunkPos)
        ensures
            r.x == chunk_coord(self.x as int),
            r.z == chunk_coord(self.z as int),
    {
        let (qx, _rx) = floor_div_rem(self.x);
        let (qz, _rz) = floor_div_rem(self.z);
        ChunkPos::new(qx, qz)
    }

    /// Offsets this block position by `offset`.
    ///
    /// Fails if the resulting y level would leave the world height
    /// range.
    pub fn offset(&self, offset: BlockOffset) -> (r: Result<Self, OutOfBoundsError>)
        requires
            isize::MIN <= self.x + offset.x <= isize::MAX,
            isize::MIN <= self.z + offset.z <= isize::MAX,
        ensures
            r is Ok <==> 0 <= self.y + offset.y < CHUNK_SIZE_Y,
            r matches Ok(p) ==> p.x == self.x + offset.x && p.y == self.y + offset.y && p.z
                == self.z + offset.z,
    {
        let y = match self.y.checked_add(offset.y) {
            Some(y) => y,
            None => {
                return Err(OutOfBoundsError);
            },
        };
        if y < 0 || y >= CHUNK_SIZE_Y as isize {
            Err(OutOfBoundsError)
        } else {
            Ok(Self { x: self.x + offset.x, y, z: self.z + offset.z })
        }
    }

    /// Converts this position to the local space of the chunk that
    /// contains it.
    pub fn to_local(&self) -> (r: LocalBlockPos)
        requires
            0 <= self.y < CHUNK_SIZE_Y,
        ensures
            r == self.local_spec(),
            r.wf(),
    {
        let (qx, rx) = floor_div_rem(self.x);
        let (qz, rz) = floor_div_rem(self.z);
        LocalBlockPos::new(rx, self.y as usize, rz, ChunkPos::new(qx, qz))
    }
}

/// Floor division of a block coordinate by the chunk width, together
/// with the nonnegative remainder: `a == CHUNK_SIZE_X * q + r` with
/// `0 <= r < CHUNK_SIZE_X`.
fn floor_div_rem(a: isize) -> (qr: (isize, usize))
    ensures
        qr.0 == chunk_coord(a as int),
        qr.1 == a as int % (CHUNK_SIZE_X as int),
{
    if a >= 0 {
        let q = (a as usize) / CHUNK_SIZE_X;
        let r = (a as usize) % CHUNK_SIZE_X;
        (q as isize, r)
    } else {
        // For a < 0, floor(a / n) == -1 - floor((-1 - a) / n); the
        // mirrored argument -1 - a is nonnegative, so unsigned division
        // computes its floor directly.
        let m = (-1isize - a) as usize;
        let mq = m / CHUNK_SIZE_X;
        let mr = m % CHUNK_SIZE_X;
        proof {
            lemma_fundamental_div_mod_converse(
                a as int,
                CHUNK_SIZE_X as int,
                -1 - mq as int,
                CHUNK_SIZE_X as int - 1 - mr,
            );
        }
        (-1 - (mq as isize), CHUNK_SIZE_X - 1 - mr)
    }
}

/// A chunk's origin block always maps back to that chunk: for every
/// chunk position, `origin().chunk()` is the chunk itself.
pub proof fn lemma_origin_chunk(c: ChunkPos)
    ensures
        chunk_coord(CHUNK_SIZE_X as int * c.x) == c.x,
        chunk_coord(CHUNK_SIZE_Z as int * c.z) == c.z,
{
    lemma_fundamental_div_mod_converse(CHUNK_SIZE_X as int * c.x, CHUNK_SIZE_X as int, c.x as int, 0);
    lemma_fundamental_div_mod_converse(CHUNK_SIZE_Z as int * c.z, CHUNK_SIZE_Z as int, c.z as int, 0);
}

/// Converting a local block position to global space and back yields
/// the original position: for any `g` at the global coordinates of a
/// well-formed local position `l`, the local position of `g` is `l`.
pub proof fn lemma_local_global_roundtrip(l: LocalBlockPos, g: GlobalBlockPos)
    requires
        l.wf(),
        g.x == l.global_coords().0,
        g.y == l.global_coords().1,
        g.z == l.global_coords().2,
    ensures
        g.local_spec() == l,
{
    lemma_fundamental_div_mod_converse(
        g.x as int,
        CHUNK_SIZE_X as int,
        l.chunk.x as int,
        l.x as int,
    );
    lemma_fundamental_div_mod_converse(
        g.z as int,
        CHUNK_SIZE_Z as int,
        l.chunk.z as int,
        l.z as int,
    );
}

} // verus!
