//! The face-culling mesh builder: turns one chunk's block data, plus
//! read access to its loaded neighbors, into per-block-type surface
//! batches. A face is emitted exactly when its neighboring cell is
//! transparent, outside the world height range, or in a chunk that is
//! not loaded — absence of a neighbor is deliberately fail-open,
//! drawing the boundary face rather than hiding geometry.

use vstd::prelude::*;

verus! {

use crate::{BlockID, CHUNK_SIZE_X, CHUNK_SIZE_Y, CHUNK_SIZE_Z, CHUNK_VOLUME};
use crate::chunk::{flat_index, ChunkData, ChunkDataView};
use crate::errors::{NotLoadedError, OffsetError};
use crate::mesh::{
    face_corners,
    face_normal,
    face_uv,
    face_vertices_at,
    faces,
    vertex_at,
    Face,
    MeshData,
};
use crate::positions::{chunk_coord, BlockOffset, ChunkPos, GlobalBlockPos, LocalBlockPos};
use crate::registry::BlockManager;
use crate::world::World;
use vstd::arithmetic::div_mod::lemma_fundamental_div_mod_converse;

/// Mesh data for all faces of one block type, so that each block type
/// becomes one mesh surface with one material.
pub struct BlockSurface {
    pub block_id: BlockID,
    pub mesh_data: MeshData,
}

/// The mathematical content of a [`BlockSurface`]: the block type and
/// the four per-vertex buffers as sequences.
pub struct SurfaceView {
    pub block_id: BlockID,
    pub vertices: Seq<BlockOffset>,
    pub normals: Seq<BlockOffset>,
    pub uvs: Seq<(u8, u8)>,
    pub colors: Seq<(u8, u8, u8, u8)>,
}

impl SurfaceView {
    /// The four buffers run in parallel.
    pub open spec fn wf(self) -> bool {
        &&& self.normals.len() == self.vertices.len()
        &&& self.uvs.len() == self.vertices.len()
        &&& self.colors.len() == self.vertices.len()
    }
}

impl View for BlockSurface {
    type V = SurfaceView;

    open spec fn view(&self) -> SurfaceView {
        SurfaceView {
            block_id: self.block_id,
            vertices: self.mesh_data.vertices@,
            normals: self.mesh_data.normals@,
            uvs: self.mesh_data.uvs@,
            colors: self.mesh_data.colors@,
        }
    }
}

/// Chunk mesh information: one surface per distinct non-air block type
/// present, in order of first appearance.
pub struct ChunkMeshData {
    pub surfaces: Vec<BlockSurface>,
}

impl View for ChunkMeshData {
    type V = Seq<SurfaceView>;

    open spec fn view(&self) -> Seq<SurfaceView> {
        Seq::new(self.surfaces@.len(), |i: int| self.surfaces@[i]@)
    }
}

/// The index of the first surface for `id`, or -1 if there is none.
pub open spec fn find_surface(s: Seq<SurfaceView>, id: BlockID) -> int
    decreases s.len(),
{
    if s.len() == 0 {
        -1
    } else if s[0].block_id == id {
        0
    } else {
        let r = find_surface(s.drop_first(), id);
        if r < 0 {
            -1
        } else {
            r + 1
        }
    }
}

/// The uniform white vertex color.
pub open spec fn white() -> (u8, u8, u8, u8) {
    (255u8, 255u8, 255u8, 255u8)
}

/// A surface with one more face appended: six vertices `fv`, the
/// face's normal `n` repeated, the face's atlas tile coordinates `uv`,
/// and a flat white color.
pub open spec fn surface_plus(
    sv: SurfaceView,
    fv: Seq<BlockOffset>,
    n: BlockOffset,
    uv: Seq<(u8, u8)>,
) -> SurfaceView {
    SurfaceView {
        block_id: sv.block_id,
        vertices: sv.vertices + fv,
        normals: sv.normals + Seq::new(6, |k: int| n),
        uvs: sv.uvs + uv,
        colors: sv.colors + Seq::new(6, |k: int| white()),
    }
}

/// A surface for `id` with no faces yet.
pub open spec fn empty_surface(id: BlockID) -> SurfaceView {
    SurfaceView {
        block_id: id,
        vertices: Seq::empty(),
        normals: Seq::empty(),
        uvs: Seq::empty(),
        colors: Seq::empty(),
    }
}

/// The surface list with one face for block type `id` added: appended
/// to the existing surface for `id` if there is one, else to a fresh
/// surface placed at the end.
pub open spec fn mesh_add(
    s: Seq<SurfaceView>,
    id: BlockID,
    fv: Seq<BlockOffset>,
    n: BlockOffset,
    uv: Seq<(u8, u8)>,
) -> Seq<SurfaceView> {
    let idx = find_surface(s, id);
    if idx >= 0 {
        s.update(idx, surface_plus(s[idx], fv, n, uv))
    } else {
        s.push(surface_plus(empty_surface(id), fv, n, uv))
    }
}

/// The block position of a local position, as a displacement from the
/// chunk's origin.
pub open spec fn block_offset_of(p: LocalBlockPos) -> BlockOffset {
    BlockOffset { x: p.x as isize, y: p.y as isize, z: p.z as isize }
}

/// Whether the block type `id` lets an adjacent face be drawn: air is
/// always drawn against, whether or not the registry lists it, and so
/// is anything the registry marks transparent.
pub open spec fn air_or_transparent(reg: BlockManager, id: BlockID) -> bool {
    id == 0 || reg.block_transparent(id)
}

/// Whether the face of the block at local (x, y, z) of chunk `c` with
/// normal `n` is drawn: yes exactly when the neighboring cell is air
/// or transparent, outside the world height range, or in a chunk that
/// is not loaded in `world`.
pub open spec fn spec_should_draw(
    c: ChunkDataView,
    world: World,
    reg: BlockManager,
    x: int,
    y: int,
    z: int,
    n: BlockOffset,
) -> bool {
    let nx = x + n.x;
    let ny = y + n.y;
    let nz = z + n.z;
    if !(0 <= ny < CHUNK_SIZE_Y) {
        true
    } else if 0 <= nx < CHUNK_SIZE_X && 0 <= nz < CHUNK_SIZE_Z {
        air_or_transparent(reg, c.block_at(nx, ny, nz))
    } else {
        let gx = CHUNK_SIZE_X as int * c.position.x + nx;
        let gz = CHUNK_SIZE_Z as int * c.position.z + nz;
        let ncp = ChunkPos { x: chunk_coord(gx) as isize, z: chunk_coord(gz) as isize };
        if world.has_chunk(ncp) {
            air_or_transparent(
                reg,
                world.chunk_at(ncp).block_at(
                    gx % (CHUNK_SIZE_X as int),
                    ny,
                    gz % (CHUNK_SIZE_Z as int),
                ),
            )
        } else {
            true
        }
    }
}

/// Gets the block at `position` from `position.chunk`, if that chunk
/// is present in `loaded_chunks`.
pub fn get_global(loaded_chunks: &World, position: LocalBlockPos) -> (r: Result<
    BlockID,
    NotLoadedError,
>)
    requires
        loaded_chunks.wf(),
        position.wf(),
    ensures
        r is Ok <==> loaded_chunks.has_chunk(position.chunk),
        r matches Ok(id) ==> id == loaded_chunks.chunk_at(position.chunk).block_at(
            position.x as int,
            position.y as int,
            position.z as int,
        ),
{
    match loaded_chunks.get_chunk(position.chunk) {
        Some(data) => Ok(data.get(position)),
        None => Err(NotLoadedError),
    }
}

/// Whether the face of the block at `position` with the normal of
/// `face` should be drawn, reading the chunk itself or, across a
/// boundary, the loaded neighbors.
pub fn should_draw_face(
    face: &Face,
    chunk_data: &ChunkData,
    loaded_chunks: &World,
    position: LocalBlockPos,
    registry: &BlockManager,
) -> (r: bool)
    requires
        face.wf(),
        chunk_data.wf(),
        loaded_chunks.wf(),
        position.wf(),
        position.chunk == chunk_data@.position,
        position.chunk.in_range(),
    ensures
        r == spec_should_draw(
            chunk_data@,
            *loaded_chunks,
            *registry,
            position.x as int,
            position.y as int,
            position.z as int,
            face.normal,
        ),
{
    let offset = face.normal;
    match position.offset(offset) {
        Ok(p) => {
            let neighbor_id = chunk_data.get(p);
            neighbor_id == 0 || registry.is_transparent(neighbor_id)
        },
        // The neighboring cell is above or below the world.
        Err(OffsetError::OutOfBounds) => true,
        Err(OffsetError::DifferentChunk) => {
            match position.offset_global(offset) {
                Ok(g) => {
                    let neighbor = g.to_local();
                    match get_global(loaded_chunks, neighbor) {
                        Ok(block_id) => block_id == 0 || registry.is_transparent(block_id),
                        // Draw faces adjacent to unloaded chunks.
                        Err(_) => true,
                    }
                },
                Err(_) => {
                    // A global offset fails only on the y axis, which
                    // was already ruled in range.
                    proof {
                        assert(false);
                    }
                    true
                },
            }
        },
    }
}

impl ChunkMeshData {
    /// Every surface's buffers run in parallel.
    pub open spec fn wf(self) -> bool {
        forall|i: int| 0 <= i < self@.len() ==> (#[trigger] self@[i]).wf()
    }

    /// Creates chunk mesh data with no surfaces.
    fn new() -> (r: Self)
        ensures
            r.wf(),
            r@ == Seq::<SurfaceView>::empty(),
    {
        let r = ChunkMeshData { surfaces: Vec::new() };
        proof {
            assert(r@ =~= Seq::<SurfaceView>::empty());
        }
        r
    }

    /// Adds a block face to this mesh, putting it in the surface for
    /// its block type.
    fn add_face(&mut self, block_id: BlockID, face: &Face, position: LocalBlockPos)
        requires
            old(self).wf(),
            face.wf(),
            position.wf(),
        ensures
            final(self).wf(),
            final(self)@ == mesh_add(
                old(self)@,
                block_id,
                face_vertices_at(*face, block_offset_of(position)),
                face.normal,
                Seq::new(6, |k: int| face.uv_at(k)),
            ),
    {
        let off = BlockOffset::new(position.x as isize, position.y as isize, position.z as isize);
        let ghost prev = self@;
        let ghost fv = face_vertices_at(*face, block_offset_of(position));
        let ghost uv = Seq::new(6, |k: int| face.uv_at(k));
        let mut si: usize = 0;
        let n = self.surfaces.len();
        while si < n
            invariant
                *self == *old(self),
                prev == self@,
                old(self).wf(),
                face.wf(),
                position.wf(),
                off == block_offset_of(position),
                fv == face_vertices_at(*face, block_offset_of(position)),
                uv == Seq::new(6, |k: int| face.uv_at(k)),
                n == self.surfaces@.len(),
                si <= n,
                forall|j: int| 0 <= j < si ==> (#[trigger] self@[j]).block_id != block_id,
            decreases n - si,
        {
            if self.surfaces[si].block_id == block_id {
                proof {
                    lemma_find_surface_at(prev, block_id, si as int);
                    assert(prev[si as int].wf());
                }
                let bs = &mut self.surfaces[si];
                proof {
                    assert(bs.mesh_data.wf());
                }
                bs.mesh_data.add_face(face, off);
                proof {
                    assert(self@ =~~= prev.update(
                        si as int,
                        surface_plus(prev[si as int], fv, face.normal, uv),
                    ));
                }
                return ;
            }
            si = si + 1;
        }
        proof {
            lemma_find_surface_none(prev, block_id);
        }
        let mut mesh_data = MeshData::new();
        mesh_data.add_face(face, off);
        self.surfaces.push(BlockSurface { block_id, mesh_data });
        proof {
            assert(self@ =~~= prev.push(
                surface_plus(empty_surface(block_id), fv, face.normal, uv),
            ));
        }
    }

    /// The surface batches, one per distinct non-air block type in the
    /// chunk, for the renderer boundary: each batch becomes one mesh
    /// surface with the material of its block type.
    pub fn build_mesh(&self) -> (r: &Vec<BlockSurface>)
        ensures
            r@.len() == self@.len(),
            forall|i: int| 0 <= i < self@.len() ==> (#[trigger] r@[i])@ == self@[i],
    {
        &self.surfaces
    }

    /// Every surface's vertices pooled together, in surface order, as
    /// one flat triangle list for the physics boundary.
    pub fn build_collision_shape(&self) -> (r: Vec<BlockOffset>)
        ensures
            r@ == pooled_vertices(self@),
    {
        let mut r: Vec<BlockOffset> = Vec::new();
        let mut i: usize = 0;
        let n = self.surfaces.len();
        while i < n
            invariant
                n == self.surfaces@.len(),
                i <= n,
                r@ == pooled_vertices(self@.take(i as int)),
            decreases n - i,
        {
            let vs = &self.surfaces[i].mesh_data.vertices;
            let m = vs.len();
            let mut k: usize = 0;
            while k < m
                invariant
                    n == self.surfaces@.len(),
                    i < n,
                    m == self@[i as int].vertices.len(),
                    vs@ == self@[i as int].vertices,
                    k <= m,
                    r@ == pooled_vertices(self@.take(i as int)) + self@[i as int].vertices.take(
                        k as int,
                    ),
                decreases m - k,
            {
                r.push(vs[k]);
                proof {
                    assert(r@ =~= pooled_vertices(self@.take(i as int))
                        + self@[i as int].vertices.take(k + 1));
                }
                k = k + 1;
            }
            proof {
                assert(self@.take(i + 1).drop_last() =~= self@.take(i as int));
                assert(self@.take(i + 1).last() == self@[i as int]);
                assert(self@[i as int].vertices.take(m as int) =~= self@[i as int].vertices);
                assert(r@ =~= pooled_vertices(self@.take(i + 1)));
            }
            i = i + 1;
        }
        proof {
            assert(self@.take(n as int) =~= self@);
        }
        r
    }

    /// Builds the mesh for `chunk_data`: every local block position is
    /// scanned in a fixed order (x outer, y middle, z inner), air is
    /// skipped, and each of the six faces of a non-air block is added
    /// exactly when [`spec_should_draw`] says so, reading neighbors
    /// from `loaded_chunks`. Building never mutates chunk data.
    pub fn new_from_chunk_data(
        chunk_data: &ChunkData,
        loaded_chunks: &World,
        registry: &BlockManager,
    ) -> (r: Self)
        requires
            chunk_data.wf(),
            loaded_chunks.wf(),
            chunk_data@.position.in_range(),
        ensures
            r.wf(),
            r@ == spec_build(chunk_data@, *loaded_chunks, *registry),
    {
        let face_table = faces();
        let chunk_position = chunk_data.position();
        let mut mesh = ChunkMeshData::new();
        let mut t: usize = 0;
        while t < 6 * CHUNK_VOLUME
            invariant
                chunk_data.wf(),
                loaded_chunks.wf(),
                chunk_data@.position.in_range(),
                chunk_position == chunk_data@.position,
                forall|i: int|
                    0 <= i < 6 ==> (#[trigger] face_table@[i]).wf() && face_table@[i].normal
                        == face_normal(i) && face_table@[i].vertices@ == face_corners(i) && (
                    forall|k: int|
                        0 <= k < 6 ==> (#[trigger] face_table@[i].uv_at(k)) == face_uv(i, k)),
                mesh.wf(),
                t <= 6 * CHUNK_VOLUME,
                mesh@ == spec_build_upto(chunk_data@, *loaded_chunks, *registry, t as int),
            decreases 6 * CHUNK_VOLUME - t,
        {
            let p = t / 6;
            let fi = t % 6;
            let x = p / (CHUNK_SIZE_Y * CHUNK_SIZE_Z);
            let y = (p / CHUNK_SIZE_Z) % CHUNK_SIZE_Y;
            let z = p % CHUNK_SIZE_Z;
            let position = LocalBlockPos::new(x, y, z, chunk_position);
            let block_id = chunk_data.get(position);
            let ghost s_prev = mesh@;
            if block_id != 0 {
                let face = &face_table[fi];
                if should_draw_face(face, chunk_data, loaded_chunks, position, registry) {
                    mesh.add_face(block_id, face, position);
                    proof {
                        let c = chunk_data@;
                        assert(face_vertices_at(face_table@[fi as int], block_offset_of(position))
                            =~= Seq::new(
                            6,
                            |k: int|
                                vertex_at(face_corners(fi as int)[k], block_offset_of(position)),
                        ));
                        assert(Seq::new(6, |k: int| face_table@[fi as int].uv_at(k)) =~= Seq::new(
                            6,
                            |k: int| face_uv(fi as int, k),
                        ));
                    }
                }
            }
            proof {
                assert(mesh@ == spec_step(
                    s_prev,
                    chunk_data@,
                    *loaded_chunks,
                    *registry,
                    t as int,
                ));
                assert(mesh@ == spec_build_upto(
                    chunk_data@,
                    *loaded_chunks,
                    *registry,
                    t as int + 1,
                ));
            }
            t = t + 1;
        }
        mesh
    }
}

/// Every surface's vertices concatenated, in surface order.
pub open spec fn pooled_vertices(s: Seq<SurfaceView>) -> Seq<BlockOffset>
    decreases s.len(),
{
    if s.len() == 0 {
        Seq::empty()
    } else {
        pooled_vertices(s.drop_last()) + s.last().vertices
    }
}

/// One scan step of the mesh build: step `t` looks at face `t % 6` of
/// the block at flat cell index `t / 6`, and adds it to the surface
/// list exactly when the block is not air and the face is visible.
pub open spec fn spec_step(
    s: Seq<SurfaceView>,
    c: ChunkDataView,
    world: World,
    reg: BlockManager,
    t: int,
) -> Seq<SurfaceView> {
    let p = t / 6;
    let i = t % 6;
    let x = p / (CHUNK_SIZE_Y as int * CHUNK_SIZE_Z as int);
    let y = (p / (CHUNK_SIZE_Z as int)) % (CHUNK_SIZE_Y as int);
    let z = p % (CHUNK_SIZE_Z as int);
    let id = c.block_at(x, y, z);
    let off = BlockOffset { x: x as isize, y: y as isize, z: z as isize };
    if id != 0 && spec_should_draw(c, world, reg, x, y, z, face_normal(i)) {
        mesh_add(
            s,
            id,
            Seq::new(6, |k: int| vertex_at(face_corners(i)[k], off)),
            face_normal(i),
            Seq::new(6, |k: int| face_uv(i, k)),
        )
    } else {
        s
    }
}

/// The surface list after the first `n` scan steps of the mesh build.
pub open spec fn spec_build_upto(
    c: ChunkDataView,
    world: World,
    reg: BlockManager,
    n: int,
) -> Seq<SurfaceView>
    decreases n,
{
    if n <= 0 {
        Seq::empty()
    } else {
        spec_step(spec_build_upto(c, world, reg, n - 1), c, world, reg, n - 1)
    }
}

/// The whole mesh of chunk `c` as seen against `world` and `reg`: the
/// result of all scan steps, six faces for each cell.
pub open spec fn spec_build(c: ChunkDataView, world: World, reg: BlockManager) -> Seq<SurfaceView> {
    spec_build_upto(c, world, reg, 6 * CHUNK_VOLUME as int)
}

/// If the first surface for `id` is at `i`, the surface search finds
/// exactly `i`.
proof fn lemma_find_surface_at(s: Seq<SurfaceView>, id: BlockID, i: int)
    requires
        0 <= i < s.len(),
        s[i].block_id == id,
        forall|j: int| 0 <= j < i ==> (#[trigger] s[j]).block_id != id,
    ensures
        find_surface(s, id) == i,
    decreases i,
{
    if i == 0 {
    } else {
        assert(s.drop_first()[i - 1] == s[i]);
        assert forall|j: int| 0 <= j < i - 1 implies (#[trigger] s.drop_first()[j]).block_id
            != id by {
            assert(s.drop_first()[j] == s[j + 1]);
        }
        lemma_find_surface_at(s.drop_first(), id, i - 1);
    }
}

/// If no surface is for `id`, the surface search finds none.
proof fn lemma_find_surface_none(s: Seq<SurfaceView>, id: BlockID)
    requires
        forall|j: int| 0 <= j < s.len() ==> (#[trigger] s[j]).block_id != id,
    ensures
        find_surface(s, id) == -1,
    decreases s.len(),
{
    if s.len() == 0 {
    } else {
        assert forall|j: int| 0 <= j < s.len() - 1 implies (#[trigger] s.drop_first()[j]).block_id
            != id by {
            assert(s.drop_first()[j] == s[j + 1]);
        }
        lemma_find_surface_none(s.drop_first(), id);
    }
}

/// A block at the chunk floor always draws its bottom face: the cell
/// below y = 0 is outside the world.
pub proof fn lemma_floor_draws_bottom_face(
    c: ChunkDataView,
    world: World,
    reg: BlockManager,
    x: int,
    z: int,
)
    ensures
        spec_should_draw(c, world, reg, x, 0, z, face_normal(1)),
{
}

/// A block on the x = 0 boundary of a chunk whose x- neighbor chunk is
/// absent always draws its x- face: absence is fail-open.
pub proof fn lemma_unloaded_neighbor_draws_face(
    c: ChunkDataView,
    world: World,
    reg: BlockManager,
    y: int,
    z: int,
)
    requires
        c.position.in_range(),
        0 <= y < CHUNK_SIZE_Y,
        0 <= z < CHUNK_SIZE_Z,
        !world.has_chunk(
            ChunkPos { x: (c.position.x - 1) as isize, z: c.position.z },
        ),
    ensures
        spec_should_draw(c, world, reg, 0, y, z, face_normal(3)),
{
    let gx = CHUNK_SIZE_X as int * c.position.x - 1;
    lemma_fundamental_div_mod_converse(
        gx,
        CHUNK_SIZE_X as int,
        c.position.x - 1,
        CHUNK_SIZE_X as int - 1,
    );
}

/// The scan step index of face `i` of the cell (x, y, z) decodes back
/// to that cell and face.
proof fn lemma_scan_index_decodes(x: int, y: int, z: int, i: int)
    requires
        0 <= x < CHUNK_SIZE_X,
        0 <= y < CHUNK_SIZE_Y,
        0 <= z < CHUNK_SIZE_Z,
        0 <= i < 6,
    ensures
        (6 * flat_index(x, y, z) + i) / 6 == flat_index(x, y, z),
        (6 * flat_index(x, y, z) + i) % 6 == i,
        flat_index(x, y, z) / (CHUNK_SIZE_Y as int * CHUNK_SIZE_Z as int) == x,
        (flat_index(x, y, z) / (CHUNK_SIZE_Z as int)) % (CHUNK_SIZE_Y as int) == y,
        flat_index(x, y, z) % (CHUNK_SIZE_Z as int) == z,
{
    lemma_fundamental_div_mod_converse(6 * flat_index(x, y, z) + i, 6, flat_index(x, y, z), i);
    crate::chunk::lemma_flat_index_decomposes(x, y, z);
    lemma_fundamental_div_mod_converse(
        flat_index(x, y, z),
        CHUNK_SIZE_Y as int * CHUNK_SIZE_Z as int,
        x,
        CHUNK_SIZE_Z as int * y + z,
    );
}

/// A block whose six neighbors all lie inside the chunk and are
/// neither air nor transparent contributes nothing to the mesh: every
/// one of its six faces is culled, so each of its scan steps leaves
/// the surface list unchanged.
pub proof fn lemma_enclosed_block_adds_nothing(
    s: Seq<SurfaceView>,
    c: ChunkDataView,
    world: World,
    reg: BlockManager,
    x: int,
    y: int,
    z: int,
    i: int,
)
    requires
        1 <= x < CHUNK_SIZE_X - 1,
        1 <= y < CHUNK_SIZE_Y - 1,
        1 <= z < CHUNK_SIZE_Z - 1,
        0 <= i < 6,
        !air_or_transparent(reg, c.block_at(x + 1, y, z)),
        !air_or_transparent(reg, c.block_at(x - 1, y, z)),
        !air_or_transparent(reg, c.block_at(x, y + 1, z)),
        !air_or_transparent(reg, c.block_at(x, y - 1, z)),
        !air_or_transparent(reg, c.block_at(x, y, z + 1)),
        !air_or_transparent(reg, c.block_at(x, y, z - 1)),
    ensures
        !spec_should_draw(c, world, reg, x, y, z, face_normal(i)),
        spec_step(s, c, world, reg, 6 * flat_index(x, y, z) + i) == s,
{
    lemma_scan_index_decodes(x, y, z, i);
}

/// A non-air block at the chunk floor gains its bottom face: the scan
/// step for the downward face of a cell at y = 0 appends that face,
/// six vertices with the downward normal, to the block's surface.
pub proof fn lemma_floor_block_gains_bottom_face(
    s: Seq<SurfaceView>,
    c: ChunkDataView,
    world: World,
    reg: BlockManager,
    x: int,
    z: int,
)
    requires
        0 <= x < CHUNK_SIZE_X,
        0 <= z < CHUNK_SIZE_Z,
        c.block_at(x, 0, z) != 0,
    ensures
        spec_step(s, c, world, reg, 6 * flat_index(x, 0, z) + 1) == mesh_add(
            s,
            c.block_at(x, 0, z),
            Seq::new(
                6,
                |k: int|
                    vertex_at(
                        face_corners(1)[k],
                        (BlockOffset { x: x as isize, y: 0isize, z: z as isize }),
                    ),
            ),
            face_normal(1),
            Seq::new(6, |k: int| face_uv(1, k)),
        ),
{
    lemma_scan_index_decodes(x, 0, z, 1);
    lemma_floor_draws_bottom_face(c, world, reg, x, z);
}

/// A non-air block on the x = 0 boundary of a chunk whose x- neighbor
/// chunk is absent gains its x- face: the scan step for that face
/// appends it, six vertices with the x- normal, to the block's
/// surface.
pub proof fn lemma_absent_neighbor_gains_face(
    s: Seq<SurfaceView>,
    c: ChunkDataView,
    world: World,
    reg: BlockManager,
    y: int,
    z: int,
)
    requires
        c.position.in_range(),
        0 <= y < CHUNK_SIZE_Y,
        0 <= z < CHUNK_SIZE_Z,
        c.block_at(0, y, z) != 0,
        !world.has_chunk(ChunkPos { x: (c.position.x - 1) as isize, z: c.position.z }),
    ensures
        spec_step(s, c, world, reg, 6 * flat_index(0, y, z) + 3) == mesh_add(
            s,
            c.block_at(0, y, z),
            Seq::new(
                6,
                |k: int|
                    vertex_at(
                        face_corners(3)[k],
                        (BlockOffset { x: 0isize, y: y as isize, z: z as isize }),
                    ),
            ),
            face_normal(3),
            Seq::new(6, |k: int| face_uv(3, k)),
        ),
{
    lemma_scan_index_decodes(0, y, z, 3);
    lemma_unloaded_neighbor_draws_face(c, world, reg, y, z);
}

} // verus!
