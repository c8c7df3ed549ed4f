//! Raw mesh data: the six faces of a unit block, and the per-surface
//! buffers of vertices, normals, texture coordinates and colors that
//! face culling appends to.
//!
//! All values here are integers in block units. Texture coordinates
//! are atlas tile coordinates: the atlas is a row of three tiles (top,
//! side, bottom), so a consumer maps a pair (u, v) to the final
//! texture coordinate (u / 3, v).

use vstd::prelude::*;

verus! {

use crate::positions::BlockOffset;

/// A coordinate axis, naming which vertex coordinate feeds a texture
/// coordinate.
#[derive(Debug, Clone, Copy, PartialEq, Eq, Structural)]
pub enum Axis {
    X,
    Y,
    Z,
}

/// The coordinate of `v` along axis `a`.
pub open spec fn spec_axis_value(a: Axis, v: BlockOffset) -> int {
    match a {
        Axis::X => v.x as int,
        Axis::Y => v.y as int,
        Axis::Z => v.z as int,
    }
}

/// The absolute value of a corner coordinate.
pub open spec fn spec_abs1(t: int) -> int {
    if t < 0 {
        -t
    } else {
        t
    }
}

/// One face of a unit block: six vertex corners forming two triangles,
/// the face's unit normal, and the two axes whose coordinates become
/// texture coordinates.
#[derive(Debug, Clone, Copy)]
pub struct Face {
    pub vertices: [BlockOffset; 6],
    pub normal: BlockOffset,
    pub uv_use: [Axis; 2],
}

impl Face {
    /// Corner and normal coordinates are unit-sized.
    pub open spec fn wf(self) -> bool {
        &&& forall|k: int|
            0 <= k < 6 ==> -1 <= (#[trigger] self.vertices@[k]).x <= 1 && -1
                <= self.vertices@[k].y <= 1 && -1 <= self.vertices@[k].z <= 1
        &&& -1 <= self.normal.x <= 1
        &&& -1 <= self.normal.y <= 1
        &&& -1 <= self.normal.z <= 1
    }

    /// The atlas tile coordinates of corner `k`: the tile row offset
    /// (0 for top faces, 1 for side faces, 2 for bottom faces) plus the
    /// corner's coordinates along the face's two texture axes.
    pub open spec fn uv_at(self, k: int) -> (u8, u8) {
        let v = self.vertices@[k];
        let fo: int = if self.normal.y == 1 {
            0
        } else if self.normal.y == 0 {
            1
        } else {
            2
        };
        (
            (fo + spec_abs1(spec_axis_value(self.uv_use@[0], v))) as u8,
            spec_abs1(spec_axis_value(self.uv_use@[1], v)) as u8,
        )
    }
}

/// The unit normal of face `i` of the face table: top, bottom, right
/// (x+), left (x-), front (z+), back (z-), in that order.
pub open spec fn face_normal(i: int) -> BlockOffset {
    if i == 0 {
        BlockOffset { x: 0, y: 1, z: 0 }
    } else if i == 1 {
        BlockOffset { x: 0, y: -1isize, z: 0 }
    } else if i == 2 {
        BlockOffset { x: 1, y: 0, z: 0 }
    } else if i == 3 {
        BlockOffset { x: -1isize, y: 0, z: 0 }
    } else if i == 4 {
        BlockOffset { x: 0, y: 0, z: 1 }
    } else {
        BlockOffset { x: 0, y: 0, z: -1isize }
    }
}

/// The six vertex corners of face `i` of the face table, two triangles
/// in fixed winding order.
pub open spec fn face_corners(i: int) -> Seq<BlockOffset> {
    if i == 0 {
        seq![
            BlockOffset { x: 0, y: 0, z: 0 },
            BlockOffset { x: 1, y: 0, z: 0 },
            BlockOffset { x: 0, y: 0, z: 1 },
            BlockOffset { x: 1, y: 0, z: 0 },
            BlockOffset { x: 1, y: 0, z: 1 },
            BlockOffset { x: 0, y: 0, z: 1 },
        ]
    } else if i == 1 {
        seq![
            BlockOffset { x: 0, y: -1isize, z: 1 },
            BlockOffset { x: 1, y: -1isize, z: 1 },
            BlockOffset { x: 0, y: -1isize, z: 0 },
            BlockOffset { x: 1, y: -1isize, z: 1 },
            BlockOffset { x: 1, y: -1isize, z: 0 },
            BlockOffset { x: 0, y: -1isize, z: 0 },
        ]
    } else if i == 2 {
        seq![
            BlockOffset { x: 1, y: 0, z: 1 },
            BlockOffset { x: 1, y: 0, z: 0 },
            BlockOffset { x: 1, y: -1isize, z: 1 },
            BlockOffset { x: 1, y: -1isize, z: 0 },
            BlockOffset { x: 1, y: -1isize, z: 1 },
            BlockOffset { x: 1, y: 0, z: 0 },
        ]
    } else if i == 3 {
        seq![
            BlockOffset { x: 0, y: 0, z: 0 },
            BlockOffset { x: 0, y: 0, z: 1 },
            BlockOffset { x: 0, y: -1isize, z: 0 },
            BlockOffset { x: 0, y: 0, z: 1 },
            BlockOffset { x: 0, y: -1isize, z: 1 },
            BlockOffset { x: 0, y: -1isize, z: 0 },
        ]
    } else if i == 4 {
        seq![
            BlockOffset { x: 0, y: -1isize, z: 1 },
            BlockOffset { x: 0, y: 0, z: 1 },
            BlockOffset { x: 1, y: 0, z: 1 },
            BlockOffset { x: 1, y: 0, z: 1 },
            BlockOffset { x: 1, y: -1isize, z: 1 },
            BlockOffset { x: 0, y: -1isize, z: 1 },
        ]
    } else {
        seq![
            BlockOffset { x: 1, y: -1isize, z: 0 },
            BlockOffset { x: 1, y: 0, z: 0 },
            BlockOffset { x: 0, y: 0, z: 0 },
            BlockOffset { x: 0, y: 0, z: 0 },
            BlockOffset { x: 0, y: -1isize, z: 0 },
            BlockOffset { x: 1, y: -1isize, z: 0 },
        ]
    }
}

/// The texture axes of face `i` of the face table: top and bottom
/// faces use x and z, x-facing sides use z and y, z-facing sides use x
/// and y.
pub open spec fn face_uv_axes(i: int) -> (Axis, Axis) {
    if i == 0 || i == 1 {
        (Axis::X, Axis::Z)
    } else if i == 2 || i == 3 {
        (Axis::Z, Axis::Y)
    } else {
        (Axis::X, Axis::Y)
    }
}

/// The atlas tile coordinates of corner `k` of face `i` of the face
/// table.
pub open spec fn face_uv(i: int, k: int) -> (u8, u8) {
    let v = face_corners(i)[k];
    let fo: int = if face_normal(i).y == 1 {
        0
    } else if face_normal(i).y == 0 {
        1
    } else {
        2
    };
    (
        (fo + spec_abs1(spec_axis_value(face_uv_axes(i).0, v))) as u8,
        spec_abs1(spec_axis_value(face_uv_axes(i).1, v)) as u8,
    )
}

/// The six faces of a unit block, in the fixed order top, bottom,
/// right (x+), left (x-), front (z+), back (z-).
pub fn faces() -> (r: [Face; 6])
    ensures
        forall|i: int|
            0 <= i < 6 ==> (#[trigger] r@[i]).wf() && r@[i].normal == face_normal(i)
                && r@[i].vertices@ == face_corners(i) && (forall|k: int|
                0 <= k < 6 ==> (#[trigger] r@[i].uv_at(k)) == face_uv(i, k)),
{
    let r = [
        Face {
            vertices: [
                BlockOffset::new(0, 0, 0),
                BlockOffset::new(1, 0, 0),
                BlockOffset::new(0, 0, 1),
                BlockOffset::new(1, 0, 0),
                BlockOffset::new(1, 0, 1),
                BlockOffset::new(0, 0, 1),
            ],
            normal: BlockOffset::new(0, 1, 0),
            uv_use: [Axis::X, Axis::Z],
        },
        Face {
            vertices: [
                BlockOffset::new(0, -1, 1),
                BlockOffset::new(1, -1, 1),
                BlockOffset::new(0, -1, 0),
                BlockOffset::new(1, -1, 1),
                BlockOffset::new(1, -1, 0),
                BlockOffset::new(0, -1, 0),
            ],
            normal: BlockOffset::new(0, -1, 0),
            uv_use: [Axis::X, Axis::Z],
        },
        Face {
            vertices: [
                BlockOffset::new(1, 0, 1),
                BlockOffset::new(1, 0, 0),
                BlockOffset::new(1, -1, 1),
                BlockOffset::new(1, -1, 0),
                BlockOffset::new(1, -1, 1),
                BlockOffset::new(1, 0, 0),
            ],
            normal: BlockOffset::new(1, 0, 0),
            uv_use: [Axis::Z, Axis::Y],
        },
        Face {
            vertices: [
                BlockOffset::new(0, 0, 0),
                BlockOffset::new(0, 0, 1),
                BlockOffset::new(0, -1, 0),
                BlockOffset::new(0, 0, 1),
                BlockOffset::new(0, -1, 1),
                BlockOffset::new(0, -1, 0),
            ],
            normal: BlockOffset::new(-1, 0, 0),
            uv_use: [Axis::Z, Axis::Y],
        },
        Face {
            vertices: [
                BlockOffset::new(0, -1, 1),
                BlockOffset::new(0, 0, 1),
                BlockOffset::new(1, 0, 1),
                BlockOffset::new(1, 0, 1),
                BlockOffset::new(1, -1, 1),
                BlockOffset::new(0, -1, 1),
            ],
            normal: BlockOffset::new(0, 0, 1),
            uv_use: [Axis::X, Axis::Y],
        },
        Face {
            vertices: [
                BlockOffset::new(1, -1, 0),
                BlockOffset::new(1, 0, 0),
                BlockOffset::new(0, 0, 0),
                BlockOffset::new(0, 0, 0),
                BlockOffset::new(0, -1, 0),
                BlockOffset::new(1, -1, 0),
            ],
            normal: BlockOffset::new(0, 0, -1),
            uv_use: [Axis::X, Axis::Y],
        },
    ];
    proof {
        assert(r@[0].vertices@ =~= face_corners(0));
        assert(r@[1].vertices@ =~= face_corners(1));
        assert(r@[2].vertices@ =~= face_corners(2));
        assert(r@[3].vertices@ =~= face_corners(3));
        assert(r@[4].vertices@ =~= face_corners(4));
        assert(r@[5].vertices@ =~= face_corners(5));
    }
    r
}

/// The corner `corner` translated to the block at `position`.
pub open spec fn vertex_at(corner: BlockOffset, position: BlockOffset) -> BlockOffset {
    BlockOffset {
        x: (position.x + corner.x) as isize,
        y: (position.y + corner.y) as isize,
        z: (position.z + corner.z) as isize,
    }
}

/// The six vertices of `face` placed at the block at `position`.
pub open spec fn face_vertices_at(face: Face, position: BlockOffset) -> Seq<BlockOffset> {
    Seq::new(6, |k: int| vertex_at(face.vertices@[k], position))
}

/// Mesh data for one surface: parallel per-vertex buffers of
/// positions, normals, atlas tile coordinates and colors.
///
/// Vertex positions are in block units relative to the chunk's origin.
/// Colors are a uniform white, kept per vertex for optional tinting.
pub struct MeshData {
    pub vertices: Vec<BlockOffset>,
    pub normals: Vec<BlockOffset>,
    pub uvs: Vec<(u8, u8)>,
    pub colors: Vec<(u8, u8, u8, u8)>,
}

impl MeshData {
    /// The four buffers run in parallel, one entry per vertex.
    pub open spec fn wf(self) -> bool {
        &&& self.normals@.len() == self.vertices@.len()
        &&& self.uvs@.len() == self.vertices@.len()
        &&& self.colors@.len() == self.vertices@.len()
    }

    /// Creates empty mesh data.
    pub fn new() -> (r: Self)
        ensures
            r.wf(),
            r.vertices@ == Seq::<BlockOffset>::empty(),
            r.normals@ == Seq::<BlockOffset>::empty(),
            r.uvs@ == Seq::<(u8, u8)>::empty(),
            r.colors@ == Seq::<(u8, u8, u8, u8)>::empty(),
    {
        Self { vertices: Vec::new(), normals: Vec::new(), uvs: Vec::new(), colors: Vec::new() }
    }

    /// Appends `face` at `position`: six vertices, the face's normal
    /// repeated for each, the face's atlas tile coordinates, and a flat
    /// white color.
    pub fn add_face(&mut self, face: &Face, position: BlockOffset)
        requires
            old(self).wf(),
            face.wf(),
            -0x1000_0000 <= position.x <= 0x1000_0000,
            -0x1000_0000 <= position.y <= 0x1000_0000,
            -0x1000_0000 <= position.z <= 0x1000_0000,
        ensures
            final(self).wf(),
            final(self).vertices@ == old(self).vertices@ + face_vertices_at(*face, position),
            final(self).normals@ == old(self).normals@ + Seq::new(6, |k: int| face.normal),
            final(self).uvs@ == old(self).uvs@ + Seq::new(6, |k: int| face.uv_at(k)),
            final(self).colors@ == old(self).colors@ + Seq::new(
                6,
                |k: int| (255u8, 255u8, 255u8, 255u8),
            ),
    {
        let face_offset: u8 = if face.normal.y == 1 {
            0
        } else if face.normal.y == 0 {
            1
        } else {
            2
        };
        let mut k: usize = 0;
        while k < 6
            invariant
                self.wf(),
                face.wf(),
                -0x1000_0000 <= position.x <= 0x1000_0000,
                -0x1000_0000 <= position.y <= 0x1000_0000,
                -0x1000_0000 <= position.z <= 0x1000_0000,
                k <= 6,
                face_offset == (if face.normal.y == 1 {
                    0int
                } else if face.normal.y == 0 {
                    1int
                } else {
                    2int
                }),
                self.vertices@ == old(self).vertices@ + face_vertices_at(*face, position).take(
                    k as int,
                ),
                self.normals@ == old(self).normals@ + Seq::new(k as nat, |j: int| face.normal),
                self.uvs@ == old(self).uvs@ + Seq::new(k as nat, |j: int| face.uv_at(j)),
                self.colors@ == old(self).colors@ + Seq::new(
                    k as nat,
                    |j: int| (255u8, 255u8, 255u8, 255u8),
                ),
            decreases 6 - k,
        {
            let corner = face.vertices[k];
            self.vertices.push(
                BlockOffset::new(position.x + corner.x, position.y + corner.y, position.z
                    + corner.z),
            );
            self.normals.push(face.normal);
            let u = face_offset + axis_value_abs(face.uv_use[0], corner);
            let v = axis_value_abs(face.uv_use[1], corner);
            self.uvs.push((u, v));
            self.colors.push((255, 255, 255, 255));
            proof {
                assert(self.vertices@ =~= old(self).vertices@ + face_vertices_at(
                    *face,
                    position,
                ).take(k + 1));
                assert(self.normals@ =~= old(self).normals@ + Seq::new(
                    (k + 1) as nat,
                    |j: int| face.normal,
                ));
                assert(self.uvs@ =~= old(self).uvs@ + Seq::new(
                    (k + 1) as nat,
                    |j: int| face.uv_at(j),
                ));
                assert(self.colors@ =~= old(self).colors@ + Seq::new(
                    (k + 1) as nat,
                    |j: int| (255u8, 255u8, 255u8, 255u8),
                ));
            }
            k = k + 1;
        }
        proof {
            assert(face_vertices_at(*face, position).take(6) =~= face_vertices_at(
                *face,
                position,
            ));
            assert(Seq::new(6nat, |j: int| face.normal) =~= Seq::new(6, |k: int| face.normal));
            assert(Seq::new(6nat, |j: int| face.uv_at(j)) =~= Seq::new(6, |k: int| face.uv_at(k)));
            assert(Seq::new(6nat, |j: int| (255u8, 255u8, 255u8, 255u8)) =~= Seq::new(
                6,
                |k: int| (255u8, 255u8, 255u8, 255u8),
            ));
        }
    }
}

/// The absolute value of the coordinate of the unit-sized corner `v`
/// along axis `a`.
fn axis_value_abs(a: Axis, v: BlockOffset) -> (r: u8)
    requires
        -1 <= v.x <= 1,
        -1 <= v.y <= 1,
        -1 <= v.z <= 1,
    ensures
        r == spec_abs1(spec_axis_value(a, v)),
{
    let t = match a {
        Axis::X => v.x,
        Axis::Y => v.y,
        Axis::Z => v.z,
    };
    if t < 0 {
        (-t) as u8
    } else {
        t as u8
    }
}

} // verus!
