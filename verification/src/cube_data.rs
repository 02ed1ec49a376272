use crate::chunk_mesh::BlockVertex;
use crate::face::{Face, Normal};
use crate::render_types::BasicModelVertex;
use crate::shapes::Point3;
use crate::texture::UVCoordinates;
use vstd::prelude::*;

verus! {

/// The order in which the two triangles of a quad name its four corners.
pub open spec fn base_indices() -> Seq<u32> {
    seq![0u32, 2u32, 1u32, 3u32, 1u32, 2u32]
}

/// The six indices of the quad whose first corner has the index `offset`.
pub open spec fn quad_indices(offset: int) -> Seq<u32> {
    Seq::new(6, |i: int| (base_indices()[i] + offset) as u32)
}

/// The indices of `quads` quads that follow one another from corner 0 on, each
/// with four corners of its own.
pub open spec fn mesh_indices(quads: int) -> Seq<u32> {
    Seq::new((6 * quads) as nat, |i: int| (4 * (i / 6) + base_indices()[i % 6]) as u32)
}

/// The corners and normals of a face without a texture.
#[derive(Debug, Clone, Copy, PartialEq, Eq)]
pub struct UntexturedQuad {
    pub position: [Point3; 4],
    pub normal: [Normal; 4],
}

/// A quad with the given corners that looks the given way at each of them.
pub open spec fn flat_quad(corners: Seq<Point3>, normal: Normal) -> UntexturedQuad
    recommends
        corners.len() == 4,
{
    UntexturedQuad {
        position: [corners[0], corners[1], corners[2], corners[3]],
        normal: [normal, normal, normal, normal],
    }
}

/// The point with the given coordinates.
pub open spec fn point3(x: int, y: int, z: int) -> Point3 {
    Point3 { x: x as i64, y: y as i64, z: z as i64 }
}

/// The face of the cube with edges of two blocks round the origin that looks
/// towards positive Z.
pub open spec fn spec_front_face() -> UntexturedQuad {
    flat_quad(
        seq![
            point3(-2, 2, 2),
            point3(2, 2, 2),
            point3(-2, -2, 2),
            point3(2, -2, 2),
        ],
        Normal { x: 0, y: 0, z: 1 },
    )
}

/// The face of that cube that looks towards negative Z.
pub open spec fn spec_back_face() -> UntexturedQuad {
    flat_quad(
        seq![
            point3(-2, 2, -2),
            point3(-2, -2, -2),
            point3(2, -2, -2),
            point3(2, 2, -2),
        ],
        Normal { x: 0, y: 0, z: -1i8 },
    )
}

/// The face of that cube that looks up.
pub open spec fn spec_top_face() -> UntexturedQuad {
    flat_quad(
        seq![
            point3(-2, 2, -2),
            point3(-2, 2, 2),
            point3(2, 2, 2),
            point3(2, 2, -2),
        ],
        Normal { x: 0, y: 1, z: 0 },
    )
}

/// The face of that cube that looks down.
pub open spec fn spec_bottom_face() -> UntexturedQuad {
    flat_quad(
        seq![
            point3(-2, -2, -2),
            point3(-2, -2, 2),
            point3(2, -2, 2),
            point3(2, -2, -2),
        ],
        Normal { x: 0, y: -1i8, z: 0 },
    )
}

/// The face of that cube that looks towards negative X.
pub open spec fn spec_west_face() -> UntexturedQuad {
    flat_quad(
        seq![
            point3(-2, 2, -2),
            point3(-2, -2, -2),
            point3(-2, -2, 2),
            point3(-2, 2, 2),
        ],
        Normal { x: -1i8, y: 0, z: 0 },
    )
}

/// The face of that cube that looks towards positive X.
pub open spec fn spec_east_face() -> UntexturedQuad {
    flat_quad(
        seq![
            point3(-2, 2, -2),
            point3(2, -2, 2),
            point3(2, -2, -2),
            point3(2, 2, -2),
        ],
        Normal { x: 1, y: 0, z: 0 },
    )
}

/// The corners of a quad with the corners of a texture, one for each.
pub open spec fn textured(quad: UntexturedQuad, uv_coords: UVCoordinates) -> Seq<BasicModelVertex> {
    Seq::new(
        4,
        |i: int|
            BasicModelVertex {
                position: quad.position[i],
                normal: quad.normal[i],
                tex_coords: uv_coords.corners()[i],
            },
    )
}

/// Whether a quad can be moved by a vector without a corner leaving the range
/// of its coordinates.
pub open spec fn can_move(quad: UntexturedQuad, by: Point3) -> bool {
    forall|i: int|
        0 <= i < 4 ==> {
            &&& i64::MIN <= (#[trigger] quad.position[i]).x + by.x <= i64::MAX
            &&& i64::MIN <= quad.position[i].y + by.y <= i64::MAX
            &&& i64::MIN <= quad.position[i].z + by.z <= i64::MAX
        }
}

fn flat(a: Point3, b: Point3, c: Point3, d: Point3, normal: Normal) -> (quad: UntexturedQuad)
    ensures
        quad == flat_quad(seq![a, b, c, d], normal),
{
    UntexturedQuad { position: [a, b, c, d], normal: [normal, normal, normal, normal] }
}

impl UntexturedQuad {
    pub fn front_face() -> (quad: UntexturedQuad)
        ensures
            quad == spec_front_face(),
    {
        flat(
            Point3 { x: -2, y: 2, z: 2 },
            Point3 { x: 2, y: 2, z: 2 },
            Point3 { x: -2, y: -2, z: 2 },
            Point3 { x: 2, y: -2, z: 2 },
            Normal { x: 0, y: 0, z: 1 },
        )
    }

    pub fn back_face() -> (quad: UntexturedQuad)
        ensures
            quad == spec_back_face(),
    {
        flat(
            Point3 { x: -2, y: 2, z: -2 },
            Point3 { x: -2, y: -2, z: -2 },
            Point3 { x: 2, y: -2, z: -2 },
            Point3 { x: 2, y: 2, z: -2 },
            Normal { x: 0, y: 0, z: -1 },
        )
    }

    pub fn top_face() -> (quad: UntexturedQuad)
        ensures
            quad == spec_top_face(),
    {
        flat(
            Point3 { x: -2, y: 2, z: -2 },
            Point3 { x: -2, y: 2, z: 2 },
            Point3 { x: 2, y: 2, z: 2 },
            Point3 { x: 2, y: 2, z: -2 },
            Normal { x: 0, y: 1, z: 0 },
        )
    }

    pub fn bottom_face() -> (quad: UntexturedQuad)
        ensures
            quad == spec_bottom_face(),
    {
        flat(
            Point3 { x: -2, y: -2, z: -2 },
            Point3 { x: -2, y: -2, z: 2 },
            Point3 { x: 2, y: -2, z: 2 },
            Point3 { x: 2, y: -2, z: -2 },
            Normal { x: 0, y: -1, z: 0 },
        )
    }

    pub fn west_face() -> (quad: UntexturedQuad)
        ensures
            quad == spec_west_face(),
    {
        flat(
            Point3 { x: -2, y: 2, z: -2 },
            Point3 { x: -2, y: -2, z: -2 },
            Point3 { x: -2, y: -2, z: 2 },
            Point3 { x: -2, y: 2, z: 2 },
            Normal { x: -1, y: 0, z: 0 },
        )
    }

    pub fn east_face() -> (quad: UntexturedQuad)
        ensures
            quad == spec_east_face(),
    {
        flat(
            Point3 { x: -2, y: 2, z: -2 },
            Point3 { x: 2, y: -2, z: 2 },
            Point3 { x: 2, y: -2, z: -2 },
            Point3 { x: 2, y: 2, z: -2 },
            Normal { x: 1, y: 0, z: 0 },
        )
    }

    /// The four corners of the quad with the corners of a texture.
    pub fn into_raw_vertex(self, uv_coords: UVCoordinates) -> (vertices: Vec<BasicModelVertex>)
        ensures
            vertices@ == textured(self, uv_coords),
    {
        let mut vertices: Vec<BasicModelVertex> = Vec::new();
        self.push_raw_vertecies(&mut vertices, uv_coords);
        vertices
    }

    /// Puts the four corners of the quad, with the corners of a texture, behind
    /// the given vertices.
    pub fn push_raw_vertecies(&self, vertices: &mut Vec<BasicModelVertex>, uv_coords: UVCoordinates)
        ensures
            final(vertices)@ == old(vertices)@ + textured(*self, uv_coords),
    {
        let mut i: usize = 0;
        while i < 4
            invariant
                i <= 4,
                vertices@ == old(vertices)@ + textured(*self, uv_coords).take(i as int),
            decreases 4 - i,
        {
            vertices.push(
                BasicModelVertex {
                    position: self.position[i],
                    normal: self.normal[i],
                    tex_coords: uv_coords.index(i),
                },
            );
            proof {
                let all = textured(*self, uv_coords);
                assert(all.take(i as int + 1) =~= all.take(i as int).push(all[i as int]));
                assert(vertices@ =~= old(vertices)@ + all.take(i as int + 1));
            }
            i += 1;
        }
        proof {
            let all = textured(*self, uv_coords);
            assert(all.take(4) =~= all);
        }
    }

    /// The four corners of the quad as corners of a voxel face.
    pub fn as_block_voxel_array(&self, uv: UVCoordinates) -> (vertices: [BlockVertex; 4])
        ensures
            forall|i: int|
                0 <= i < 4 ==> #[trigger] vertices@[i] == (BlockVertex {
                    position: self.position[i],
                    normal: self.normal[i],
                    uv: uv.corners()[i],
                }),
    {
        let UntexturedQuad { position, normal } = self;
        [
            BlockVertex { position: position[0], normal: normal[0], uv: uv.index(0) },
            BlockVertex { position: position[1], normal: normal[1], uv: uv.index(1) },
            BlockVertex { position: position[2], normal: normal[2], uv: uv.index(2) },
            BlockVertex { position: position[3], normal: normal[3], uv: uv.index(3) },
        ]
    }

    /// The quad moved by a vector.
    pub fn add(self, rhs: Point3) -> (moved: UntexturedQuad)
        requires
            can_move(self, rhs),
        ensures
            moved.normal == self.normal,
            forall|i: int|
                0 <= i < 4 ==> #[trigger] moved.position[i] == (Point3 {
                    x: (self.position[i].x + rhs.x) as i64,
                    y: (self.position[i].y + rhs.y) as i64,
                    z: (self.position[i].z + rhs.z) as i64,
                }),
    {
        let mut new_quad = self;
        let mut i: usize = 0;
        while i < 4
            invariant
                i <= 4,
                can_move(self, rhs),
                new_quad.normal == self.normal,
                forall|j: int| i <= j < 4 ==> #[trigger] new_quad.position[j] == self.position[j],
                forall|j: int|
                    0 <= j < i ==> #[trigger] new_quad.position[j] == (Point3 {
                        x: (self.position[j].x + rhs.x) as i64,
                        y: (self.position[j].y + rhs.y) as i64,
                        z: (self.position[j].z + rhs.z) as i64,
                    }),
            decreases 4 - i,
        {
            let corner = new_quad.position[i];
            assert(corner == self.position[i as int]);
            new_quad.position[i] = Point3 {
                x: corner.x + rhs.x,
                y: corner.y + rhs.y,
                z: corner.z + rhs.z,
            };
            i += 1;
        }
        new_quad
    }

    /// The six indices of the quad whose first corner has the index `offset`.
    pub fn indicies(offset: u32) -> (indices: [u32; 6])
        requires
            offset <= u32::MAX - 3,
        ensures
            indices@ == quad_indices(offset as int),
    {
        let indices: [u32; 6] = [
            0 + offset,
            2 + offset,
            1 + offset,
            3 + offset,
            1 + offset,
            2 + offset,
        ];
        assert(indices@ =~= quad_indices(offset as int));
        indices
    }

    /// Puts the six indices of the quad whose first corner has the index
    /// `offset` behind the given indices.
    pub fn push_indicies(indicies: &mut Vec<u32>, offset: u32)
        requires
            offset <= u32::MAX - 3,
        ensures
            final(indicies)@ == old(indicies)@ + quad_indices(offset as int),
    {
        indicies.push(0 + offset);
        indicies.push(2 + offset);
        indicies.push(1 + offset);
        indicies.push(3 + offset);
        indicies.push(1 + offset);
        indicies.push(2 + offset);
        assert(indicies@ =~= old(indicies)@ + quad_indices(offset as int));
    }
}

impl Face {
    /// The quad of a face of the cube with edges of two blocks round the
    /// origin: the one that looks the way the face does.
    pub open spec fn spec_quad(&self) -> UntexturedQuad {
        match *self {
            Face::North => spec_back_face(),
            Face::South => spec_front_face(),
            Face::Top => spec_top_face(),
            Face::Bottom => spec_bottom_face(),
            Face::West => spec_west_face(),
            Face::East => spec_east_face(),
        }
    }

    #[verifier::when_used_as_spec(spec_quad)]
    pub fn get_quad(&self) -> (quad: UntexturedQuad)
        ensures
            quad == self.spec_quad(),
    {
        match self {
            Face::North => UntexturedQuad::back_face(),
            Face::South => UntexturedQuad::front_face(),
            Face::Top => UntexturedQuad::top_face(),
            Face::Bottom => UntexturedQuad::bottom_face(),
            Face::West => UntexturedQuad::west_face(),
            Face::East => UntexturedQuad::east_face(),
        }
    }
}

/// The quad of a face looks the way the face does at every corner.
pub proof fn lemma_quad_looks_its_way(face: Face, corner: int)
    requires
        0 <= corner < 4,
    ensures
        face.spec_quad().normal[corner] == face.spec_normal(),
{
}

/// One more quad adds its six indices behind those of the quads before it.
pub proof fn lemma_mesh_indices_push(quads: int)
    requires
        0 <= quads,
    ensures
        mesh_indices(quads + 1) == mesh_indices(quads) + quad_indices(4 * quads),
{
    let a = mesh_indices(quads + 1);
    let b = mesh_indices(quads) + quad_indices(4 * quads);
    assert(a.len() == b.len());
    assert forall|i: int| 0 <= i < a.len() implies a[i] == b[i] by {
        if i >= 6 * quads {
            assert(i / 6 == quads);
            assert(i % 6 == i - 6 * quads);
        }
    }
    assert(a =~= b);
}

} // verus!
