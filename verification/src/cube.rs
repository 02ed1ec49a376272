use crate::complex_shape::{
    flat_grouped, flat_indices, flat_indices_fit, flat_vertices, SizedComplexShape,
};
use crate::face::Face;
use crate::position::BlockPosition;
use crate::shapes::{Quad, Shape, Vertex};
use crate::texture::LoadedCubeTexture;
use vstd::prelude::*;

verus! {

/// Cube is a Complex Shape composed of 6 Quads
/// Quads are ordered as follows:
/// 0: North
/// 1: Top
/// 2: Bottom
/// 3: West
/// 4: East
/// 5: South
#[derive(Debug, Clone, Copy, PartialEq)]
pub struct Cube {
    pub shape: SizedComplexShape<Quad, 6>,
}

impl From<[Quad; 6]> for Cube {
    fn from(shape: [Quad; 6]) -> (cube: Cube) {
        Cube { shape: SizedComplexShape::new(shape) }
    }
}

impl vstd::std_specs::convert::FromSpecImpl<[Quad; 6]> for Cube {
    open spec fn obeys_from_spec() -> bool {
        true
    }

    open spec fn from_spec(shape: [Quad; 6]) -> Cube {
        Cube { shape: SizedComplexShape { primitives: shape } }
    }
}

/// Six quads have 24 corners and 36 indices, and their indices fit where 24
/// more corners do.
pub proof fn lemma_six_quads(quads: Seq<Quad>, indices: Seq<u32>, offset: int)
    requires
        quads.len() == 6,
    ensures
        flat_vertices(quads, 6).len() == 24,
        flat_indices(quads, indices, offset, 6).len() == indices.len() + 36,
        flat_grouped(quads, 6).len() == 12,
        0 <= offset && offset + 24 <= u32::MAX ==> flat_indices_fit(quads, offset, 6),
{
    reveal_with_fuel(flat_vertices, 7);
    reveal_with_fuel(flat_indices, 7);
    reveal_with_fuel(flat_grouped, 7);
    reveal_with_fuel(flat_indices_fit, 7);
}

impl Cube {
    /// The quad of a face of the cube. Each quad lies in the side of the cube
    /// that its face looks out of and shows the texture of its face.
    pub open spec fn spec_quads(
        center: BlockPosition,
        size: BlockPosition,
        loaded_cube_texture: LoadedCubeTexture,
    ) -> Seq<Quad> {
        Seq::new(
            6,
            |i: int|
                Quad::spec_quad_from_face(
                    Face::all()[i],
                    center,
                    size,
                    loaded_cube_texture.spec_index(Face::all()[i]),
                ),
        )
    }

    /// A cube round `center` with edges of `size` blocks.
    pub fn new(center: BlockPosition, size: BlockPosition, loaded_cube_texture: LoadedCubeTexture) -> (cube:
        Cube)
        requires
            Quad::cube_fits(center, size),
        ensures
            cube.shape.primitives@ == Cube::spec_quads(center, size, loaded_cube_texture),
    {
        // Generate the quads for the cube. Y is up. Z is front. X is left.
        let north_quad = Quad::new_quad_from_face(
            Face::North,
            center,
            size,
            loaded_cube_texture.index(Face::North),
        );
        let top_quad = Quad::new_quad_from_face(
            Face::Top,
            center,
            size,
            loaded_cube_texture.index(Face::Top),
        );
        let bottom_quad = Quad::new_quad_from_face(
            Face::Bottom,
            center,
            size,
            loaded_cube_texture.index(Face::Bottom),
        );
        let left_quad = Quad::new_quad_from_face(
            Face::West,
            center,
            size,
            loaded_cube_texture.index(Face::West),
        );
        let right_quad = Quad::new_quad_from_face(
            Face::East,
            center,
            size,
            loaded_cube_texture.index(Face::East),
        );
        let south_quad = Quad::new_quad_from_face(
            Face::South,
            center,
            size,
            loaded_cube_texture.index(Face::South),
        );
        let shape = SizedComplexShape::new(
            [north_quad, top_quad, bottom_quad, left_quad, right_quad, south_quad],
        );
        assert(shape.primitives@ =~= Cube::spec_quads(center, size, loaded_cube_texture));
        Cube { shape }
    }

    /// The quad of a face.
    pub fn index(&self, index: Face) -> (quad: &Quad)
        ensures
            *quad == self.shape.primitives@[index.spec_index()],
    {
        let i: usize = usize::from(index);
        &self.shape.primitives[i]
    }

    /// The quad of a face, to be changed.
    pub fn index_mut(&mut self, index: Face) -> (quad: &mut Quad)
        ensures
            *quad == old(self).shape.primitives@[index.spec_index()],
            final(self).shape.primitives@ == old(self).shape.primitives@.update(
                index.spec_index(),
                *final(quad),
            ),
    {
        let i: usize = usize::from(index);
        &mut self.shape.primitives[i]
    }
}

impl Shape for Cube {
    open spec fn spec_vertices(&self) -> Seq<Vertex> {
        self.shape.spec_vertices()
    }

    open spec fn spec_indices(&self) -> Seq<u32> {
        self.shape.spec_indices()
    }

    open spec fn spec_grouped(&self) -> Seq<Seq<Vertex>> {
        self.shape.spec_grouped()
    }

    /// The indices of a cube are raised by the number of indices that are
    /// there already, which must leave room for its 24 corners.
    open spec fn can_push_indices(&self, indices: Seq<u32>) -> bool {
        indices.len() + 24 <= u32::MAX
    }

    open spec fn spec_push_indices(&self, indices: Seq<u32>) -> Seq<u32> {
        self.shape.spec_push_indices(indices)
    }

    #[inline(always)]
    fn vertices(&self) -> (vertices: Vec<Vertex>) {
        self.shape.vertices()
    }

    #[inline(always)]
    fn number_of_verticies(&self) -> (n: usize) {
        proof {
            lemma_six_quads(self.shape.primitives@, Seq::empty(), 0);
        }
        24
    }

    #[inline(always)]
    fn push_verticies(&self, verticies: &mut Vec<Vertex>) {
        self.shape.push_verticies(verticies);
    }

    #[inline(always)]
    fn indices(&self) -> (indices: Vec<u32>) {
        proof {
            lemma_six_quads(self.shape.primitives@, Seq::empty(), 0);
        }
        self.shape.indices()
    }

    #[inline(always)]
    fn number_of_indices(&self) -> (n: usize) {
        proof {
            lemma_six_quads(self.shape.primitives@, Seq::empty(), 0);
        }
        36
    }

    #[inline(always)]
    fn push_indices(&self, indices: &mut Vec<u32>) {
        proof {
            lemma_six_quads(self.shape.primitives@, indices@, indices@.len() as int);
        }
        self.shape.push_indices(indices);
    }

    #[inline(always)]
    fn verticies_grouped(&self) -> (triangles: Vec<[Vertex; 3]>) {
        self.shape.verticies_grouped()
    }
}

} // verus!
