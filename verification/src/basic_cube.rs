use crate::cube_data::textured;
use crate::face::Face;
use crate::render_types::BasicModelVertex;
use crate::texture::LoadedCubeTexture;
use vstd::prelude::*;

verus! {

/// The order in which the faces of a block model follow one another.
pub open spec fn model_faces() -> Seq<Face> {
    seq![Face::North, Face::South, Face::Top, Face::Bottom, Face::West, Face::East]
}

/// The corners of the first `n` faces of a block model, each face with the
/// corners of its texture.
pub open spec fn model_vertices(texture_locations: LoadedCubeTexture, n: int) -> Seq<BasicModelVertex>
    decreases n,
{
    if n <= 0 {
        Seq::empty()
    } else {
        let face = model_faces()[n - 1];
        model_vertices(texture_locations, n - 1) + textured(
            face.spec_quad(),
            texture_locations.spec_index(face),
        )
    }
}

/// The 24 corners of the model of a block: its six faces, each with the
/// corners of the texture of that face.
pub fn block_vertices(texture_locations: LoadedCubeTexture) -> (vertices: Vec<BasicModelVertex>)
    ensures
        vertices@ == model_vertices(texture_locations, 6),
        vertices.len() == 24,
{
    let mut vertices: Vec<BasicModelVertex> = Vec::with_capacity(6 * 4);
    let faces = [Face::North, Face::South, Face::Top, Face::Bottom, Face::West, Face::East];
    assert(faces@ =~= model_faces());
    let mut n: usize = 0;
    while n < 6
        invariant
            n <= 6,
            faces@ == model_faces(),
            vertices@ == model_vertices(texture_locations, n as int),
            vertices.len() == 4 * n,
        decreases 6 - n,
    {
        let face = faces[n];
        face.get_quad().push_raw_vertecies(&mut vertices, texture_locations.index(face));
        n += 1;
    }
    vertices
}

} // verus!
