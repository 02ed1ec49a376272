use kakara::basic_cube::block_vertices;
use kakara::complex_shape::{ComplexShape, SizedComplexShape};
use kakara::cube::Cube;
use kakara::cube_data::UntexturedQuad;
use kakara::face::{Face, Normal};
use kakara::position::BlockPosition;
use kakara::render_types::{BasicModelVertex, NoMaterialId};
use kakara::shapes::{extend_indices, Point3, Quad, Shape, Vertex};
use kakara::texture::{LoadedCubeTexture, TextureCoordinates, UVCoordinates};

fn uv(x: u64, y: u64) -> UVCoordinates {
    UVCoordinates {
        top_left: TextureCoordinates { x, y },
        top_right: TextureCoordinates { x: x + 16, y },
        bottom_left: TextureCoordinates { x, y: y + 16 },
        bottom_right: TextureCoordinates { x: x + 16, y: y + 16 },
    }
}

fn quad(face: Face, x: i64) -> Quad {
    Quad::new_quad_from_face(face, BlockPosition::new(x, 0, 0), BlockPosition::new(1, 1, 1), uv(0, 0))
}

#[test]
fn quad_as_a_shape() {
    let q = quad(Face::Top, 0);
    assert_eq!(q.vertices(), vec![q.top_left, q.top_right, q.bottom_left, q.bottom_right]);
    assert_eq!(q.number_of_verticies(), 4);
    assert_eq!(q.indices(), vec![2, 0, 3, 0, 1, 3]);
    assert_eq!(q.number_of_indices(), 6);
    assert_eq!(
        q.verticies_grouped(),
        vec![
            [q.top_left, q.bottom_left, q.top_right],
            [q.top_right, q.bottom_left, q.bottom_right]
        ]
    );
    let mut vertices = vec![q.bottom_right];
    q.push_verticies(&mut vertices);
    assert_eq!(vertices.len(), 5);
    assert_eq!(vertices[0], q.bottom_right);
    assert_eq!(vertices[1], q.top_left);
}

#[test]
fn quad_indices_are_raised_by_the_indices_before_them() {
    let q = quad(Face::Top, 0);
    let mut indices: Vec<u32> = Vec::new();
    q.push_indices(&mut indices);
    assert_eq!(indices, vec![2, 0, 3, 0, 1, 3]);
    q.push_indices(&mut indices);
    assert_eq!(indices, vec![2, 0, 3, 0, 1, 3, 8, 6, 9, 6, 7, 9]);
    let mut more = vec![1u32];
    extend_indices(&mut more, &vec![0, 5], 10);
    assert_eq!(more, vec![1, 10, 15]);
}

#[test]
fn complex_shape_joins_its_primitives() {
    let first = quad(Face::West, 0);
    let second = quad(Face::East, 3);
    let shape = ComplexShape::new(vec![first, second]);
    let mut expected = first.vertices();
    expected.extend(second.vertices());
    assert_eq!(shape.vertices(), expected);
    assert_eq!(shape.number_of_verticies(), 8);
    assert_eq!(shape.indices(), vec![2, 0, 3, 0, 1, 3, 6, 4, 7, 4, 5, 7]);
    assert_eq!(shape.number_of_indices(), 12);
    let mut indices = vec![9u32, 9];
    shape.push_indices(&mut indices);
    assert_eq!(indices, vec![9, 9, 4, 2, 5, 2, 3, 5, 8, 6, 9, 6, 7, 9]);
    let triangles = shape.verticies_grouped();
    assert_eq!(triangles.len(), 4);
    assert_eq!(triangles[2], [second.top_left, second.bottom_left, second.top_right]);
    let mut vertices = Vec::new();
    shape.push_verticies(&mut vertices);
    assert_eq!(vertices, expected);
    let empty: ComplexShape<Quad> = ComplexShape::new(Vec::new());
    assert!(empty.vertices().is_empty());
    assert!(empty.indices().is_empty());
}

#[test]
fn sized_complex_shape() {
    let shape = SizedComplexShape::new([quad(Face::West, 0), quad(Face::East, 3), quad(Face::Top, 5)]);
    assert_eq!(shape.number_of_verticies(), 12);
    assert_eq!(shape.indices().len(), 18);
    assert_eq!(shape.indices()[12..], [10, 8, 11, 8, 9, 11]);
    let same: SizedComplexShape<Quad, 3> = shape.primitives.into();
    assert_eq!(same, shape);
    let nested = ComplexShape::new(vec![shape, shape]);
    assert_eq!(nested.number_of_verticies(), 24);
    assert_eq!(nested.indices()[18..24], [14, 12, 15, 12, 13, 15]);
}

#[test]
fn cube_has_a_quad_for_each_face() {
    let textures = LoadedCubeTexture::MultiTextureAllSet {
        front: uv(0, 0),
        back: uv(16, 0),
        top: uv(32, 0),
        bottom: uv(48, 0),
        left: uv(64, 0),
        right: uv(80, 0),
    };
    let center = BlockPosition::new(1, 2, 3);
    let size = BlockPosition::new(1, 1, 1);
    let mut cube = Cube::new(center, size, textures);
    for face in Face::iter() {
        let expected = Quad::new_quad_from_face(face, center, size, textures.index(face));
        assert_eq!(*cube.index(face), expected);
        assert_eq!(cube.shape.primitives[usize::from(face)], expected);
        for v in cube.index(face).vertices() {
            assert_eq!(v.normal, face.normal());
        }
    }
    assert_eq!(cube.index(Face::North).top_left.uv, TextureCoordinates { x: 0, y: 0 });
    assert_eq!(cube.index(Face::South).top_left.uv, TextureCoordinates { x: 16, y: 0 });
    assert_eq!(cube.index(Face::North).top_left.position.z, 5);
    assert_eq!(cube.index(Face::South).top_left.position.z, 7);
    assert_eq!(cube.number_of_verticies(), 24);
    assert_eq!(cube.vertices().len(), 24);
    assert_eq!(cube.number_of_indices(), 36);
    assert_eq!(cube.indices().len(), 36);
    assert_eq!(cube.indices()[30..], [22, 20, 23, 20, 21, 23]);
    assert_eq!(cube.verticies_grouped().len(), 12);
    let replacement = quad(Face::Top, 9);
    *cube.index_mut(Face::Top) = replacement;
    assert_eq!(*cube.index(Face::Top), replacement);
    let from_quads: Cube = cube.shape.primitives.into();
    assert_eq!(from_quads, cube);
    let mut indices = vec![0u32; 4];
    cube.push_indices(&mut indices);
    assert_eq!(indices.len(), 40);
    assert_eq!(indices[4..10], [6, 4, 7, 4, 5, 7]);
    let mut vertices = Vec::new();
    cube.push_verticies(&mut vertices);
    assert_eq!(vertices, cube.vertices());
}

#[test]
fn face_quads() {
    for face in Face::iter() {
        let quad = face.get_quad();
        assert_eq!(quad.normal, [face.normal(); 4]);
    }
    let p = |x: i64, y: i64, z: i64| Point3 { x, y, z };
    assert_eq!(UntexturedQuad::front_face().position, [p(-2, 2, 2), p(2, 2, 2), p(-2, -2, 2), p(2, -2, 2)]);
    assert_eq!(UntexturedQuad::back_face().position, [p(-2, 2, -2), p(-2, -2, -2), p(2, -2, -2), p(2, 2, -2)]);
    assert_eq!(UntexturedQuad::top_face().position, [p(-2, 2, -2), p(-2, 2, 2), p(2, 2, 2), p(2, 2, -2)]);
    assert_eq!(UntexturedQuad::bottom_face().position, [p(-2, -2, -2), p(-2, -2, 2), p(2, -2, 2), p(2, -2, -2)]);
    assert_eq!(UntexturedQuad::west_face().position, [p(-2, 2, -2), p(-2, -2, -2), p(-2, -2, 2), p(-2, 2, 2)]);
    assert_eq!(UntexturedQuad::east_face().position, [p(-2, 2, -2), p(2, -2, 2), p(2, -2, -2), p(2, 2, -2)]);
    assert_eq!(Face::North.get_quad(), UntexturedQuad::back_face());
    assert_eq!(Face::South.get_quad(), UntexturedQuad::front_face());
}

#[test]
fn untextured_quad_gets_its_texture() {
    let quad = UntexturedQuad::top_face();
    let texture = uv(16, 32);
    let vertices = quad.into_raw_vertex(texture);
    assert_eq!(vertices.len(), 4);
    for i in 0..4 {
        assert_eq!(
            vertices[i],
            BasicModelVertex {
                position: quad.position[i],
                tex_coords: texture.index(i),
                normal: Normal { x: 0, y: 1, z: 0 },
            }
        );
    }
    let blocks = quad.as_block_voxel_array(texture);
    assert_eq!(blocks[3].position, Point3 { x: 2, y: 2, z: -2 });
    assert_eq!(blocks[3].uv, TextureCoordinates { x: 32, y: 48 });
    assert_eq!(blocks[1].uv, TextureCoordinates { x: 32, y: 32 });
    let moved = quad.add(Point3 { x: 10, y: -20, z: 30 });
    assert_eq!(moved.normal, quad.normal);
    assert_eq!(moved.position[0], Point3 { x: 8, y: -18, z: 28 });
    assert_eq!(moved.position[2], Point3 { x: 12, y: -18, z: 32 });
}

#[test]
fn block_model() {
    let textures = LoadedCubeTexture::MultiTextureAllSet {
        front: uv(0, 0),
        back: uv(16, 0),
        top: uv(32, 0),
        bottom: uv(48, 0),
        left: uv(64, 0),
        right: uv(80, 0),
    };
    let vertices = block_vertices(textures);
    assert_eq!(vertices.len(), 24);
    let order = [Face::North, Face::South, Face::Top, Face::Bottom, Face::West, Face::East];
    for (n, face) in order.iter().enumerate() {
        for i in 0..4 {
            assert_eq!(vertices[4 * n + i].normal, face.normal());
            assert_eq!(vertices[4 * n + i].position, face.get_quad().position[i]);
            assert_eq!(vertices[4 * n + i].tex_coords, textures.index(*face).index(i));
        }
    }
    assert_eq!(vertices[0].tex_coords, TextureCoordinates { x: 0, y: 0 });
    assert_eq!(vertices[4].tex_coords, TextureCoordinates { x: 16, y: 0 });
    assert_eq!(NoMaterialId, NoMaterialId);
    let v = Vertex::new(Point3 { x: 1, y: 2, z: 3 }, TextureCoordinates { x: 4, y: 5 }, Normal { x: 0, y: 1, z: 0 });
    assert_eq!(v.position, Point3 { x: 1, y: 2, z: 3 });
}
