use kakara::chunk_mesh::{BlockVertex, RawChunkMesh, Voxel, VoxelVisiblity};
use kakara::cube_data::UntexturedQuad;
use kakara::face::{Face, Normal};
use kakara::location::VoxelLocation;
use kakara::position::BlockPosition;
use kakara::shapes::{Point3, Quad, Vertex};
use kakara::texture::{FaceTextures, LoadedCubeTexture, TextureCoordinates, UVCoordinates};

fn uv(x: u64, y: u64, w: u64, h: u64) -> UVCoordinates {
    UVCoordinates {
        top_left: TextureCoordinates { x, y },
        top_right: TextureCoordinates { x: x + w, y },
        bottom_left: TextureCoordinates { x, y: y + h },
        bottom_right: TextureCoordinates { x: x + w, y: y + h },
    }
}

fn air_voxels() -> Vec<Voxel> {
    (0..4096usize).map(|i| Voxel::air(BlockPosition::from_index(i))).collect()
}

fn opaque(index: usize) -> Voxel {
    Voxel::new(
        BlockPosition::from_index(index),
        VoxelVisiblity::Opaque,
        Some(LoadedCubeTexture::SingleTexture(uv(16, 32, 16, 16))),
    )
}

fn origin() -> BlockPosition {
    BlockPosition::new(0, 0, 0)
}

#[test]
fn air_section_has_empty_mesh() {
    let mesh = RawChunkMesh::build(origin(), air_voxels());
    assert_eq!(mesh.vertices.len(), 0);
    assert_eq!(mesh.indices.len(), 0);
    assert!(RawChunkMesh::visible_voxels(&air_voxels()).is_empty());
}

#[test]
fn single_voxel_has_six_faces() {
    for index in [0usize, 561, 2184, 4095] {
        let mut voxels = air_voxels();
        voxels[index] = opaque(index);
        let visible = RawChunkMesh::visible_voxels(&voxels);
        assert_eq!(visible.len(), 1);
        assert_eq!(
            visible[0].faces,
            vec![Face::North, Face::Top, Face::Bottom, Face::West, Face::East, Face::South]
        );
        assert_eq!(*visible[0].voxel, voxels[index]);
        let mesh = RawChunkMesh::build(origin(), voxels);
        assert_eq!(mesh.vertices.len(), 24);
        assert_eq!(mesh.indices.len(), 36);
    }
}

#[test]
fn single_voxel_vertices() {
    let mut voxels = air_voxels();
    voxels[561] = opaque(561);
    let mesh = RawChunkMesh::build(BlockPosition::new(16, 32, -16), voxels);
    assert_eq!(mesh.position, BlockPosition::new(16, 32, -16));
    let texture = uv(16, 32, 16, 16);
    // The block stands at (17, 34, -13); its corners lie half a block away.
    let north = Normal { x: 0, y: 0, z: -1 };
    assert_eq!(
        mesh.vertices[0],
        BlockVertex { position: Point3 { x: 35, y: 69, z: -27 }, normal: north, uv: texture.top_left }
    );
    assert_eq!(
        mesh.vertices[1],
        BlockVertex { position: Point3 { x: 33, y: 69, z: -27 }, normal: north, uv: texture.top_right }
    );
    assert_eq!(
        mesh.vertices[2],
        BlockVertex { position: Point3 { x: 35, y: 67, z: -27 }, normal: north, uv: texture.bottom_left }
    );
    assert_eq!(
        mesh.vertices[3],
        BlockVertex { position: Point3 { x: 33, y: 67, z: -27 }, normal: north, uv: texture.bottom_right }
    );
    let normals: Vec<Normal> = (0..6).map(|q| mesh.vertices[4 * q].normal).collect();
    assert_eq!(
        normals,
        vec![
            Normal { x: 0, y: 0, z: -1 },
            Normal { x: 0, y: 1, z: 0 },
            Normal { x: 0, y: -1, z: 0 },
            Normal { x: -1, y: 0, z: 0 },
            Normal { x: 1, y: 0, z: 0 },
            Normal { x: 0, y: 0, z: 1 },
        ]
    );
    // The last quad is the south face, in the side towards positive Z.
    assert_eq!(mesh.vertices[20].position, Point3 { x: 33, y: 69, z: -25 });
    assert_eq!(mesh.vertices[23].position, Point3 { x: 35, y: 67, z: -25 });
    for v in &mesh.vertices {
        assert!(v.position.x == 33 || v.position.x == 35);
        assert!(v.position.y == 67 || v.position.y == 69);
        assert!(v.position.z == -27 || v.position.z == -25);
    }
}

#[test]
fn indices_follow_the_winding() {
    let mut voxels = air_voxels();
    voxels[561] = opaque(561);
    let mesh = RawChunkMesh::build(origin(), voxels);
    let mut expected: Vec<u32> = Vec::new();
    for q in 0..6u32 {
        for b in [0u32, 2, 1, 3, 1, 2] {
            expected.push(4 * q + b);
        }
    }
    assert_eq!(mesh.indices, expected);
    assert_eq!(&mesh.indices[0..12], &[0, 2, 1, 3, 1, 2, 4, 6, 5, 7, 5, 6]);
    for i in &mesh.indices {
        assert!((*i as usize) < mesh.vertices.len());
    }
}

#[test]
fn touching_voxels_hide_the_shared_face() {
    let a = BlockPosition::new(4, 5, 6).to_index();
    let b = BlockPosition::new(5, 5, 6).to_index();
    let mut voxels = air_voxels();
    voxels[a] = opaque(a);
    voxels[b] = opaque(b);
    let visible = RawChunkMesh::visible_voxels(&voxels);
    assert_eq!(visible.len(), 2);
    assert_eq!(
        visible[0].faces,
        vec![Face::North, Face::Top, Face::Bottom, Face::West, Face::South]
    );
    assert_eq!(
        visible[1].faces,
        vec![Face::North, Face::Top, Face::Bottom, Face::East, Face::South]
    );
    let mesh = RawChunkMesh::build(origin(), voxels);
    assert_eq!(mesh.vertices.len(), 40);
    assert_eq!(mesh.indices.len(), 60);
    // No quad lies in the plane between the two blocks.
    for q in 0..10 {
        let quad = &mesh.vertices[4 * q..4 * q + 4];
        assert!(!quad.iter().all(|v| v.position.x == 9));
    }
}

#[test]
fn touching_voxels_along_each_axis() {
    let pairs = [
        (BlockPosition::new(4, 5, 6), BlockPosition::new(4, 6, 6), Face::Top),
        (BlockPosition::new(4, 5, 6), BlockPosition::new(4, 5, 7), Face::South),
        (BlockPosition::new(4, 5, 6), BlockPosition::new(4, 5, 5), Face::North),
    ];
    for (first, second, face) in pairs {
        let mut voxels = air_voxels();
        voxels[first.to_index()] = opaque(first.to_index());
        voxels[second.to_index()] = opaque(second.to_index());
        let visible = RawChunkMesh::visible_voxels(&voxels);
        assert_eq!(visible.len(), 2);
        for entry in &visible {
            assert_eq!(entry.faces.len(), 5);
            if entry.voxel.position == first {
                assert!(!entry.faces.contains(&face));
            } else {
                assert!(!entry.faces.contains(&face.opposite()));
            }
        }
    }
}

#[test]
fn translucent_neighbor_shows_the_face() {
    let a = BlockPosition::new(4, 5, 6).to_index();
    let b = BlockPosition::new(5, 5, 6).to_index();
    let mut voxels = air_voxels();
    voxels[a] = opaque(a);
    voxels[b] = Voxel::new(BlockPosition::from_index(b), VoxelVisiblity::Translucent, None);
    let visible = RawChunkMesh::visible_voxels(&voxels);
    // The translucent voxel lies inside the section and shows no face itself.
    assert_eq!(visible.len(), 1);
    assert_eq!(visible[0].faces.len(), 6);
}

#[test]
fn translucent_voxel_at_the_side_shows_its_outer_faces() {
    let mut voxels = air_voxels();
    voxels[0] = Voxel::new(BlockPosition::from_index(0), VoxelVisiblity::Translucent, None);
    let visible = RawChunkMesh::visible_voxels(&voxels);
    assert_eq!(visible.len(), 1);
    assert_eq!(visible[0].faces, vec![Face::North, Face::Bottom, Face::West]);
}

#[test]
fn full_section_shows_only_its_sides() {
    let voxels: Vec<Voxel> = (0..4096usize).map(opaque).collect();
    let mesh = RawChunkMesh::build(origin(), voxels);
    assert_eq!(mesh.vertices.len(), 6 * 256 * 4);
    assert_eq!(mesh.indices.len(), 6 * 256 * 6);
}

#[test]
fn rebuild_is_deterministic() {
    let mut voxels = air_voxels();
    for index in [0usize, 1, 17, 561, 562, 4095] {
        voxels[index] = opaque(index);
    }
    let mut mesh = RawChunkMesh::build(BlockPosition::new(32, 0, 48), voxels.clone());
    let vertices = mesh.vertices.clone();
    let indices = mesh.indices.clone();
    mesh.rebuild(voxels.clone());
    assert_eq!(mesh.vertices, vertices);
    assert_eq!(mesh.indices, indices);
    let other = RawChunkMesh::build(BlockPosition::new(32, 0, 48), voxels);
    assert_eq!(other.vertices, vertices);
    assert_eq!(other.indices, indices);
}

#[test]
fn rebuild_replaces_what_was_there() {
    let mut voxels = air_voxels();
    voxels[561] = opaque(561);
    let mut mesh = RawChunkMesh::build(origin(), voxels);
    assert_eq!(mesh.vertices.len(), 24);
    mesh.rebuild(air_voxels());
    assert_eq!(mesh.vertices.len(), 0);
    assert_eq!(mesh.indices.len(), 0);
    assert_eq!(mesh.position, origin());
}

#[test]
fn clear_and_clone() {
    let mut voxels = air_voxels();
    voxels[561] = opaque(561);
    let mut mesh = RawChunkMesh::build(BlockPosition::new(16, 0, 0), voxels);
    let copy = mesh.clone();
    assert_eq!(copy.position, mesh.position);
    assert_eq!(copy.vertices, mesh.vertices);
    assert_eq!(copy.indices, mesh.indices);
    mesh.clear();
    assert!(mesh.vertices.is_empty());
    assert!(mesh.indices.is_empty());
    assert_eq!(mesh.position, BlockPosition::new(16, 0, 0));
    assert_eq!(copy.vertices.len(), 24);
}

#[test]
fn opaque_voxel_without_textures_shows_the_default() {
    let voxel = Voxel::new(BlockPosition::new(0, 0, 0), VoxelVisiblity::Opaque, None);
    assert!(voxel.is_missing_texture());
    let face = voxel.face(Face::Top, origin());
    for v in face {
        assert_eq!(v.uv, TextureCoordinates { x: 0, y: 0 });
        assert_eq!(v.normal, Normal { x: 0, y: 1, z: 0 });
        assert_eq!(v.position.y, 1);
    }
    assert!(!opaque(0).is_missing_texture());
    assert!(!Voxel::air(origin()).is_missing_texture());
}

#[test]
fn voxel_face_uses_the_texture_of_the_face() {
    let textures = LoadedCubeTexture::MultiTextureAllSet {
        front: uv(0, 0, 16, 16),
        back: uv(16, 0, 16, 16),
        top: uv(32, 0, 16, 16),
        bottom: uv(48, 0, 16, 16),
        left: uv(64, 0, 16, 16),
        right: uv(80, 0, 16, 16),
    };
    let voxel = Voxel::new(BlockPosition::new(1, 1, 1), VoxelVisiblity::Opaque, Some(textures));
    assert_eq!(voxel.face(Face::North, origin())[0].uv, TextureCoordinates { x: 0, y: 0 });
    assert_eq!(voxel.face(Face::South, origin())[0].uv, TextureCoordinates { x: 16, y: 0 });
    assert_eq!(voxel.face(Face::Top, origin())[0].uv, TextureCoordinates { x: 32, y: 0 });
    assert_eq!(voxel.face(Face::Bottom, origin())[0].uv, TextureCoordinates { x: 48, y: 0 });
    assert_eq!(voxel.face(Face::West, origin())[0].uv, TextureCoordinates { x: 64, y: 0 });
    assert_eq!(voxel.face(Face::East, origin())[3].uv, TextureCoordinates { x: 96, y: 16 });
}

#[test]
fn loaded_texture_index() {
    let single = LoadedCubeTexture::SingleTexture(uv(1, 2, 3, 4));
    for face in Face::iter() {
        assert_eq!(single.index(face), uv(1, 2, 3, 4));
    }
    let mut some = FaceTextures::new();
    assert_eq!(some.get(Face::Top), None);
    assert_eq!(some.insert(Face::Top, uv(5, 5, 1, 1)), None);
    assert_eq!(some.insert(Face::Top, uv(6, 6, 1, 1)), Some(uv(5, 5, 1, 1)));
    let multi = LoadedCubeTexture::MultiTexture { textures: some, default_texture: uv(9, 9, 1, 1) };
    assert_eq!(multi.index(Face::Top), uv(6, 6, 1, 1));
    assert_eq!(multi.index(Face::Bottom), uv(9, 9, 1, 1));
    assert_eq!(multi.index(Face::North), uv(9, 9, 1, 1));
}

#[test]
fn uv_corners() {
    let r = uv(1, 2, 3, 4);
    assert_eq!(r.index(0), TextureCoordinates { x: 1, y: 2 });
    assert_eq!(r.index(1), TextureCoordinates { x: 4, y: 2 });
    assert_eq!(r.index(2), TextureCoordinates { x: 1, y: 6 });
    assert_eq!(r.index(3), TextureCoordinates { x: 4, y: 6 });
    assert_eq!(r.index(4), r.index(0));
    assert_eq!(r.index(7), r.index(3));
    assert_eq!(r.iter(), vec![r.top_left, r.top_right, r.bottom_left, r.bottom_right]);
    assert_eq!(UVCoordinates::default(), uv(0, 0, 0, 0));
}

#[test]
fn quad_of_each_face() {
    let center = BlockPosition::new(10, 20, 30);
    let size = BlockPosition::new(1, 1, 1);
    let texture = uv(0, 0, 16, 16);
    let p = |x: i64, y: i64, z: i64| Point3 { x, y, z };
    let cases = [
        (Face::North, [p(21, 41, 59), p(19, 41, 59), p(21, 39, 59), p(19, 39, 59)]),
        (Face::Top, [p(21, 41, 61), p(19, 41, 61), p(21, 41, 59), p(19, 41, 59)]),
        (Face::Bottom, [p(19, 39, 61), p(21, 39, 61), p(19, 39, 59), p(21, 39, 59)]),
        (Face::West, [p(19, 41, 59), p(19, 41, 61), p(19, 39, 59), p(19, 39, 61)]),
        (Face::East, [p(21, 41, 61), p(21, 41, 59), p(21, 39, 61), p(21, 39, 59)]),
        (Face::South, [p(19, 41, 61), p(21, 41, 61), p(19, 39, 61), p(21, 39, 61)]),
    ];
    for (face, corners) in cases {
        let quad = Quad::new_quad_from_face(face, center, size, texture);
        assert_eq!(quad.top_left, Vertex::new(corners[0], texture.top_left, face.normal()));
        assert_eq!(quad.top_right, Vertex::new(corners[1], texture.top_right, face.normal()));
        assert_eq!(quad.bottom_left, Vertex::new(corners[2], texture.bottom_left, face.normal()));
        assert_eq!(quad.bottom_right, Vertex::new(corners[3], texture.bottom_right, face.normal()));
        let vertices = BlockVertex::from_quad(quad);
        assert_eq!(vertices[0], BlockVertex::new_from_generic_vertex(quad.top_left));
        assert_eq!(vertices[3].position, corners[3]);
    }
}

#[test]
fn quad_of_a_larger_cube() {
    let quad = Quad::new_quad_from_face(
        Face::East,
        BlockPosition::new(0, 0, 0),
        BlockPosition::new(4, 2, 6),
        uv(0, 0, 1, 1),
    );
    assert_eq!(quad.top_left.position, Point3 { x: 4, y: 2, z: 6 });
    assert_eq!(quad.bottom_right.position, Point3 { x: 4, y: -2, z: -6 });
    let same = Quad::new(quad.top_left, quad.top_right, quad.bottom_left, quad.bottom_right);
    assert_eq!(same, quad);
}

#[test]
fn quad_indices() {
    assert_eq!(UntexturedQuad::indicies(0), [0, 2, 1, 3, 1, 2]);
    assert_eq!(UntexturedQuad::indicies(8), [8, 10, 9, 11, 9, 10]);
    let mut indices = vec![7u32];
    UntexturedQuad::push_indicies(&mut indices, 4);
    assert_eq!(indices, vec![7, 4, 6, 5, 7, 5, 6]);
}

#[test]
fn visibility_kinds() {
    assert!(VoxelVisiblity::Empty.is_empty());
    assert!(VoxelVisiblity::Translucent.is_translucent());
    assert!(VoxelVisiblity::Opaque.is_opaque());
    assert!(!VoxelVisiblity::Opaque.is_empty());
    assert_eq!(VoxelVisiblity::default(), VoxelVisiblity::Opaque);
    assert_eq!(
        BlockVertex::default(),
        BlockVertex {
            position: Point3 { x: 0, y: 0, z: 0 },
            normal: Normal { x: 0, y: 0, z: 0 },
            uv: TextureCoordinates { x: 0, y: 0 },
        }
    );
}
