use kakara::face::{Face, Normal};
use kakara::location::VoxelLocation;
use kakara::position::{BlockPosition, ChunkPosition};

#[test]
fn index_round_trip() {
    for i in 0..4096usize {
        let p = BlockPosition::from_index(i);
        assert!(p.is_valid_position());
        assert_eq!(p.to_index(), i);
    }
}

#[test]
fn coordinates_round_trip() {
    for x in 0..16i64 {
        for y in 0..16i64 {
            for z in 0..16i64 {
                let p = BlockPosition::new(x, y, z);
                assert_eq!(BlockPosition::from_index(p.to_index()), p);
            }
        }
    }
}

#[test]
fn index_formula() {
    assert_eq!(BlockPosition::new(1, 2, 3).to_index(), (2 << 8) | (3 << 4) | 1);
    assert_eq!(BlockPosition::new(1, 2, 3).to_index(), 561);
    assert_eq!(BlockPosition::new(15, 15, 15).to_index(), 4095);
    assert_eq!(BlockPosition::new(0, 0, 0).to_index(), 0);
    assert_eq!(BlockPosition::from_index(561), BlockPosition::new(1, 2, 3));
    assert_eq!(BlockPosition::new(1, 2, 3).as_u32(), 561u32);
    assert_eq!(BlockPosition::new(1, 2, 3).as_u64(), 561u64);
    assert_eq!(BlockPosition::new(1, 2, 3).as_u16(), 561u16);
}

#[test]
fn index_uses_low_bits_only() {
    assert_eq!(BlockPosition::new(17, 34, 51).to_index(), 561);
    assert_eq!(BlockPosition::new(-15, -14, -13).relative_block(), 561);
}

#[test]
fn relative_block_round_trip() {
    for i in 0..4096usize {
        assert_eq!(BlockPosition::from_relative_block(i).relative_block(), i);
    }
    assert_eq!(BlockPosition::from_relative_block(4096 + 561), BlockPosition::new(1, 2, 3));
}

#[test]
fn chunk_of_block() {
    assert_eq!(BlockPosition::new(-1, 0, -17).chunk(), ChunkPosition::new(-1, -2));
    assert_eq!(BlockPosition::new(15, 0, 16).chunk(), ChunkPosition::new(0, 1));
    assert_eq!(BlockPosition::new(-16, 7, 0).chunk(), ChunkPosition::new(-1, 0));
    assert_eq!(BlockPosition::new(160, 7, -160).chunk(), ChunkPosition::new(10, -10));
}

#[test]
fn section_of_block() {
    assert_eq!(BlockPosition::new(0, 0, 0).section(), 0);
    assert_eq!(BlockPosition::new(0, 15, 0).section(), 0);
    assert_eq!(BlockPosition::new(0, 16, 0).section(), 1);
    assert_eq!(BlockPosition::new(0, 255, 0).section(), 15);
}

#[test]
fn boundary_has_no_neighbor() {
    for a in 0..16i64 {
        for b in 0..16i64 {
            assert_eq!(BlockPosition::new(a, b, 0).position_for_face(Face::North), None);
            assert_eq!(BlockPosition::new(a, b, 15).position_for_face(Face::South), None);
            assert_eq!(BlockPosition::new(a, 15, b).position_for_face(Face::Top), None);
            assert_eq!(BlockPosition::new(a, 0, b).position_for_face(Face::Bottom), None);
            assert_eq!(BlockPosition::new(0, a, b).position_for_face(Face::West), None);
            assert_eq!(BlockPosition::new(15, a, b).position_for_face(Face::East), None);
        }
    }
}

#[test]
fn neighbor_lies_along_the_normal() {
    let p = BlockPosition::new(3, 4, 5);
    assert_eq!(p.position_for_face(Face::North), Some(BlockPosition::new(3, 4, 4)));
    assert_eq!(p.position_for_face(Face::South), Some(BlockPosition::new(3, 4, 6)));
    assert_eq!(p.position_for_face(Face::Top), Some(BlockPosition::new(3, 5, 5)));
    assert_eq!(p.position_for_face(Face::Bottom), Some(BlockPosition::new(3, 3, 5)));
    assert_eq!(p.position_for_face(Face::West), Some(BlockPosition::new(2, 4, 5)));
    assert_eq!(p.position_for_face(Face::East), Some(BlockPosition::new(4, 4, 5)));
}

#[test]
fn neighbor_of_far_position() {
    assert_eq!(BlockPosition::new(i64::MAX, 0, 0).position_for_face(Face::East), None);
    assert_eq!(BlockPosition::new(i64::MIN, 0, 0).position_for_face(Face::West), None);
    assert_eq!(BlockPosition::new(-1, 0, 0).position_for_face(Face::East), Some(BlockPosition::new(0, 0, 0)));
    assert_eq!(BlockPosition::new(16, 0, 0).position_for_face(Face::West), Some(BlockPosition::new(15, 0, 0)));
    assert!(!BlockPosition::new(16, 0, 0).is_valid_position());
    assert!(!BlockPosition::new(0, -1, 0).is_valid_position());
}

#[test]
fn faces_in_order() {
    let faces = Face::iter();
    assert_eq!(
        faces,
        [Face::North, Face::Top, Face::Bottom, Face::West, Face::East, Face::South]
    );
    for (i, face) in faces.iter().enumerate() {
        assert_eq!(usize::from(*face), i);
    }
}

#[test]
fn normals_and_opposites() {
    assert_eq!(Face::North.normal(), Normal { x: 0, y: 0, z: -1 });
    assert_eq!(Face::South.normal(), Normal { x: 0, y: 0, z: 1 });
    assert_eq!(Face::Top.normal(), Normal { x: 0, y: 1, z: 0 });
    assert_eq!(Face::Bottom.normal(), Normal { x: 0, y: -1, z: 0 });
    assert_eq!(Face::West.normal(), Normal { x: -1, y: 0, z: 0 });
    assert_eq!(Face::East.normal(), Normal { x: 1, y: 0, z: 0 });
    for face in Face::iter() {
        assert_eq!(face.opposite().opposite(), face);
        assert_ne!(face.opposite(), face);
    }
    assert_eq!(Face::North.opposite(), Face::South);
    assert_eq!(Face::Top.opposite(), Face::Bottom);
    assert_eq!(Face::West.opposite(), Face::East);
}
