use kakara::blocks::{create_block_registery, BlockRegistery};
use kakara::chunk::{Block, Section};
use kakara::face::Face;
use kakara::texture::{
    CubeTextures, FaceNames, LoadedCubeTexture, TextureAtlasInfo, TextureCoordinates, TextureRef,
    UVCoordinates,
};
use std::sync::Arc;

fn texture(name: &str, x: u32, y: u32) -> TextureRef {
    TextureRef { name: name.to_string(), width: 16, height: 16, x, y }
}

fn atlas() -> TextureAtlasInfo {
    TextureAtlasInfo {
        textures: vec![
            texture("stone.png", 0, 0),
            texture("dirt.png", 16, 0),
            texture("grass_top.png", 0, 16),
            texture("grass_side.png", 16, 16),
        ],
        width: 32,
        height: 32,
        texture_width: 16,
        texture_height: 16,
    }
}

fn rect(x: u64, y: u64) -> UVCoordinates {
    UVCoordinates {
        top_left: TextureCoordinates { x, y },
        top_right: TextureCoordinates { x: x + 16, y },
        bottom_left: TextureCoordinates { x, y: y + 16 },
        bottom_right: TextureCoordinates { x: x + 16, y: y + 16 },
    }
}

#[test]
fn atlas_lookup() {
    let atlas = atlas();
    assert_eq!(atlas.get_texture("dirt.png"), Some(&texture("dirt.png", 16, 0)));
    assert_eq!(atlas.get_texture("sand.png"), None);
    assert_eq!(atlas.get_uv_for_texture("dirt.png"), Some(rect(16, 0)));
    assert_eq!(atlas.get_uv_for_texture("grass_side.png"), Some(rect(16, 16)));
    assert_eq!(atlas.get_uv_for_texture("sand.png"), None);
    assert_eq!(atlas.get_uv_for_texture(""), None);
}

#[test]
fn later_texture_takes_the_place_of_an_earlier_one() {
    let mut atlas = atlas();
    atlas.textures.push(texture("stone.png", 48, 64));
    assert_eq!(atlas.get_texture("stone.png"), Some(&texture("stone.png", 48, 64)));
    assert_eq!(atlas.get_uv_for_texture("stone.png"), Some(rect(48, 64)));
}

#[test]
fn texture_rectangle_does_not_overflow() {
    let far = TextureRef {
        name: "far".to_string(),
        width: u32::MAX,
        height: u32::MAX,
        x: u32::MAX,
        y: 1,
    };
    assert_eq!(far.coordinates(), TextureCoordinates { x: u32::MAX as u64, y: 1 });
    let uv = far.uv();
    assert_eq!(uv.top_left, TextureCoordinates { x: 4294967295, y: 1 });
    assert_eq!(uv.bottom_right, TextureCoordinates { x: 8589934590, y: 4294967296 });
}

#[test]
fn cube_textures_lookup() {
    let atlas = atlas();
    assert_eq!(
        CubeTextures::SingleTexture("dirt.png".to_string()).get_coordinates(&atlas),
        Some(LoadedCubeTexture::SingleTexture(rect(16, 0)))
    );
    assert_eq!(CubeTextures::SingleTexture("sand.png".to_string()).get_coordinates(&atlas), None);
    assert_eq!(CubeTextures::Transparent.get_coordinates(&atlas), None);
    let side = Some("grass_side.png".to_string());
    let names = FaceNames {
        north: side.clone(),
        top: Some("grass_top.png".to_string()),
        bottom: Some("dirt.png".to_string()),
        west: Some("stone.png".to_string()),
        east: side.clone(),
        south: side.clone(),
    };
    assert_eq!(names.len(), 6);
    let loaded = CubeTextures::MultiTexture(names.clone()).get_coordinates(&atlas).unwrap();
    assert_eq!(
        loaded,
        LoadedCubeTexture::MultiTextureAllSet {
            front: rect(16, 16),
            back: rect(16, 16),
            top: rect(0, 16),
            bottom: rect(16, 0),
            left: rect(0, 0),
            right: rect(16, 16),
        }
    );
    assert_eq!(loaded.index(Face::Top), rect(0, 16));
    assert_eq!(loaded.index(Face::West), rect(0, 0));
    let mut unknown = names.clone();
    unknown.east = Some("sand.png".to_string());
    assert_eq!(CubeTextures::MultiTexture(unknown).get_coordinates(&atlas), None);
    let mut partial = names;
    partial.top = None;
    assert_eq!(partial.len(), 5);
    assert_eq!(CubeTextures::MultiTexture(partial).get_coordinates(&atlas), None);
}

#[test]
fn registry_of_a_new_game() {
    let registry = create_block_registery(Arc::new(atlas()));
    assert_eq!(registry.index, 2);
    assert_eq!(registry.blocks.len(), 2);
    assert_eq!(registry.blocks[0].id, 0);
    assert_eq!(registry.blocks[0].name, "air");
    assert_eq!(registry.blocks[0].textures, None);
    assert_eq!(registry.blocks[1].id, 1);
    assert_eq!(registry.blocks[1].name, "dirt");
    assert_eq!(
        registry.blocks[1].textures,
        Some(CubeTextures::SingleTexture("dirt.png".to_string()))
    );
    assert_eq!(registry.get_texture_for_id(1), None);
    assert_eq!(*registry.texture_atlas_info, atlas());
}

#[test]
fn load_textures_fills_the_lookup() {
    let atlas = atlas();
    let mut registry = create_block_registery(Arc::new(atlas.clone()));
    registry.register_block("stone", Some(CubeTextures::SingleTexture("stone.png".to_string())));
    registry.register_block("sand", Some(CubeTextures::SingleTexture("sand.png".to_string())));
    registry.register_block("glass", Some(CubeTextures::Transparent));
    assert_eq!(registry.index, 5);
    registry.load_textures(&atlas);
    assert_eq!(registry.get_texture_for_id(0), None);
    assert_eq!(registry.get_texture_for_id(1), Some(LoadedCubeTexture::SingleTexture(rect(16, 0))));
    assert_eq!(registry.get_texture_for_id(2), Some(LoadedCubeTexture::SingleTexture(rect(0, 0))));
    assert_eq!(registry.get_texture_for_id(3), None);
    assert_eq!(registry.get_texture_for_id(4), None);
    assert_eq!(registry.get_texture_for_id(5), None);
    assert_eq!(registry.textures.len(), 2);
}

#[test]
fn block_registered_again_takes_the_place_of_the_first() {
    let atlas = atlas();
    let mut registry = BlockRegistery::new(Arc::new(atlas.clone()));
    registry.register_block("rock", Some(CubeTextures::SingleTexture("stone.png".to_string())));
    registry.register_block("rock", Some(CubeTextures::SingleTexture("dirt.png".to_string())));
    registry.load_textures(&atlas);
    assert_eq!(registry.get_texture_for_id(0), None);
    assert_eq!(registry.get_texture_for_id(1), Some(LoadedCubeTexture::SingleTexture(rect(16, 0))));
}

#[test]
fn voxels_carry_the_loaded_textures() {
    let atlas = atlas();
    let mut registry = create_block_registery(Arc::new(atlas.clone()));
    registry.load_textures(&atlas);
    let mut section = Section::default();
    *section.block_store.index_mut(0) = Block::Block(1);
    *section.block_store.index_mut(1) = Block::Block(9);
    let voxels = section.get_voxels(&registry);
    assert_eq!(voxels[0].textures, Some(LoadedCubeTexture::SingleTexture(rect(16, 0))));
    assert!(!voxels[0].is_missing_texture());
    assert_eq!(voxels[1].textures, None);
    assert!(voxels[1].is_missing_texture());
    assert_eq!(voxels[2].textures, None);
    assert!(!voxels[2].is_missing_texture());
}
