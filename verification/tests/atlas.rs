use kakara::texture::TextureRef;
use kakara::texture_atlas::{side_of, RawImageReference, TextureAtlasBuildError, TextureAtlasBuilder};

fn image(name: &str, width: u32, height: u32) -> RawImageReference {
    RawImageReference { name: name.to_string(), width, height }
}

fn place(name: &str, x: u32, y: u32) -> TextureRef {
    TextureRef { name: name.to_string(), width: 16, height: 16, x, y }
}

#[test]
fn side_is_the_rounded_up_root() {
    assert_eq!(side_of(0), 0);
    assert_eq!(side_of(1), 1);
    assert_eq!(side_of(2), 2);
    assert_eq!(side_of(4), 2);
    assert_eq!(side_of(5), 3);
    assert_eq!(side_of(9), 3);
    assert_eq!(side_of(10), 4);
    assert_eq!(side_of(16_777_215), 4096);
    assert_eq!(side_of(16_777_216), 4096);
    assert_eq!(side_of(16_777_217), 4097);
    assert_eq!(side_of(u32::MAX), 65536);
    for n in 0..2000u32 {
        assert_eq!(side_of(n), (n as f32).sqrt().ceil() as u32);
    }
}

#[test]
fn builder_tracks_the_largest_texture() {
    let mut builder = TextureAtlasBuilder::new();
    assert_eq!(builder.max_width, 0);
    assert_eq!(builder.max_height, 0);
    builder.add_texture(image("a", 16, 8));
    builder.add_texture(image("b", 4, 32));
    builder.add_texture(image("c", 8, 8));
    assert_eq!(builder.max_width, 16);
    assert_eq!(builder.max_height, 32);
    assert_eq!(builder.textures, vec![image("a", 16, 8), image("b", 4, 32), image("c", 8, 8)]);
}

#[test]
fn textures_fill_the_atlas_row_by_row() {
    let mut builder = TextureAtlasBuilder::new();
    for name in ["a", "b", "c", "d", "e"] {
        builder.add_texture(image(name, 16, 16));
    }
    let info = builder.build().unwrap();
    assert_eq!(info.width, 48);
    assert_eq!(info.height, 48);
    assert_eq!(info.texture_width, 16);
    assert_eq!(info.texture_height, 16);
    assert_eq!(
        info.textures,
        vec![
            place("a", 0, 0),
            place("b", 16, 0),
            place("c", 32, 0),
            place("d", 0, 16),
            place("e", 16, 16),
        ]
    );
    assert_eq!(info.get_texture("d"), Some(&place("d", 0, 16)));
}

#[test]
fn smaller_textures_keep_their_size() {
    let mut builder = TextureAtlasBuilder::new();
    builder.add_texture(image("wide", 32, 8));
    builder.add_texture(image("tall", 8, 24));
    let info = builder.build().unwrap();
    assert_eq!((info.width, info.height), (64, 48));
    assert_eq!(
        info.textures,
        vec![
            TextureRef { name: "wide".to_string(), width: 32, height: 8, x: 0, y: 0 },
            TextureRef { name: "tall".to_string(), width: 8, height: 24, x: 32, y: 0 },
        ]
    );
}

#[test]
fn empty_atlas() {
    let info = TextureAtlasBuilder::new().build().unwrap();
    assert_eq!((info.width, info.height), (0, 0));
    assert!(info.textures.is_empty());
}

#[test]
fn texture_larger_than_its_slot_does_not_fit() {
    let builder = TextureAtlasBuilder {
        textures: vec![image("a", 16, 16), image("b", 64, 16)],
        max_width: 16,
        max_height: 16,
    };
    // The second texture would reach past the right edge of the atlas.
    assert_eq!(builder.build(), Err(TextureAtlasBuildError::InvalidImage));
}

#[test]
fn textures_without_width_stand_below_one_another() {
    let mut fits = TextureAtlasBuilder::new();
    fits.add_texture(image("a", 0, 4));
    fits.add_texture(image("b", 0, 4));
    let info = fits.build().unwrap();
    assert_eq!((info.width, info.height), (0, 8));
    assert_eq!((info.textures[1].x, info.textures[1].y), (0, 4));
    let mut too_many = TextureAtlasBuilder::new();
    for name in ["a", "b", "c"] {
        too_many.add_texture(image(name, 0, 4));
    }
    // Two rows are not enough for three textures below one another.
    assert_eq!(too_many.build(), Err(TextureAtlasBuildError::InvalidImage));
}

#[test]
fn atlas_larger_than_an_image_is_refused() {
    let mut builder = TextureAtlasBuilder::new();
    builder.add_texture(image("a", u32::MAX, 1));
    builder.add_texture(image("b", 1, 1));
    assert_eq!(builder.build(), Err(TextureAtlasBuildError::InvalidImage));
    let mut single = TextureAtlasBuilder::new();
    single.add_texture(image("a", u32::MAX, u32::MAX));
    let info = single.build().unwrap();
    assert_eq!((info.width, info.height), (u32::MAX, u32::MAX));
}
