use kakara::blocks::create_block_registery;
use kakara::chunk::{Block, BlockStore, Chunk, Section, TerrainNoise};
use kakara::chunk_mesh::{Voxel, VoxelVisiblity};
use kakara::position::{BlockPosition, ChunkPosition};
use kakara::texture::TextureAtlasInfo;
use kakara::world::World;
use noise::{NoiseFn, Perlin};
use std::sync::Arc;

fn atlas() -> Arc<TextureAtlasInfo> {
    Arc::new(TextureAtlasInfo {
        textures: Vec::new(),
        width: 0,
        height: 0,
        texture_width: 0,
        texture_height: 0,
    })
}

fn flat(sample: i64) -> TerrainNoise {
    TerrainNoise::new(vec![sample; 256]).unwrap()
}

fn perlin_samples() -> Vec<i64> {
    let noise = Perlin::default();
    let mut samples = Vec::new();
    for x in 0..16 {
        for z in 0..16 {
            samples.push((noise.get([x as f64 / 16.0, z as f64 / 16.0]) * 16.0) as i64);
        }
    }
    samples
}

#[test]
fn test_chunk_generation() {
    let noise = TerrainNoise::new(perlin_samples()).unwrap();
    let world = World::generate_test_world(noise);
    println!("{:?}", world.chunks);
    assert_eq!(world.chunks.len(), 4);
    for x in -1..1 {
        for z in -1..1 {
            assert!(world.chunks.contains_key(&ChunkPosition::new(x, z)));
        }
    }
    assert!(!world.chunks.contains_key(&ChunkPosition::new(1, 0)));
    assert_eq!(world.built_meshes.len(), 0);
    assert_eq!(world.meshes_being_rendered.len(), 0);
}

#[test]
fn block_from_id() {
    assert_eq!(Block::from(7), Block::Block(7));
    let block: Block = 0.into();
    assert_eq!(block, Block::Block(0));
}

#[test]
fn default_section_is_air() {
    let section = Section::default();
    assert_eq!(section.position, 0);
    assert!(!section.dirty);
    assert!(!section.building);
    assert_eq!(section.number_of_non_air_blocks(), 0);
    assert!(!section.contains_non_air_blocks());
    let store = BlockStore::default();
    for i in 0..4096 {
        assert_eq!(*store.index(i), Block::Block(0));
    }
}

#[test]
fn block_store_index_mut() {
    let mut store = BlockStore::default();
    *store.index_mut(561) = Block::Block(3);
    assert_eq!(*store.index(561), Block::Block(3));
    assert_eq!(*store.index(560), Block::Block(0));
}

#[test]
fn new_chunk_has_sixteen_clean_sections() {
    let chunk = Chunk::new(ChunkPosition::new(3, -4));
    assert_eq!(chunk.position, ChunkPosition::new(3, -4));
    assert_eq!(chunk.sections.len(), 16);
    for (i, section) in chunk.sections.iter().enumerate() {
        assert_eq!(section.position as usize, i);
        assert!(!section.dirty);
        assert!(!section.contains_non_air_blocks());
    }
}

#[test]
fn test_chunk_has_one_block_in_each_section() {
    let chunk = Chunk::generate_test_chunk();
    assert_eq!(chunk.position, ChunkPosition::new(0, 0));
    for section in &chunk.sections {
        assert_eq!(*section.block_store.index(0), Block::Block(1));
        assert_eq!(section.number_of_non_air_blocks(), 1);
        assert!(section.contains_non_air_blocks());
        assert!(!section.dirty);
    }
}

#[test]
fn set_block_stores_and_marks_dirty() {
    let mut chunk = Chunk::new(ChunkPosition::new(0, 0));
    chunk.set_block(BlockPosition::new(1, 34, 3), 5);
    for (i, section) in chunk.sections.iter().enumerate() {
        assert_eq!(section.dirty, i == 2);
        assert_eq!(section.number_of_non_air_blocks(), if i == 2 { 1 } else { 0 });
    }
    assert_eq!(*chunk.sections[2].block_store.index((2 << 8) | (3 << 4) | 1), Block::Block(5));
    chunk.set_block(BlockPosition::new(1, 34, 3), 0);
    assert!(chunk.sections[2].dirty);
    assert!(!chunk.sections[2].contains_non_air_blocks());
    chunk.set_block(BlockPosition::new(17, 255, -13), 2);
    assert_eq!(*chunk.sections[15].block_store.index((15 << 8) | (3 << 4) | 1), Block::Block(2));
}

#[test]
fn terrain_noise_checks_its_samples() {
    assert!(TerrainNoise::new(vec![0; 256]).is_some());
    assert!(TerrainNoise::new(vec![224; 256]).is_some());
    assert!(TerrainNoise::new(vec![-1000; 256]).is_some());
    assert!(TerrainNoise::new(vec![0; 255]).is_none());
    assert!(TerrainNoise::new(vec![0; 257]).is_none());
    assert!(TerrainNoise::new(Vec::new()).is_none());
    let mut samples = vec![0i64; 256];
    samples[255] = 225;
    assert!(TerrainNoise::new(samples).is_none());
    assert!(TerrainNoise::new(perlin_samples()).is_some());
}

#[test]
fn generated_terrain_follows_heights_and_ids() {
    let mut samples = vec![0i64; 256];
    samples[0] = -32; // no block at all in the column (0, 0)
    samples[1] = -31; // one block in the column (0, 1)
    samples[16 * 5 + 7] = 224; // the column (5, 7) is full
    let noise = TerrainNoise::new(samples.clone()).unwrap();
    let ids: Vec<u32> = (0..256u32).map(|i| i % 5 + 1).collect();
    let chunk = Chunk::generate_with(ChunkPosition::new(2, 3), &noise, &ids);
    assert_eq!(chunk.position, ChunkPosition::new(2, 3));
    for x in 0..16usize {
        for z in 0..16usize {
            let height = samples[x * 16 + z] + 32;
            for y in 0..256usize {
                let block = *chunk.sections[y / 16].block_store.index(((y % 16) << 8) | (z << 4) | x);
                if (y as i64) < height {
                    assert_eq!(block, Block::Block(ids[x * 16 + z]));
                } else {
                    assert_eq!(block, Block::Block(0));
                }
            }
        }
    }
    for (s, section) in chunk.sections.iter().enumerate() {
        assert_eq!(section.position as usize, s);
        // The full column reaches into every section.
        assert!(section.dirty);
    }
}

#[test]
fn generated_terrain_marks_reached_sections_dirty() {
    let chunk = Chunk::generate_with(ChunkPosition::new(0, 0), &flat(0), &vec![1; 256]);
    for (s, section) in chunk.sections.iter().enumerate() {
        assert_eq!(section.dirty, s < 2);
        assert_eq!(section.number_of_non_air_blocks(), if s < 2 { 4096 } else { 0 });
    }
    let low = Chunk::generate_with(ChunkPosition::new(0, 0), &flat(-40), &vec![1; 256]);
    for section in &low.sections {
        assert!(!section.dirty);
        assert!(!section.contains_non_air_blocks());
    }
    let air = Chunk::generate_with(ChunkPosition::new(0, 0), &flat(0), &vec![0; 256]);
    assert!(air.sections[0].dirty);
    assert!(!air.sections[0].contains_non_air_blocks());
}

#[test]
fn random_terrain_draws_one_of_six_blocks_for_each_column() {
    let noise = flat(-16);
    for _ in 0..8 {
        let chunk = Chunk::generate(ChunkPosition::new(0, 0), &noise);
        for x in 0..16usize {
            for z in 0..16usize {
                let Block::Block(first) = *chunk.sections[0].block_store.index((z << 4) | x);
                assert!(first < 6);
                for y in 0..16usize {
                    let block = *chunk.sections[0].block_store.index((y << 8) | (z << 4) | x);
                    assert_eq!(block, Block::Block(first));
                }
            }
        }
        assert!(!chunk.sections[1].contains_non_air_blocks());
    }
}

#[test]
fn section_voxels() {
    let registry = create_block_registery(atlas());
    let mut section = Section::default();
    *section.block_store.index_mut(561) = Block::Block(1);
    let voxels = section.get_voxels(&registry);
    assert_eq!(voxels.len(), 4096);
    for (i, voxel) in voxels.iter().enumerate() {
        assert_eq!(voxel.position, BlockPosition::from_relative_block(i));
        if i == 561 {
            // No textures were loaded: the voxel is opaque all the same.
            assert_eq!(
                *voxel,
                Voxel::new(BlockPosition::new(1, 2, 3), VoxelVisiblity::Opaque, None)
            );
        } else {
            assert_eq!(*voxel, Voxel::air(BlockPosition::from_relative_block(i)));
        }
    }
}
