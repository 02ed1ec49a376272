use kakara::blocks::create_block_registery;
use kakara::chunk::{Block, Chunk, TerrainNoise};
use kakara::chunk_map::ChunkMap;
use kakara::chunk_mesh::RawChunkMesh;
use kakara::game::{Game, GameSettings};
use kakara::mesh_map::MeshMap;
use kakara::position::{BlockPosition, ChunkPosition};
use kakara::texture::TextureAtlasInfo;
use kakara::voxel_state::{ChunkUpdates, VoxelRenderer};
use kakara::world::World;
use std::sync::Arc;

fn game(distance: usize) -> Game {
    let atlas = Arc::new(TextureAtlasInfo {
        textures: Vec::new(),
        width: 0,
        height: 0,
        texture_width: 0,
        texture_height: 0,
    });
    Game {
        block_registery: create_block_registery(atlas),
        game_settings: GameSettings { chunk_render_distance: distance },
    }
}

fn empty_world() -> World {
    World::new(TerrainNoise::new(vec![0; 256]).unwrap())
}

/// A chunk with one block in each of the given sections, none of them dirty.
fn chunk(x: i64, z: i64, sections: &[usize]) -> Chunk {
    let mut chunk = Chunk::new(ChunkPosition::new(x, z));
    for s in sections {
        *chunk.sections[*s].block_store.index_mut(0) = Block::Block(1);
    }
    chunk
}

/// A world with a chunk at every place of a rectangle, each with one block in
/// its lowest section.
fn flat_world(xs: std::ops::RangeInclusive<i64>, zs: std::ops::RangeInclusive<i64>) -> World {
    let mut world = empty_world();
    for x in xs {
        for z in zs.clone() {
            world.chunks.insert(chunk(x, z, &[0]));
        }
    }
    world
}

fn key(x: i64, s: i64, z: i64) -> BlockPosition {
    BlockPosition::new(x * 16, s * 16, z * 16)
}

fn sorted(mut keys: Vec<BlockPosition>) -> Vec<(i64, i64, i64)> {
    let mut keys: Vec<(i64, i64, i64)> = keys.drain(..).map(|k| (k.x, k.y, k.z)).collect();
    keys.sort();
    keys
}

fn describe(events: &[ChunkUpdates]) -> Vec<(char, i64, i64, i64)> {
    events
        .iter()
        .map(|e| {
            let p = e.position();
            let kind = match e {
                ChunkUpdates::Add(_) => 'a',
                ChunkUpdates::Remove(_) => 'r',
                ChunkUpdates::Update(_) => 'u',
            };
            (kind, p.x, p.y, p.z)
        })
        .collect()
}

#[test]
fn distance_one_requires_nine_chunks() {
    let mut world = empty_world();
    world.update_meshes(ChunkPosition::new(0, 0), &game(1));
    assert_eq!(world.chunks.len(), 9);
    for x in -1..=1 {
        for z in -1..=1 {
            assert!(world.chunks.contains_key(&ChunkPosition::new(x, z)));
        }
    }
    assert!(!world.chunks.contains_key(&ChunkPosition::new(2, 0)));
    assert!(!world.chunks.contains_key(&ChunkPosition::new(0, -2)));
}

#[test]
fn distance_zero_requires_the_chunk_of_the_viewer() {
    let mut world = empty_world();
    world.update_meshes(ChunkPosition::new(5, -7), &game(0));
    assert_eq!(world.chunks.len(), 1);
    assert!(world.chunks.contains_key(&ChunkPosition::new(5, -7)));
}

#[test]
fn chunk_is_required_within_the_square() {
    let center = ChunkPosition::new(10, -10);
    assert!(World::chunk_is_required(center, 1, ChunkPosition::new(11, -11)));
    assert!(World::chunk_is_required(center, 1, ChunkPosition::new(9, -9)));
    assert!(!World::chunk_is_required(center, 1, ChunkPosition::new(12, -10)));
    assert!(!World::chunk_is_required(center, 1, ChunkPosition::new(10, -12)));
    assert!(World::chunk_is_required(center, 0, center));
    assert!(!World::chunk_is_required(center, 0, ChunkPosition::new(10, -9)));
}

#[test]
fn generated_chunks_get_their_filled_sections_on_show() {
    let mut world = empty_world();
    let events = world.update_meshes(ChunkPosition::new(0, 0), &game(1));
    let mut filled = Vec::new();
    for x in -1..=1i64 {
        for z in -1..=1i64 {
            let chunk = world.chunks.get(&ChunkPosition::new(x, z)).unwrap();
            for (s, section) in chunk.sections.iter().enumerate() {
                // The terrain is 32 blocks high: nothing lies above the second section.
                assert!(s < 2 || !section.contains_non_air_blocks());
                assert!(!section.contains_non_air_blocks() || !section.dirty);
                if section.contains_non_air_blocks() {
                    filled.push(key(x, s as i64, z));
                }
            }
        }
    }
    assert_eq!(sorted(world.meshes_being_rendered.keys()), sorted(filled.clone()));
    assert_eq!(events.len(), filled.len());
    for (event, position) in events.iter().zip(filled.iter()) {
        assert!(matches!(event, ChunkUpdates::Add(_)));
        assert_eq!(event.position(), *position);
    }
    assert_eq!(world.built_meshes.len(), 0);
}

#[test]
fn first_tick_adds_every_filled_section_in_order() {
    let mut world = flat_world(-1..=1, -1..=1);
    let events = world.update_meshes(ChunkPosition::new(0, 0), &game(1));
    assert_eq!(
        describe(&events),
        vec![
            ('a', -16, 0, -16),
            ('a', -16, 0, 0),
            ('a', -16, 0, 16),
            ('a', 0, 0, -16),
            ('a', 0, 0, 0),
            ('a', 0, 0, 16),
            ('a', 16, 0, -16),
            ('a', 16, 0, 0),
            ('a', 16, 0, 16),
        ]
    );
    assert_eq!(world.chunks.len(), 9);
    assert_eq!(world.meshes_being_rendered.len(), 9);
    for event in &events {
        if let ChunkUpdates::Add(mesh) = event {
            // One block in the corner of the section: six faces.
            assert_eq!(mesh.vertices.len(), 24);
            assert_eq!(mesh.indices.len(), 36);
            let shown = world.meshes_being_rendered.get(&mesh.position).unwrap();
            assert_eq!(shown.vertices, mesh.vertices);
            assert_eq!(shown.indices, mesh.indices);
        }
    }
}

#[test]
fn second_tick_without_changes_says_nothing() {
    let mut world = flat_world(-1..=1, -1..=1);
    world.update_meshes(ChunkPosition::new(0, 0), &game(1));
    let events = world.update_meshes(ChunkPosition::new(0, 0), &game(1));
    assert!(events.is_empty());
    assert_eq!(world.meshes_being_rendered.len(), 9);
    assert_eq!(world.built_meshes.len(), 0);
}

#[test]
fn moving_one_chunk_removes_one_row_and_adds_one_row() {
    let mut world = flat_world(-1..=2, -1..=1);
    world.update_meshes(ChunkPosition::new(0, 0), &game(1));
    let events = world.update_meshes(ChunkPosition::new(1, 0), &game(1));
    assert_eq!(events.len(), 6);
    let said = describe(&events);
    let mut removed: Vec<(char, i64, i64, i64)> = said[0..3].to_vec();
    removed.sort();
    assert_eq!(removed, vec![('r', -16, 0, -16), ('r', -16, 0, 0), ('r', -16, 0, 16)]);
    assert_eq!(&said[3..], &[('a', 32, 0, -16), ('a', 32, 0, 0), ('a', 32, 0, 16)]);
    let mut expected = Vec::new();
    for x in 0..=2 {
        for z in -1..=1 {
            expected.push(key(x, 0, z));
        }
    }
    assert_eq!(sorted(world.meshes_being_rendered.keys()), sorted(expected));
    assert_eq!(
        sorted(world.built_meshes.keys()),
        sorted(vec![key(-1, 0, -1), key(-1, 0, 0), key(-1, 0, 1)])
    );
    assert_eq!(world.chunks.len(), 12);
}

#[test]
fn section_that_comes_back_is_removed_before_it_is_added() {
    let mut world = flat_world(-1..=2, -1..=1);
    let mut heard: Vec<ChunkUpdates> = Vec::new();
    heard.extend(world.update_meshes(ChunkPosition::new(0, 0), &game(1)));
    let first = heard.len();
    heard.extend(world.update_meshes(ChunkPosition::new(1, 0), &game(1)));
    let second = heard.len();
    heard.extend(world.update_meshes(ChunkPosition::new(0, 0), &game(1)));
    let lost = key(-1, 0, 0);
    let said = describe(&heard);
    let remove = said.iter().position(|e| *e == ('r', lost.x, lost.y, lost.z)).unwrap();
    let adds: Vec<usize> = (0..said.len()).filter(|i| said[*i] == ('a', lost.x, lost.y, lost.z)).collect();
    assert_eq!(adds.len(), 2);
    assert!(adds[0] < first);
    assert!(first <= remove && remove < second);
    assert!(second <= adds[1]);
    for i in remove + 1..adds[1] {
        assert_ne!((said[i].1, said[i].2, said[i].3), (lost.x, lost.y, lost.z));
    }
    // The mesh that was parked is shown again as it was.
    if let (ChunkUpdates::Add(before), ChunkUpdates::Add(after)) = (&heard[adds[0]], &heard[adds[1]]) {
        assert_eq!(before.vertices, after.vertices);
        assert_eq!(before.indices, after.indices);
    } else {
        panic!("both updates add a mesh");
    }
    assert!(world.meshes_being_rendered.contains_key(&lost));
    assert!(!world.built_meshes.contains_key(&lost));
}

#[test]
fn removes_come_before_adds_and_updates() {
    let mut world = flat_world(-3..=3, -3..=3);
    world.update_meshes(ChunkPosition::new(0, 0), &game(1));
    world.chunks.clean_section(&ChunkPosition::new(1, 1), 0);
    let mut moved = chunk(1, 0, &[0]);
    moved.set_block(BlockPosition::new(3, 3, 3), 1);
    world.chunks.insert(moved);
    let events = world.update_meshes(ChunkPosition::new(1, 1), &game(1));
    let said = describe(&events);
    let removes = said.iter().filter(|e| e.0 == 'r').count();
    assert_eq!(removes, 5);
    assert!(said[..removes].iter().all(|e| e.0 == 'r'));
    assert!(said[removes..].iter().all(|e| e.0 != 'r'));
    assert_eq!(said.iter().filter(|e| e.0 == 'a').count(), 5);
    assert_eq!(said.iter().filter(|e| e.0 == 'u').count(), 1);
    assert!(said.contains(&('u', 16, 0, 0)));
}

#[test]
fn dirty_section_on_show_is_rebuilt_and_updated() {
    let mut world = flat_world(0..=0, 0..=0);
    world.update_meshes(ChunkPosition::new(0, 0), &game(0));
    let mut changed = chunk(0, 0, &[0]);
    changed.set_block(BlockPosition::new(8, 8, 8), 1);
    assert!(changed.sections[0].dirty);
    world.chunks.insert(changed);
    let events = world.update_meshes(ChunkPosition::new(0, 0), &game(0));
    assert_eq!(describe(&events), vec![('u', 0, 0, 0)]);
    if let ChunkUpdates::Update(mesh) = &events[0] {
        assert_eq!(mesh.vertices.len(), 48);
        assert_eq!(mesh.indices.len(), 72);
    }
    let shown = world.meshes_being_rendered.get(&key(0, 0, 0)).unwrap();
    assert_eq!(shown.vertices.len(), 48);
    assert!(!world.chunks.get(&ChunkPosition::new(0, 0)).unwrap().sections[0].dirty);
    assert!(world.update_meshes(ChunkPosition::new(0, 0), &game(0)).is_empty());
}

#[test]
fn dirty_parked_section_is_rebuilt_before_it_is_added() {
    let mut world = flat_world(0..=5, 0..=0);
    world.update_meshes(ChunkPosition::new(0, 0), &game(0));
    world.update_meshes(ChunkPosition::new(5, 0), &game(0));
    assert!(world.built_meshes.contains_key(&key(0, 0, 0)));
    let mut changed = chunk(0, 0, &[0]);
    changed.set_block(BlockPosition::new(8, 8, 8), 1);
    world.chunks.insert(changed);
    let events = world.update_meshes(ChunkPosition::new(0, 0), &game(0));
    assert_eq!(describe(&events), vec![('r', 80, 0, 0), ('a', 0, 0, 0)]);
    if let ChunkUpdates::Add(mesh) = &events[1] {
        assert_eq!(mesh.vertices.len(), 48);
    }
    assert!(!world.built_meshes.contains_key(&key(0, 0, 0)));
    assert!(world.built_meshes.contains_key(&key(5, 0, 0)));
    assert!(!world.chunks.get(&ChunkPosition::new(0, 0)).unwrap().sections[0].dirty);
}

#[test]
fn sections_of_air_are_passed_over() {
    let mut world = empty_world();
    world.chunks.insert(chunk(0, 0, &[3, 7]));
    let mut dirty_air = Chunk::new(ChunkPosition::new(0, 1));
    dirty_air.set_block(BlockPosition::new(0, 0, 0), 0);
    world.chunks.insert(dirty_air);
    let events = world.update_meshes(ChunkPosition::new(0, 0), &game(0));
    assert_eq!(describe(&events), vec![('a', 0, 48, 0), ('a', 0, 112, 0)]);
    let events = world.update_meshes(ChunkPosition::new(0, 1), &game(0));
    assert_eq!(describe(&events).iter().filter(|e| e.0 == 'a').count(), 0);
    // The section of air stays dirty: nothing was built for it.
    assert!(world.chunks.get(&ChunkPosition::new(0, 1)).unwrap().sections[0].dirty);
}

#[test]
fn no_section_is_parked_and_on_show() {
    let mut world = flat_world(-4..=4, -4..=4);
    for (x, z) in [(0, 0), (1, 0), (3, 3), (0, 0), (-3, 2), (1, 1), (0, 0)] {
        world.update_meshes(ChunkPosition::new(x, z), &game(1));
        let shown = world.meshes_being_rendered.keys();
        for k in world.built_meshes.keys() {
            assert!(!shown.contains(&k));
        }
        assert_eq!(shown.len(), 9);
        for k in shown {
            assert!((k.chunk().x - x).abs() <= 1 && (k.chunk().z - z).abs() <= 1);
        }
    }
}

#[test]
fn renderer_that_hears_the_updates_draws_what_is_on_show() {
    let upload = |mesh: &RawChunkMesh| (mesh.vertices.len(), mesh.indices.len());
    let mut world = flat_world(-4..=4, -4..=4);
    let mut renderer: VoxelRenderer<usize> = VoxelRenderer::new();
    for (x, z) in [(0, 0), (1, 0), (3, 3), (0, 0), (-3, 2), (1, 1), (0, 0)] {
        let events = world.update_meshes(ChunkPosition::new(x, z), &game(1));
        renderer.update(events, &upload);
        let drawn: Vec<BlockPosition> = renderer.rendered_chunks.iter().map(|m| m.position).collect();
        assert_eq!(sorted(drawn), sorted(world.meshes_being_rendered.keys()));
        for mesh in &renderer.rendered_chunks {
            assert_eq!(mesh.number_of_indices, 36);
            assert_eq!(mesh.vertices, 24);
        }
    }
}

#[test]
fn phases_of_a_tick() {
    let mut world = flat_world(0..=1, 0..=0);
    let registry = game(0).block_registery;
    world.ensure_chunks(ChunkPosition::new(0, 0), 1);
    assert_eq!(world.chunks.len(), 9);
    let mut events = Vec::new();
    world.refresh_section(&registry, ChunkPosition::new(0, 0), 0, &mut events);
    world.refresh_section(&registry, ChunkPosition::new(0, 0), 1, &mut events);
    world.refresh_section(&registry, ChunkPosition::new(1, 0), 0, &mut events);
    assert_eq!(describe(&events), vec![('a', 0, 0, 0), ('a', 16, 0, 0)]);
    world.refresh_section(&registry, ChunkPosition::new(1, 0), 0, &mut events);
    assert_eq!(events.len(), 2);
    let removed = world.retire_meshes(ChunkPosition::new(0, 0), 0);
    assert_eq!(describe(&removed), vec![('r', 16, 0, 0)]);
    assert_eq!(sorted(world.meshes_being_rendered.keys()), vec![(0, 0, 0)]);
    assert_eq!(sorted(world.built_meshes.keys()), vec![(16, 0, 0)]);
    assert!(world.retire_meshes(ChunkPosition::new(0, 0), 0).is_empty());
}

#[test]
fn mesh_map() {
    let mesh = |x: i64, n: usize| RawChunkMesh {
        position: BlockPosition::new(x, 0, 0),
        vertices: Vec::new(),
        indices: vec![0; n],
    };
    let mut map = MeshMap::new();
    assert_eq!(map.len(), 0);
    assert!(map.insert(mesh(0, 1)).is_none());
    assert!(map.insert(mesh(16, 2)).is_none());
    let previous = map.insert(mesh(0, 3)).unwrap();
    assert_eq!(previous.indices.len(), 1);
    assert_eq!(map.len(), 2);
    assert_eq!(map.get(&BlockPosition::new(0, 0, 0)).unwrap().indices.len(), 3);
    assert!(map.get(&BlockPosition::new(32, 0, 0)).is_none());
    assert!(map.contains_key(&BlockPosition::new(16, 0, 0)));
    assert_eq!(map.position_index(&BlockPosition::new(16, 0, 0)), Some(1));
    assert_eq!(sorted(map.keys()), vec![(0, 0, 0), (16, 0, 0)]);
    assert_eq!(map.remove(&BlockPosition::new(0, 0, 0)).unwrap().indices.len(), 3);
    assert!(map.remove(&BlockPosition::new(0, 0, 0)).is_none());
    assert!(!map.contains_key(&BlockPosition::new(0, 0, 0)));
    assert_eq!(sorted(map.keys()), vec![(16, 0, 0)]);
}

#[test]
fn chunk_map() {
    let mut map = ChunkMap::new();
    assert!(map.insert(chunk(0, 0, &[0])).is_none());
    assert!(map.insert(chunk(0, 1, &[1])).is_none());
    let mut dirty = chunk(0, 0, &[2]);
    dirty.set_block(BlockPosition::new(0, 40, 0), 1);
    let previous = map.insert(dirty).unwrap();
    assert!(previous.sections[0].contains_non_air_blocks());
    assert_eq!(map.len(), 2);
    let kept = map.get(&ChunkPosition::new(0, 0)).unwrap();
    assert!(kept.sections[2].dirty);
    assert!(!kept.sections[0].contains_non_air_blocks());
    map.clean_section(&ChunkPosition::new(0, 0), 2);
    let kept = map.get(&ChunkPosition::new(0, 0)).unwrap();
    assert!(!kept.sections[2].dirty);
    assert_eq!(kept.sections[2].number_of_non_air_blocks(), 2);
    assert!(map.get(&ChunkPosition::new(1, 0)).is_none());
    assert!(map.contains_key(&ChunkPosition::new(0, 1)));
    assert_eq!(map.position_index(&ChunkPosition::new(0, 1)), Some(1));
}

#[test]
fn set_block_changes_the_world() {
    let mut world = flat_world(-1..=0, 0..=0);
    assert!(world.set_block(BlockPosition::new(-3, 40, 5), 4));
    let chunk = world.chunks.get(&ChunkPosition::new(-1, 0)).unwrap();
    assert!(chunk.sections[2].dirty);
    assert!(!chunk.sections[0].dirty);
    let index = ((40 % 16) << 8) | (5 << 4) | 13;
    assert_eq!(*chunk.sections[2].block_store.index(index), Block::Block(4));
    assert_eq!(chunk.sections[2].number_of_non_air_blocks(), 1);
    // No chunk stands there, or the height lies outside the chunks.
    assert!(!world.set_block(BlockPosition::new(16, 40, 5), 4));
    assert!(!world.set_block(BlockPosition::new(0, -1, 0), 4));
    assert!(!world.set_block(BlockPosition::new(0, 256, 0), 4));
    assert!(world.set_block(BlockPosition::new(0, 255, 0), 4));
    assert_eq!(world.chunks.len(), 2);
    let mut map = ChunkMap::new();
    map.insert(chunk_at_origin());
    assert!(map.set_block(&ChunkPosition::new(0, 0), BlockPosition::new(1, 2, 3), 9));
    assert!(!map.set_block(&ChunkPosition::new(0, 1), BlockPosition::new(1, 2, 3), 9));
    assert_eq!(
        *map.get(&ChunkPosition::new(0, 0)).unwrap().sections[0].block_store.index(561),
        Block::Block(9)
    );
}

fn chunk_at_origin() -> Chunk {
    chunk(0, 0, &[0])
}

#[test]
fn meshes_on_show_follow_the_blocks() {
    let game = game(1);
    let mut world = flat_world(-1..=1, -1..=1);
    world.update_meshes(ChunkPosition::new(0, 0), &game);
    assert!(world.set_block(BlockPosition::new(20, 5, -3), 1));
    assert!(world.set_block(BlockPosition::new(21, 5, -3), 1));
    assert!(world.set_block(BlockPosition::new(0, 100, 0), 1));
    assert!(world.set_block(BlockPosition::new(0, 0, 0), 0));
    let events = world.update_meshes(ChunkPosition::new(0, 0), &game);
    // One section changed, one is new; the section that lost its block is
    // passed over and keeps the mesh it had.
    assert_eq!(describe(&events), vec![('a', 0, 96, 0), ('u', 16, 0, -16)]);
    for key in world.meshes_being_rendered.keys() {
        let chunk = world.chunks.get(&key.chunk()).unwrap();
        let section = &chunk.sections[key.section()];
        if !section.contains_non_air_blocks() {
            assert_eq!(key, BlockPosition::new(0, 0, 0));
            continue;
        }
        assert!(!section.dirty);
        let expected = RawChunkMesh::build(key, section.get_voxels(&game.block_registery));
        let shown = world.meshes_being_rendered.get(&key).unwrap();
        assert_eq!(shown.vertices, expected.vertices);
        assert_eq!(shown.indices, expected.indices);
    }
    let changed = world.meshes_being_rendered.get(&BlockPosition::new(16, 0, -16)).unwrap();
    // Three blocks: one alone in the corner, two that touch.
    assert_eq!(changed.vertices.len(), 4 * (6 + 10));
}
