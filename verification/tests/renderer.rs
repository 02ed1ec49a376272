use kakara::chunk_mesh::RawChunkMesh;
use kakara::position::BlockPosition;
use kakara::voxel_state::{ChunkMesh, ChunkUpdates, VoxelRenderer};

fn raw(x: i64, indices: usize) -> RawChunkMesh {
    RawChunkMesh {
        position: BlockPosition::new(x, 0, 0),
        vertices: Vec::new(),
        indices: vec![0; indices],
    }
}

fn upload(mesh: &RawChunkMesh) -> (String, String) {
    (format!("v{}", mesh.position.x), format!("i{}", mesh.indices.len()))
}

fn positions(renderer: &VoxelRenderer<String>) -> Vec<i64> {
    renderer.rendered_chunks.iter().map(|m| m.position.x).collect()
}

#[test]
fn build_mesh_counts_the_indices() {
    let mesh: ChunkMesh<String> = ChunkMesh::build_mesh(raw(16, 36), &upload);
    assert_eq!(mesh.position, BlockPosition::new(16, 0, 0));
    assert_eq!(mesh.number_of_indices, 36);
    assert_eq!(mesh.vertices, "v16");
    assert_eq!(mesh.indices, "i36");
}

#[test]
fn add_puts_the_mesh_last() {
    let mut renderer: VoxelRenderer<String> = VoxelRenderer::new();
    assert_eq!(renderer.debug_info(), 0);
    renderer.apply(ChunkUpdates::Add(raw(0, 6)), &upload);
    renderer.apply(ChunkUpdates::Add(raw(16, 12)), &upload);
    assert_eq!(positions(&renderer), vec![0, 16]);
    assert_eq!(renderer.rendered_chunks[1].number_of_indices, 12);
    assert_eq!(renderer.debug_info(), 2);
}

#[test]
fn remove_takes_the_mesh_of_the_section_away() {
    let mut renderer: VoxelRenderer<String> = VoxelRenderer::new();
    for x in [0, 16, 32] {
        renderer.apply(ChunkUpdates::Add(raw(x, 6)), &upload);
    }
    renderer.apply(ChunkUpdates::Remove(BlockPosition::new(16, 0, 0)), &upload);
    assert_eq!(positions(&renderer), vec![0, 32]);
    renderer.apply(ChunkUpdates::Remove(BlockPosition::new(16, 0, 0)), &upload);
    assert_eq!(positions(&renderer), vec![0, 32]);
    renderer.apply(ChunkUpdates::Remove(BlockPosition::new(0, 16, 0)), &upload);
    assert_eq!(positions(&renderer), vec![0, 32]);
    assert_eq!(renderer.position(&BlockPosition::new(32, 0, 0)), Some(1));
    assert_eq!(renderer.position(&BlockPosition::new(16, 0, 0)), None);
}

#[test]
fn update_replaces_the_buffers_in_place() {
    let mut renderer: VoxelRenderer<String> = VoxelRenderer::new();
    for x in [0, 16, 32] {
        renderer.apply(ChunkUpdates::Add(raw(x, 6)), &upload);
    }
    renderer.apply(ChunkUpdates::Update(raw(16, 24)), &upload);
    assert_eq!(positions(&renderer), vec![0, 16, 32]);
    assert_eq!(renderer.rendered_chunks[1].number_of_indices, 24);
    assert_eq!(renderer.rendered_chunks[1].indices, "i24");
    assert_eq!(renderer.rendered_chunks[0].number_of_indices, 6);
    // An update for a section without a mesh makes nothing.
    renderer.apply(ChunkUpdates::Update(raw(48, 24)), &upload);
    assert_eq!(positions(&renderer), vec![0, 16, 32]);
}

#[test]
fn updates_are_applied_in_order() {
    let mut renderer: VoxelRenderer<String> = VoxelRenderer::new();
    renderer.update(
        vec![
            ChunkUpdates::Add(raw(0, 6)),
            ChunkUpdates::Add(raw(16, 6)),
            ChunkUpdates::Remove(BlockPosition::new(0, 0, 0)),
            ChunkUpdates::Add(raw(0, 12)),
            ChunkUpdates::Update(raw(16, 18)),
        ],
        &upload,
    );
    assert_eq!(positions(&renderer), vec![16, 0]);
    assert_eq!(renderer.rendered_chunks[0].number_of_indices, 18);
    assert_eq!(renderer.rendered_chunks[1].number_of_indices, 12);
    renderer.update(Vec::new(), &upload);
    assert_eq!(positions(&renderer), vec![16, 0]);
}

#[test]
fn update_position() {
    assert_eq!(ChunkUpdates::Add(raw(16, 0)).position(), BlockPosition::new(16, 0, 0));
    assert_eq!(ChunkUpdates::Update(raw(32, 0)).position(), BlockPosition::new(32, 0, 0));
    assert_eq!(
        ChunkUpdates::Remove(BlockPosition::new(1, 2, 3)).position(),
        BlockPosition::new(1, 2, 3)
    );
}
