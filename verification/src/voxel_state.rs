use crate::chunk_mesh::{MeshView, RawChunkMesh};
use crate::position::BlockPosition;
use vstd::prelude::*;

verus! {

/// What a world tells a renderer about the meshes on show.
#[derive(Debug)]
pub enum ChunkUpdates {
    /// Adds a chunk to the renderer
    Add(RawChunkMesh),
    /// Removes a chunk from the renderer
    Remove(BlockPosition),
    /// Updates a chunk in the renderer
    Update(RawChunkMesh),
}

/// What an update says.
pub enum ChunkUpdatesView {
    Add(MeshView),
    Remove(BlockPosition),
    Update(MeshView),
}

impl View for ChunkUpdates {
    type V = ChunkUpdatesView;

    open spec fn view(&self) -> ChunkUpdatesView {
        match self {
            ChunkUpdates::Add(mesh) => ChunkUpdatesView::Add(mesh@),
            ChunkUpdates::Remove(position) => ChunkUpdatesView::Remove(*position),
            ChunkUpdates::Update(mesh) => ChunkUpdatesView::Update(mesh@),
        }
    }
}

impl ChunkUpdatesView {
    /// The section that the update speaks of.
    pub open spec fn position(self) -> BlockPosition {
        match self {
            ChunkUpdatesView::Add(mesh) => mesh.position,
            ChunkUpdatesView::Remove(position) => position,
            ChunkUpdatesView::Update(mesh) => mesh.position,
        }
    }
}

/// What a sequence of updates says, one after the other.
pub open spec fn updates_view(updates: Seq<ChunkUpdates>) -> Seq<ChunkUpdatesView> {
    updates.map_values(|u: ChunkUpdates| u@)
}

impl ChunkUpdates {
    /// The section that the update speaks of.
    pub fn position(&self) -> (position: BlockPosition)
        ensures
            position == self@.position(),
    {
        match self {
            ChunkUpdates::Add(mesh) => mesh.position,
            ChunkUpdates::Remove(position) => *position,
            ChunkUpdates::Update(mesh) => mesh.position,
        }
    }
}

/// A mesh as a renderer holds it: the section it stands for, the two
/// buffers that hold its vertices and its indices, and the number of indices
/// to draw. What a buffer is lies with whoever makes it.
#[derive(Debug)]
pub struct ChunkMesh<B> {
    pub position: BlockPosition,
    pub vertices: B,
    pub indices: B,
    pub number_of_indices: u32,
}

/// Whether a renderer's mesh was made of a raw mesh with the given way of
/// making buffers.
pub open spec fn is_built<B, F: Fn(&RawChunkMesh) -> (B, B)>(
    mesh: ChunkMesh<B>,
    raw_mesh: RawChunkMesh,
    upload: F,
) -> bool {
    &&& mesh.position == raw_mesh.position
    &&& mesh.number_of_indices == raw_mesh.indices.len() as u32
    &&& call_ensures(upload, (&raw_mesh,), (mesh.vertices, mesh.indices))
}

impl<B> ChunkMesh<B> {
    /// Converts a RawChunkMesh into a ChunkMesh. `upload` makes the buffer of
    /// the vertices and the buffer of the indices.
    pub fn build_mesh<F: Fn(&RawChunkMesh) -> (B, B)>(raw_mesh: RawChunkMesh, upload: &F) -> (mesh:
        ChunkMesh<B>)
        requires
            call_requires(*upload, (&raw_mesh,)),
        ensures
            is_built(mesh, raw_mesh, *upload),
            raw_mesh.indices.len() <= u32::MAX ==> mesh.number_of_indices == raw_mesh.indices.len(),
    {
        let (vertex_buffer, index_buffer) = upload(&raw_mesh);
        let number_of_indices: u32 = #[verifier::truncate]
        (raw_mesh.indices.len() as u32);
        ChunkMesh {
            position: raw_mesh.position,
            vertices: vertex_buffer,
            indices: index_buffer,
            number_of_indices,
        }
    }
}

/// The first place at or after `from` at which a mesh of the given section
/// stands, or the number of meshes if there is none.
pub open spec fn first_at(positions: Seq<BlockPosition>, position: BlockPosition, from: int) -> int
    decreases positions.len() - from,
{
    if from >= positions.len() {
        positions.len() as int
    } else if positions[from] == position {
        from
    } else {
        first_at(positions, position, from + 1)
    }
}

/// The first place of a section lies at or after `from`; a mesh of the section
/// stands there unless there is none at all, and none stands between.
pub proof fn lemma_first_at(positions: Seq<BlockPosition>, position: BlockPosition, from: int)
    requires
        0 <= from <= positions.len(),
    ensures
        from <= first_at(positions, position, from) <= positions.len(),
        first_at(positions, position, from) < positions.len() ==> positions[first_at(
            positions,
            position,
            from,
        )] == position,
        forall|j: int| from <= j < first_at(positions, position, from) ==> positions[j] != position,
    decreases positions.len() - from,
{
    if from < positions.len() && positions[from] != position {
        lemma_first_at(positions, position, from + 1);
    }
}

/// The sections of a renderer's meshes after it has heard an update: an `Add`
/// puts the section behind the others, a `Remove` takes the first mesh of the
/// section away, and an `Update` leaves the sections as they are.
pub open spec fn applied_positions(positions: Seq<BlockPosition>, update: ChunkUpdatesView) -> Seq<
    BlockPosition,
> {
    match update {
        ChunkUpdatesView::Add(mesh) => positions.push(mesh.position),
        ChunkUpdatesView::Remove(position) => {
            let i = first_at(positions, position, 0);
            if i < positions.len() {
                positions.remove(i)
            } else {
                positions
            }
        },
        ChunkUpdatesView::Update(mesh) => positions,
    }
}

/// The sections of a renderer's meshes after it has heard the first `n` of a
/// sequence of updates, one after the other.
pub open spec fn applied_all(positions: Seq<BlockPosition>, updates: Seq<ChunkUpdatesView>, n: int) -> Seq<
    BlockPosition,
>
    decreases n,
{
    if n <= 0 {
        positions
    } else {
        applied_positions(applied_all(positions, updates, n - 1), updates[n - 1])
    }
}

/// The sections of a sequence of meshes.
pub open spec fn mesh_positions<B>(meshes: Seq<ChunkMesh<B>>) -> Seq<BlockPosition> {
    meshes.map_values(|mesh: ChunkMesh<B>| mesh.position)
}

/// Whether `after` are the meshes that a renderer with the meshes `before`
/// can have once it has done what an update asks for.
///
/// An `Add` puts a mesh made of the raw mesh behind the others. A `Remove`
/// takes away the first mesh that stands for the section. An `Update` puts a
/// mesh made of the raw mesh in the place of the first mesh that stands for
/// its section; where there is none, nothing changes.
pub open spec fn is_applied<B, F: Fn(&RawChunkMesh) -> (B, B)>(
    before: Seq<ChunkMesh<B>>,
    update: ChunkUpdates,
    upload: F,
    after: Seq<ChunkMesh<B>>,
) -> bool {
    match update {
        ChunkUpdates::Add(raw_mesh) => {
            &&& after.len() == before.len() + 1
            &&& after.drop_last() == before
            &&& is_built(after.last(), raw_mesh, upload)
        },
        ChunkUpdates::Remove(position) => {
            let i = first_at(mesh_positions(before), position, 0);
            after == if i < before.len() {
                before.remove(i)
            } else {
                before
            }
        },
        ChunkUpdates::Update(raw_mesh) => {
            let i = first_at(mesh_positions(before), raw_mesh.position, 0);
            if i < before.len() {
                &&& after.len() == before.len()
                &&& is_built(after[i], raw_mesh, upload)
                &&& forall|j: int| 0 <= j < before.len() && j != i ==> after[j] == before[j]
            } else {
                after == before
            }
        },
    }
}

/// Whether `after` are the meshes that a renderer with the meshes `before`
/// can have once it has done what the first `n` updates ask for, one after the
/// other.
pub open spec fn is_applied_all<B, F: Fn(&RawChunkMesh) -> (B, B)>(
    before: Seq<ChunkMesh<B>>,
    updates: Seq<ChunkUpdates>,
    upload: F,
    after: Seq<ChunkMesh<B>>,
    n: int,
) -> bool
    decreases n,
{
    if n <= 0 {
        after == before
    } else {
        exists|between: Seq<ChunkMesh<B>>|
            is_applied_all(before, updates, upload, between, n - 1) && #[trigger] is_applied(
                between,
                updates[n - 1],
                upload,
                after,
            )
    }
}

/// A renderer that has done what the first updates ask for, and then does what
/// the next one asks for, has done what all of them ask for.
pub proof fn lemma_applied_one_more<B, F: Fn(&RawChunkMesh) -> (B, B)>(
    before: Seq<ChunkMesh<B>>,
    updates: Seq<ChunkUpdates>,
    upload: F,
    between: Seq<ChunkMesh<B>>,
    after: Seq<ChunkMesh<B>>,
    n: int,
)
    requires
        0 <= n < updates.len(),
        is_applied_all(before, updates, upload, between, n),
        is_applied(between, updates[n], upload, after),
    ensures
        is_applied_all(before, updates, upload, after, n + 1),
{
    assert(is_applied(between, updates[n + 1 - 1], upload, after));
}

/// The meshes that a renderer draws.
#[derive(Debug)]
pub struct VoxelRenderer<B> {
    pub rendered_chunks: Vec<ChunkMesh<B>>,
}

impl<B> VoxelRenderer<B> {
    /// The sections of the meshes, in the order in which they are drawn.
    pub open spec fn positions(&self) -> Seq<BlockPosition> {
        mesh_positions(self.rendered_chunks@)
    }

    /// A renderer without meshes.
    pub fn new() -> (renderer: VoxelRenderer<B>)
        ensures
            renderer.rendered_chunks@ == Seq::<ChunkMesh<B>>::empty(),
    {
        VoxelRenderer { rendered_chunks: Vec::with_capacity(32) }
    }

    /// The place of the first mesh of a section, if there is one.
    pub fn position(&self, position: &BlockPosition) -> (found: Option<usize>)
        ensures
            match found {
                Some(i) => i < self.rendered_chunks.len() && i == first_at(
                    self.positions(),
                    *position,
                    0,
                ),
                None => first_at(self.positions(), *position, 0) == self.rendered_chunks.len(),
            },
    {
        let mut i: usize = 0;
        while i < self.rendered_chunks.len()
            invariant
                i <= self.rendered_chunks.len(),
                first_at(self.positions(), *position, 0) == first_at(
                    self.positions(),
                    *position,
                    i as int,
                ),
            decreases self.rendered_chunks.len() - i,
        {
            if self.rendered_chunks[i].position == *position {
                return Some(i);
            }
            i += 1;
        }
        None
    }

    /// Does what one update asks for.
    ///
    /// An `Add` makes the buffers of the mesh and puts the mesh behind the
    /// others. A `Remove` takes away the first mesh that stands for the
    /// section. An `Update` makes new buffers for the first mesh that stands
    /// for the section of the mesh; where there is none, nothing is made.
    pub fn apply<F: Fn(&RawChunkMesh) -> (B, B)>(&mut self, update: ChunkUpdates, upload: &F)
        requires
            forall|raw_mesh: RawChunkMesh| call_requires(*upload, (&raw_mesh,)),
        ensures
            final(self).positions() == applied_positions(old(self).positions(), update@),
            is_applied(old(self).rendered_chunks@, update, *upload, final(self).rendered_chunks@),
    {
        match update {
            ChunkUpdates::Add(chunk) => {
                let mesh = ChunkMesh::build_mesh(chunk, upload);
                self.rendered_chunks.push(mesh);
                proof {
                    assert(self.rendered_chunks@.drop_last() =~= old(self).rendered_chunks@);
                    assert(self.positions() =~= old(self).positions().push(chunk.position));
                }
            },
            ChunkUpdates::Remove(location) => {
                if let Some(index) = self.position(&location) {
                    self.rendered_chunks.remove(index);
                    proof {
                        assert(self.positions() =~= old(self).positions().remove(index as int));
                    }
                }
            },
            ChunkUpdates::Update(chunk) => {
                if let Some(index) = self.position(&chunk.position) {
                    let mesh = ChunkMesh::build_mesh(chunk, upload);
                    self.rendered_chunks[index] = mesh;
                    proof {
                        lemma_first_at(old(self).positions(), chunk.position, 0);
                        assert(old(self).positions()[index as int] == chunk.position);
                        assert(self.positions() =~= old(self).positions());
                    }
                }
            },
        }
    }

    /// Does what a sequence of updates asks for, one update after the other.
    pub fn update<F: Fn(&RawChunkMesh) -> (B, B)>(&mut self, updates: Vec<ChunkUpdates>, upload: &F)
        requires
            forall|raw_mesh: RawChunkMesh| call_requires(*upload, (&raw_mesh,)),
        ensures
            final(self).positions() == applied_all(
                old(self).positions(),
                updates_view(updates@),
                updates.len() as int,
            ),
            is_applied_all(
                old(self).rendered_chunks@,
                updates@,
                *upload,
                final(self).rendered_chunks@,
                updates.len() as int,
            ),
    {
        let ghost all = updates@;
        let ghost heard = updates_view(updates@);
        let ghost count = updates.len();
        let mut updates = updates;
        let mut done: usize = 0;
        while updates.len() > 0
            invariant
                forall|raw_mesh: RawChunkMesh| call_requires(*upload, (&raw_mesh,)),
                done + updates.len() == count,
                all.len() == count,
                heard == updates_view(all),
                updates@ == all.skip(done as int),
                self.positions() == applied_all(old(self).positions(), heard, done as int),
                is_applied_all(
                    old(self).rendered_chunks@,
                    all,
                    *upload,
                    self.rendered_chunks@,
                    done as int,
                ),
            decreases updates.len(),
        {
            let ghost between = self.rendered_chunks@;
            let update = updates.remove(0);
            proof {
                assert(update == all[done as int]);
                assert(update@ == heard[done as int]);
                assert(updates@ =~= all.skip(done as int + 1));
            }
            self.apply(update, upload);
            proof {
                lemma_applied_one_more(
                    old(self).rendered_chunks@,
                    all,
                    *upload,
                    between,
                    self.rendered_chunks@,
                    done as int,
                );
            }
            done += 1;
        }
    }

    /// The number of meshes.
    pub fn debug_info(&self) -> (count: usize)
        ensures
            count == self.rendered_chunks.len(),
    {
        self.rendered_chunks.len()
    }
}

} // verus!
