use crate::blocks::BlockRegistery;
use crate::chunk_mesh::{
    lemma_empty_voxels_mesh, lemma_single_voxel_mesh, mesh_of, BlockVertex, Voxel,
    VoxelVisiblity, SECTION_VOLUME,
};
use crate::position::{BlockPosition, ChunkPosition};
use crate::random::{gen_below};
use vstd::prelude::*;

verus! {

/// The number of sections that make up a chunk.
pub const CHUNK_SECTIONS: usize = 16;

/// What stands at one place of the world.
#[derive(Debug, Clone, Copy, PartialEq, Eq, Structural)]
pub enum Block {
    /// Points to a regular block in its natural state. No modifcations
    Block(u32),
}

impl Block {
    /// The id of the kind of block.
    pub open spec fn spec_id(self) -> u32 {
        match self {
            Block::Block(id) => id,
        }
    }

    /// Whether this is the air block, the block with id 0.
    pub open spec fn is_air(self) -> bool {
        self.spec_id() == 0
    }
}

impl From<u32> for Block {
    fn from(i: u32) -> (block: Block) {
        Self::Block(i)
    }
}

impl vstd::std_specs::convert::FromSpecImpl<u32> for Block {
    open spec fn obeys_from_spec() -> bool {
        true
    }

    open spec fn from_spec(i: u32) -> Block {
        Block::Block(i)
    }
}

/// The blocks of a section, one for each flat index.
#[derive(Debug, Clone, PartialEq, Eq)]
pub struct BlockStore {
    pub blocks: Box<[Block; 4096]>,
}

impl View for BlockStore {
    type V = Seq<Block>;

    open spec fn view(&self) -> Seq<Block> {
        self.blocks@
    }
}

impl BlockStore {
    pub fn index(&self, index: usize) -> (block: &Block)
        requires
            index < SECTION_VOLUME,
        ensures
            *block == self@[index as int],
    {
        &self.blocks[index]
    }

    pub fn index_mut(&mut self, index: usize) -> (block: &mut Block)
        requires
            index < SECTION_VOLUME,
        ensures
            *block == old(self)@[index as int],
            final(self)@ == old(self)@.update(index as int, *final(block)),
    {
        &mut self.blocks[index]
    }
}

impl Default for BlockStore {
    fn default() -> (store: BlockStore)
        ensures
            forall|i: int| 0 <= i < SECTION_VOLUME ==> store@[i] == Block::Block(0),
    {
        Self { blocks: Box::new([Block::Block(0);4096]) }
    }
}

/// A cube of 16 by 16 by 16 blocks: the unit that gets a mesh of its own.
#[derive(Debug, Clone, PartialEq, Eq)]
pub struct Section {
    /// This is the same as the index in the chunk
    /// However it is stored here for easy access
    /// Using u8 as there are only 16 sections
    pub position: u8,
    pub dirty: bool,
    pub building: bool,
    pub block_store: BlockStore,
}

impl Default for Section {
    fn default() -> (section: Section)
        ensures
            section.position == 0,
            !section.dirty,
            !section.building,
            forall|i: int| 0 <= i < SECTION_VOLUME ==> section.block_store@[i] == Block::Block(0),
    {
        Self { position: 0, dirty: false, building: false, block_store: BlockStore::default() }
    }
}

/// The number of blocks other than air among the first `n` of a sequence.
pub open spec fn count_non_air(blocks: Seq<Block>, n: int) -> int
    decreases n,
{
    if n <= 0 {
        0
    } else if blocks[n - 1].is_air() {
        count_non_air(blocks, n - 1)
    } else {
        count_non_air(blocks, n - 1) + 1
    }
}

/// Whether any block of a sequence is not air.
pub open spec fn has_non_air(blocks: Seq<Block>) -> bool {
    exists|i: int| 0 <= i < blocks.len() && !(#[trigger] blocks[i]).is_air()
}

/// The voxel that a block at a flat index of a section becomes: air is empty,
/// every other block is opaque and carries the textures of its id.
pub open spec fn block_voxel(block: Block, index: int, registry: BlockRegistery) -> Voxel {
    let position = BlockPosition::spec_from_relative_block(index);
    if block.is_air() {
        Voxel { position, visibility: VoxelVisiblity::Empty, textures: None }
    } else {
        Voxel {
            position,
            visibility: VoxelVisiblity::Opaque,
            textures: registry.spec_texture_for_id(block.spec_id() as usize),
        }
    }
}

/// The voxels of a section's blocks, by flat index.
pub open spec fn section_voxels(blocks: Seq<Block>, registry: BlockRegistery) -> Seq<Voxel> {
    Seq::new(SECTION_VOLUME as nat, |i: int| block_voxel(blocks[i], i, registry))
}

/// The count of blocks other than air is never negative nor more than `n`, and
/// it is positive exactly when one of the first `n` blocks is not air.
pub proof fn lemma_count_non_air(blocks: Seq<Block>, n: int)
    requires
        0 <= n <= blocks.len(),
    ensures
        0 <= count_non_air(blocks, n) <= n,
        count_non_air(blocks, n) > 0 <==> has_non_air(blocks.take(n)),
    decreases n,
{
    if n > 0 {
        lemma_count_non_air(blocks, n - 1);
        let shorter = blocks.take(n - 1);
        let longer = blocks.take(n);
        if has_non_air(shorter) {
            let i = choose|i: int| 0 <= i < shorter.len() && !(#[trigger] shorter[i]).is_air();
            assert(!longer[i].is_air());
        }
        if !blocks[n - 1].is_air() {
            assert(!longer[n - 1].is_air());
        }
        if has_non_air(longer) {
            let i = choose|i: int| 0 <= i < longer.len() && !(#[trigger] longer[i]).is_air();
            if i < n - 1 {
                assert(!shorter[i].is_air());
            }
        }
    }
}

impl Section {
    /// The number of blocks of the section that are not air.
    pub open spec fn spec_number_of_non_air_blocks(&self) -> int {
        count_non_air(self.block_store@, SECTION_VOLUME as int)
    }

    /// Block Zero is always the air block. No matter how the game loads it is a forced air block
    pub fn number_of_non_air_blocks(&self) -> (count: usize)
        ensures
            count == self.spec_number_of_non_air_blocks(),
    {
        let mut count: usize = 0;
        let mut index: usize = 0;
        while index < SECTION_VOLUME
            invariant
                index <= SECTION_VOLUME,
                count == count_non_air(self.block_store@, index as int),
                count <= index,
            decreases SECTION_VOLUME - index,
        {
            let Block::Block(id) = *self.block_store.index(index);
            if id != 0 {
                count += 1;
            }
            index += 1;
        }
        count
    }

    /// Whether any block of the section is not air.
    pub open spec fn spec_contains_non_air_blocks(&self) -> bool {
        has_non_air(self.block_store@)
    }

    /// Whether any block of the section is not air.
    #[verifier::when_used_as_spec(spec_contains_non_air_blocks)]
    pub fn contains_non_air_blocks(&self) -> (found: bool)
        ensures
            found == self.spec_contains_non_air_blocks(),
    {
        let mut index: usize = 0;
        while index < SECTION_VOLUME
            invariant
                index <= SECTION_VOLUME,
                forall|i: int| 0 <= i < index ==> (#[trigger] self.block_store@[i]).is_air(),
            decreases SECTION_VOLUME - index,
        {
            let Block::Block(id) = *self.block_store.index(index);
            if id != 0 {
                assert(!self.block_store@[index as int].is_air());
                return true;
            }
            index += 1;
        }
        false
    }

    /// The voxels of the section, one for each block, by flat index.
    pub open spec fn spec_voxels(&self, registry: BlockRegistery) -> Seq<Voxel> {
        section_voxels(self.block_store@, registry)
    }

    /// The voxels of the section, one for each block, by flat index.
    pub fn get_voxels(&self, registry: &BlockRegistery) -> (voxels: Vec<Voxel>)
        ensures
            voxels@ == self.spec_voxels(*registry),
    {
        let mut voxels: Vec<Voxel> = Vec::with_capacity(16 * 16 * 16);
        let mut index: usize = 0;
        while index < SECTION_VOLUME
            invariant
                index <= SECTION_VOLUME,
                voxels.len() == index,
                forall|i: int|
                    0 <= i < index ==> voxels[i] == block_voxel(self.block_store@[i], i, *registry),
            decreases SECTION_VOLUME - index,
        {
            let Block::Block(id) = *self.block_store.index(index);
            let position: BlockPosition = BlockPosition::from_relative_block(index);
            if id == 0 {
                voxels.push(Voxel::air(position));
            } else {
                voxels.push(
                    Voxel::new(
                        position,
                        VoxelVisiblity::Opaque,
                        registry.get_texture_for_id(id as usize),
                    ),
                );
            }
            index += 1;
        }
        assert(voxels@ =~= self.spec_voxels(*registry));
        voxels
    }
}

/// The mesh of a section depends on nothing but where the mesh stands, the
/// blocks of the section and the textures of the blocks it holds: meshing the
/// same blocks again gives the same vertices and the same indices.
pub proof fn lemma_meshing_deterministic(
    position: BlockPosition,
    first: Section,
    second: Section,
    first_registry: BlockRegistery,
    second_registry: BlockRegistery,
)
    requires
        first.block_store@ == second.block_store@,
        forall|i: int|
            0 <= i < SECTION_VOLUME ==> first_registry.spec_texture_for_id(
                (#[trigger] first.block_store@[i]).spec_id() as usize,
            ) == second_registry.spec_texture_for_id(first.block_store@[i].spec_id() as usize),
    ensures
        first.spec_voxels(first_registry) == second.spec_voxels(second_registry),
        mesh_of(position, first.spec_voxels(first_registry)) == mesh_of(
            position,
            second.spec_voxels(second_registry),
        ),
{
    assert(first.spec_voxels(first_registry) =~= second.spec_voxels(second_registry));
}

/// A section of nothing but air has a mesh without vertices and indices.
pub proof fn lemma_air_section_mesh_empty(
    position: BlockPosition,
    section: Section,
    registry: BlockRegistery,
)
    requires
        !section.spec_contains_non_air_blocks(),
    ensures
        mesh_of(position, section.spec_voxels(registry)).vertices == Seq::<BlockVertex>::empty(),
        mesh_of(position, section.spec_voxels(registry)).indices == Seq::<u32>::empty(),
{
    let voxels = section.spec_voxels(registry);
    assert forall|i: int| 0 <= i < voxels.len() implies (#[trigger] voxels[i]).visibility is Empty by {
        assert(section.block_store@[i].is_air());
    }
    lemma_empty_voxels_mesh(position, voxels);
}

/// A section with a single block that is not air, at whatever place, has a
/// mesh of that block's six faces: 24 vertices and 36 indices.
pub proof fn lemma_single_block_mesh(
    position: BlockPosition,
    section: Section,
    registry: BlockRegistery,
    index: int,
)
    requires
        0 <= index < SECTION_VOLUME,
        !section.block_store@[index].is_air(),
        forall|i: int|
            0 <= i < SECTION_VOLUME && i != index ==> (#[trigger] section.block_store@[i]).is_air(),
    ensures
        mesh_of(position, section.spec_voxels(registry)).vertices.len() == 24,
        mesh_of(position, section.spec_voxels(registry)).indices.len() == 36,
{
    let voxels = section.spec_voxels(registry);
    assert forall|i: int| 0 <= i < voxels.len() && i != index implies (
    #[trigger] voxels[i]).visibility is Empty by {
        assert(section.block_store@[i].is_air());
    }
    lemma_single_voxel_mesh(position, voxels, index);
}

/// What a chunk holds: where it stands and its sections from the lowest up.
pub struct ChunkView {
    pub position: ChunkPosition,
    pub sections: Seq<Section>,
}

/// A column of 16 sections, 16 by 256 by 16 blocks.
#[derive(Debug)]
pub struct Chunk {
    pub position: ChunkPosition,
    pub sections: Vec<Section>,
}

impl View for Chunk {
    type V = ChunkView;

    open spec fn view(&self) -> ChunkView {
        ChunkView { position: self.position, sections: self.sections@ }
    }
}

impl ChunkView {
    /// A chunk has exactly 16 sections.
    pub open spec fn wf(self) -> bool {
        self.sections.len() == CHUNK_SECTIONS
    }

    /// The block at a place of the chunk, the place given in blocks from the
    /// chunk's lowest corner.
    pub open spec fn block(self, position: BlockPosition) -> Block {
        self.sections[position.y as int / 16].block_store@[position.spec_relative_block()]
    }

    /// The chunk after the block at a place of it was set: the section that
    /// holds the block is dirty, and nothing else has changed.
    pub open spec fn with_block(self, position: BlockPosition, block: u32) -> ChunkView {
        let s = position.y as int / 16;
        ChunkView {
            position: self.position,
            sections: self.sections.update(
                s,
                section_with_block(self.sections[s], position.spec_relative_block(), block),
            ),
        }
    }
}

/// A section after the block at a flat index of it was set: the section is
/// dirty, and nothing else has changed.
pub open spec fn section_with_block(section: Section, index: int, block: u32) -> Section {
    Section {
        position: section.position,
        dirty: true,
        building: section.building,
        block_store: BlockStore {
            blocks: Box::new(
                vstd::array::spec_array_update(
                    *section.block_store.blocks,
                    index,
                    Block::Block(block),
                ),
            ),
        },
    }
}

/// Setting a block of a section changes the block at that index, and no other.
pub proof fn lemma_section_with_block(section: Section, index: int, block: u32)
    requires
        0 <= index < SECTION_VOLUME,
    ensures
        section_with_block(section, index, block).block_store@ == section.block_store@.update(
            index,
            Block::Block(block),
        ),
{
    broadcast use vstd::array::axiom_spec_array_update;

}

impl Chunk {
    pub open spec fn wf(&self) -> bool {
        self@.wf()
    }

    /// A chunk of air: every section clean and at its own place.
    pub fn new(position: ChunkPosition) -> (chunk: Chunk)
        ensures
            chunk.wf(),
            chunk.position == position,
            forall|s: int|
                0 <= s < CHUNK_SECTIONS ==> {
                    &&& (#[trigger] chunk.sections[s]).position == s
                    &&& !chunk.sections[s].dirty
                    &&& !chunk.sections[s].building
                    &&& !chunk.sections[s].spec_contains_non_air_blocks()
                },
    {
        let mut sections: Vec<Section> = Vec::with_capacity(16);
        let mut i: usize = 0;
        while i < 16
            invariant
                i <= 16,
                sections.len() == i,
                forall|s: int|
                    0 <= s < i ==> {
                        &&& (#[trigger] sections[s]).position == s
                        &&& !sections[s].dirty
                        &&& !sections[s].building
                        &&& !sections[s].spec_contains_non_air_blocks()
                    },
            decreases 16 - i,
        {
            let mut section = Section::default();
            section.position = i as u8;
            sections.push(section);
            i += 1;
        }
        Self { position, sections }
    }
}

/// The number of columns of blocks in a chunk.
pub const CHUNK_COLUMNS: usize = 256;

/// The height of the terrain where the noise is zero.
pub const BASE_HEIGHT: i64 = 32;

/// The greatest height that a column of a chunk can have.
pub const CHUNK_BLOCKS_HIGH: i64 = 256;

/// The number of kinds of block that the terrain is made of.
pub const TERRAIN_BLOCKS: u32 = 6;

/// The relief of the terrain: for each of the 16 by 16 columns of a chunk, how
/// many blocks the ground lies above or below the base height. The sample of
/// the column at `(x, z)` stands at the place `x * 16 + z`.
#[derive(Debug)]
pub struct TerrainNoise {
    pub samples: Vec<i64>,
}

/// The height of the column at `(x, z)`: the base height and the sample.
pub open spec fn column_height(samples: Seq<i64>, x: int, z: int) -> int {
    samples[x * 16 + z] + BASE_HEIGHT
}

/// Whether samples can shape a chunk: there is one for each column, and no
/// column rises above the chunk.
pub open spec fn samples_wf(samples: Seq<i64>) -> bool {
    &&& samples.len() == CHUNK_COLUMNS
    &&& forall|i: int| 0 <= i < samples.len() ==> #[trigger] samples[i] + BASE_HEIGHT <= CHUNK_BLOCKS_HIGH
}

impl TerrainNoise {
    pub open spec fn wf(&self) -> bool {
        samples_wf(self.samples@)
    }

    /// Takes the samples of a noise source, or `None` where they cannot shape
    /// a chunk.
    pub fn new(samples: Vec<i64>) -> (noise: Option<TerrainNoise>)
        ensures
            noise is Some == samples_wf(samples@),
            noise matches Some(n) ==> n.samples@ == samples@,
    {
        if samples.len() != CHUNK_COLUMNS {
            return None;
        }
        let mut i: usize = 0;
        while i < CHUNK_COLUMNS
            invariant
                i <= CHUNK_COLUMNS,
                samples.len() == CHUNK_COLUMNS,
                forall|j: int| 0 <= j < i ==> #[trigger] samples[j] + BASE_HEIGHT <= CHUNK_BLOCKS_HIGH,
            decreases CHUNK_COLUMNS - i,
        {
            if samples[i] > CHUNK_BLOCKS_HIGH - BASE_HEIGHT {
                return None;
            }
            i += 1;
        }
        Some(TerrainNoise { samples })
    }
}

/// Whether a place lies inside a chunk, counted in blocks from the chunk's
/// lowest corner.
pub open spec fn in_chunk(p: BlockPosition) -> bool {
    0 <= p.x < 16 && 0 <= p.y < CHUNK_BLOCKS_HIGH && 0 <= p.z < 16
}

/// The block that generated terrain has at a place of a chunk: below the
/// height of its column the block that was drawn for the column, above it air.
pub open spec fn generated_block(samples: Seq<i64>, ids: Seq<u32>, p: BlockPosition) -> Block {
    if p.y < column_height(samples, p.x as int, p.z as int) {
        Block::Block(ids[p.x * 16 + p.z])
    } else {
        Block::Block(0)
    }
}

/// Whether one of the first `columns` columns reaches into a section.
pub open spec fn section_reached(samples: Seq<i64>, section: int, columns: int) -> bool
    decreases columns,
{
    if columns <= 0 {
        false
    } else {
        section_reached(samples, section, columns - 1) || samples[columns - 1] + BASE_HEIGHT > 16
            * section
    }
}

/// Whether a chunk is the terrain that the samples and the drawn blocks give.
/// A section is dirty where a column reaches into it.
pub open spec fn is_generated(
    chunk: ChunkView,
    position: ChunkPosition,
    samples: Seq<i64>,
    ids: Seq<u32>,
) -> bool {
    &&& chunk.wf()
    &&& chunk.position == position
    &&& forall|p: BlockPosition| in_chunk(p) ==> #[trigger] chunk.block(p) == generated_block(samples, ids, p)
    &&& forall|s: int|
        0 <= s < CHUNK_SECTIONS ==> {
            &&& (#[trigger] chunk.sections[s]).position == s
            &&& !chunk.sections[s].building
            &&& chunk.sections[s].dirty == section_reached(samples, s, CHUNK_COLUMNS as int)
        }
}

/// Whether a chunk is generated terrain in the making: the first `columns`
/// columns stand, and the next one stands up to the height `y`.
pub open spec fn is_generated_upto(
    chunk: ChunkView,
    position: ChunkPosition,
    samples: Seq<i64>,
    ids: Seq<u32>,
    columns: int,
    y: int,
) -> bool {
    &&& chunk.wf()
    &&& chunk.position == position
    &&& forall|p: BlockPosition|
        in_chunk(p) ==> #[trigger] chunk.block(p) == if p.x * 16 + p.z < columns {
            generated_block(samples, ids, p)
        } else if p.x * 16 + p.z == columns && p.y < y {
            Block::Block(ids[columns])
        } else {
            Block::Block(0)
        }
    &&& forall|s: int|
        0 <= s < CHUNK_SECTIONS ==> {
            &&& (#[trigger] chunk.sections[s]).position == s
            &&& !chunk.sections[s].building
            &&& chunk.sections[s].dirty == (section_reached(samples, s, columns) || y > 16 * s)
        }
}

/// Whether drawn blocks can make terrain: there is one for each column, and
/// each is one of the kinds that terrain is made of.
pub open spec fn ids_wf(ids: Seq<u32>) -> bool {
    &&& ids.len() == CHUNK_COLUMNS
    &&& forall|i: int| 0 <= i < ids.len() ==> #[trigger] ids[i] < TERRAIN_BLOCKS
}

/// Whether a chunk is generated terrain for the samples and some drawing of
/// blocks.
pub open spec fn is_terrain(chunk: ChunkView, position: ChunkPosition, samples: Seq<i64>) -> bool {
    exists|ids: Seq<u32>| ids_wf(ids) && #[trigger] is_generated(chunk, position, samples, ids)
}

impl Chunk {
    /// A chunk at the origin with one block of kind 1 in every section.
    pub fn generate_test_chunk() -> (chunk: Chunk)
        ensures
            chunk.wf(),
            chunk.position == (ChunkPosition { x: 0, z: 0 }),
            forall|s: int|
                0 <= s < CHUNK_SECTIONS ==> {
                    &&& (#[trigger] chunk.sections[s]).position == s
                    &&& !chunk.sections[s].dirty
                    &&& !chunk.sections[s].building
                    &&& chunk.sections[s].block_store@[0] == Block::Block(1)
                    &&& forall|i: int|
                        1 <= i < SECTION_VOLUME ==> chunk.sections[s].block_store@[i]
                            == Block::Block(0)
                },
    {
        let mut chunk = Self::new(ChunkPosition::new(0, 0));
        let mut i: usize = 0;
        while i < 16
            invariant
                i <= 16,
                chunk.wf(),
                chunk.position == (ChunkPosition { x: 0, z: 0 }),
                forall|s: int|
                    0 <= s < CHUNK_SECTIONS ==> {
                        &&& (#[trigger] chunk.sections[s]).position == s
                        &&& !chunk.sections[s].dirty
                        &&& !chunk.sections[s].building
                        &&& forall|i: int|
                            1 <= i < SECTION_VOLUME ==> chunk.sections[s].block_store@[i]
                                == Block::Block(0)
                    },
                forall|s: int| 0 <= s < i ==> (#[trigger] chunk.sections[s]).block_store@[0] == Block::Block(1),
            decreases 16 - i,
        {
            *chunk.sections[i].block_store.index_mut(0) = Block::Block(1);
            i += 1;
        }
        chunk
    }

    /// The terrain that the samples and the given blocks, one for each column,
    /// make of a chunk.
    pub fn generate_with(position: ChunkPosition, noise: &TerrainNoise, ids: &Vec<u32>) -> (chunk:
        Chunk)
        requires
            noise.wf(),
            ids.len() == CHUNK_COLUMNS,
        ensures
            is_generated(chunk@, position, noise.samples@, ids@),
    {
        let mut chunk = Self::new(position);
        proof {
            assert forall|p: BlockPosition| in_chunk(p) implies #[trigger] chunk@.block(p)
                == Block::Block(0) by {
                let section = chunk.sections[p.y as int / 16];
                if !section.block_store@[p.spec_relative_block()].is_air() {
                    assert(section.spec_contains_non_air_blocks());
                }
            }
        }
        let mut x: i64 = 0;
        while x < 16
            invariant
                0 <= x <= 16,
                noise.wf(),
                ids.len() == CHUNK_COLUMNS,
                is_generated_upto(chunk@, position, noise.samples@, ids@, x * 16, 0),
            decreases 16 - x,
        {
            let mut z: i64 = 0;
            while z < 16
                invariant
                    0 <= x < 16,
                    0 <= z <= 16,
                    noise.wf(),
                    ids.len() == CHUNK_COLUMNS,
                    is_generated_upto(chunk@, position, noise.samples@, ids@, x * 16 + z, 0),
                decreases 16 - z,
            {
                let column: usize = (x * 16 + z) as usize;
                let number: u32 = ids[column];
                let height: i64 = noise.samples[column] + BASE_HEIGHT;
                let mut y: i64 = 0;
                while y < height
                    invariant
                        0 <= x < 16,
                        0 <= z < 16,
                        column == x * 16 + z,
                        number == ids@[column as int],
                        height == noise.samples@[column as int] + BASE_HEIGHT,
                        height <= CHUNK_BLOCKS_HIGH,
                        0 <= y,
                        y <= height || y == 0,
                        noise.wf(),
                        ids.len() == CHUNK_COLUMNS,
                        is_generated_upto(
                            chunk@,
                            position,
                            noise.samples@,
                            ids@,
                            column as int,
                            y as int,
                        ),
                    decreases height - y,
                {
                    let position = BlockPosition::new(x, y, z);
                    let ghost before = chunk@;
                    chunk.set_block(position, number);
                    proof {
                        let after = chunk@;
                        let q = position;
                        assert forall|p: BlockPosition| in_chunk(p) implies #[trigger] after.block(
                            p,
                        ) == if p.x * 16 + p.z < column {
                            generated_block(noise.samples@, ids@, p)
                        } else if p.x * 16 + p.z == column && p.y < y + 1 {
                            Block::Block(ids@[column as int])
                        } else {
                            Block::Block(0)
                        } by {
                            assert(before.block(p) == before.sections[p.y as int
                                / 16].block_store@[p.spec_relative_block()]);
                            if p.y as int / 16 == q.y as int / 16 {
                                if p.spec_relative_block() == q.spec_relative_block() {
                                    assert(p == q);
                                }
                            }
                        }
                    }
                    y += 1;
                }
                z += 1;
            }
            x += 1;
        }
        chunk
    }

    /// Generated terrain with a kind of block drawn at random for each column.
    pub fn generate(position: ChunkPosition, noise: &TerrainNoise) -> (chunk: Chunk)
        requires
            noise.wf(),
        ensures
            is_terrain(chunk@, position, noise.samples@),
    {
        let mut rng = rand::thread_rng();
        let mut ids: Vec<u32> = Vec::with_capacity(CHUNK_COLUMNS);
        let mut column: usize = 0;
        while column < CHUNK_COLUMNS
            invariant
                column <= CHUNK_COLUMNS,
                ids.len() == column,
                forall|i: int| 0 <= i < ids.len() ==> #[trigger] ids[i] < TERRAIN_BLOCKS,
            decreases CHUNK_COLUMNS - column,
        {
            let number: u32 = gen_below(&mut rng, TERRAIN_BLOCKS);
            ids.push(number);
            column += 1;
        }
        let chunk = Self::generate_with(position, noise, &ids);
        assert(ids_wf(ids@));
        chunk
    }

    /// Sets the block at a place of the chunk, the place counted in blocks from
    /// the chunk's lowest corner; only the low four bits of the two horizontal
    /// coordinates count. The section that holds the block becomes dirty.
    pub fn set_block(&mut self, position: BlockPosition, block: u32)
        requires
            old(self).wf(),
            0 <= position.y < CHUNK_BLOCKS_HIGH,
        ensures
            final(self)@ == old(self)@.with_block(position, block),
            final(self).wf(),
            final(self).position == old(self).position,
            forall|s: int|
                0 <= s < CHUNK_SECTIONS && s != position.y as int / 16 ==> #[trigger] final(self).sections[s]
                    == old(self).sections[s],
            ({
                let before = old(self).sections[position.y as int / 16];
                let after = final(self).sections[position.y as int / 16];
                &&& after.position == before.position
                &&& after.building == before.building
                &&& after.dirty
                &&& after.block_store@ == before.block_store@.update(
                    position.spec_relative_block(),
                    Block::Block(block),
                )
            }),
    {
        let section: usize = position.section();
        let index: usize = position.relative_block();
        let ghost place = section as int;
        let section = &mut self.sections[section];
        section.dirty = true;
        *section.block_store.index_mut(index) = Block::from(block);
        proof {
            let before = old(self).sections[place];
            let after = self.sections[place];
            let wanted = section_with_block(before, index as int, block);
            lemma_section_with_block(before, index as int, block);
            assert(after.block_store.blocks@ =~= wanted.block_store.blocks@);
            assert(*after.block_store.blocks =~= *wanted.block_store.blocks);
            assert(after == wanted);
            assert(self@.sections =~= old(self)@.with_block(position, block).sections);
        }
    }
}

} // verus!
