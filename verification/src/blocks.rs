use crate::texture::{CubeTextures, LoadedCubeTexture, TextureAtlasInfo};
use std::collections::HashMap;
use std::sync::Arc;
use vstd::prelude::*;

verus! {

broadcast use vstd::std_specs::hash::group_hash_axioms;

/// A kind of block: its number, its name and the names of its textures.
#[derive(Debug)]
pub struct Block {
    pub id: usize,
    pub name: String,
    pub textures: Option<CubeTextures>,
}

/// The kinds of block that a world can hold, and what each looks like.
///
/// The blocks stand in the order in which they were registered. A block
/// registered later takes the place of one registered before under the same
/// name.
#[derive(Debug)]
pub struct BlockRegistery {
    pub index: usize,
    pub blocks: Vec<Block>,
    pub textures: HashMap<usize, LoadedCubeTexture>,
    pub texture_atlas_info: Arc<TextureAtlasInfo>,
}

/// Whether the block at a place of the registration order still stands: no
/// block was registered after it under its name.
pub open spec fn is_current(blocks: Seq<Block>, i: int) -> bool {
    forall|j: int| i < j < blocks.len() ==> (#[trigger] blocks[j]).name@ != blocks[i].name@
}

/// The textures that a block brings once they are looked up in an atlas.
pub open spec fn block_textures(block: Block, atlas: TextureAtlasInfo) -> Option<LoadedCubeTexture> {
    match block.textures {
        Some(textures) => textures.spec_coordinates(atlas),
        None => None,
    }
}

/// The loaded textures after those of the first `n` registered blocks were
/// added to them: every block that still stands and has textures that the
/// atlas knows gives them to its number.
pub open spec fn loaded_textures(
    blocks: Seq<Block>,
    atlas: TextureAtlasInfo,
    textures: Map<usize, LoadedCubeTexture>,
    n: int,
) -> Map<usize, LoadedCubeTexture>
    decreases n,
{
    if n <= 0 {
        textures
    } else {
        let before = loaded_textures(blocks, atlas, textures, n - 1);
        match block_textures(blocks[n - 1], atlas) {
            Some(loaded) => if is_current(blocks, n - 1) {
                before.insert(blocks[n - 1].id, loaded)
            } else {
                before
            },
            None => before,
        }
    }
}

impl BlockRegistery {
    /// A registry without blocks.
    pub fn new(texture_atlas_info: Arc<TextureAtlasInfo>) -> (registry: BlockRegistery)
        ensures
            registry.index == 0,
            registry.blocks@ == Seq::<Block>::empty(),
            registry.textures@ == Map::<usize, LoadedCubeTexture>::empty(),
            registry.texture_atlas_info == texture_atlas_info,
    {
        Self { index: 0, blocks: Vec::new(), textures: HashMap::new(), texture_atlas_info }
    }

    /// The textures that were loaded for a block id, if any were.
    pub open spec fn spec_texture_for_id(&self, id: usize) -> Option<LoadedCubeTexture> {
        if self.textures@.contains_key(id) {
            Some(self.textures@[id])
        } else {
            None
        }
    }

    /// The textures that were loaded for a block id, if any were.
    #[verifier::when_used_as_spec(spec_texture_for_id)]
    pub fn get_texture_for_id(&self, id: usize) -> (textures: Option<LoadedCubeTexture>)
        ensures
            textures == self.spec_texture_for_id(id),
    {
        match self.textures.get(&id) {
            Some(texture) => Some(*texture),
            None => None,
        }
    }

    /// Registers a block under the next free number.
    pub fn register_block(&mut self, name: &str, textures: Option<CubeTextures>)
        requires
            old(self).index < usize::MAX,
        ensures
            final(self).index == old(self).index + 1,
            final(self).blocks@.len() == old(self).blocks@.len() + 1,
            final(self).blocks@.drop_last() == old(self).blocks@,
            final(self).blocks@.last().id == old(self).index,
            final(self).blocks@.last().name@ == name@,
            final(self).blocks@.last().textures == textures,
            final(self).textures == old(self).textures,
            final(self).texture_atlas_info == old(self).texture_atlas_info,
    {
        self.blocks.push(Block { id: self.index, name: name.to_owned(), textures });
        self.index += 1;
        assert(self.blocks@.drop_last() =~= old(self).blocks@);
    }

    /// Whether the block at a place of the registration order still stands.
    fn block_is_current(&self, i: usize) -> (current: bool)
        requires
            i < self.blocks.len(),
        ensures
            current == is_current(self.blocks@, i as int),
    {
        let mut j: usize = i + 1;
        while j < self.blocks.len()
            invariant
                i < j <= self.blocks.len(),
                forall|k: int| i < k < j ==> (#[trigger] self.blocks[k]).name@ != self.blocks[i as int].name@,
            decreases self.blocks.len() - j,
        {
            if self.blocks[j].name == self.blocks[i].name {
                return false;
            }
            j += 1;
        }
        true
    }

    /// Looks up the textures of every registered block in an atlas and keeps
    /// what was found under the block's number.
    pub fn load_textures(&mut self, texture_atlas: &TextureAtlasInfo)
        ensures
            final(self).index == old(self).index,
            final(self).blocks == old(self).blocks,
            final(self).texture_atlas_info == old(self).texture_atlas_info,
            final(self).textures@ == loaded_textures(
                old(self).blocks@,
                *texture_atlas,
                old(self).textures@,
                old(self).blocks@.len() as int,
            ),
    {
        let mut i: usize = 0;
        while i < self.blocks.len()
            invariant
                i <= self.blocks.len(),
                self.index == old(self).index,
                self.blocks == old(self).blocks,
                self.texture_atlas_info == old(self).texture_atlas_info,
                self.textures@ == loaded_textures(
                    old(self).blocks@,
                    *texture_atlas,
                    old(self).textures@,
                    i as int,
                ),
            decreases self.blocks.len() - i,
        {
            let texture: Option<LoadedCubeTexture> = match &self.blocks[i].textures {
                Some(textures) => textures.get_coordinates(texture_atlas),
                None => None,
            };
            if let Some(texture) = texture {
                if self.block_is_current(i) {
                    let id: usize = self.blocks[i].id;
                    self.textures.insert(id, texture);
                }
            }
            i += 1;
        }
    }
}

/// A registry with the two blocks that every game has: air, which shows
/// nothing, and dirt.
pub fn create_block_registery(atlas: Arc<TextureAtlasInfo>) -> (registry: BlockRegistery)
    ensures
        registry.index == 2,
        registry.blocks@.len() == 2,
        registry.blocks@[0].id == 0,
        registry.blocks@[0].name@ == "air"@,
        registry.blocks@[0].textures is None,
        registry.blocks@[1].id == 1,
        registry.blocks@[1].name@ == "dirt"@,
        registry.blocks@[1].textures matches Some(CubeTextures::SingleTexture(name)) && name@
            == "dirt.png"@,
        registry.textures@ == Map::<usize, LoadedCubeTexture>::empty(),
        registry.texture_atlas_info == atlas,
{
    let mut registery = BlockRegistery::new(atlas);
    registery.register_block("air", None);
    let ghost first = registery.blocks@;
    registery.register_block("dirt", Some(CubeTextures::SingleTexture("dirt.png".to_owned())));
    assert(registery.blocks@[0] == first[0]);
    registery
}

} // verus!
