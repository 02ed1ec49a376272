use vstd::prelude::*;

verus! {

/// The position of a chunk column, in chunk units.
#[derive(Debug, Clone, Copy, PartialEq, Eq, Hash, Structural)]
pub struct ChunkPosition {
    pub x: i64,
    pub z: i64,
}

impl ChunkPosition {
    pub fn new(x: i64, z: i64) -> (r: Self)
        ensures
            r == (ChunkPosition { x, z }),
    {
        Self { x, z }
    }
}

/// The position of a block, in block units. The same triple also names a
/// section by the block at its lowest corner.
#[derive(Debug, Clone, Copy, PartialEq, Eq, Hash, Structural)]
pub struct BlockPosition {
    pub x: i64,
    pub y: i64,
    pub z: i64,
}

impl BlockPosition {
    pub fn new(x: i64, y: i64, z: i64) -> (r: Self)
        ensures
            r == (BlockPosition { x, y, z }),
    {
        Self { x, y, z }
    }

    /// The chunk column that holds this block: both horizontal coordinates
    /// divided by 16, rounding towards negative infinity.
    pub open spec fn spec_chunk(&self) -> ChunkPosition {
        ChunkPosition { x: (self.x as int / 16) as i64, z: (self.z as int / 16) as i64 }
    }

    /// The chunk column that holds this block.
    #[verifier::when_used_as_spec(spec_chunk)]
    pub fn chunk(&self) -> (r: ChunkPosition)
        ensures
            r == self.spec_chunk(),
            r.x == self.x as int / 16,
            r.z == self.z as int / 16,
    {
        let x = self.x;
        let z = self.z;
        assert(x >> 4 == x / 16) by (bit_vector);
        assert(z >> 4 == z / 16) by (bit_vector);
        ChunkPosition { x: self.x >> 4, z: self.z >> 4 }
    }

    /// The index of the section that holds this block within its chunk. A
    /// negative height is read as the unsigned machine word with the same bits.
    pub fn section(&self) -> (r: usize)
        ensures
            r == (self.y as usize) >> 4,
            0 <= self.y <= usize::MAX ==> r == self.y as int / 16,
    {
        let word: usize = #[verifier::truncate]
        (self.y as usize);
        assert(word >> 4 == word / 16) by (bit_vector);
        word >> 4
    }

    /// The place of this block in the flat array of its section: the low four
    /// bits of each coordinate, height first, then depth, then width.
    pub open spec fn spec_relative_block(&self) -> int {
        (self.y as int % 16) * 256 + (self.z as int % 16) * 16 + self.x as int % 16
    }

    /// The place of this block in the flat array of its section, 0 to 4095.
    pub fn relative_block(&self) -> (index: usize)
        ensures
            index == self.spec_relative_block(),
            index < 4096,
    {
        let lx = self.x & 0xF;
        let ly = self.y & 0xF;
        let lz = self.z & 0xF;
        proof {
            let (sx, sy, sz) = (self.x, self.y, self.z);
            assert(0 <= sx & 0xF < 16 && sx & 0xF == sx % 16) by (bit_vector);
            assert(0 <= sy & 0xF < 16 && sy & 0xF == sy % 16) by (bit_vector);
            assert(0 <= sz & 0xF < 16 && sz & 0xF == sz % 16) by (bit_vector);
        }
        let x = lx as usize;
        let y = ly as usize;
        let z = lz as usize;
        assert(x < 16 && y < 16 && z < 16 ==> ((y << 8) | (z << 4) | x) == y * 256 + z * 16 + x)
            by (bit_vector);
        (y << 8) | (z << 4) | x
    }

    /// The block of a section that stands at a place of its flat array.
    pub open spec fn spec_from_relative_block(index: int) -> BlockPosition {
        BlockPosition {
            x: (index % 16) as i64,
            y: ((index / 256) % 16) as i64,
            z: ((index / 16) % 16) as i64,
        }
    }

    /// The block of a section that stands at a place of its flat array.
    pub fn from_relative_block(relative_block: usize) -> (r: Self)
        ensures
            r == Self::spec_from_relative_block(relative_block as int),
    {
        let x = relative_block & 0xF;
        let y = (relative_block >> 8) & 0xF;
        let z = (relative_block >> 4) & 0xF;
        assert(relative_block & 0xF == relative_block % 16) by (bit_vector);
        assert((relative_block >> 8) & 0xF == (relative_block / 256) % 16) by (bit_vector);
        assert((relative_block >> 4) & 0xF == (relative_block / 16) % 16) by (bit_vector);
        Self { x: x as i64, y: y as i64, z: z as i64 }
    }
}

} // verus!
