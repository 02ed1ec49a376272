use crate::chunk::{Chunk, ChunkView, Section, CHUNK_BLOCKS_HIGH, CHUNK_SECTIONS};
use crate::position::BlockPosition;
use crate::position::ChunkPosition;
use vstd::prelude::*;

verus! {

/// The chunks of a world, at most one for each chunk position. The position
/// of a chunk is its key.
#[derive(Debug)]
pub struct ChunkMap {
    pub chunks: Vec<Chunk>,
}

impl View for ChunkMap {
    type V = Map<ChunkPosition, ChunkView>;

    /// The chunks by their positions.
    open spec fn view(&self) -> Map<ChunkPosition, ChunkView> {
        Map::new(
            |key: ChunkPosition| self.spec_contains_key(key),
            |key: ChunkPosition| self.chunks[self.spec_index_of(key)]@,
        )
    }
}

/// A chunk with one of its sections marked as meshed: the section is no
/// longer dirty, and nothing else has changed.
pub open spec fn clean_section(chunk: ChunkView, s: int) -> ChunkView {
    ChunkView {
        position: chunk.position,
        sections: chunk.sections.update(s, Section { dirty: false, ..chunk.sections[s] }),
    }
}

impl ChunkMap {
    /// No two chunks stand at the same position, and each has its 16 sections.
    pub open spec fn wf(&self) -> bool {
        &&& forall|i: int| 0 <= i < self.chunks.len() ==> (#[trigger] self.chunks[i]).wf()
        &&& forall|i: int, j: int|
            0 <= i < j < self.chunks.len() ==> (#[trigger] self.chunks[i]).position != (
            #[trigger] self.chunks[j]).position
    }

    pub open spec fn spec_contains_key(&self, key: ChunkPosition) -> bool {
        exists|i: int| 0 <= i < self.chunks.len() && (#[trigger] self.chunks[i]).position == key
    }

    /// The place at which the chunk of a position is kept.
    pub open spec fn spec_index_of(&self, key: ChunkPosition) -> int {
        choose|i: int| 0 <= i < self.chunks.len() && (#[trigger] self.chunks[i]).position == key
    }

    /// The chunk kept at a place is the one that the view has under its position.
    pub proof fn lemma_entry(&self, i: int)
        requires
            self.wf(),
            0 <= i < self.chunks.len(),
        ensures
            self@.contains_key(self.chunks[i].position),
            self@[self.chunks[i].position] == self.chunks[i]@,
            self.spec_index_of(self.chunks[i].position) == i,
    {
        let key = self.chunks[i].position;
        let j = self.spec_index_of(key);
        assert(self.chunks[j].position == key);
        if i < j {
            assert(self.chunks[i].position != self.chunks[j].position);
        } else if j < i {
            assert(self.chunks[j].position != self.chunks[i].position);
        }
    }

    /// Every chunk of the view stands under its own position and has its 16
    /// sections.
    pub proof fn lemma_keyed_by_position(&self, key: ChunkPosition)
        requires
            self.wf(),
            self@.contains_key(key),
        ensures
            self@[key].position == key,
            0 <= self.spec_index_of(key) < self.chunks.len(),
            self.chunks[self.spec_index_of(key)]@ == self@[key],
            self@[key].wf(),
    {
    }

    pub fn new() -> (map: ChunkMap)
        ensures
            map.wf(),
            map@ == Map::<ChunkPosition, ChunkView>::empty(),
    {
        let map = ChunkMap { chunks: Vec::new() };
        assert(map@ =~= Map::<ChunkPosition, ChunkView>::empty());
        map
    }

    /// The number of chunks.
    pub fn len(&self) -> (n: usize)
        requires
            self.wf(),
        ensures
            n == self@.dom().len(),
            n == self.chunks.len(),
    {
        proof {
            let keys = self.chunks@.map_values(|entry: Chunk| entry.position);
            assert forall|i: int, j: int| 0 <= i < keys.len() && 0 <= j < keys.len() && i
                != j implies keys[i] != keys[j] by {
                if i < j {
                    assert(self.chunks[i].position != self.chunks[j].position);
                } else {
                    assert(self.chunks[j].position != self.chunks[i].position);
                }
            }
            keys.unique_seq_to_set();
            assert forall|key: ChunkPosition| keys.to_set().contains(key) <==> self@.dom().contains(
                key,
            ) by {
                if keys.contains(key) {
                    let i = choose|i: int| 0 <= i < keys.len() && keys[i] == key;
                    assert(self.chunks[i].position == key);
                }
                if self.spec_contains_key(key) {
                    let i = self.spec_index_of(key);
                    assert(keys[i] == key);
                }
            }
            assert(keys.to_set() =~= self@.dom());
        }
        self.chunks.len()
    }

    /// The place at which the chunk of a position is kept, if there is one.
    pub fn position_index(&self, key: &ChunkPosition) -> (found: Option<usize>)
        requires
            self.wf(),
        ensures
            match found {
                Some(i) => i < self.chunks.len() && self.chunks[i as int].position == *key
                    && self@.contains_key(*key) && self.spec_index_of(*key) == i,
                None => !self@.contains_key(*key),
            },
    {
        let mut i: usize = 0;
        while i < self.chunks.len()
            invariant
                self.wf(),
                i <= self.chunks.len(),
                forall|j: int| 0 <= j < i ==> (#[trigger] self.chunks[j]).position != *key,
            decreases self.chunks.len() - i,
        {
            if self.chunks[i].position == *key {
                proof {
                    self.lemma_entry(i as int);
                }
                return Some(i);
            }
            i += 1;
        }
        None
    }

    pub fn contains_key(&self, key: &ChunkPosition) -> (found: bool)
        requires
            self.wf(),
        ensures
            found == self@.contains_key(*key),
    {
        self.position_index(key).is_some()
    }

    pub fn get(&self, key: &ChunkPosition) -> (found: Option<&Chunk>)
        requires
            self.wf(),
        ensures
            match found {
                Some(chunk) => self@.contains_key(*key) && chunk@ == self@[*key],
                None => !self@.contains_key(*key),
            },
    {
        match self.position_index(key) {
            Some(i) => Some(&self.chunks[i]),
            None => None,
        }
    }

    /// Keeps a chunk under its position and hands back the chunk that was kept
    /// there before.
    pub fn insert(&mut self, chunk: Chunk) -> (previous: Option<Chunk>)
        requires
            old(self).wf(),
            chunk.wf(),
        ensures
            final(self).wf(),
            final(self)@ == old(self)@.insert(chunk.position, chunk@),
            match previous {
                Some(p) => old(self)@.contains_key(chunk.position) && p@ == old(self)@[chunk.position],
                None => !old(self)@.contains_key(chunk.position),
            },
    {
        let key = chunk.position;
        let ghost added = chunk@;
        match self.position_index(&key) {
            Some(i) => {
                let mut chunk = chunk;
                std::mem::swap(&mut self.chunks[i], &mut chunk);
                proof {
                    let before = *old(self);
                    let after = *self;
                    assert(forall|j: int|
                        0 <= j < after.chunks.len() ==> (#[trigger] after.chunks[j]).position
                            == before.chunks[j].position);
                    assert forall|k: ChunkPosition| #[trigger] after@.contains_key(k) <==> before@.insert(key, added).contains_key(k) by {
                        if after.spec_contains_key(k) {
                            let j = after.spec_index_of(k);
                            assert(before.chunks[j].position == k);
                        }
                        if before.spec_contains_key(k) {
                            let j = before.spec_index_of(k);
                            assert(after.chunks[j].position == k);
                        }
                    }
                    assert forall|k: ChunkPosition| #[trigger] after@.contains_key(k) implies after@[k] == before@.insert(key, added)[k] by {
                        let j = after.spec_index_of(k);
                        after.lemma_entry(j);
                        before.lemma_entry(j);
                    }
                    assert(after@ =~= before@.insert(key, added));
                }
                Some(chunk)
            },
            None => {
                self.chunks.push(chunk);
                proof {
                    let before = *old(self);
                    let after = *self;
                    let last = before.chunks.len() as int;
                    assert(after.chunks[last].position == key);
                    assert forall|i: int, j: int| 0 <= i < j < after.chunks.len() implies (
                    #[trigger] after.chunks[i]).position != (#[trigger] after.chunks[j]).position by {
                        if j == last {
                            assert(before.chunks[i].position != key);
                        }
                    }
                    assert forall|k: ChunkPosition| #[trigger] after@.contains_key(k) <==> before@.insert(key, added).contains_key(k) by {
                        if after.spec_contains_key(k) {
                            let j = after.spec_index_of(k);
                            if j < last {
                                assert(before.chunks[j].position == k);
                            }
                        }
                        if before.spec_contains_key(k) {
                            let j = before.spec_index_of(k);
                            assert(after.chunks[j].position == k);
                        }
                    }
                    assert forall|k: ChunkPosition| #[trigger] after@.contains_key(k) implies after@[k] == before@.insert(key, added)[k] by {
                        let j = after.spec_index_of(k);
                        after.lemma_entry(j);
                        if j < last {
                            before.lemma_entry(j);
                        }
                    }
                    assert(after@ =~= before@.insert(key, added));
                }
                None
            },
        }
    }

    /// Where one chunk was changed in its place and kept its position, the view
    /// has the changed chunk under that position and is the same otherwise.
    proof fn lemma_changed_in_place(before: ChunkMap, after: ChunkMap, i: int)
        requires
            before.wf(),
            0 <= i < before.chunks.len(),
            after.chunks.len() == before.chunks.len(),
            after.chunks[i].position == before.chunks[i].position,
            after.chunks[i].wf(),
            forall|j: int|
                0 <= j < before.chunks.len() && j != i ==> #[trigger] after.chunks[j]
                    == before.chunks[j],
        ensures
            after.wf(),
            after@ == before@.insert(before.chunks[i].position, after.chunks[i]@),
    {
        let key = before.chunks[i].position;
        let added = after.chunks[i]@;
        assert forall|j: int| 0 <= j < after.chunks.len() implies (#[trigger] after.chunks[j]).position
            == before.chunks[j].position by {
            if j != i {
                assert(after.chunks[j] == before.chunks[j]);
            }
        }
        assert forall|j: int| 0 <= j < after.chunks.len() implies (#[trigger] after.chunks[j]).wf() by {
            if j != i {
                assert(after.chunks[j] == before.chunks[j]);
                assert(before.chunks[j].wf());
            }
        }
        assert forall|a: int, b: int| 0 <= a < b < after.chunks.len() implies (
        #[trigger] after.chunks[a]).position != (#[trigger] after.chunks[b]).position by {
            assert(before.chunks[a].position != before.chunks[b].position);
        }
        assert forall|k: ChunkPosition| #[trigger]
            after@.contains_key(k) <==> before@.insert(key, added).contains_key(k) by {
            if after.spec_contains_key(k) {
                let j = after.spec_index_of(k);
                assert(before.chunks[j].position == k);
            }
            if before.spec_contains_key(k) {
                let j = before.spec_index_of(k);
                assert(after.chunks[j].position == k);
            }
        }
        assert forall|k: ChunkPosition| #[trigger]
            after@.contains_key(k) implies after@[k] == before@.insert(key, added)[k] by {
            let j = after.spec_index_of(k);
            after.lemma_entry(j);
            before.lemma_entry(j);
            if j != i {
                assert(after.chunks[j] == before.chunks[j]);
            }
        }
        assert(after@ =~= before@.insert(key, added));
    }

    /// Marks a section of a chunk as meshed.
    pub fn clean_section(&mut self, position: &ChunkPosition, section: usize)
        requires
            old(self).wf(),
            old(self)@.contains_key(*position),
            section < CHUNK_SECTIONS,
        ensures
            final(self).wf(),
            final(self)@ == old(self)@.insert(
                *position,
                clean_section(old(self)@[*position], section as int),
            ),
    {
        match self.position_index(position) {
            Some(i) => {
                self.chunks[i].sections[section].dirty = false;
                proof {
                    old(self).lemma_entry(i as int);
                    assert(self.chunks[i as int]@ =~= clean_section(
                        old(self)@[*position],
                        section as int,
                    ));
                    Self::lemma_changed_in_place(*old(self), *self, i as int);
                }
            },
            None => {},
        }
    }

    /// Sets a block of a chunk, if the chunk is there. The place of the block
    /// is counted in blocks from the chunk's lowest corner; only the low four
    /// bits of the two horizontal coordinates count.
    pub fn set_block(&mut self, chunk: &ChunkPosition, position: BlockPosition, block: u32) -> (found:
        bool)
        requires
            old(self).wf(),
            0 <= position.y < CHUNK_BLOCKS_HIGH,
        ensures
            final(self).wf(),
            found == old(self)@.contains_key(*chunk),
            final(self)@ == if found {
                old(self)@.insert(*chunk, old(self)@[*chunk].with_block(position, block))
            } else {
                old(self)@
            },
    {
        match self.position_index(chunk) {
            Some(i) => {
                self.chunks[i].set_block(position, block);
                proof {
                    old(self).lemma_entry(i as int);
                    Self::lemma_changed_in_place(*old(self), *self, i as int);
                }
                true
            },
            None => false,
        }
    }
}

} // verus!
