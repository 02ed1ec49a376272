use crate::chunk_mesh::{MeshView, RawChunkMesh};
use crate::position::BlockPosition;
use vstd::prelude::*;

verus! {

/// Meshes of sections, at most one for each section position. The position of
/// a mesh is its key.
#[derive(Debug)]
pub struct MeshMap {
    pub meshes: Vec<RawChunkMesh>,
}

impl View for MeshMap {
    type V = Map<BlockPosition, MeshView>;

    /// The meshes by their positions.
    open spec fn view(&self) -> Map<BlockPosition, MeshView> {
        Map::new(
            |key: BlockPosition| self.spec_contains_key(key),
            |key: BlockPosition| self.meshes[self.spec_index_of(key)]@,
        )
    }
}

/// Whether a sequence lists the members of a set, each once.
pub open spec fn is_listing(keys: Seq<BlockPosition>, set: Set<BlockPosition>) -> bool {
    &&& keys.no_duplicates()
    &&& forall|key: BlockPosition| keys.contains(key) <==> set.contains(key)
}

impl MeshMap {
    /// No two meshes stand for the same section.
    pub open spec fn wf(&self) -> bool {
        forall|i: int, j: int|
            0 <= i < j < self.meshes.len() ==> (#[trigger] self.meshes[i]).position != (
            #[trigger] self.meshes[j]).position
    }

    pub open spec fn spec_contains_key(&self, key: BlockPosition) -> bool {
        exists|i: int| 0 <= i < self.meshes.len() && (#[trigger] self.meshes[i]).position == key
    }

    /// The place at which the mesh of a section is kept.
    pub open spec fn spec_index_of(&self, key: BlockPosition) -> int {
        choose|i: int| 0 <= i < self.meshes.len() && (#[trigger] self.meshes[i]).position == key
    }

    /// The mesh kept at a place is the one that the view has under its position.
    pub proof fn lemma_entry(&self, i: int)
        requires
            self.wf(),
            0 <= i < self.meshes.len(),
        ensures
            self@.contains_key(self.meshes[i].position),
            self@[self.meshes[i].position] == self.meshes[i]@,
            self.spec_index_of(self.meshes[i].position) == i,
    {
        let key = self.meshes[i].position;
        let j = self.spec_index_of(key);
        assert(self.meshes[j].position == key);
        if i < j {
            assert(self.meshes[i].position != self.meshes[j].position);
        } else if j < i {
            assert(self.meshes[j].position != self.meshes[i].position);
        }
    }

    /// Every mesh of the view stands under its own position.
    pub proof fn lemma_keyed_by_position(&self, key: BlockPosition)
        requires
            self.wf(),
            self@.contains_key(key),
        ensures
            self@[key].position == key,
            0 <= self.spec_index_of(key) < self.meshes.len(),
            self.meshes[self.spec_index_of(key)]@ == self@[key],
    {
    }

    pub fn new() -> (map: MeshMap)
        ensures
            map.wf(),
            map@ == Map::<BlockPosition, MeshView>::empty(),
    {
        let map = MeshMap { meshes: Vec::new() };
        assert(map@ =~= Map::<BlockPosition, MeshView>::empty());
        map
    }

    /// The number of meshes.
    pub fn len(&self) -> (n: usize)
        requires
            self.wf(),
        ensures
            n == self@.dom().len(),
            n == self.meshes.len(),
    {
        proof {
            let keys = self.meshes@.map_values(|entry: RawChunkMesh| entry.position);
            assert forall|i: int, j: int| 0 <= i < keys.len() && 0 <= j < keys.len() && i
                != j implies keys[i] != keys[j] by {
                if i < j {
                    assert(self.meshes[i].position != self.meshes[j].position);
                } else {
                    assert(self.meshes[j].position != self.meshes[i].position);
                }
            }
            keys.unique_seq_to_set();
            assert forall|key: BlockPosition| keys.to_set().contains(key) <==> self@.dom().contains(
                key,
            ) by {
                if keys.contains(key) {
                    let i = choose|i: int| 0 <= i < keys.len() && keys[i] == key;
                    assert(self.meshes[i].position == key);
                }
                if self.spec_contains_key(key) {
                    let i = self.spec_index_of(key);
                    assert(keys[i] == key);
                }
            }
            assert(keys.to_set() =~= self@.dom());
        }
        self.meshes.len()
    }

    /// The place at which the mesh of a section is kept, if there is one.
    pub fn position_index(&self, key: &BlockPosition) -> (found: Option<usize>)
        requires
            self.wf(),
        ensures
            match found {
                Some(i) => i < self.meshes.len() && self.meshes[i as int].position == *key
                    && self@.contains_key(*key) && self.spec_index_of(*key) == i,
                None => !self@.contains_key(*key),
            },
    {
        let mut i: usize = 0;
        while i < self.meshes.len()
            invariant
                self.wf(),
                i <= self.meshes.len(),
                forall|j: int| 0 <= j < i ==> (#[trigger] self.meshes[j]).position != *key,
            decreases self.meshes.len() - i,
        {
            if self.meshes[i].position == *key {
                proof {
                    self.lemma_entry(i as int);
                }
                return Some(i);
            }
            i += 1;
        }
        None
    }

    pub fn contains_key(&self, key: &BlockPosition) -> (found: bool)
        requires
            self.wf(),
        ensures
            found == self@.contains_key(*key),
    {
        self.position_index(key).is_some()
    }

    pub fn get(&self, key: &BlockPosition) -> (found: Option<&RawChunkMesh>)
        requires
            self.wf(),
        ensures
            match found {
                Some(mesh) => self@.contains_key(*key) && mesh@ == self@[*key],
                None => !self@.contains_key(*key),
            },
    {
        match self.position_index(key) {
            Some(i) => Some(&self.meshes[i]),
            None => None,
        }
    }

    /// Keeps a mesh under its position and hands back the mesh that was kept
    /// there before.
    pub fn insert(&mut self, mesh: RawChunkMesh) -> (previous: Option<RawChunkMesh>)
        requires
            old(self).wf(),
        ensures
            final(self).wf(),
            final(self)@ == old(self)@.insert(mesh.position, mesh@),
            match previous {
                Some(p) => old(self)@.contains_key(mesh.position) && p@ == old(self)@[mesh.position],
                None => !old(self)@.contains_key(mesh.position),
            },
    {
        let key = mesh.position;
        let ghost added = mesh@;
        match self.position_index(&key) {
            Some(i) => {
                let mut mesh = mesh;
                std::mem::swap(&mut self.meshes[i], &mut mesh);
                proof {
                    let before = *old(self);
                    let after = *self;
                    assert(forall|j: int|
                        0 <= j < after.meshes.len() ==> (#[trigger] after.meshes[j]).position
                            == before.meshes[j].position);
                    assert forall|k: BlockPosition| #[trigger] after@.contains_key(k) <==> before@.insert(key, added).contains_key(k) by {
                        if after.spec_contains_key(k) {
                            let j = after.spec_index_of(k);
                            assert(before.meshes[j].position == k);
                        }
                        if before.spec_contains_key(k) {
                            let j = before.spec_index_of(k);
                            assert(after.meshes[j].position == k);
                        }
                    }
                    assert forall|k: BlockPosition| #[trigger] after@.contains_key(k) implies after@[k] == before@.insert(key, added)[k] by {
                        let j = after.spec_index_of(k);
                        after.lemma_entry(j);
                        before.lemma_entry(j);
                    }
                    assert(after@ =~= before@.insert(key, added));
                }
                Some(mesh)
            },
            None => {
                self.meshes.push(mesh);
                proof {
                    let before = *old(self);
                    let after = *self;
                    let last = before.meshes.len() as int;
                    assert(after.meshes[last].position == key);
                    assert forall|i: int, j: int| 0 <= i < j < after.meshes.len() implies (
                    #[trigger] after.meshes[i]).position != (#[trigger] after.meshes[j]).position by {
                        if j == last {
                            assert(before.meshes[i].position != key);
                        }
                    }
                    assert forall|k: BlockPosition| #[trigger] after@.contains_key(k) <==> before@.insert(key, added).contains_key(k) by {
                        if after.spec_contains_key(k) {
                            let j = after.spec_index_of(k);
                            if j < last {
                                assert(before.meshes[j].position == k);
                            }
                        }
                        if before.spec_contains_key(k) {
                            let j = before.spec_index_of(k);
                            assert(after.meshes[j].position == k);
                        }
                    }
                    assert forall|k: BlockPosition| #[trigger] after@.contains_key(k) implies after@[k] == before@.insert(key, added)[k] by {
                        let j = after.spec_index_of(k);
                        after.lemma_entry(j);
                        if j < last {
                            before.lemma_entry(j);
                        }
                    }
                    assert(after@ =~= before@.insert(key, added));
                }
                None
            },
        }
    }

    /// The positions of the meshes, each once.
    pub fn keys(&self) -> (keys: Vec<BlockPosition>)
        requires
            self.wf(),
        ensures
            is_listing(keys@, self@.dom()),
    {
        let mut keys: Vec<BlockPosition> = Vec::with_capacity(self.meshes.len());
        let mut i: usize = 0;
        while i < self.meshes.len()
            invariant
                self.wf(),
                i <= self.meshes.len(),
                keys.len() == i,
                forall|j: int| 0 <= j < i ==> keys[j] == (#[trigger] self.meshes[j]).position,
            decreases self.meshes.len() - i,
        {
            keys.push(self.meshes[i].position);
            i += 1;
        }
        proof {
            assert forall|a: int, b: int| 0 <= a < keys.len() && 0 <= b < keys.len() && a
                != b implies keys[a] != keys[b] by {
                if a < b {
                    assert(self.meshes[a].position != self.meshes[b].position);
                } else {
                    assert(self.meshes[b].position != self.meshes[a].position);
                }
            }
            assert forall|key: BlockPosition| keys@.contains(key) <==> self@.dom().contains(
                key,
            ) by {
                if keys@.contains(key) {
                    let j = choose|j: int| 0 <= j < keys.len() && keys[j] == key;
                    assert(self.meshes[j].position == key);
                }
                if self.spec_contains_key(key) {
                    let j = self.spec_index_of(key);
                    assert(keys[j] == key);
                }
            }
        }
        keys
    }

    /// Takes the mesh of a section out, if there is one.
    pub fn remove(&mut self, key: &BlockPosition) -> (removed: Option<RawChunkMesh>)
        requires
            old(self).wf(),
        ensures
            final(self).wf(),
            final(self)@ == old(self)@.remove(*key),
            match removed {
                Some(mesh) => old(self)@.contains_key(*key) && mesh@ == old(self)@[*key],
                None => !old(self)@.contains_key(*key),
            },
    {
        match self.position_index(key) {
            Some(i) => {
                let mesh = self.meshes.remove(i);
                proof {
                    let before = *old(self);
                    let after = *self;
                    before.lemma_entry(i as int);
                    assert forall|a: int, b: int| 0 <= a < b < after.meshes.len() implies (
                    #[trigger] after.meshes[a]).position != (#[trigger] after.meshes[b]).position by {
                        let a0 = if a < i { a } else { a + 1 };
                        let b0 = if b < i { b } else { b + 1 };
                        assert(before.meshes[a0].position != before.meshes[b0].position);
                    }
                    assert forall|k: BlockPosition| #[trigger] after@.contains_key(k) <==> before@.remove(*key).contains_key(k) by {
                        if after.spec_contains_key(k) {
                            let j = after.spec_index_of(k);
                            let j0 = if j < i { j } else { j + 1 };
                            assert(before.meshes[j0].position == k);
                            assert(before.meshes[j0].position != before.meshes[i as int].position || j0 == i) by {
                                if j0 < i {
                                    assert(before.meshes[j0].position != before.meshes[i as int].position);
                                } else if i < j0 {
                                    assert(before.meshes[i as int].position != before.meshes[j0].position);
                                }
                            }
                        }
                        if before.spec_contains_key(k) && k != *key {
                            let j = before.spec_index_of(k);
                            let j1 = if j < i { j } else { j - 1 };
                            assert(after.meshes[j1].position == k);
                        }
                    }
                    assert forall|k: BlockPosition| #[trigger] after@.contains_key(k) implies after@[k] == before@.remove(*key)[k] by {
                        let j = after.spec_index_of(k);
                        let j0 = if j < i { j } else { j + 1 };
                        after.lemma_entry(j);
                        before.lemma_entry(j0);
                    }
                    assert(after@ =~= before@.remove(*key));
                }
                Some(mesh)
            },
            None => {
                assert(self@ =~= old(self)@.remove(*key));
                None
            },
        }
    }
}

} // verus!
