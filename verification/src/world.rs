use crate::blocks::BlockRegistery;
use crate::chunk::{
    is_terrain, Chunk, ChunkView, TerrainNoise, CHUNK_BLOCKS_HIGH, CHUNK_SECTIONS,
};
use crate::chunk_map::{clean_section, ChunkMap};
use crate::chunk_mesh::{
    in_mesh_range, mesh_of, MeshView, RawChunkMesh, Voxel, SECTION_VOLUME,
};
use crate::game::Game;
use crate::mesh_map::{is_listing, MeshMap};
use crate::position::{BlockPosition, ChunkPosition};
use crate::voxel_state::{updates_view, ChunkUpdates, ChunkUpdatesView};
use vstd::prelude::*;

verus! {

/// The farthest that a chunk on show can stand from the origin, in chunks.
pub const CHUNK_LIMIT: i64 = 0x0100_0000_0000_0000;

/// What a world holds: the relief of its terrain, its chunks by position, and
/// the meshes of its sections by section position, those parked and those on
/// show.
pub struct WorldView {
    pub noise: Seq<i64>,
    pub chunks: Map<ChunkPosition, ChunkView>,
    pub built_meshes: Map<BlockPosition, MeshView>,
    pub meshes_being_rendered: Map<BlockPosition, MeshView>,
}

/// The position of a section: the block at the lowest corner of section `s`
/// of the chunk `c`.
pub open spec fn section_key(c: ChunkPosition, s: int) -> BlockPosition {
    BlockPosition { x: (c.x * 16) as i64, y: (s * 16) as i64, z: (c.z * 16) as i64 }
}

/// Whether a chunk lies within the render distance of the viewer's chunk: no
/// more than `distance` chunks away on either horizontal axis.
pub open spec fn is_required(center: ChunkPosition, distance: int, p: ChunkPosition) -> bool {
    &&& center.x - distance <= p.x <= center.x + distance
    &&& center.z - distance <= p.z <= center.z + distance
}

/// Whether every chunk within the render distance stands near enough to the
/// origin for its sections to have meshes.
pub open spec fn in_reach(center: ChunkPosition, distance: int) -> bool {
    &&& 0 <= distance
    &&& -CHUNK_LIMIT <= center.x - distance
    &&& center.x + distance <= CHUNK_LIMIT
    &&& -CHUNK_LIMIT <= center.z - distance
    &&& center.z + distance <= CHUNK_LIMIT
}

/// Whether a chunk within the render distance comes before the chunk in row
/// `row` and column `column` of the square, rows counted along X and columns
/// along Z from the corner with the least coordinates.
pub open spec fn is_required_before(
    center: ChunkPosition,
    distance: int,
    p: ChunkPosition,
    row: int,
    column: int,
) -> bool {
    &&& is_required(center, distance, p)
    &&& (p.x - (center.x - distance) < row || (p.x - (center.x - distance) == row && p.z - (center.z
        - distance) < column))
}

/// Whether `after` is `before` with terrain generated for those of the first
/// chunks of the square that `before` lacks.
pub open spec fn chunks_ensured_upto(
    before: Map<ChunkPosition, ChunkView>,
    after: Map<ChunkPosition, ChunkView>,
    center: ChunkPosition,
    distance: int,
    noise: Seq<i64>,
    row: int,
    column: int,
) -> bool {
    &&& forall|p: ChunkPosition|
        #[trigger] after.contains_key(p) <==> (before.contains_key(p) || is_required_before(
            center,
            distance,
            p,
            row,
            column,
        ))
    &&& forall|p: ChunkPosition| before.contains_key(p) ==> #[trigger] after[p] == before[p]
    &&& forall|p: ChunkPosition|
        is_required_before(center, distance, p, row, column) && !before.contains_key(p)
            ==> #[trigger] is_terrain(after[p], p, noise)
}

/// Whether `after` is `before` with terrain generated for every chunk within
/// the render distance that `before` lacks.
pub open spec fn chunks_ensured(
    before: Map<ChunkPosition, ChunkView>,
    after: Map<ChunkPosition, ChunkView>,
    center: ChunkPosition,
    distance: int,
    noise: Seq<i64>,
) -> bool {
    chunks_ensured_upto(before, after, center, distance, noise, 2 * distance + 1, 0)
}

/// The sections with a mesh on show whose chunk lies outside the render
/// distance: those that a tick takes off show.
pub open spec fn retired_keys(w: WorldView, center: ChunkPosition, distance: int) -> Set<
    BlockPosition,
> {
    Set::new(
        |key: BlockPosition|
            w.meshes_being_rendered.contains_key(key) && !is_required(
                center,
                distance,
                key.spec_chunk(),
            ),
    )
}

/// The world after the meshes of the given sections were taken off show: each
/// of them is parked, and nothing else has changed.
pub open spec fn park(w: WorldView, keys: Set<BlockPosition>) -> WorldView {
    WorldView {
        noise: w.noise,
        chunks: w.chunks,
        built_meshes: Map::new(
            |key: BlockPosition|
                w.built_meshes.contains_key(key) || (keys.contains(key)
                    && w.meshes_being_rendered.contains_key(key)),
            |key: BlockPosition|
                if keys.contains(key) && w.meshes_being_rendered.contains_key(key) {
                    w.meshes_being_rendered[key]
                } else {
                    w.built_meshes[key]
                },
        ),
        meshes_being_rendered: w.meshes_being_rendered.remove_keys(keys),
    }
}

/// The world after the meshes outside the render distance were taken off
/// show and parked.
pub open spec fn retire(w: WorldView, center: ChunkPosition, distance: int) -> WorldView {
    park(w, retired_keys(w, center, distance))
}

/// Parking one more mesh that is on show is to take it off show and to keep
/// it among the parked ones.
pub proof fn lemma_park_one_more(w: WorldView, keys: Set<BlockPosition>, key: BlockPosition)
    requires
        w.meshes_being_rendered.contains_key(key),
        !keys.contains(key),
    ensures
        park(w, keys).meshes_being_rendered.contains_key(key),
        park(w, keys).meshes_being_rendered[key] == w.meshes_being_rendered[key],
        park(w, keys.insert(key)).meshes_being_rendered == park(
            w,
            keys,
        ).meshes_being_rendered.remove(key),
        park(w, keys.insert(key)).built_meshes == park(w, keys).built_meshes.insert(
            key,
            w.meshes_being_rendered[key],
        ),
{
    assert(park(w, keys.insert(key)).meshes_being_rendered =~= park(
        w,
        keys,
    ).meshes_being_rendered.remove(key));
    assert(park(w, keys.insert(key)).built_meshes =~= park(w, keys).built_meshes.insert(
        key,
        w.meshes_being_rendered[key],
    ));
}

/// A listing with one more key behind it lists the set with that key added.
pub proof fn lemma_listing_push(keys: Seq<BlockPosition>, set: Set<BlockPosition>, key: BlockPosition)
    requires
        is_listing(keys, set),
        !set.contains(key),
    ensures
        is_listing(keys.push(key), set.insert(key)),
{
    let longer = keys.push(key);
    assert forall|a: int, b: int|
        0 <= a < longer.len() && 0 <= b < longer.len() && a != b implies longer[a] != longer[b] by {
        if a < keys.len() {
            assert(keys.contains(keys[a]));
        }
        if b < keys.len() {
            assert(keys.contains(keys[b]));
        }
    }
    assert forall|k: BlockPosition| longer.contains(k) <==> set.insert(key).contains(k) by {
        if longer.contains(k) {
            let i = choose|i: int| 0 <= i < longer.len() && longer[i] == k;
            if i < keys.len() {
                assert(keys.contains(k));
            }
        }
        if set.contains(k) {
            assert(keys.contains(k));
            let i = choose|i: int| 0 <= i < keys.len() && keys[i] == k;
            assert(longer[i] == k);
        }
        if k == key {
            assert(longer[keys.len() as int] == k);
        }
    }
}

/// Whether a sequence of updates removes the sections of a set, each once, and
/// does nothing else.
pub open spec fn is_removal_of(events: Seq<ChunkUpdatesView>, keys: Set<BlockPosition>) -> bool {
    &&& forall|i: int| 0 <= i < events.len() ==> (#[trigger] events[i]) is Remove
    &&& is_listing(events.map_values(|e: ChunkUpdatesView| e.position()), keys)
}

/// A tick under way: the world as it stands and the updates emitted so far.
pub struct Tick {
    pub world: WorldView,
    pub events: Seq<ChunkUpdatesView>,
}

/// What a tick does for section `s` of the chunk at `c`.
///
/// A section of nothing but air is passed over. A section with a mesh on show
/// gets that mesh built anew and an `Update`, if it is dirty, and is passed over
/// if it is not. A section with a parked mesh has that mesh put on show, built
/// anew first if the section is dirty, with an `Add`. Any other section gets a
/// new mesh on show, with an `Add`. A section that was dealt with is no longer
/// dirty.
pub open spec fn refresh_section(t: Tick, registry: BlockRegistery, c: ChunkPosition, s: int) -> Tick {
    let w = t.world;
    let key = section_key(c, s);
    let section = w.chunks[c].sections[s];
    let fresh = mesh_of(key, section.spec_voxels(registry));
    let cleaned = w.chunks.insert(c, clean_section(w.chunks[c], s));
    if !section.spec_contains_non_air_blocks() {
        t
    } else if w.meshes_being_rendered.contains_key(key) {
        if section.dirty {
            Tick {
                world: WorldView {
                    noise: w.noise,
                    chunks: cleaned,
                    built_meshes: w.built_meshes,
                    meshes_being_rendered: w.meshes_being_rendered.insert(key, fresh),
                },
                events: t.events.push(ChunkUpdatesView::Update(fresh)),
            }
        } else {
            t
        }
    } else if w.built_meshes.contains_key(key) {
        let mesh = if section.dirty {
            fresh
        } else {
            w.built_meshes[key]
        };
        Tick {
            world: WorldView {
                noise: w.noise,
                chunks: cleaned,
                built_meshes: w.built_meshes.remove(key),
                meshes_being_rendered: w.meshes_being_rendered.insert(key, mesh),
            },
            events: t.events.push(ChunkUpdatesView::Add(mesh)),
        }
    } else {
        Tick {
            world: WorldView {
                noise: w.noise,
                chunks: cleaned,
                built_meshes: w.built_meshes,
                meshes_being_rendered: w.meshes_being_rendered.insert(key, fresh),
            },
            events: t.events.push(ChunkUpdatesView::Add(fresh)),
        }
    }
}

/// The chunk in a row and a column of the square of chunks within the render
/// distance, rows counted along X and columns along Z from the corner with the
/// least coordinates.
pub open spec fn chunk_at(center: ChunkPosition, distance: int, row: int, column: int) -> ChunkPosition {
    ChunkPosition {
        x: (center.x - distance + row) as i64,
        z: (center.z - distance + column) as i64,
    }
}

/// What a tick does for the first `count` sections of a chunk, from the lowest
/// up.
pub open spec fn refresh_sections(t: Tick, registry: BlockRegistery, c: ChunkPosition, count: int) -> Tick
    decreases count,
{
    if count <= 0 {
        t
    } else {
        refresh_section(refresh_sections(t, registry, c, count - 1), registry, c, count - 1)
    }
}

/// What a tick does for the first `columns` chunks of a row of the square.
pub open spec fn refresh_row(
    t: Tick,
    registry: BlockRegistery,
    center: ChunkPosition,
    distance: int,
    row: int,
    columns: int,
) -> Tick
    decreases columns,
{
    if columns <= 0 {
        t
    } else {
        refresh_sections(
            refresh_row(t, registry, center, distance, row, columns - 1),
            registry,
            chunk_at(center, distance, row, columns - 1),
            CHUNK_SECTIONS as int,
        )
    }
}

/// What a tick does for the first `rows` rows of the square.
pub open spec fn refresh_rows(
    t: Tick,
    registry: BlockRegistery,
    center: ChunkPosition,
    distance: int,
    rows: int,
) -> Tick
    decreases rows,
{
    if rows <= 0 {
        t
    } else {
        refresh_row(
            refresh_rows(t, registry, center, distance, rows - 1),
            registry,
            center,
            distance,
            rows - 1,
            2 * distance + 1,
        )
    }
}

/// What a tick does for every section of every chunk within the render
/// distance: row by row, chunk by chunk, from the lowest section up.
pub open spec fn refresh(t: Tick, registry: BlockRegistery, center: ChunkPosition, distance: int) -> Tick {
    refresh_rows(t, registry, center, distance, 2 * distance + 1)
}

/// Whether `after` and `events` are what a tick makes of the world `before`
/// for a viewer in the chunk `center`.
///
/// The tick first generates the chunks within the render distance that are
/// missing. It then takes the meshes outside the render distance off show,
/// with a `Remove` for each, in an order that is left open. Last it deals with
/// every section within the render distance in turn.
pub open spec fn is_tick(
    before: WorldView,
    center: ChunkPosition,
    distance: int,
    registry: BlockRegistery,
    after: WorldView,
    events: Seq<ChunkUpdatesView>,
) -> bool {
    exists|chunks: Map<ChunkPosition, ChunkView>, removed: Seq<ChunkUpdatesView>| #[trigger]
        is_tick_through(before, center, distance, registry, after, events, chunks, removed)
}

/// Whether `after` and `events` are what a tick makes of the world `before`,
/// where `chunks` are the chunks once the missing ones were generated and
/// `removed` are the updates of the meshes taken off show.
pub open spec fn is_tick_through(
    before: WorldView,
    center: ChunkPosition,
    distance: int,
    registry: BlockRegistery,
    after: WorldView,
    events: Seq<ChunkUpdatesView>,
    chunks: Map<ChunkPosition, ChunkView>,
    removed: Seq<ChunkUpdatesView>,
) -> bool {
    let generated = WorldView {
        noise: before.noise,
        chunks: chunks,
        built_meshes: before.built_meshes,
        meshes_being_rendered: before.meshes_being_rendered,
    };
    let done = refresh(
        Tick { world: retire(generated, center, distance), events: removed },
        registry,
        center,
        distance,
    );
    &&& chunks_ensured(before.chunks, chunks, center, distance, before.noise)
    &&& is_removal_of(removed, retired_keys(before, center, distance))
    &&& after == done.world
    &&& events == done.events
}

/// What a tick does for a section leaves the relief alone and neither adds a
/// chunk nor takes one away.
pub proof fn lemma_refresh_section_keeps_chunks(
    t: Tick,
    registry: BlockRegistery,
    c: ChunkPosition,
    s: int,
)
    requires
        t.world.chunks.contains_key(c),
    ensures
        refresh_section(t, registry, c, s).world.noise == t.world.noise,
        refresh_section(t, registry, c, s).world.chunks.dom() == t.world.chunks.dom(),
{
    let after = refresh_section(t, registry, c, s).world.chunks;
    assert(after.dom() =~= t.world.chunks.dom());
}

/// To mark a section as meshed that is not dirty changes nothing.
pub proof fn lemma_clean_section_idle(chunks: Map<ChunkPosition, ChunkView>, c: ChunkPosition, s: int)
    requires
        chunks.contains_key(c),
        0 <= s < chunks[c].sections.len(),
        !chunks[c].sections[s].dirty,
    ensures
        chunks.insert(c, clean_section(chunks[c], s)) == chunks,
{
    let chunk = chunks[c];
    assert(clean_section(chunk, s).sections =~= chunk.sections);
    assert(chunks.insert(c, clean_section(chunk, s)) =~= chunks);
}

/// Whether a block of a world can be set: its chunk is there and its height
/// lies within the chunk.
pub open spec fn has_block(w: WorldView, position: BlockPosition) -> bool {
    0 <= position.y < CHUNK_BLOCKS_HIGH && w.chunks.contains_key(position.spec_chunk())
}

/// The world after the block at a position was set: the section that holds the
/// block is dirty, and nothing else has changed.
pub open spec fn with_block(w: WorldView, position: BlockPosition, block: u32) -> WorldView {
    let c = position.spec_chunk();
    WorldView {
        noise: w.noise,
        chunks: w.chunks.insert(c, w.chunks[c].with_block(position, block)),
        built_meshes: w.built_meshes,
        meshes_being_rendered: w.meshes_being_rendered,
    }
}

/// The chunks of a world and the meshes of their sections.
#[derive(Debug)]
pub struct World {
    pub noise: TerrainNoise,
    pub chunks: ChunkMap,
    // ChunkMeshes are 16x16x16 meaning they need 3 points to define a position
    // The Block posistion is the bottom left corner of the chunk
    // Meshes are 16x16x16 meaning that they have multiple meshes for each chunk
    pub built_meshes: MeshMap,
    pub meshes_being_rendered: MeshMap,
}

impl View for World {
    type V = WorldView;

    open spec fn view(&self) -> WorldView {
        WorldView {
            noise: self.noise.samples@,
            chunks: self.chunks@,
            built_meshes: self.built_meshes@,
            meshes_being_rendered: self.meshes_being_rendered@,
        }
    }
}

impl World {
    /// The relief can shape chunks, the maps hold no key twice, and no section
    /// has a mesh both parked and on show.
    pub open spec fn wf(&self) -> bool {
        &&& self.noise.wf()
        &&& self.chunks.wf()
        &&& self.built_meshes.wf()
        &&& self.meshes_being_rendered.wf()
        &&& forall|key: BlockPosition|
            !(self.built_meshes@.contains_key(key) && self.meshes_being_rendered@.contains_key(
                key,
            ))
    }

    /// A world without chunks and meshes.
    pub fn new(noise: TerrainNoise) -> (world: World)
        requires
            noise.wf(),
        ensures
            world.wf(),
            world@ == (WorldView {
                noise: noise.samples@,
                chunks: Map::empty(),
                built_meshes: Map::empty(),
                meshes_being_rendered: Map::empty(),
            }),
    {
        Self {
            noise,
            chunks: ChunkMap::new(),
            built_meshes: MeshMap::new(),
            meshes_being_rendered: MeshMap::new(),
        }
    }

    /// Sets the block at a position of the world, counted in blocks. Nothing
    /// happens where the chunk of the block is missing or the height of the
    /// block lies outside the chunks.
    pub fn set_block(&mut self, position: BlockPosition, block: u32) -> (done: bool)
        requires
            old(self).wf(),
        ensures
            final(self).wf(),
            done == has_block(old(self)@, position),
            final(self)@ == if done {
                with_block(old(self)@, position, block)
            } else {
                old(self)@
            },
    {
        if position.y < 0 || position.y >= CHUNK_BLOCKS_HIGH {
            return false;
        }
        let chunk = position.chunk();
        self.chunks.set_block(&chunk, position, block)
    }

    /// A world with generated terrain in the four chunks round the origin
    /// whose coordinates are -1 or 0.
    pub fn generate_test_world(noise: TerrainNoise) -> (world: World)
        requires
            noise.wf(),
        ensures
            world.wf(),
            world@.noise == noise.samples@,
            world@.built_meshes == Map::<BlockPosition, MeshView>::empty(),
            world@.meshes_being_rendered == Map::<BlockPosition, MeshView>::empty(),
            forall|p: ChunkPosition| #[trigger]
                world@.chunks.contains_key(p) <==> (-1 <= p.x < 1 && -1 <= p.z < 1),
            forall|p: ChunkPosition|
                world@.chunks.contains_key(p) ==> #[trigger] is_terrain(
                    world@.chunks[p],
                    p,
                    noise.samples@,
                ),
    {
        let mut world = Self::new(noise);
        let ghost samples = world.noise.samples@;
        let mut x: i64 = -1;
        while x < 1
            invariant
                -1 <= x <= 1,
                world.wf(),
                world@.noise == samples,
                world@.built_meshes == Map::<BlockPosition, MeshView>::empty(),
                world@.meshes_being_rendered == Map::<BlockPosition, MeshView>::empty(),
                forall|p: ChunkPosition| #[trigger]
                    world@.chunks.contains_key(p) <==> (-1 <= p.x < x && -1 <= p.z < 1),
                forall|p: ChunkPosition|
                    world@.chunks.contains_key(p) ==> #[trigger] is_terrain(
                        world@.chunks[p],
                        p,
                        samples,
                    ),
            decreases 1 - x,
        {
            let mut z: i64 = -1;
            while z < 1
                invariant
                    -1 <= x < 1,
                    -1 <= z <= 1,
                    world.wf(),
                    world@.noise == samples,
                    world@.built_meshes == Map::<BlockPosition, MeshView>::empty(),
                    world@.meshes_being_rendered == Map::<BlockPosition, MeshView>::empty(),
                    forall|p: ChunkPosition| #[trigger]
                        world@.chunks.contains_key(p) <==> ((-1 <= p.x < x && -1 <= p.z < 1) || (
                        p.x == x && -1 <= p.z < z)),
                    forall|p: ChunkPosition|
                        world@.chunks.contains_key(p) ==> #[trigger] is_terrain(
                            world@.chunks[p],
                            p,
                            samples,
                        ),
                decreases 1 - z,
            {
                let position = ChunkPosition::new(x, z);
                let ghost now = world@.chunks;
                let chunk = Chunk::generate(position, &world.noise);
                world.chunks.insert(chunk);
                proof {
                    assert forall|p: ChunkPosition| world@.chunks.contains_key(p) implies #[trigger]
                        is_terrain(world@.chunks[p], p, samples) by {
                        if p != position {
                            assert(now.contains_key(p));
                            assert(is_terrain(now[p], p, samples));
                        }
                    }
                }
                z += 1;
            }
            x += 1;
        }
        world
    }

    /// Whether a chunk lies within the render distance of the viewer's chunk.
    pub fn chunk_is_required(center: ChunkPosition, distance: usize, p: ChunkPosition) -> (required:
        bool)
        requires
            in_reach(center, distance as int),
        ensures
            required == is_required(center, distance as int, p),
    {
        let render_distance: i64 = distance as i64;
        center.x - render_distance <= p.x && p.x <= center.x + render_distance && center.z
            - render_distance <= p.z && p.z <= center.z + render_distance
    }

    /// Takes the meshes of sections outside the render distance off show and
    /// parks them. Returns a `Remove` for each.
    pub fn retire_meshes(&mut self, center: ChunkPosition, distance: usize) -> (removed: Vec<
        ChunkUpdates,
    >)
        requires
            old(self).wf(),
            in_reach(center, distance as int),
        ensures
            final(self).wf(),
            final(self)@ == retire(old(self)@, center, distance as int),
            is_removal_of(
                updates_view(removed@),
                retired_keys(old(self)@, center, distance as int),
            ),
    {
        let keys = self.meshes_being_rendered.keys();
        let mut removed: Vec<ChunkUpdates> = Vec::new();
        let ghost start = self@;
        let ghost d = distance as int;
        let ghost mut done: Set<BlockPosition> = Set::empty();
        proof {
            assert(self@.meshes_being_rendered =~= park(start, done).meshes_being_rendered);
            assert(self@.built_meshes =~= park(start, done).built_meshes);
            assert(updates_view(removed@).map_values(|e: ChunkUpdatesView| e.position())
                =~= Seq::<BlockPosition>::empty());
        }
        let mut i: usize = 0;
        while i < keys.len()
            invariant
                self.wf(),
                in_reach(center, d),
                d == distance as int,
                i <= keys.len(),
                is_listing(keys@, start.meshes_being_rendered.dom()),
                self@ == park(start, done),
                forall|key: BlockPosition|
                    done.contains(key) <==> (exists|j: int|
                        0 <= j < i && keys[j] == key && !is_required(center, d, key.spec_chunk())),
                is_removal_of(updates_view(removed@), done),
            decreases keys.len() - i,
        {
            let key = keys[i];
            let ghost before_done = done;
            if !Self::chunk_is_required(center, distance, key.chunk()) {
                proof {
                    assert(keys@.contains(key));
                    if done.contains(key) {
                        let j = choose|j: int|
                            0 <= j < i && keys[j] == key && !is_required(
                                center,
                                d,
                                key.spec_chunk(),
                            );
                        assert(keys[j] == keys[i as int]);
                    }
                    lemma_park_one_more(start, done, key);
                    self.meshes_being_rendered.lemma_keyed_by_position(key);
                }
                match self.meshes_being_rendered.remove(&key) {
                    Some(mesh) => {
                        self.built_meshes.insert(mesh);
                        let ghost said = updates_view(removed@);
                        let ghost listed = said.map_values(|e: ChunkUpdatesView| e.position());
                        removed.push(ChunkUpdates::Remove(key));
                        proof {
                            lemma_listing_push(listed, done, key);
                            done = done.insert(key);
                            assert(updates_view(removed@) =~= said.push(
                                ChunkUpdatesView::Remove(key),
                            ));
                            assert(updates_view(removed@).map_values(
                                |e: ChunkUpdatesView| e.position(),
                            ) =~= listed.push(key));
                            assert forall|e: int| 0 <= e < updates_view(removed@).len() implies (
                            #[trigger] updates_view(removed@)[e]) is Remove by {
                                if e < said.len() {
                                    assert(said[e] is Remove);
                                }
                            }
                        }
                    },
                    None => {},
                }
            }
            proof {
                assert forall|key2: BlockPosition|
                    done.contains(key2) <==> (exists|j: int|
                        0 <= j < i + 1 && keys[j] == key2 && !is_required(
                            center,
                            d,
                            key2.spec_chunk(),
                        )) by {
                    if before_done.contains(key2) {
                        let j = choose|j: int|
                            0 <= j < i && keys[j] == key2 && !is_required(
                                center,
                                d,
                                key2.spec_chunk(),
                            );
                        assert(0 <= j < i + 1 && keys[j] == key2);
                    }
                    if done.contains(key2) && !before_done.contains(key2) {
                        assert(0 <= i < i + 1 && keys[i as int] == key2);
                    }
                    if exists|j: int|
                        0 <= j < i + 1 && keys[j] == key2 && !is_required(
                            center,
                            d,
                            key2.spec_chunk(),
                        ) {
                        let j = choose|j: int|
                            0 <= j < i + 1 && keys[j] == key2 && !is_required(
                                center,
                                d,
                                key2.spec_chunk(),
                            );
                        if j < i {
                            assert(0 <= j < i && keys[j] == key2);
                        }
                    }
                }
            }
            i += 1;
        }
        proof {
            let retired = retired_keys(start, center, d);
            assert forall|key: BlockPosition| done.contains(key) <==> retired.contains(key) by {
                if done.contains(key) {
                    let j = choose|j: int|
                        0 <= j < keys.len() && keys[j] == key && !is_required(
                            center,
                            d,
                            key.spec_chunk(),
                        );
                    assert(keys@.contains(key));
                }
                if retired.contains(key) {
                    assert(keys@.contains(key));
                    let j = choose|j: int| 0 <= j < keys.len() && keys[j] == key;
                    assert(0 <= j < keys.len() && keys[j] == key);
                }
            }
            assert(done =~= retired);
        }
        removed
    }

    /// The voxels of a section of a chunk of the world.
    fn section_voxels(&self, registry: &BlockRegistery, position: &ChunkPosition, y: usize) -> (voxels:
        Vec<Voxel>)
        requires
            self.chunks.wf(),
            self.chunks@.contains_key(*position),
            y < CHUNK_SECTIONS,
        ensures
            voxels@ == self.chunks@[*position].sections[y as int].spec_voxels(*registry),
            voxels.len() == SECTION_VOLUME,
            forall|i: int| 0 <= i < voxels.len() ==> in_mesh_range(#[trigger] voxels[i].position),
    {
        proof {
            self.chunks.lemma_keyed_by_position(*position);
        }
        match self.chunks.get(position) {
            Some(chunk) => chunk.sections[y].get_voxels(registry),
            None => Vec::new(),
        }
    }

    /// Deals with one section of a chunk of the world: brings its mesh on show
    /// up to date and adds to `events` what a renderer has to hear of it.
    pub fn refresh_section(
        &mut self,
        registry: &BlockRegistery,
        position: ChunkPosition,
        y: usize,
        events: &mut Vec<ChunkUpdates>,
    )
        requires
            old(self).wf(),
            old(self)@.chunks.contains_key(position),
            y < CHUNK_SECTIONS,
            -CHUNK_LIMIT <= position.x <= CHUNK_LIMIT,
            -CHUNK_LIMIT <= position.z <= CHUNK_LIMIT,
        ensures
            final(self).wf(),
            (Tick { world: final(self)@, events: updates_view(final(events)@) })
                == refresh_section(
                Tick { world: old(self)@, events: updates_view(old(events)@) },
                *registry,
                position,
                y as int,
            ),
    {
        let section_position = BlockPosition::new(position.x * 16, y as i64 * 16, position.z * 16);
        let ghost before = self@;
        let ghost said = updates_view(events@);
        let ghost section = before.chunks[position].sections[y as int];
        let ghost fresh = mesh_of(section_position, section.spec_voxels(*registry));
        proof {
            self.chunks.lemma_keyed_by_position(position);
            assert(section_position == section_key(position, y as int));
        }
        let (has_blocks, dirty): (bool, bool) = match self.chunks.get(&position) {
            Some(chunk) => {
                let section = &chunk.sections[y];
                (section.contains_non_air_blocks(), section.dirty)
            },
            None => (false, false),
        };
        if !has_blocks {
            return ;
        }
        if self.meshes_being_rendered.contains_key(&section_position) {
            if dirty {
                // Dirty section so rebuild the mesh
                let voxels = self.section_voxels(registry, &position, y);
                proof {
                    self.meshes_being_rendered.lemma_keyed_by_position(section_position);
                }
                match self.meshes_being_rendered.remove(&section_position) {
                    Some(mut mesh) => {
                        mesh.rebuild(voxels);
                        self.chunks.clean_section(&position, y);
                        let shown = mesh.clone();
                        self.meshes_being_rendered.insert(shown);
                        events.push(ChunkUpdates::Update(mesh));
                        proof {
                            assert(self@.meshes_being_rendered
                                =~= before.meshes_being_rendered.insert(section_position, fresh));
                            assert(updates_view(events@) =~= said.push(
                                ChunkUpdatesView::Update(fresh),
                            ));
                        }
                    },
                    None => {},
                }
            }
        } else {
            let ghost parked = self.built_meshes;
            proof {
                if parked@.contains_key(section_position) {
                    parked.lemma_keyed_by_position(section_position);
                }
            }
            match self.built_meshes.remove(&section_position) {
                Some(mut mesh) => {
                    // Already built so just add it to the being rendered
                    if dirty {
                        // Dirty section so rebuild the mesh
                        let voxels = self.section_voxels(registry, &position, y);
                        mesh.rebuild(voxels);
                        self.chunks.clean_section(&position, y);
                    } else {
                        proof {
                            lemma_clean_section_idle(before.chunks, position, y as int);
                        }
                    }
                    let shown = mesh.clone();
                    self.meshes_being_rendered.insert(shown);
                    let ghost added = mesh@;
                    events.push(ChunkUpdates::Add(mesh));
                    proof {
                        assert(updates_view(events@) =~= said.push(ChunkUpdatesView::Add(added)));
                    }
                },
                None => {
                    // Basically the mesh is not built already so add it.
                    let voxels = self.section_voxels(registry, &position, y);
                    let mesh = RawChunkMesh::build(section_position, voxels);
                    self.chunks.clean_section(&position, y);
                    let shown = mesh.clone();
                    self.meshes_being_rendered.insert(shown);
                    events.push(ChunkUpdates::Add(mesh));
                    proof {
                        assert(self@.built_meshes =~= before.built_meshes);
                        assert(updates_view(events@) =~= said.push(ChunkUpdatesView::Add(fresh)));
                    }
                },
            }
        }
    }

    /// Brings the meshes on show up to date for a viewer in the chunk
    /// `player_chunk`, and returns what a renderer has to hear of it, in the
    /// order in which it has to hear it.
    pub fn update_meshes(&mut self, player_chunk: ChunkPosition, game: &Game) -> (events: Vec<
        ChunkUpdates,
    >)
        requires
            old(self).wf(),
            in_reach(player_chunk, game.game_settings.chunk_render_distance as int),
        ensures
            final(self).wf(),
            is_tick(
                old(self)@,
                player_chunk,
                game.game_settings.chunk_render_distance as int,
                game.block_registery,
                final(self)@,
                updates_view(events@),
            ),
    {
        let distance: usize = game.game_settings.chunk_render_distance;
        let registry = &game.block_registery;
        let ghost d = distance as int;
        let ghost before = self@;
        // Step One: Get the chunks that need to be rendered
        self.ensure_chunks(player_chunk, distance);
        let ghost chunks = self@.chunks;
        // Step Two: Remove the meshes that are should not be rendered
        let mut events = self.retire_meshes(player_chunk, distance);
        let ghost removed = updates_view(events@);
        let ghost start = Tick { world: self@, events: removed };
        proof {
            assert(retired_keys(before, player_chunk, d) =~= retired_keys(
                WorldView {
                    noise: before.noise,
                    chunks: chunks,
                    built_meshes: before.built_meshes,
                    meshes_being_rendered: before.meshes_being_rendered,
                },
                player_chunk,
                d,
            ));
            assert forall|p: ChunkPosition| is_required(player_chunk, d, p) implies #[trigger]
                chunks.contains_key(p) by {
                assert(is_required_before(player_chunk, d, p, 2 * d + 1, 0));
            }
        }
        // Step Three: Build Meshes the need to be rendered. Update the ones that are already being rendered
        let render_distance: i64 = distance as i64;
        let first_x: i64 = player_chunk.x - render_distance;
        let first_z: i64 = player_chunk.z - render_distance;
        let mut x: i64 = first_x;
        while x <= player_chunk.x + render_distance
            invariant
                self.wf(),
                in_reach(player_chunk, d),
                d == distance as int,
                render_distance == distance,
                first_x == player_chunk.x - render_distance,
                first_z == player_chunk.z - render_distance,
                first_x <= x <= player_chunk.x + render_distance + 1,
                forall|p: ChunkPosition|
                    is_required(player_chunk, d, p) ==> #[trigger] self@.chunks.contains_key(p),
                (Tick { world: self@, events: updates_view(events@) }) == refresh_rows(
                    start,
                    *registry,
                    player_chunk,
                    d,
                    x - first_x,
                ),
            decreases player_chunk.x + render_distance + 1 - x,
        {
            let ghost row = x - first_x;
            let ghost row_start = Tick { world: self@, events: updates_view(events@) };
            let mut z: i64 = first_z;
            while z <= player_chunk.z + render_distance
                invariant
                    self.wf(),
                    in_reach(player_chunk, d),
                    d == distance as int,
                    render_distance == distance,
                    first_x == player_chunk.x - render_distance,
                    first_z == player_chunk.z - render_distance,
                    first_x <= x <= player_chunk.x + render_distance,
                    first_z <= z <= player_chunk.z + render_distance + 1,
                    row == x - first_x,
                    forall|p: ChunkPosition|
                        is_required(player_chunk, d, p) ==> #[trigger] self@.chunks.contains_key(p),
                    (Tick { world: self@, events: updates_view(events@) }) == refresh_row(
                        row_start,
                        *registry,
                        player_chunk,
                        d,
                        row,
                        z - first_z,
                    ),
                decreases player_chunk.z + render_distance + 1 - z,
            {
                let position = ChunkPosition::new(x, z);
                let ghost column = z - first_z;
                let ghost chunk_start = Tick { world: self@, events: updates_view(events@) };
                proof {
                    assert(position == chunk_at(player_chunk, d, row, column));
                    assert(is_required(player_chunk, d, position));
                }
                let mut y: usize = 0;
                while y < CHUNK_SECTIONS
                    invariant
                        self.wf(),
                        y <= CHUNK_SECTIONS,
                        -CHUNK_LIMIT <= position.x <= CHUNK_LIMIT,
                        -CHUNK_LIMIT <= position.z <= CHUNK_LIMIT,
                        self@.chunks.dom() == chunk_start.world.chunks.dom(),
                        self@.chunks.contains_key(position),
                        (Tick { world: self@, events: updates_view(events@) })
                            == refresh_sections(chunk_start, *registry, position, y as int),
                    decreases CHUNK_SECTIONS - y,
                {
                    proof {
                        lemma_refresh_section_keeps_chunks(
                            Tick { world: self@, events: updates_view(events@) },
                            *registry,
                            position,
                            y as int,
                        );
                    }
                    self.refresh_section(registry, position, y, &mut events);
                    y += 1;
                }
                z += 1;
            }
            x += 1;
        }
        proof {
            assert(is_tick_through(
                before,
                player_chunk,
                d,
                *registry,
                self@,
                updates_view(events@),
                chunks,
                removed,
            ));
        }
        events
    }

    /// Generates the chunks within the render distance that the world lacks.
    pub fn ensure_chunks(&mut self, center: ChunkPosition, distance: usize)
        requires
            old(self).wf(),
            in_reach(center, distance as int),
        ensures
            final(self).wf(),
            final(self)@.noise == old(self)@.noise,
            final(self)@.built_meshes == old(self)@.built_meshes,
            final(self)@.meshes_being_rendered == old(self)@.meshes_being_rendered,
            chunks_ensured(
                old(self)@.chunks,
                final(self)@.chunks,
                center,
                distance as int,
                old(self)@.noise,
            ),
    {
        let render_distance: i64 = distance as i64;
        let first_x: i64 = center.x - render_distance;
        let first_z: i64 = center.z - render_distance;
        let mut x: i64 = first_x;
        while x <= center.x + render_distance
            invariant
                self.wf(),
                in_reach(center, distance as int),
                render_distance == distance,
                first_x == center.x - render_distance,
                first_z == center.z - render_distance,
                first_x <= x <= center.x + render_distance + 1,
                self@.noise == old(self)@.noise,
                self@.built_meshes == old(self)@.built_meshes,
                self@.meshes_being_rendered == old(self)@.meshes_being_rendered,
                chunks_ensured_upto(
                    old(self)@.chunks,
                    self@.chunks,
                    center,
                    distance as int,
                    old(self)@.noise,
                    x - first_x,
                    0,
                ),
            decreases center.x + render_distance + 1 - x,
        {
            let mut z: i64 = first_z;
            while z <= center.z + render_distance
                invariant
                    self.wf(),
                    in_reach(center, distance as int),
                    render_distance == distance,
                    first_x == center.x - render_distance,
                    first_z == center.z - render_distance,
                    first_x <= x <= center.x + render_distance,
                    first_z <= z <= center.z + render_distance + 1,
                    self@.noise == old(self)@.noise,
                    self@.built_meshes == old(self)@.built_meshes,
                    self@.meshes_being_rendered == old(self)@.meshes_being_rendered,
                    chunks_ensured_upto(
                        old(self)@.chunks,
                        self@.chunks,
                        center,
                        distance as int,
                        old(self)@.noise,
                        x - first_x,
                        z - first_z,
                    ),
                decreases center.z + render_distance + 1 - z,
            {
                let position = ChunkPosition::new(x, z);
                let ghost now = self@.chunks;
                if !self.chunks.contains_key(&position) {
                    // Generating a chunk takes long: the tick waits for it.
                    let chunk = Chunk::generate(position, &self.noise);
                    self.chunks.insert(chunk);
                }
                proof {
                    let before = old(self)@.chunks;
                    let after = self@.chunks;
                    let d = distance as int;
                    let noise = old(self)@.noise;
                    let (row, column) = (x - first_x, z - first_z);
                    assert forall|p: ChunkPosition|
                        #[trigger] after.contains_key(p) <==> (before.contains_key(p)
                            || is_required_before(center, d, p, row, column + 1)) by {
                        assert(now.contains_key(p) <==> (before.contains_key(p)
                            || is_required_before(center, d, p, row, column)));
                    }
                    assert forall|p: ChunkPosition| before.contains_key(p) implies #[trigger] after[p]
                        == before[p] by {
                        assert(now[p] == before[p]);
                    }
                    assert forall|p: ChunkPosition|
                        is_required_before(center, d, p, row, column + 1) && !before.contains_key(
                            p,
                        ) implies #[trigger] is_terrain(after[p], p, noise) by {
                        if p != position {
                            assert(is_required_before(center, d, p, row, column));
                            assert(is_terrain(now[p], p, noise));
                        } else {
                            assert(!is_required_before(center, d, p, row, column));
                            assert(!now.contains_key(p));
                        }
                    }
                }
                z += 1;
            }
            x += 1;
        }
    }
}

} // verus!
