use crate::blocks::BlockRegistery;
use crate::chunk::{lemma_section_with_block, ChunkView, Section, CHUNK_SECTIONS};
use crate::chunk_map::clean_section;
use crate::chunk_mesh::{mesh_of, MeshView};
use crate::position::{BlockPosition, ChunkPosition};
use crate::voxel_state::{applied_all, applied_positions, first_at, lemma_first_at, ChunkUpdatesView};
use crate::world::{
    chunk_at, chunks_ensured, in_reach, is_removal_of, is_required, is_required_before, is_tick,
    is_tick_through, refresh_row, refresh_rows, refresh_section, refresh_sections, retire,
    has_block, retired_keys, section_key, with_block, Tick, World, WorldView, CHUNK_LIMIT,
};
use vstd::prelude::*;

verus! {

/// Whether a position is that of a section: the lowest corner of one of the 16
/// sections of some chunk.
pub open spec fn is_section_key(key: BlockPosition) -> bool {
    &&& key.x as int % 16 == 0
    &&& key.z as int % 16 == 0
    &&& key.y as int % 16 == 0
    &&& 0 <= key.y < 16 * CHUNK_SECTIONS
}

/// Whether a position is that of a section which exists in the given chunks
/// and holds a block other than air.
pub open spec fn is_filled_section(chunks: Map<ChunkPosition, ChunkView>, key: BlockPosition) -> bool {
    &&& is_section_key(key)
    &&& chunks.contains_key(key.spec_chunk())
    &&& chunks[key.spec_chunk()].sections[key.y as int / 16].spec_contains_non_air_blocks()
}

/// Whether every chunk of a world has its 16 sections and stands under its own
/// position, every mesh stands under its own position, and no section has a
/// mesh both parked and on show.
pub open spec fn view_wf(w: WorldView) -> bool {
    &&& forall|p: ChunkPosition|
        w.chunks.contains_key(p) ==> (#[trigger] w.chunks[p]).wf() && w.chunks[p].position == p
    &&& forall|key: BlockPosition|
        w.built_meshes.contains_key(key) ==> (#[trigger] w.built_meshes[key]).position == key
    &&& forall|key: BlockPosition|
        w.meshes_being_rendered.contains_key(key) ==> (
        #[trigger] w.meshes_being_rendered[key]).position == key
    &&& forall|key: BlockPosition|
        !(w.built_meshes.contains_key(key) && w.meshes_being_rendered.contains_key(key))
}

/// A world that is well formed is in order.
pub proof fn lemma_world_in_order(world: World)
    requires
        world.wf(),
    ensures
        view_wf(world@),
{
    assert forall|p: ChunkPosition| world@.chunks.contains_key(p) implies (
    #[trigger] world@.chunks[p]).wf() && world@.chunks[p].position == p by {
        world.chunks.lemma_keyed_by_position(p);
    }
    assert forall|key: BlockPosition| world@.built_meshes.contains_key(key) implies (
    #[trigger] world@.built_meshes[key]).position == key by {
        world.built_meshes.lemma_keyed_by_position(key);
    }
    assert forall|key: BlockPosition| world@.meshes_being_rendered.contains_key(key) implies (
    #[trigger] world@.meshes_being_rendered[key]).position == key by {
        world.meshes_being_rendered.lemma_keyed_by_position(key);
    }
}

/// Whether two maps of chunks hold the same chunks with the same blocks; they
/// may differ in which sections are dirty.
pub open spec fn same_blocks(a: Map<ChunkPosition, ChunkView>, b: Map<ChunkPosition, ChunkView>) -> bool {
    &&& a.dom() == b.dom()
    &&& forall|p: ChunkPosition|
        a.contains_key(p) ==> {
            &&& (#[trigger] b[p]).position == a[p].position
            &&& b[p].sections.len() == a[p].sections.len()
            &&& forall|s: int|
                0 <= s < a[p].sections.len() ==> (#[trigger] b[p].sections[s]).block_store
                    == a[p].sections[s].block_store
        }
}

/// Whether a tick that has come to section `count` of the chunk in row `row`
/// and column `column` of the square has dealt with the section at `key`.
pub open spec fn dealt_with(
    center: ChunkPosition,
    distance: int,
    key: BlockPosition,
    row: int,
    column: int,
    count: int,
) -> bool {
    &&& is_section_key(key)
    &&& (is_required_before(center, distance, key.spec_chunk(), row, column) || (key.spec_chunk()
        == chunk_at(center, distance, row, column) && key.y as int / 16 < count))
}

/// What holds of a tick under way that began at `start` and has come to
/// section `count` of the chunk in row `row` and column `column`:
/// the blocks are as they were; on show is what was on show at the start and
/// every filled section that was dealt with; nothing that was said is taken
/// back, nothing is removed any more, and every filled section that was dealt
/// with and was not on show has been added.
pub open spec fn refreshed(
    start: Tick,
    now: Tick,
    center: ChunkPosition,
    distance: int,
    row: int,
    column: int,
    count: int,
) -> bool {
    &&& now.world.noise == start.world.noise
    &&& same_blocks(start.world.chunks, now.world.chunks)
    &&& forall|key: BlockPosition| #[trigger]
        now.world.meshes_being_rendered.contains_key(key) <==> (
        start.world.meshes_being_rendered.contains_key(key) || (dealt_with(
            center,
            distance,
            key,
            row,
            column,
            count,
        ) && is_filled_section(start.world.chunks, key)))
    &&& forall|key: BlockPosition|
        now.world.meshes_being_rendered.contains_key(key) ==> (
        #[trigger] now.world.meshes_being_rendered[key]).position == key
    &&& forall|key: BlockPosition| #[trigger]
        now.world.built_meshes.contains_key(key) ==> start.world.built_meshes.contains_key(key)
            && now.world.built_meshes[key] == start.world.built_meshes[key]
    &&& forall|key: BlockPosition|
        !(now.world.built_meshes.contains_key(key) && now.world.meshes_being_rendered.contains_key(
            key,
        ))
    &&& start.events.len() <= now.events.len()
    &&& forall|i: int| 0 <= i < start.events.len() ==> #[trigger] now.events[i] == start.events[i]
    &&& forall|i: int|
        start.events.len() <= i < now.events.len() ==> !((#[trigger] now.events[i]) is Remove)
    &&& forall|i: int|
        start.events.len() <= i < now.events.len() ==> dealt_with(
            center,
            distance,
            (#[trigger] now.events[i]).position(),
            row,
            column,
            count,
        )
    &&& forall|key: BlockPosition|
        dealt_with(center, distance, key, row, column, count) && #[trigger] is_filled_section(
            start.world.chunks,
            key,
        ) && !start.world.meshes_being_rendered.contains_key(key) ==> exists|i: int|
            start.events.len() <= i < now.events.len() && (#[trigger] now.events[i]) is Add
                && now.events[i].position() == key
}

/// The position of a section of a chunk that is not too far out names that
/// chunk and that section, and no other.
pub proof fn lemma_section_key(c: ChunkPosition, s: int)
    requires
        -CHUNK_LIMIT <= c.x <= CHUNK_LIMIT,
        -CHUNK_LIMIT <= c.z <= CHUNK_LIMIT,
        0 <= s < CHUNK_SECTIONS,
    ensures
        is_section_key(section_key(c, s)),
        section_key(c, s).spec_chunk() == c,
        section_key(c, s).y as int / 16 == s,
{
}

/// A position of a section is the position of the section that it names.
pub proof fn lemma_key_section(key: BlockPosition)
    requires
        is_section_key(key),
    ensures
        section_key(key.spec_chunk(), key.y as int / 16) == key,
        0 <= key.y as int / 16 < CHUNK_SECTIONS,
{
}

/// Whether every chunk within the render distance is there.
pub open spec fn has_required_chunks(
    chunks: Map<ChunkPosition, ChunkView>,
    center: ChunkPosition,
    distance: int,
) -> bool {
    forall|p: ChunkPosition| is_required(center, distance, p) ==> #[trigger] chunks.contains_key(p)
}

/// Once a tick has dealt with section `count` of a chunk, it has dealt with
/// what it had dealt with before and with that section.
proof fn lemma_dealt_with_next_section(
    center: ChunkPosition,
    distance: int,
    key: BlockPosition,
    row: int,
    column: int,
    count: int,
)
    requires
        in_reach(center, distance),
        0 <= row <= 2 * distance,
        0 <= column <= 2 * distance,
        0 <= count < CHUNK_SECTIONS,
    ensures
        dealt_with(center, distance, key, row, column, count + 1) <==> (dealt_with(
            center,
            distance,
            key,
            row,
            column,
            count,
        ) || key == section_key(chunk_at(center, distance, row, column), count)),
        !dealt_with(
            center,
            distance,
            section_key(chunk_at(center, distance, row, column), count),
            row,
            column,
            count,
        ),
{
    let c = chunk_at(center, distance, row, column);
    lemma_section_key(c, count);
    if is_section_key(key) {
        lemma_key_section(key);
    }
}

/// After the last section of a chunk comes the first of the next chunk in the
/// row, and after the last chunk of a row the first of the next row.
proof fn lemma_dealt_with_next_chunk(
    center: ChunkPosition,
    distance: int,
    key: BlockPosition,
    row: int,
    column: int,
)
    requires
        in_reach(center, distance),
        0 <= row <= 2 * distance,
        0 <= column <= 2 * distance,
    ensures
        dealt_with(center, distance, key, row, column, CHUNK_SECTIONS as int) <==> dealt_with(
            center,
            distance,
            key,
            row,
            column + 1,
            0,
        ),
        dealt_with(center, distance, key, row, 2 * distance + 1, 0) <==> dealt_with(
            center,
            distance,
            key,
            row + 1,
            0,
            0,
        ),
{
    if is_section_key(key) {
        lemma_key_section(key);
    }
}

/// What holds of a tick under way still holds once it has dealt with the next
/// section.
pub proof fn lemma_refresh_step(
    start: Tick,
    now: Tick,
    registry: BlockRegistery,
    center: ChunkPosition,
    distance: int,
    row: int,
    column: int,
    count: int,
)
    requires
        in_reach(center, distance),
        0 <= row <= 2 * distance,
        0 <= column <= 2 * distance,
        0 <= count < CHUNK_SECTIONS,
        view_wf(start.world),
        has_required_chunks(start.world.chunks, center, distance),
        refreshed(start, now, center, distance, row, column, count),
    ensures
        refreshed(
            start,
            refresh_section(now, registry, chunk_at(center, distance, row, column), count),
            center,
            distance,
            row,
            column,
            count + 1,
        ),
{
    let c = chunk_at(center, distance, row, column);
    let key = section_key(c, count);
    let next = refresh_section(now, registry, c, count);
    lemma_section_key(c, count);
    assert(is_required(center, distance, c));
    assert(start.world.chunks.contains_key(c));
    assert(now.world.chunks.contains_key(c));
    assert(start.world.chunks[c].wf());
    let section = now.world.chunks[c].sections[count];
    assert(section.block_store == start.world.chunks[c].sections[count].block_store);
    let filled = section.spec_contains_non_air_blocks();
    assert(filled == is_filled_section(start.world.chunks, key));
    assert forall|k: BlockPosition|
        dealt_with(center, distance, k, row, column, count + 1) <==> (dealt_with(
            center,
            distance,
            k,
            row,
            column,
            count,
        ) || k == key) by {
        lemma_dealt_with_next_section(center, distance, k, row, column, count);
    }
    lemma_dealt_with_next_section(center, distance, key, row, column, count);
    // The blocks stay as they were.
    assert(same_blocks(start.world.chunks, next.world.chunks)) by {
        let cleaned = now.world.chunks.insert(c, clean_section(now.world.chunks[c], count));
        assert(cleaned.dom() =~= now.world.chunks.dom());
        assert(same_blocks(start.world.chunks, cleaned)) by {
            assert forall|p: ChunkPosition| start.world.chunks.contains_key(p) implies {
                &&& (#[trigger] cleaned[p]).position == start.world.chunks[p].position
                &&& cleaned[p].sections.len() == start.world.chunks[p].sections.len()
                &&& forall|s: int|
                    0 <= s < start.world.chunks[p].sections.len() ==> (
                    #[trigger] cleaned[p].sections[s]).block_store
                        == start.world.chunks[p].sections[s].block_store
            } by {
                assert(now.world.chunks[p].position == start.world.chunks[p].position);
                assert forall|s: int| 0 <= s < start.world.chunks[p].sections.len() implies (
                #[trigger] cleaned[p].sections[s]).block_store
                    == start.world.chunks[p].sections[s].block_store by {
                    assert(now.world.chunks[p].sections[s].block_store
                        == start.world.chunks[p].sections[s].block_store);
                }
            }
        }
        assert(next.world.chunks == cleaned || next.world.chunks == now.world.chunks);
    }
    assert forall|k: BlockPosition| #[trigger] next.world.built_meshes.contains_key(k) implies
        start.world.built_meshes.contains_key(k) && next.world.built_meshes[k]
        == start.world.built_meshes[k] by {
        assert(now.world.built_meshes.contains_key(k));
    }
    let said = start.events.len() as int;
    if !filled {
        assert(next == now);
    } else if now.world.meshes_being_rendered.contains_key(key) {
        if section.dirty {
            let last = now.events.len() as int;
            assert(next.events[last] is Update);
            assert(next.events[last].position() == key);
            assert forall|k: BlockPosition|
                dealt_with(center, distance, k, row, column, count + 1) && #[trigger] is_filled_section(
                    start.world.chunks,
                    k,
                ) && !start.world.meshes_being_rendered.contains_key(k) implies exists|i: int|
                said <= i < next.events.len() && (#[trigger] next.events[i]) is Add
                    && next.events[i].position() == k by {
                assert(k != key);
                let i = choose|i: int|
                    said <= i < now.events.len() && (#[trigger] now.events[i]) is Add
                        && now.events[i].position() == k;
                assert(next.events[i] == now.events[i]);
            }
            assert forall|i: int| said <= i < next.events.len() implies dealt_with(
                center,
                distance,
                (#[trigger] next.events[i]).position(),
                row,
                column,
                count + 1,
            ) by {
                if i < last {
                    assert(next.events[i] == now.events[i]);
                }
            }
        } else {
            assert(next == now);
        }
    } else {
        let last = now.events.len() as int;
        assert(next.events.len() == last + 1);
        assert(next.events[last] is Add);
        assert(next.events[last].position() == key) by {
            if now.world.built_meshes.contains_key(key) {
                assert(start.world.built_meshes[key].position == key);
            }
        }
        assert forall|k: BlockPosition|
            dealt_with(center, distance, k, row, column, count + 1) && #[trigger] is_filled_section(
                start.world.chunks,
                k,
            ) && !start.world.meshes_being_rendered.contains_key(k) implies exists|i: int|
            said <= i < next.events.len() && (#[trigger] next.events[i]) is Add
                && next.events[i].position() == k by {
            if k != key {
                let i = choose|i: int|
                    said <= i < now.events.len() && (#[trigger] now.events[i]) is Add
                        && now.events[i].position() == k;
                assert(next.events[i] == now.events[i]);
            }
        }
        assert forall|i: int| said <= i < next.events.len() implies dealt_with(
            center,
            distance,
            (#[trigger] next.events[i]).position(),
            row,
            column,
            count + 1,
        ) by {
            if i < last {
                assert(next.events[i] == now.events[i]);
            }
        }
        assert forall|i: int| said <= i < next.events.len() implies !((
        #[trigger] next.events[i]) is Remove) by {
            if i < last {
                assert(next.events[i] == now.events[i]);
            }
        }
    }
}

/// What holds of a tick under way depends on how far the tick has come only
/// through the sections that it has dealt with.
proof fn lemma_refreshed_same_progress(
    start: Tick,
    now: Tick,
    center: ChunkPosition,
    distance: int,
    from: (int, int, int),
    to: (int, int, int),
)
    requires
        refreshed(start, now, center, distance, from.0, from.1, from.2),
        forall|key: BlockPosition|
            dealt_with(center, distance, key, from.0, from.1, from.2) <==> dealt_with(
                center,
                distance,
                key,
                to.0,
                to.1,
                to.2,
            ),
    ensures
        refreshed(start, now, center, distance, to.0, to.1, to.2),
{
    let said = start.events.len() as int;
    assert forall|key: BlockPosition|
        dealt_with(center, distance, key, to.0, to.1, to.2) && #[trigger] is_filled_section(
            start.world.chunks,
            key,
        ) && !start.world.meshes_being_rendered.contains_key(key) implies exists|i: int|
        said <= i < now.events.len() && (#[trigger] now.events[i]) is Add && now.events[i].position()
            == key by {
        assert(dealt_with(center, distance, key, from.0, from.1, from.2));
    }
}

/// What holds of a tick under way when it comes to a chunk holds, for the
/// sections dealt with, after any number of that chunk's sections.
pub proof fn lemma_refresh_sections(
    start: Tick,
    now: Tick,
    registry: BlockRegistery,
    center: ChunkPosition,
    distance: int,
    row: int,
    column: int,
    count: int,
)
    requires
        in_reach(center, distance),
        0 <= row <= 2 * distance,
        0 <= column <= 2 * distance,
        0 <= count <= CHUNK_SECTIONS,
        view_wf(start.world),
        has_required_chunks(start.world.chunks, center, distance),
        refreshed(start, now, center, distance, row, column, 0),
    ensures
        refreshed(
            start,
            refresh_sections(now, registry, chunk_at(center, distance, row, column), count),
            center,
            distance,
            row,
            column,
            count,
        ),
    decreases count,
{
    if count > 0 {
        lemma_refresh_sections(start, now, registry, center, distance, row, column, count - 1);
        lemma_refresh_step(
            start,
            refresh_sections(now, registry, chunk_at(center, distance, row, column), count - 1),
            registry,
            center,
            distance,
            row,
            column,
            count - 1,
        );
    }
}

/// What holds of a tick under way when it comes to a row holds, for the
/// sections dealt with, after any number of that row's chunks.
pub proof fn lemma_refresh_row(
    start: Tick,
    now: Tick,
    registry: BlockRegistery,
    center: ChunkPosition,
    distance: int,
    row: int,
    columns: int,
)
    requires
        in_reach(center, distance),
        0 <= row <= 2 * distance,
        0 <= columns <= 2 * distance + 1,
        view_wf(start.world),
        has_required_chunks(start.world.chunks, center, distance),
        refreshed(start, now, center, distance, row, 0, 0),
    ensures
        refreshed(
            start,
            refresh_row(now, registry, center, distance, row, columns),
            center,
            distance,
            row,
            columns,
            0,
        ),
    decreases columns,
{
    if columns > 0 {
        lemma_refresh_row(start, now, registry, center, distance, row, columns - 1);
        let before = refresh_row(now, registry, center, distance, row, columns - 1);
        lemma_refresh_sections(
            start,
            before,
            registry,
            center,
            distance,
            row,
            columns - 1,
            CHUNK_SECTIONS as int,
        );
        let after = refresh_row(now, registry, center, distance, row, columns);
        assert forall|key: BlockPosition|
            dealt_with(center, distance, key, row, columns - 1, CHUNK_SECTIONS as int)
                <==> dealt_with(center, distance, key, row, columns, 0) by {
            lemma_dealt_with_next_chunk(center, distance, key, row, columns - 1);
        }
        lemma_refreshed_same_progress(
            start,
            after,
            center,
            distance,
            (row, columns - 1, CHUNK_SECTIONS as int),
            (row, columns, 0),
        );
    }
}

/// What holds of a tick under way holds, for the sections dealt with, after
/// any number of rows.
pub proof fn lemma_refresh_rows(
    start: Tick,
    registry: BlockRegistery,
    center: ChunkPosition,
    distance: int,
    rows: int,
)
    requires
        in_reach(center, distance),
        0 <= rows <= 2 * distance + 1,
        view_wf(start.world),
        has_required_chunks(start.world.chunks, center, distance),
    ensures
        refreshed(
            start,
            refresh_rows(start, registry, center, distance, rows),
            center,
            distance,
            rows,
            0,
            0,
        ),
    decreases rows,
{
    if rows > 0 {
        lemma_refresh_rows(start, registry, center, distance, rows - 1);
        let before = refresh_rows(start, registry, center, distance, rows - 1);
        lemma_refresh_row(start, before, registry, center, distance, rows - 1, 2 * distance + 1);
        let after = refresh_rows(start, registry, center, distance, rows);
        assert forall|key: BlockPosition|
            dealt_with(center, distance, key, rows - 1, 2 * distance + 1, 0) <==> dealt_with(
                center,
                distance,
                key,
                rows,
                0,
                0,
            ) by {
            lemma_dealt_with_next_chunk(center, distance, key, rows - 1, 0);
        }
        lemma_refreshed_same_progress(
            start,
            after,
            center,
            distance,
            (rows - 1, 2 * distance + 1, 0),
            (rows, 0, 0),
        );
    }
}

/// The world in which a tick deals with the sections: the chunks of the world
/// before it and those generated for it, and the meshes outside the render
/// distance parked.
pub open spec fn retired_world(
    before: WorldView,
    chunks: Map<ChunkPosition, ChunkView>,
    center: ChunkPosition,
    distance: int,
) -> WorldView {
    retire(
        WorldView {
            noise: before.noise,
            chunks: chunks,
            built_meshes: before.built_meshes,
            meshes_being_rendered: before.meshes_being_rendered,
        },
        center,
        distance,
    )
}

/// Generating the missing chunks and parking the meshes outside the render
/// distance keeps a world in order and leaves every chunk within the render
/// distance in place.
pub proof fn lemma_retired_world(
    before: WorldView,
    chunks: Map<ChunkPosition, ChunkView>,
    center: ChunkPosition,
    distance: int,
)
    requires
        view_wf(before),
        in_reach(center, distance),
        chunks_ensured(before.chunks, chunks, center, distance, before.noise),
    ensures
        view_wf(retired_world(before, chunks, center, distance)),
        has_required_chunks(retired_world(before, chunks, center, distance).chunks, center, distance),
{
    let w = retired_world(before, chunks, center, distance);
    assert forall|p: ChunkPosition| w.chunks.contains_key(p) implies (#[trigger] w.chunks[p]).wf()
        && w.chunks[p].position == p by {
        if before.chunks.contains_key(p) {
            assert(chunks[p] == before.chunks[p]);
        } else {
            assert(is_required_before(center, distance, p, 2 * distance + 1, 0));
            assert(crate::chunk::is_terrain(chunks[p], p, before.noise));
        }
    }
    assert forall|p: ChunkPosition| is_required(center, distance, p) implies #[trigger]
        w.chunks.contains_key(p) by {
        assert(is_required_before(center, distance, p, 2 * distance + 1, 0));
    }
}

/// A tick keeps a world in order: afterwards every chunk has its 16 sections
/// and no section has a mesh both parked and on show.
pub proof fn lemma_tick_keeps_order(
    before: WorldView,
    center: ChunkPosition,
    distance: int,
    registry: BlockRegistery,
    after: WorldView,
    events: Seq<ChunkUpdatesView>,
)
    requires
        view_wf(before),
        in_reach(center, distance),
        is_tick(before, center, distance, registry, after, events),
    ensures
        view_wf(after),
{
    let (chunks, removed) = choose|
        chunks: Map<ChunkPosition, ChunkView>,
        removed: Seq<ChunkUpdatesView>,
    | #[trigger]
        is_tick_through(before, center, distance, registry, after, events, chunks, removed);
    let w = retired_world(before, chunks, center, distance);
    let start = Tick { world: w, events: removed };
    lemma_retired_world(before, chunks, center, distance);
    lemma_refresh_rows(start, registry, center, distance, 2 * distance + 1);
    assert forall|p: ChunkPosition| after.chunks.contains_key(p) implies (
    #[trigger] after.chunks[p]).wf() && after.chunks[p].position == p by {
        assert(w.chunks.contains_key(p));
        assert(w.chunks[p].wf());
    }
    assert forall|key: BlockPosition| after.built_meshes.contains_key(key) implies (
    #[trigger] after.built_meshes[key]).position == key by {
        assert(w.built_meshes[key].position == key);
    }
}

/// After a tick, the sections with a mesh on show are exactly the sections
/// that hold a block other than air and belong to a chunk within the render
/// distance of the viewer.
///
/// This holds where every mesh that was on show before the tick, within the
/// render distance, stands for such a section: a mesh on show whose section
/// has lost its last block stays on show.
pub proof fn lemma_tick_shows_filled_sections(
    before: WorldView,
    center: ChunkPosition,
    distance: int,
    registry: BlockRegistery,
    after: WorldView,
    events: Seq<ChunkUpdatesView>,
)
    requires
        view_wf(before),
        in_reach(center, distance),
        is_tick(before, center, distance, registry, after, events),
        forall|key: BlockPosition|
            before.meshes_being_rendered.contains_key(key) && is_required(
                center,
                distance,
                key.spec_chunk(),
            ) ==> #[trigger] is_filled_section(after.chunks, key),
    ensures
        forall|key: BlockPosition| #[trigger]
            after.meshes_being_rendered.contains_key(key) <==> (is_required(
                center,
                distance,
                key.spec_chunk(),
            ) && is_filled_section(after.chunks, key)),
        after.meshes_being_rendered.dom() == Set::new(
            |key: BlockPosition|
                is_required(center, distance, key.spec_chunk()) && is_filled_section(
                    after.chunks,
                    key,
                ),
        ),
{
    let (chunks, removed) = choose|
        chunks: Map<ChunkPosition, ChunkView>,
        removed: Seq<ChunkUpdatesView>,
    | #[trigger]
        is_tick_through(before, center, distance, registry, after, events, chunks, removed);
    let w = retired_world(before, chunks, center, distance);
    let start = Tick { world: w, events: removed };
    lemma_retired_world(before, chunks, center, distance);
    lemma_refresh_rows(start, registry, center, distance, 2 * distance + 1);
    assert forall|key: BlockPosition| #[trigger]
        after.meshes_being_rendered.contains_key(key) <==> (is_required(
            center,
            distance,
            key.spec_chunk(),
        ) && is_filled_section(after.chunks, key)) by {
        let c = key.spec_chunk();
        if is_section_key(key) && w.chunks.contains_key(c) {
            lemma_key_section(key);
            assert(w.chunks[c].wf());
            assert(after.chunks[c].sections[key.y as int / 16].block_store
                == w.chunks[c].sections[key.y as int / 16].block_store);
        }
        assert(is_filled_section(after.chunks, key) == is_filled_section(w.chunks, key));
        if w.meshes_being_rendered.contains_key(key) {
            assert(before.meshes_being_rendered.contains_key(key));
            assert(is_required(center, distance, c));
            assert(is_filled_section(after.chunks, key));
        }
        if is_required(center, distance, c) && is_filled_section(w.chunks, key) {
            assert(is_required_before(center, distance, c, 2 * distance + 1, 0));
            assert(dealt_with(center, distance, key, 2 * distance + 1, 0, 0));
        }
    }
    assert(after.meshes_being_rendered.dom() =~= Set::new(
        |key: BlockPosition|
            is_required(center, distance, key.spec_chunk()) && is_filled_section(after.chunks, key),
    ));
}

/// Within a tick every `Remove` comes before every `Add` and `Update`.
pub proof fn lemma_tick_removes_first(
    before: WorldView,
    center: ChunkPosition,
    distance: int,
    registry: BlockRegistery,
    after: WorldView,
    events: Seq<ChunkUpdatesView>,
)
    requires
        view_wf(before),
        in_reach(center, distance),
        is_tick(before, center, distance, registry, after, events),
    ensures
        forall|i: int, j: int|
            0 <= i < j < events.len() && (#[trigger] events[j]) is Remove ==> (
            #[trigger] events[i]) is Remove,
{
    let (chunks, removed) = choose|
        chunks: Map<ChunkPosition, ChunkView>,
        removed: Seq<ChunkUpdatesView>,
    | #[trigger]
        is_tick_through(before, center, distance, registry, after, events, chunks, removed);
    let w = retired_world(before, chunks, center, distance);
    let start = Tick { world: w, events: removed };
    lemma_retired_world(before, chunks, center, distance);
    lemma_refresh_rows(start, registry, center, distance, 2 * distance + 1);
    assert forall|i: int, j: int|
        0 <= i < j < events.len() && (#[trigger] events[j]) is Remove implies (
    #[trigger] events[i]) is Remove by {
        assert(j < removed.len());
        assert(events[i] == removed[i]);
    }
}

/// A section that is on show, leaves the render distance with one tick and
/// is within it again at the next, holding a block, is removed by the first
/// tick and added by the second: a renderer that hears the updates of
/// the two ticks in order hears the `Remove` before the `Add`, and no `Add`
/// or `Update` of that section in between.
pub proof fn lemma_remove_before_add(
    world: WorldView,
    registry: BlockRegistery,
    first_center: ChunkPosition,
    first_distance: int,
    between: WorldView,
    first_events: Seq<ChunkUpdatesView>,
    second_center: ChunkPosition,
    second_distance: int,
    after: WorldView,
    second_events: Seq<ChunkUpdatesView>,
    key: BlockPosition,
)
    requires
        view_wf(world),
        in_reach(first_center, first_distance),
        in_reach(second_center, second_distance),
        is_tick(world, first_center, first_distance, registry, between, first_events),
        is_tick(between, second_center, second_distance, registry, after, second_events),
        world.meshes_being_rendered.contains_key(key),
        !is_required(first_center, first_distance, key.spec_chunk()),
        is_required(second_center, second_distance, key.spec_chunk()),
        is_filled_section(after.chunks, key),
    ensures
        exists|i: int, j: int|
            {
                &&& 0 <= i < first_events.len()
                &&& 0 <= j < second_events.len()
                &&& #[trigger] first_events[i] == ChunkUpdatesView::Remove(key)
                &&& (#[trigger] second_events[j]) is Add
                &&& second_events[j].position() == key
                &&& (first_events + second_events)[i] == first_events[i]
                &&& (first_events + second_events)[first_events.len() + j] == second_events[j]
                &&& forall|n: int|
                    i < n < first_events.len() ==> (#[trigger] first_events[n]).position() != key
            },
        !between.meshes_being_rendered.contains_key(key),
        after.meshes_being_rendered.contains_key(key),
{
    // The first tick.
    let (chunks, removed) = choose|
        chunks: Map<ChunkPosition, ChunkView>,
        removed: Seq<ChunkUpdatesView>,
    | #[trigger]
        is_tick_through(
            world,
            first_center,
            first_distance,
            registry,
            between,
            first_events,
            chunks,
            removed,
        );
    let w = retired_world(world, chunks, first_center, first_distance);
    let start = Tick { world: w, events: removed };
    lemma_retired_world(world, chunks, first_center, first_distance);
    lemma_refresh_rows(start, registry, first_center, first_distance, 2 * first_distance + 1);
    lemma_tick_keeps_order(world, first_center, first_distance, registry, between, first_events);
    let listed = removed.map_values(|e: ChunkUpdatesView| e.position());
    assert(retired_keys(world, first_center, first_distance).contains(key));
    assert(listed.contains(key));
    let i = choose|i: int| 0 <= i < listed.len() && listed[i] == key;
    assert(removed[i] is Remove);
    assert(removed[i].position() == key);
    assert(first_events[i] == removed[i]);
    assert(first_events[i] == ChunkUpdatesView::Remove(key));
    assert(!dealt_with(first_center, first_distance, key, 2 * first_distance + 1, 0, 0));
    assert(!w.meshes_being_rendered.contains_key(key));
    assert(!between.meshes_being_rendered.contains_key(key));
    assert forall|n: int| i < n < first_events.len() implies (#[trigger] first_events[n]).position()
        != key by {
        if n < removed.len() {
            assert(first_events[n] == removed[n]);
            assert(listed[n] == removed[n].position());
            assert(listed[i] == key);
        } else {
            assert(dealt_with(
                first_center,
                first_distance,
                first_events[n].position(),
                2 * first_distance + 1,
                0,
                0,
            ));
        }
    }
    // The second tick.
    let (chunks2, removed2) = choose|
        chunks: Map<ChunkPosition, ChunkView>,
        removed: Seq<ChunkUpdatesView>,
    | #[trigger]
        is_tick_through(
            between,
            second_center,
            second_distance,
            registry,
            after,
            second_events,
            chunks,
            removed,
        );
    let w2 = retired_world(between, chunks2, second_center, second_distance);
    let start2 = Tick { world: w2, events: removed2 };
    lemma_retired_world(between, chunks2, second_center, second_distance);
    lemma_refresh_rows(start2, registry, second_center, second_distance, 2 * second_distance + 1);
    let c = key.spec_chunk();
    lemma_key_section(key);
    assert(w2.chunks.contains_key(c));
    assert(w2.chunks[c].wf());
    assert(after.chunks[c].sections[key.y as int / 16].block_store
        == w2.chunks[c].sections[key.y as int / 16].block_store);
    assert(is_filled_section(w2.chunks, key));
    assert(is_required_before(second_center, second_distance, c, 2 * second_distance + 1, 0));
    assert(dealt_with(second_center, second_distance, key, 2 * second_distance + 1, 0, 0));
    assert(!w2.meshes_being_rendered.contains_key(key));
    let j = choose|j: int|
        removed2.len() <= j < second_events.len() && (#[trigger] second_events[j]) is Add
            && second_events[j].position() == key;
    assert(0 <= i < first_events.len() && 0 <= j < second_events.len() && first_events[i]
        == ChunkUpdatesView::Remove(key) && second_events[j] is Add && second_events[j].position()
        == key);
}

/// Whether a renderer draws what is on show: a mesh for every section on
/// show, for no other section, and for no section twice.
pub open spec fn in_step(positions: Seq<BlockPosition>, shown: Map<BlockPosition, MeshView>) -> bool {
    &&& positions.no_duplicates()
    &&& forall|key: BlockPosition| positions.contains(key) <==> shown.contains_key(key)
}

/// What a renderer draws after the first updates of a sequence does not
/// depend on the updates that follow them.
pub proof fn lemma_applied_all_prefix(
    positions: Seq<BlockPosition>,
    updates: Seq<ChunkUpdatesView>,
    longer: Seq<ChunkUpdatesView>,
    n: int,
)
    requires
        0 <= n <= updates.len() <= longer.len(),
        forall|i: int| 0 <= i < updates.len() ==> updates[i] == longer[i],
    ensures
        applied_all(positions, longer, n) == applied_all(positions, updates, n),
    decreases n,
{
    if n > 0 {
        lemma_applied_all_prefix(positions, updates, longer, n - 1);
    }
}

/// A renderer that draws no section twice and hears a `Remove` draws the
/// section no longer, and every other section as before.
pub proof fn lemma_applied_remove(positions: Seq<BlockPosition>, key: BlockPosition)
    requires
        positions.no_duplicates(),
    ensures
        applied_positions(positions, ChunkUpdatesView::Remove(key)).no_duplicates(),
        forall|k: BlockPosition|
            applied_positions(positions, ChunkUpdatesView::Remove(key)).contains(k) <==> (
            positions.contains(k) && k != key),
{
    let after = applied_positions(positions, ChunkUpdatesView::Remove(key));
    let i = first_at(positions, key, 0);
    lemma_first_at(positions, key, 0);
    if i < positions.len() {
        assert(after == positions.remove(i));
        assert forall|k: BlockPosition| after.contains(k) <==> (positions.contains(k) && k
            != key) by {
            if after.contains(k) {
                let j = choose|j: int| 0 <= j < after.len() && after[j] == k;
                let j0 = if j < i {
                    j
                } else {
                    j + 1
                };
                assert(positions[j0] == k);
                assert(j0 != i);
            }
            if positions.contains(k) && k != key {
                let j = choose|j: int| 0 <= j < positions.len() && positions[j] == k;
                let j1 = if j < i {
                    j
                } else {
                    j - 1
                };
                assert(after[j1] == k);
            }
        }
        assert forall|a: int, b: int| 0 <= a < after.len() && 0 <= b < after.len() && a
            != b implies after[a] != after[b] by {
            let a0 = if a < i {
                a
            } else {
                a + 1
            };
            let b0 = if b < i {
                b
            } else {
                b + 1
            };
            assert(positions[a0] != positions[b0]);
        }
    } else {
        assert(after == positions);
        assert forall|k: BlockPosition| positions.contains(k) implies k != key by {
            let j = choose|j: int| 0 <= j < positions.len() && positions[j] == k;
        }
    }
}

/// A renderer in step with the world that hears the updates of the meshes
/// taken off show is in step with the world in which those meshes are parked.
pub proof fn lemma_follow_removes(
    positions: Seq<BlockPosition>,
    shown: Map<BlockPosition, MeshView>,
    gone: Set<BlockPosition>,
    removed: Seq<ChunkUpdatesView>,
    n: int,
)
    requires
        in_step(positions, shown),
        is_removal_of(removed, gone),
        0 <= n <= removed.len(),
    ensures
        applied_all(positions, removed, n).no_duplicates(),
        forall|key: BlockPosition|
            applied_all(positions, removed, n).contains(key) <==> (shown.contains_key(key) && !(
            exists|j: int| 0 <= j < n && (#[trigger] removed[j]).position() == key)),
    decreases n,
{
    let now = applied_all(positions, removed, n);
    if n > 0 {
        lemma_follow_removes(positions, shown, gone, removed, n - 1);
        let before = applied_all(positions, removed, n - 1);
        let key = removed[n - 1].position();
        assert(removed[n - 1] is Remove);
        assert(removed[n - 1] == ChunkUpdatesView::Remove(key));
        lemma_applied_remove(before, key);
        assert forall|k: BlockPosition|
            now.contains(k) <==> (shown.contains_key(k) && !(exists|j: int|
                0 <= j < n && (#[trigger] removed[j]).position() == k)) by {
            if exists|j: int| 0 <= j < n && (#[trigger] removed[j]).position() == k {
                let j = choose|j: int| 0 <= j < n && (#[trigger] removed[j]).position() == k;
                if j < n - 1 {
                    assert(0 <= j < n - 1 && removed[j].position() == k);
                }
            }
            if exists|j: int| 0 <= j < n - 1 && (#[trigger] removed[j]).position() == k {
                let j = choose|j: int| 0 <= j < n - 1 && (#[trigger] removed[j]).position() == k;
                assert(0 <= j < n && removed[j].position() == k);
            }
            if k == key {
                assert(0 <= n - 1 < n && removed[n - 1].position() == k);
            }
        }
    } else {
        assert forall|k: BlockPosition|
            now.contains(k) <==> (shown.contains_key(k) && !(exists|j: int|
                0 <= j < n && (#[trigger] removed[j]).position() == k)) by {
        }
    }
}

/// What holds of a renderer that hears the updates of a tick under way: every
/// parked mesh stands under its own position, and the renderer draws what is
/// on show.
pub open spec fn follows(positions: Seq<BlockPosition>, t: Tick) -> bool {
    &&& forall|key: BlockPosition| #[trigger]
        t.world.built_meshes.contains_key(key) ==> t.world.built_meshes[key].position == key
    &&& in_step(
        applied_all(positions, t.events, t.events.len() as int),
        t.world.meshes_being_rendered,
    )
}

/// A renderer that follows a tick still follows it once the tick has dealt
/// with one more section, whichever it is.
pub proof fn lemma_follow_step(
    positions: Seq<BlockPosition>,
    t: Tick,
    registry: BlockRegistery,
    c: ChunkPosition,
    s: int,
)
    requires
        follows(positions, t),
    ensures
        follows(positions, refresh_section(t, registry, c, s)),
{
    let next = refresh_section(t, registry, c, s);
    let key = section_key(c, s);
    let drawn = applied_all(positions, t.events, t.events.len() as int);
    let after = applied_all(positions, next.events, next.events.len() as int);
    if next.events.len() == t.events.len() {
        assert(next == t);
    } else {
        let said = next.events[t.events.len() as int];
        assert(next.events == t.events.push(said));
        lemma_applied_all_prefix(positions, t.events, next.events, t.events.len() as int);
        assert(after == applied_positions(drawn, said));
        assert(said.position() == key);
        if said is Update {
            assert(after == drawn);
            assert(t.world.meshes_being_rendered.contains_key(key));
            assert(next.world.meshes_being_rendered.dom() =~= t.world.meshes_being_rendered.dom());
        } else {
            assert(said is Add);
            assert(!t.world.meshes_being_rendered.contains_key(key));
            assert(after == drawn.push(key));
            assert(!drawn.contains(key));
            assert forall|a: int, b: int| 0 <= a < after.len() && 0 <= b < after.len() && a
                != b implies after[a] != after[b] by {
                if a < drawn.len() {
                    assert(drawn.contains(after[a]));
                }
                if b < drawn.len() {
                    assert(drawn.contains(after[b]));
                }
            }
            assert forall|k: BlockPosition|
                after.contains(k) <==> next.world.meshes_being_rendered.contains_key(k) by {
                if after.contains(k) {
                    let j = choose|j: int| 0 <= j < after.len() && after[j] == k;
                    if j < drawn.len() {
                        assert(drawn.contains(k));
                    }
                }
                if drawn.contains(k) {
                    let j = choose|j: int| 0 <= j < drawn.len() && drawn[j] == k;
                    assert(after[j] == k);
                }
                if k == key {
                    assert(after[drawn.len() as int] == k);
                }
            }
        }
    }
}

/// A renderer that follows a tick follows it through the sections of a chunk.
pub proof fn lemma_follow_sections(
    positions: Seq<BlockPosition>,
    t: Tick,
    registry: BlockRegistery,
    c: ChunkPosition,
    count: int,
)
    requires
        follows(positions, t),
    ensures
        follows(positions, refresh_sections(t, registry, c, count)),
    decreases count,
{
    if count > 0 {
        lemma_follow_sections(positions, t, registry, c, count - 1);
        lemma_follow_step(
            positions,
            refresh_sections(t, registry, c, count - 1),
            registry,
            c,
            count - 1,
        );
    }
}

/// A renderer that follows a tick follows it through the chunks of a row.
pub proof fn lemma_follow_row(
    positions: Seq<BlockPosition>,
    t: Tick,
    registry: BlockRegistery,
    center: ChunkPosition,
    distance: int,
    row: int,
    columns: int,
)
    requires
        follows(positions, t),
    ensures
        follows(positions, refresh_row(t, registry, center, distance, row, columns)),
    decreases columns,
{
    if columns > 0 {
        lemma_follow_row(positions, t, registry, center, distance, row, columns - 1);
        lemma_follow_sections(
            positions,
            refresh_row(t, registry, center, distance, row, columns - 1),
            registry,
            chunk_at(center, distance, row, columns - 1),
            CHUNK_SECTIONS as int,
        );
    }
}

/// A renderer that follows a tick follows it through the rows of the square.
pub proof fn lemma_follow_rows(
    positions: Seq<BlockPosition>,
    t: Tick,
    registry: BlockRegistery,
    center: ChunkPosition,
    distance: int,
    rows: int,
)
    requires
        follows(positions, t),
    ensures
        follows(positions, refresh_rows(t, registry, center, distance, rows)),
    decreases rows,
{
    if rows > 0 {
        lemma_follow_rows(positions, t, registry, center, distance, rows - 1);
        lemma_follow_row(
            positions,
            refresh_rows(t, registry, center, distance, rows - 1),
            registry,
            center,
            distance,
            rows - 1,
            2 * distance + 1,
        );
    }
}

/// A renderer that draws what is on show before a tick, and hears the updates
/// of the tick in their order, draws what is on show after the tick: a mesh
/// for every section on show and never two meshes for one section.
pub proof fn lemma_renderer_follows_world(
    before: WorldView,
    center: ChunkPosition,
    distance: int,
    registry: BlockRegistery,
    after: WorldView,
    events: Seq<ChunkUpdatesView>,
    positions: Seq<BlockPosition>,
)
    requires
        view_wf(before),
        in_reach(center, distance),
        is_tick(before, center, distance, registry, after, events),
        in_step(positions, before.meshes_being_rendered),
    ensures
        in_step(applied_all(positions, events, events.len() as int), after.meshes_being_rendered),
{
    let (chunks, removed) = choose|
        chunks: Map<ChunkPosition, ChunkView>,
        removed: Seq<ChunkUpdatesView>,
    | #[trigger]
        is_tick_through(before, center, distance, registry, after, events, chunks, removed);
    let w = retired_world(before, chunks, center, distance);
    let start = Tick { world: w, events: removed };
    let gone = retired_keys(before, center, distance);
    lemma_retired_world(before, chunks, center, distance);
    lemma_follow_removes(
        positions,
        before.meshes_being_rendered,
        gone,
        removed,
        removed.len() as int,
    );
    let drawn = applied_all(positions, removed, removed.len() as int);
    let listed = removed.map_values(|e: ChunkUpdatesView| e.position());
    assert forall|key: BlockPosition| drawn.contains(key) <==> w.meshes_being_rendered.contains_key(
        key,
    ) by {
        if exists|j: int| 0 <= j < removed.len() && (#[trigger] removed[j]).position() == key {
            let j = choose|j: int|
                0 <= j < removed.len() && (#[trigger] removed[j]).position() == key;
            assert(listed[j] == key);
            assert(listed.contains(key));
        }
        if gone.contains(key) {
            assert(listed.contains(key));
            let j = choose|j: int| 0 <= j < listed.len() && listed[j] == key;
            assert(0 <= j < removed.len() && removed[j].position() == key);
        }
    }
    assert(follows(positions, start));
    lemma_follow_rows(positions, start, registry, center, distance, 2 * distance + 1);
}

/// The section that a section position names among chunks.
pub open spec fn section_at(chunks: Map<ChunkPosition, ChunkView>, key: BlockPosition) -> Section {
    chunks[key.spec_chunk()].sections[key.y as int / 16]
}

/// Whether a mesh kept under a position stands for a section that is there,
/// and is the mesh of that section's blocks unless the section is dirty.
pub open spec fn is_up_to_date(
    chunks: Map<ChunkPosition, ChunkView>,
    registry: BlockRegistery,
    key: BlockPosition,
    mesh: MeshView,
) -> bool {
    &&& is_section_key(key)
    &&& chunks.contains_key(key.spec_chunk())
    &&& section_at(chunks, key).dirty || mesh == mesh_of(
        key,
        section_at(chunks, key).spec_voxels(registry),
    )
}

/// Whether every mesh of a world, on show or parked, is up to date.
pub open spec fn in_sync(w: WorldView, registry: BlockRegistery) -> bool {
    &&& forall|key: BlockPosition| #[trigger]
        w.meshes_being_rendered.contains_key(key) ==> is_up_to_date(
            w.chunks,
            registry,
            key,
            w.meshes_being_rendered[key],
        )
    &&& forall|key: BlockPosition| #[trigger]
        w.built_meshes.contains_key(key) ==> is_up_to_date(
            w.chunks,
            registry,
            key,
            w.built_meshes[key],
        )
}

/// What holds of the meshes of a tick under way: every mesh is up to date, and
/// no filled section that was dealt with is dirty.
pub open spec fn synced(
    now: Tick,
    registry: BlockRegistery,
    center: ChunkPosition,
    distance: int,
    row: int,
    column: int,
    count: int,
) -> bool {
    &&& in_sync(now.world, registry)
    &&& forall|key: BlockPosition|
        dealt_with(center, distance, key, row, column, count) && #[trigger] is_filled_section(
            now.world.chunks,
            key,
        ) ==> !section_at(now.world.chunks, key).dirty
}

/// The meshes of a tick under way stay as they should be once the tick has
/// dealt with the next section.
pub proof fn lemma_sync_step(
    start: Tick,
    now: Tick,
    registry: BlockRegistery,
    center: ChunkPosition,
    distance: int,
    row: int,
    column: int,
    count: int,
)
    requires
        in_reach(center, distance),
        0 <= row <= 2 * distance,
        0 <= column <= 2 * distance,
        0 <= count < CHUNK_SECTIONS,
        view_wf(start.world),
        has_required_chunks(start.world.chunks, center, distance),
        refreshed(start, now, center, distance, row, column, count),
        synced(now, registry, center, distance, row, column, count),
    ensures
        synced(
            refresh_section(now, registry, chunk_at(center, distance, row, column), count),
            registry,
            center,
            distance,
            row,
            column,
            count + 1,
        ),
{
    let c = chunk_at(center, distance, row, column);
    let key0 = section_key(c, count);
    let next = refresh_section(now, registry, c, count);
    lemma_section_key(c, count);
    assert(is_required(center, distance, c));
    assert(start.world.chunks.contains_key(c));
    assert(now.world.chunks.contains_key(c));
    assert(start.world.chunks[c].wf());
    let section = now.world.chunks[c].sections[count];
    let cleaned = now.world.chunks.insert(c, clean_section(now.world.chunks[c], count));
    let voxels = section.spec_voxels(registry);
    let fresh = mesh_of(key0, voxels);
    assert(section_at(now.world.chunks, key0) == section);
    // The sections of the chunks after the step.
    assert forall|k: BlockPosition| is_section_key(k) && k != key0 implies section_at(cleaned, k)
        == section_at(now.world.chunks, k) by {
        lemma_key_section(k);
    }
    assert(section_at(cleaned, key0).block_store == section.block_store);
    assert(!section_at(cleaned, key0).dirty);
    assert(section_at(cleaned, key0).spec_voxels(registry) == voxels);
    assert(cleaned.dom() =~= now.world.chunks.dom());
    assert forall|k: BlockPosition|
        dealt_with(center, distance, k, row, column, count + 1) <==> (dealt_with(
            center,
            distance,
            k,
            row,
            column,
            count,
        ) || k == key0) by {
        lemma_dealt_with_next_section(center, distance, k, row, column, count);
    }
    if next.world.chunks == now.world.chunks && next.world.meshes_being_rendered
        == now.world.meshes_being_rendered && next.world.built_meshes == now.world.built_meshes {
        // Nothing was done: the section is air, or on show and clean.
        assert forall|k: BlockPosition|
            dealt_with(center, distance, k, row, column, count + 1) && #[trigger] is_filled_section(
                next.world.chunks,
                k,
            ) implies !section_at(next.world.chunks, k).dirty by {
            if k == key0 {
                assert(section.spec_contains_non_air_blocks());
                assert(!section.dirty) by {
                    if !now.world.meshes_being_rendered.contains_key(key0) {
                        assert(next.world.meshes_being_rendered.contains_key(key0));
                    }
                }
            }
        }
    } else {
        assert(next.world.chunks == cleaned);
        assert forall|k: BlockPosition| #[trigger]
            next.world.meshes_being_rendered.contains_key(k) implies is_up_to_date(
            next.world.chunks,
            registry,
            k,
            next.world.meshes_being_rendered[k],
        ) by {
            if k != key0 {
                assert(now.world.meshes_being_rendered.contains_key(k));
                assert(is_up_to_date(
                    now.world.chunks,
                    registry,
                    k,
                    now.world.meshes_being_rendered[k],
                ));
            } else {
                if !section.dirty && now.world.built_meshes.contains_key(key0) {
                    assert(is_up_to_date(
                        now.world.chunks,
                        registry,
                        key0,
                        now.world.built_meshes[key0],
                    ));
                }
            }
        }
        assert forall|k: BlockPosition| #[trigger]
            next.world.built_meshes.contains_key(k) implies is_up_to_date(
            next.world.chunks,
            registry,
            k,
            next.world.built_meshes[k],
        ) by {
            assert(now.world.built_meshes.contains_key(k));
            assert(is_up_to_date(now.world.chunks, registry, k, now.world.built_meshes[k]));
            if k == key0 {
                assert(now.world.meshes_being_rendered.contains_key(key0));
            }
        }
        assert forall|k: BlockPosition|
            dealt_with(center, distance, k, row, column, count + 1) && #[trigger] is_filled_section(
                next.world.chunks,
                k,
            ) implies !section_at(next.world.chunks, k).dirty by {
            if k != key0 {
                assert(is_filled_section(now.world.chunks, k));
            }
        }
    }
}

/// What holds of the meshes of a tick under way depends on how far the tick
/// has come only through the sections that it has dealt with.
proof fn lemma_synced_same_progress(
    now: Tick,
    registry: BlockRegistery,
    center: ChunkPosition,
    distance: int,
    from: (int, int, int),
    to: (int, int, int),
)
    requires
        synced(now, registry, center, distance, from.0, from.1, from.2),
        forall|key: BlockPosition|
            dealt_with(center, distance, key, from.0, from.1, from.2) <==> dealt_with(
                center,
                distance,
                key,
                to.0,
                to.1,
                to.2,
            ),
    ensures
        synced(now, registry, center, distance, to.0, to.1, to.2),
{
    assert forall|key: BlockPosition|
        dealt_with(center, distance, key, to.0, to.1, to.2) && #[trigger] is_filled_section(
            now.world.chunks,
            key,
        ) implies !section_at(now.world.chunks, key).dirty by {
        assert(dealt_with(center, distance, key, from.0, from.1, from.2));
    }
}

/// The meshes of a tick stay as they should be through the sections of a chunk.
pub proof fn lemma_sync_sections(
    start: Tick,
    now: Tick,
    registry: BlockRegistery,
    center: ChunkPosition,
    distance: int,
    row: int,
    column: int,
    count: int,
)
    requires
        in_reach(center, distance),
        0 <= row <= 2 * distance,
        0 <= column <= 2 * distance,
        0 <= count <= CHUNK_SECTIONS,
        view_wf(start.world),
        has_required_chunks(start.world.chunks, center, distance),
        refreshed(start, now, center, distance, row, column, 0),
        synced(now, registry, center, distance, row, column, 0),
    ensures
        synced(
            refresh_sections(now, registry, chunk_at(center, distance, row, column), count),
            registry,
            center,
            distance,
            row,
            column,
            count,
        ),
    decreases count,
{
    if count > 0 {
        lemma_sync_sections(start, now, registry, center, distance, row, column, count - 1);
        lemma_refresh_sections(start, now, registry, center, distance, row, column, count - 1);
        lemma_sync_step(
            start,
            refresh_sections(now, registry, chunk_at(center, distance, row, column), count - 1),
            registry,
            center,
            distance,
            row,
            column,
            count - 1,
        );
    }
}

/// The meshes of a tick stay as they should be through the chunks of a row.
pub proof fn lemma_sync_row(
    start: Tick,
    now: Tick,
    registry: BlockRegistery,
    center: ChunkPosition,
    distance: int,
    row: int,
    columns: int,
)
    requires
        in_reach(center, distance),
        0 <= row <= 2 * distance,
        0 <= columns <= 2 * distance + 1,
        view_wf(start.world),
        has_required_chunks(start.world.chunks, center, distance),
        refreshed(start, now, center, distance, row, 0, 0),
        synced(now, registry, center, distance, row, 0, 0),
    ensures
        synced(
            refresh_row(now, registry, center, distance, row, columns),
            registry,
            center,
            distance,
            row,
            columns,
            0,
        ),
    decreases columns,
{
    if columns > 0 {
        lemma_sync_row(start, now, registry, center, distance, row, columns - 1);
        lemma_refresh_row(start, now, registry, center, distance, row, columns - 1);
        let before = refresh_row(now, registry, center, distance, row, columns - 1);
        lemma_sync_sections(
            start,
            before,
            registry,
            center,
            distance,
            row,
            columns - 1,
            CHUNK_SECTIONS as int,
        );
        let after = refresh_row(now, registry, center, distance, row, columns);
        assert forall|key: BlockPosition|
            dealt_with(center, distance, key, row, columns - 1, CHUNK_SECTIONS as int)
                <==> dealt_with(center, distance, key, row, columns, 0) by {
            lemma_dealt_with_next_chunk(center, distance, key, row, columns - 1);
        }
        lemma_synced_same_progress(
            after,
            registry,
            center,
            distance,
            (row, columns - 1, CHUNK_SECTIONS as int),
            (row, columns, 0),
        );
    }
}

/// The meshes of a tick stay as they should be through the rows of the square.
pub proof fn lemma_sync_rows(
    start: Tick,
    registry: BlockRegistery,
    center: ChunkPosition,
    distance: int,
    rows: int,
)
    requires
        in_reach(center, distance),
        0 <= rows <= 2 * distance + 1,
        view_wf(start.world),
        has_required_chunks(start.world.chunks, center, distance),
        in_sync(start.world, registry),
    ensures
        synced(
            refresh_rows(start, registry, center, distance, rows),
            registry,
            center,
            distance,
            rows,
            0,
            0,
        ),
    decreases rows,
{
    if rows > 0 {
        lemma_sync_rows(start, registry, center, distance, rows - 1);
        lemma_refresh_rows(start, registry, center, distance, rows - 1);
        let before = refresh_rows(start, registry, center, distance, rows - 1);
        lemma_sync_row(start, before, registry, center, distance, rows - 1, 2 * distance + 1);
        let after = refresh_rows(start, registry, center, distance, rows);
        assert forall|key: BlockPosition|
            dealt_with(center, distance, key, rows - 1, 2 * distance + 1, 0) <==> dealt_with(
                center,
                distance,
                key,
                rows,
                0,
                0,
            ) by {
            lemma_dealt_with_next_chunk(center, distance, key, rows - 1, 0);
        }
        lemma_synced_same_progress(
            after,
            registry,
            center,
            distance,
            (rows - 1, 2 * distance + 1, 0),
            (rows, 0, 0),
        );
    }
}

/// A tick keeps the meshes up to date. Where every mesh of a world is up to
/// date before a tick, every mesh is up to date after it, and every filled
/// section within the render distance is clean: the mesh that is on show for
/// it is the mesh of its blocks.
pub proof fn lemma_tick_keeps_meshes_up_to_date(
    before: WorldView,
    center: ChunkPosition,
    distance: int,
    registry: BlockRegistery,
    after: WorldView,
    events: Seq<ChunkUpdatesView>,
)
    requires
        view_wf(before),
        in_reach(center, distance),
        is_tick(before, center, distance, registry, after, events),
        in_sync(before, registry),
    ensures
        in_sync(after, registry),
        forall|key: BlockPosition|
            is_required(center, distance, key.spec_chunk()) && #[trigger] is_filled_section(
                after.chunks,
                key,
            ) ==> {
                &&& !section_at(after.chunks, key).dirty
                &&& after.meshes_being_rendered.contains_key(key)
                &&& after.meshes_being_rendered[key] == mesh_of(
                    key,
                    section_at(after.chunks, key).spec_voxels(registry),
                )
            },
{
    let (chunks, removed) = choose|
        chunks: Map<ChunkPosition, ChunkView>,
        removed: Seq<ChunkUpdatesView>,
    | #[trigger]
        is_tick_through(before, center, distance, registry, after, events, chunks, removed);
    let w = retired_world(before, chunks, center, distance);
    let start = Tick { world: w, events: removed };
    lemma_retired_world(before, chunks, center, distance);
    // Generating chunks and parking meshes leaves every mesh up to date.
    assert forall|key: BlockPosition| #[trigger]
        w.meshes_being_rendered.contains_key(key) implies is_up_to_date(
        w.chunks,
        registry,
        key,
        w.meshes_being_rendered[key],
    ) by {
        assert(before.meshes_being_rendered.contains_key(key));
        assert(is_up_to_date(before.chunks, registry, key, before.meshes_being_rendered[key]));
        assert(chunks[key.spec_chunk()] == before.chunks[key.spec_chunk()]);
    }
    assert forall|key: BlockPosition| #[trigger] w.built_meshes.contains_key(key) implies is_up_to_date(
        w.chunks,
        registry,
        key,
        w.built_meshes[key],
    ) by {
        if retired_keys(before, center, distance).contains(key)
            || before.meshes_being_rendered.contains_key(key) && !before.built_meshes.contains_key(
            key,
        ) {
            assert(before.meshes_being_rendered.contains_key(key));
            assert(is_up_to_date(
                before.chunks,
                registry,
                key,
                before.meshes_being_rendered[key],
            ));
        } else {
            assert(before.built_meshes.contains_key(key));
            assert(is_up_to_date(before.chunks, registry, key, before.built_meshes[key]));
        }
        assert(chunks[key.spec_chunk()] == before.chunks[key.spec_chunk()]);
    }
    assert(in_sync(w, registry));
    lemma_refresh_rows(start, registry, center, distance, 2 * distance + 1);
    lemma_sync_rows(start, registry, center, distance, 2 * distance + 1);
    assert forall|key: BlockPosition|
        is_required(center, distance, key.spec_chunk()) && #[trigger] is_filled_section(
            after.chunks,
            key,
        ) implies {
        &&& !section_at(after.chunks, key).dirty
        &&& after.meshes_being_rendered.contains_key(key)
        &&& after.meshes_being_rendered[key] == mesh_of(
            key,
            section_at(after.chunks, key).spec_voxels(registry),
        )
    } by {
        let c = key.spec_chunk();
        lemma_key_section(key);
        assert(is_required_before(center, distance, c, 2 * distance + 1, 0));
        assert(dealt_with(center, distance, key, 2 * distance + 1, 0, 0));
        assert(w.chunks.contains_key(c));
        assert(w.chunks[c].wf());
        assert(after.chunks[c].sections[key.y as int / 16].block_store
            == w.chunks[c].sections[key.y as int / 16].block_store);
        assert(is_filled_section(w.chunks, key));
        assert(after.meshes_being_rendered.contains_key(key));
        assert(is_up_to_date(after.chunks, registry, key, after.meshes_being_rendered[key]));
    }
}

/// Setting a block leaves every mesh up to date: the section that holds the
/// block becomes dirty, and so its mesh is waited for.
pub proof fn lemma_set_block_keeps_meshes_up_to_date(
    w: WorldView,
    registry: BlockRegistery,
    position: BlockPosition,
    block: u32,
)
    requires
        view_wf(w),
        has_block(w, position),
        in_sync(w, registry),
    ensures
        in_sync(with_block(w, position, block), registry),
        view_wf(with_block(w, position, block)),
{
    let after = with_block(w, position, block);
    let c = position.spec_chunk();
    let s = position.y as int / 16;
    assert(w.chunks[c].wf());
    assert(after.chunks.dom() =~= w.chunks.dom());
    assert forall|key: BlockPosition|
        is_section_key(key) && w.chunks.contains_key(key.spec_chunk()) implies section_at(
        after.chunks,
        key,
    ).dirty || section_at(after.chunks, key) == section_at(w.chunks, key) by {
        lemma_key_section(key);
    }
    assert forall|key: BlockPosition| #[trigger]
        after.meshes_being_rendered.contains_key(key) implies is_up_to_date(
        after.chunks,
        registry,
        key,
        after.meshes_being_rendered[key],
    ) by {
        assert(is_up_to_date(w.chunks, registry, key, w.meshes_being_rendered[key]));
    }
    assert forall|key: BlockPosition| #[trigger] after.built_meshes.contains_key(key) implies is_up_to_date(
        after.chunks,
        registry,
        key,
        after.built_meshes[key],
    ) by {
        assert(is_up_to_date(w.chunks, registry, key, w.built_meshes[key]));
    }
    assert forall|p: ChunkPosition| after.chunks.contains_key(p) implies (
    #[trigger] after.chunks[p]).wf() && after.chunks[p].position == p by {
        assert(w.chunks[p].wf());
    }
}

} // verus!
