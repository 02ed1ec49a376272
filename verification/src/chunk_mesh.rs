use crate::cube_data::{lemma_mesh_indices_push, mesh_indices, UntexturedQuad};
use crate::face::{Face, Normal};
use crate::location::{
    coords_index, index_coords, lemma_coords_round_trip, lemma_index_round_trip,
    lemma_neighbor_inside, neighbor, VoxelLocation,
};
use crate::position::BlockPosition;
use crate::shapes::{Point3, Quad, Vertex};
use crate::texture::{LoadedCubeTexture, TextureCoordinates, UVCoordinates};
use vstd::prelude::*;

verus! {

pub const CHUNK_HEIGHT: usize = 16;

pub const CHUNK_WIDTH: usize = 16;

pub const CHUNK_DEPTH: usize = 16;

/// The number of blocks in a section.
pub const SECTION_VOLUME: usize = CHUNK_HEIGHT * CHUNK_WIDTH * CHUNK_DEPTH;

/// The largest distance from the origin, in blocks, at which a mesh can stand.
pub const MESH_LIMIT: i64 = 0x1000_0000_0000_0000;

/// How a voxel lets the voxels behind it be seen.
#[derive(Debug, Clone, Copy, PartialEq, Eq, Default, Structural)]
pub enum VoxelVisiblity {
    Empty,
    Translucent,
    #[default]
    Opaque,
}

impl VoxelVisiblity {
    pub fn is_empty(&self) -> (b: bool)
        ensures
            b == (*self is Empty),
    {
        matches!(self, VoxelVisiblity::Empty)
    }

    pub fn is_translucent(&self) -> (b: bool)
        ensures
            b == (*self is Translucent),
    {
        matches!(self, VoxelVisiblity::Translucent)
    }

    pub fn is_opaque(&self) -> (b: bool)
        ensures
            b == (*self is Opaque),
    {
        matches!(self, VoxelVisiblity::Opaque)
    }
}

/// Whether a position is near enough to the origin for a mesh to hold it.
pub open spec fn in_mesh_range(p: BlockPosition) -> bool {
    &&& -MESH_LIMIT <= p.x <= MESH_LIMIT
    &&& -MESH_LIMIT <= p.y <= MESH_LIMIT
    &&& -MESH_LIMIT <= p.z <= MESH_LIMIT
}

/// The sum of two positions.
pub open spec fn position_sum(a: BlockPosition, b: BlockPosition) -> BlockPosition {
    BlockPosition { x: (a.x + b.x) as i64, y: (a.y + b.y) as i64, z: (a.z + b.z) as i64 }
}

/// A cube with edges one block long.
pub open spec fn unit_size() -> BlockPosition {
    BlockPosition { x: 1, y: 1, z: 1 }
}

/// A single Voxel in the world
/// This is the highest level of abstraction for a voxel
/// Goes from Game Level Type -> Voxel -> [RenderVoxel] -> [BlockVertex]
#[derive(Debug, Clone, Copy, PartialEq, Eq, Structural)]
pub struct Voxel {
    pub position: BlockPosition,
    pub visibility: VoxelVisiblity,
    /// None is transparent
    pub textures: Option<LoadedCubeTexture>,
}

/// A corner of a visible voxel face.
#[derive(Debug, Clone, Copy, PartialEq, Eq, Structural)]
pub struct BlockVertex {
    pub position: Point3,
    pub normal: Normal,
    pub uv: TextureCoordinates,
}

impl BlockVertex {
    pub open spec fn spec_from_vertex(v: Vertex) -> BlockVertex {
        BlockVertex { position: v.position, normal: v.normal, uv: v.uv }
    }

    /// The corners of a quad: top left, top right, bottom left, bottom right.
    pub open spec fn spec_from_quad(quad: Quad) -> Seq<BlockVertex> {
        seq![
            BlockVertex::spec_from_vertex(quad.top_left),
            BlockVertex::spec_from_vertex(quad.top_right),
            BlockVertex::spec_from_vertex(quad.bottom_left),
            BlockVertex::spec_from_vertex(quad.bottom_right),
        ]
    }

    pub fn from_quad(quad: Quad) -> (vertices: [BlockVertex; 4])
        ensures
            vertices@ == BlockVertex::spec_from_quad(quad),
    {
        let vertices = [
            BlockVertex::new_from_generic_vertex(quad.top_left),
            BlockVertex::new_from_generic_vertex(quad.top_right),
            BlockVertex::new_from_generic_vertex(quad.bottom_left),
            BlockVertex::new_from_generic_vertex(quad.bottom_right),
        ];
        assert(vertices@ =~= BlockVertex::spec_from_quad(quad));
        vertices
    }

    pub fn new_from_generic_vertex(generic_vertex: Vertex) -> (v: BlockVertex)
        ensures
            v == BlockVertex::spec_from_vertex(generic_vertex),
    {
        let Vertex { position, normal, uv } = generic_vertex;
        Self { position, normal, uv }
    }
}

impl Default for BlockVertex {
    fn default() -> (v: BlockVertex)
        ensures
            v == (BlockVertex {
                position: Point3 { x: 0, y: 0, z: 0 },
                normal: Normal { x: 0, y: 0, z: 0 },
                uv: TextureCoordinates { x: 0, y: 0 },
            }),
    {
        Self {
            position: Point3 { x: 0, y: 0, z: 0 },
            normal: Normal { x: 0, y: 0, z: 0 },
            uv: TextureCoordinates { x: 0, y: 0 },
        }
    }
}

impl Voxel {
    pub fn air(position: BlockPosition) -> (v: Voxel)
        ensures
            v == (Voxel { position, visibility: VoxelVisiblity::Empty, textures: None }),
    {
        Self { position, visibility: VoxelVisiblity::Empty, textures: None }
    }

    /// A voxel of any kind. An opaque voxel without textures is accepted and
    /// shows the default rectangle on every face.
    pub fn new(
        position: BlockPosition,
        visibility: VoxelVisiblity,
        textures: Option<LoadedCubeTexture>,
    ) -> (v: Voxel)
        ensures
            v == (Voxel { position, visibility, textures }),
    {
        Self { position, visibility, textures }
    }

    /// Whether the voxel is opaque and has no textures to show.
    pub open spec fn spec_is_missing_texture(&self) -> bool {
        self.visibility is Opaque && self.textures is None
    }

    #[verifier::when_used_as_spec(spec_is_missing_texture)]
    pub fn is_missing_texture(&self) -> (missing: bool)
        ensures
            missing == self.spec_is_missing_texture(),
    {
        self.visibility.is_opaque() && self.textures.is_none()
    }

    /// The rectangle of the atlas that a face of the voxel shows.
    pub open spec fn spec_uv(&self, face: Face) -> UVCoordinates {
        match self.textures {
            Some(t) => t.spec_index(face),
            None => UVCoordinates::spec_default(),
        }
    }

    /// The four corners of a face of the voxel, for a mesh at `chunk_position`.
    pub open spec fn spec_face(&self, face: Face, chunk_position: BlockPosition) -> Seq<
        BlockVertex,
    > {
        BlockVertex::spec_from_quad(
            Quad::spec_quad_from_face(
                face,
                position_sum(self.position, chunk_position),
                unit_size(),
                self.spec_uv(face),
            ),
        )
    }

    /// Gets the vertices for the given Face. Returns an array of 4 [BlockVertex]
    ///
    /// # Note
    /// Should be checked that the face is visible
    pub fn face(&self, face: Face, chunk_position: BlockPosition) -> (vertices: [BlockVertex; 4])
        requires
            !(self.visibility is Empty),
            in_mesh_range(self.position),
            in_mesh_range(chunk_position),
        ensures
            vertices@ == self.spec_face(face, chunk_position),
    {
        let uv = match &self.textures {
            Some(t) => t.index(face),
            None => UVCoordinates::default(),
        };
        let center = BlockPosition {
            x: self.position.x + chunk_position.x,
            y: self.position.y + chunk_position.y,
            z: self.position.z + chunk_position.z,
        };
        let quad = Quad::new_quad_from_face(face, center, BlockPosition { x: 1, y: 1, z: 1 }, uv);
        BlockVertex::from_quad(quad)
    }
}

/// Whether a face of the voxel at a flat index can be seen. Across a side of
/// the section every face can; inside, the face of an opaque voxel can where
/// the voxel behind it is not opaque.
pub open spec fn face_visible(voxels: Seq<Voxel>, index: int, face: Face) -> bool {
    match neighbor(index_coords(index), face) {
        Some(n) => voxels[index].visibility is Opaque && !(voxels[coords_index(n)].visibility is Opaque),
        None => true,
    }
}

/// The faces among the first `k` of the fixed order that can be seen, in order.
pub open spec fn visible_faces_upto(voxels: Seq<Voxel>, index: int, k: int) -> Seq<Face>
    decreases k,
{
    if k <= 0 {
        Seq::empty()
    } else if face_visible(voxels, index, Face::all()[k - 1]) {
        visible_faces_upto(voxels, index, k - 1).push(Face::all()[k - 1])
    } else {
        visible_faces_upto(voxels, index, k - 1)
    }
}

/// The faces of the voxel at a flat index that can be seen, in the fixed order.
pub open spec fn visible_faces(voxels: Seq<Voxel>, index: int) -> Seq<Face> {
    visible_faces_upto(voxels, index, 6)
}

/// A voxel together with those of its faces that a mesh shows.
pub struct RenderVoxelView {
    pub voxel: Voxel,
    pub faces: Seq<Face>,
}

/// A single Voxel in the world with what faces are visible
#[derive(Debug, Clone, PartialEq)]
pub struct RenderVoxel<'a> {
    pub voxel: &'a Voxel,
    pub faces: Vec<Face>,
}

impl<'a> View for RenderVoxel<'a> {
    type V = RenderVoxelView;

    open spec fn view(&self) -> RenderVoxelView {
        RenderVoxelView { voxel: *self.voxel, faces: self.faces@ }
    }
}

/// Whether the voxel at a flat index adds anything to a mesh: it is not empty
/// and at least one of its faces can be seen.
pub open spec fn voxel_renders(voxels: Seq<Voxel>, index: int) -> bool {
    !(voxels[index].visibility is Empty) && visible_faces(voxels, index).len() > 0
}

/// The voxels among the first `n` that add to a mesh, each with its visible
/// faces, by rising index.
pub open spec fn render_list(voxels: Seq<Voxel>, n: int) -> Seq<RenderVoxelView>
    decreases n,
{
    if n <= 0 {
        Seq::empty()
    } else if voxel_renders(voxels, n - 1) {
        render_list(voxels, n - 1).push(
            RenderVoxelView { voxel: voxels[n - 1], faces: visible_faces(voxels, n - 1) },
        )
    } else {
        render_list(voxels, n - 1)
    }
}

/// The corners of the given faces of a voxel, four for each face, in order.
pub open spec fn faces_vertices(voxel: Voxel, faces: Seq<Face>, origin: BlockPosition) -> Seq<
    BlockVertex,
>
    decreases faces.len(),
{
    if faces.len() == 0 {
        Seq::empty()
    } else {
        faces_vertices(voxel, faces.drop_last(), origin) + voxel.spec_face(faces.last(), origin)
    }
}

/// The corners of all faces of a list of voxels, in order.
pub open spec fn list_vertices(list: Seq<RenderVoxelView>, origin: BlockPosition) -> Seq<
    BlockVertex,
>
    decreases list.len(),
{
    if list.len() == 0 {
        Seq::empty()
    } else {
        list_vertices(list.drop_last(), origin) + faces_vertices(
            list.last().voxel,
            list.last().faces,
            origin,
        )
    }
}

/// The number of faces in a list of voxels.
pub open spec fn list_quads(list: Seq<RenderVoxelView>) -> int
    decreases list.len(),
{
    if list.len() == 0 {
        0
    } else {
        list_quads(list.drop_last()) + list.last().faces.len()
    }
}

/// What a mesh holds: the section it stands for, its corners and the indices
/// that join them to triangles.
pub struct MeshView {
    pub position: BlockPosition,
    pub vertices: Seq<BlockVertex>,
    pub indices: Seq<u32>,
}

/// The mesh of a section: for every voxel that adds to it, by rising index, and
/// every visible face of that voxel, in the fixed order, one quad of four
/// corners and six indices.
pub open spec fn mesh_of(position: BlockPosition, voxels: Seq<Voxel>) -> MeshView {
    let list = render_list(voxels, SECTION_VOLUME as int);
    MeshView {
        position,
        vertices: list_vertices(list, position),
        indices: mesh_indices(list_quads(list)),
    }
}

/// The vertices and indices of one section, as they are handed to a renderer.
#[derive(Debug)]
pub struct RawChunkMesh {
    pub position: BlockPosition,
    pub vertices: Vec<BlockVertex>,
    pub indices: Vec<u32>,
}

impl View for RawChunkMesh {
    type V = MeshView;

    open spec fn view(&self) -> MeshView {
        MeshView { position: self.position, vertices: self.vertices@, indices: self.indices@ }
    }
}

/// The visible faces among the first `k` are at most `k`, each of them can be
/// seen, and each stands among the first `k` of the fixed order.
pub proof fn lemma_visible_faces_upto(voxels: Seq<Voxel>, index: int, k: int)
    requires
        0 <= k <= 6,
    ensures
        visible_faces_upto(voxels, index, k).len() <= k,
        forall|face: Face|
            visible_faces_upto(voxels, index, k).contains(face) <==> (face.spec_index() < k
                && face_visible(voxels, index, face)),
    decreases k,
{
    let now = visible_faces_upto(voxels, index, k);
    assert forall|face: Face|
        now.contains(face) <==> (face.spec_index() < k && face_visible(voxels, index, face)) by {
        lemma_visible_face_member(voxels, index, k, face);
    }
    if k > 0 {
        lemma_visible_faces_upto(voxels, index, k - 1);
    }
}

/// A face stands among the visible ones of the first `k` exactly when it is
/// one of the first `k` and can be seen.
pub proof fn lemma_visible_face_member(voxels: Seq<Voxel>, index: int, k: int, face: Face)
    requires
        0 <= k <= 6,
    ensures
        visible_faces_upto(voxels, index, k).contains(face) <==> (face.spec_index() < k
            && face_visible(voxels, index, face)),
    decreases k,
{
    let now = visible_faces_upto(voxels, index, k);
    crate::face::lemma_faces_in_order(face);
    if k > 0 {
        lemma_visible_face_member(voxels, index, k - 1, face);
        let before = visible_faces_upto(voxels, index, k - 1);
        let last = Face::all()[k - 1];
        crate::face::lemma_faces_in_order(last);
        assert(last.spec_index() == k - 1);
        if face_visible(voxels, index, last) {
            assert(now == before.push(last));
            if now.contains(face) {
                let i = choose|i: int| 0 <= i < now.len() && now[i] == face;
                if i < before.len() {
                    assert(before[i] == face);
                    assert(before.contains(face));
                } else {
                    assert(face == last);
                }
            }
            if face.spec_index() < k && face_visible(voxels, index, face) {
                if face.spec_index() < k - 1 {
                    assert(before.contains(face));
                    let i = choose|i: int| 0 <= i < before.len() && before[i] == face;
                    assert(now[i] == face);
                    assert(now.contains(face));
                } else {
                    assert(face == last);
                    assert(now[before.len() as int] == face);
                    assert(now.contains(face));
                }
            }
        } else {
            assert(now == before);
            if face.spec_index() == k - 1 {
                assert(face == last);
            }
        }
    } else {
        assert(now.len() == 0);
        if now.contains(face) {
            let i = choose|i: int| 0 <= i < now.len() && now[i] == face;
        }
    }
}

/// Every entry of the list stands for a voxel that adds to the mesh, and holds
/// that voxel's visible faces, of which there are at most six.
pub proof fn lemma_render_list_entry(voxels: Seq<Voxel>, n: int, j: int)
    requires
        0 <= j < render_list(voxels, n).len(),
    ensures
        exists|index: int|
            0 <= index < n && voxel_renders(voxels, index) && #[trigger] voxels[index]
                == render_list(voxels, n)[j].voxel && render_list(voxels, n)[j].faces
                == visible_faces(voxels, index),
        0 < render_list(voxels, n)[j].faces.len() <= 6,
        !(render_list(voxels, n)[j].voxel.visibility is Empty),
    decreases n,
{
    if n > 0 {
        let before = render_list(voxels, n - 1);
        if j < before.len() {
            lemma_render_list_entry(voxels, n - 1, j);
            let index = choose|index: int|
                0 <= index < n - 1 && voxel_renders(voxels, index) && #[trigger] voxels[index]
                    == before[j].voxel && before[j].faces == visible_faces(voxels, index);
            assert(0 <= index < n && voxels[index] == render_list(voxels, n)[j].voxel);
        } else {
            lemma_visible_faces_upto(voxels, n - 1, 6);
            assert(voxels[n - 1] == render_list(voxels, n)[j].voxel);
        }
    }
}

/// A list of voxels has at most six faces for each of the voxels it was made of.
pub proof fn lemma_render_list_quads(voxels: Seq<Voxel>, n: int)
    requires
        0 <= n,
    ensures
        render_list(voxels, n).len() <= n,
        0 <= list_quads(render_list(voxels, n)) <= 6 * n,
    decreases n,
{
    if n > 0 {
        lemma_render_list_quads(voxels, n - 1);
        lemma_visible_faces_upto(voxels, n - 1, 6);
        if voxel_renders(voxels, n - 1) {
            let list = render_list(voxels, n);
            assert(list.drop_last() =~= render_list(voxels, n - 1));
        }
    }
}

/// The faces of a list's first `i` voxels are part of those of the whole list.
proof fn lemma_list_quads_take(list: Seq<RenderVoxelView>, i: int)
    requires
        0 <= i <= list.len(),
    ensures
        0 <= list_quads(list.take(i)) <= list_quads(list),
    decreases list.len() - i,
{
    if i < list.len() {
        lemma_list_quads_take(list, i + 1);
        lemma_list_quads_nonnegative(list.take(i));
        assert(list.take(i + 1).drop_last() =~= list.take(i));
    } else {
        assert(list.take(i) =~= list);
        lemma_list_quads_nonnegative(list);
    }
}

proof fn lemma_list_quads_nonnegative(list: Seq<RenderVoxelView>)
    ensures
        0 <= list_quads(list),
    decreases list.len(),
{
    if list.len() > 0 {
        lemma_list_quads_nonnegative(list.drop_last());
    }
}

/// The views of a sequence of render voxels.
pub open spec fn render_views(render_voxels: Seq<RenderVoxel>) -> Seq<RenderVoxelView> {
    render_voxels.map_values(|r: RenderVoxel| r@)
}

impl RawChunkMesh {
    /// Clears the vertices and indices
    pub fn clear(&mut self)
        ensures
            final(self).position == old(self).position,
            final(self).vertices@ == Seq::<BlockVertex>::empty(),
            final(self).indices@ == Seq::<u32>::empty(),
    {
        self.vertices.clear();
        self.indices.clear();
    }

    /// Lists the voxels that add to a mesh, each with the faces of it that can
    /// be seen. A face is visible if the next voxel is not opaque.
    pub fn visible_voxels<'a>(voxels: &'a Vec<Voxel>) -> (render_voxels: Vec<RenderVoxel<'a>>)
        requires
            voxels.len() == SECTION_VOLUME,
        ensures
            render_views(render_voxels@) == render_list(voxels@, SECTION_VOLUME as int),
    {
        let mut render_voxels: Vec<RenderVoxel<'a>> = Vec::with_capacity(voxels.len());
        let all_faces = Face::iter();
        let mut index: usize = 0;
        while index < voxels.len()
            invariant
                voxels.len() == SECTION_VOLUME,
                index <= voxels.len(),
                all_faces@ == Face::all(),
                render_views(render_voxels@) == render_list(voxels@, index as int),
            decreases voxels.len() - index,
        {
            let coords: BlockPosition = BlockPosition::from_index(index);
            let current_voxel = &voxels[index];

            let mut faces: Vec<Face> = Vec::with_capacity(6);
            // Iterate over each face and check if it is visible
            let mut k: usize = 0;
            while k < 6
                invariant
                    voxels.len() == SECTION_VOLUME,
                    index < voxels.len(),
                    k <= 6,
                    all_faces@ == Face::all(),
                    coords.coords() == index_coords(index as int),
                    *current_voxel == voxels@[index as int],
                    faces@ == visible_faces_upto(voxels@, index as int, k as int),
                decreases 6 - k,
            {
                let face = all_faces[k];
                match coords.position_for_face(face) {
                    Some(c) => {
                        let next_voxel = &voxels[c.to_index()];
                        // Opaque is visible
                        if !next_voxel.visibility.is_opaque()
                            && current_voxel.visibility.is_opaque() {
                            faces.push(face);
                        }
                    },
                    None => {
                        faces.push(face);
                    },
                }
                k += 1;
            }
            if faces.len() > 0 && !current_voxel.visibility.is_empty() {
                let ghost before = render_views(render_voxels@);
                let entry = RenderVoxel { voxel: current_voxel, faces: faces };
                render_voxels.push(entry);
                assert(render_views(render_voxels@) =~= before.push(entry@));
            }
            index += 1;
        }
        render_voxels
    }

    /// Builds a new chunk mesh from a list of voxels
    /// See the `rebuild` method for more info
    pub fn build(position: BlockPosition, voxels: Vec<Voxel>) -> (mesh: RawChunkMesh)
        requires
            voxels.len() == SECTION_VOLUME,
            in_mesh_range(position),
            forall|i: int| 0 <= i < voxels.len() ==> in_mesh_range(#[trigger] voxels[i].position),
        ensures
            mesh@ == mesh_of(position, voxels@),
    {
        let mut this = Self { position: position, vertices: Vec::new(), indices: Vec::new() };
        this.rebuild(voxels);
        this
    }

    /// Rebuilds the chunk mesh from a list of voxels
    /// This will remove all existing vertices and indices
    /// and rebuild them from the list of voxels
    /// A list of Voxels is 4096 elements long. So an XYZ coordinate can be converted to an index as long as it is within the range of 0-15
    /// For more info on Voxel Location see the [VoxelLocation] trait
    pub fn rebuild(&mut self, voxels: Vec<Voxel>)
        requires
            voxels.len() == SECTION_VOLUME,
            in_mesh_range(old(self).position),
            forall|i: int| 0 <= i < voxels.len() ==> in_mesh_range(#[trigger] voxels[i].position),
        ensures
            final(self)@ == mesh_of(old(self).position, voxels@),
    {
        self.clear();
        let render_voxels = Self::visible_voxels(&voxels);
        let ghost list = render_list(voxels@, SECTION_VOLUME as int);
        let mut vertex_index: u32 = 0;
        let chunk_position: BlockPosition = self.position;
        proof {
            lemma_render_list_quads(voxels@, SECTION_VOLUME as int);
        }
        // Calculate the vertexes and indicies for each render voxel
        let mut i: usize = 0;
        while i < render_voxels.len()
            invariant
                voxels.len() == SECTION_VOLUME,
                forall|i: int|
                    0 <= i < voxels.len() ==> in_mesh_range(#[trigger] voxels[i].position),
                list == render_list(voxels@, SECTION_VOLUME as int),
                render_views(render_voxels@) == list,
                list_quads(list) <= 6 * SECTION_VOLUME,
                i <= render_voxels.len(),
                self.position == chunk_position,
                in_mesh_range(chunk_position),
                self.vertices@ == list_vertices(list.take(i as int), chunk_position),
                self.indices@ == mesh_indices(list_quads(list.take(i as int))),
                vertex_index == 4 * list_quads(list.take(i as int)),
            decreases render_voxels.len() - i,
        {
            let render_voxel = &render_voxels[i];
            proof {
                assert(render_voxel@ == list[i as int]);
                lemma_render_list_entry(voxels@, SECTION_VOLUME as int, i as int);
                lemma_list_quads_take(list, i as int + 1);
                lemma_list_quads_take(list, i as int);
                assert(list.take(i as int + 1).drop_last() =~= list.take(i as int));
            }
            let ghost done = list_quads(list.take(i as int));
            let mut j: usize = 0;
            while j < render_voxel.faces.len()
                invariant
                    render_voxel@ == list[i as int],
                    i < list.len(),
                    j <= render_voxel.faces.len(),
                    !(render_voxel.voxel.visibility is Empty),
                    in_mesh_range(render_voxel.voxel.position),
                    in_mesh_range(chunk_position),
                    self.position == chunk_position,
                    done == list_quads(list.take(i as int)),
                    0 <= done,
                    done + render_voxel.faces.len() <= 6 * SECTION_VOLUME,
                    self.vertices@ == list_vertices(list.take(i as int), chunk_position)
                        + faces_vertices(
                        *render_voxel.voxel,
                        render_voxel.faces@.take(j as int),
                        chunk_position,
                    ),
                    self.indices@ == mesh_indices(done + j),
                    vertex_index == 4 * (done + j),
                decreases render_voxel.faces.len() - j,
            {
                let face = render_voxel.voxel.face(render_voxel.faces[j], chunk_position);
                let ghost before = self.vertices@;
                self.vertices.push(face[0]);
                self.vertices.push(face[1]);
                self.vertices.push(face[2]);
                self.vertices.push(face[3]);
                UntexturedQuad::push_indicies(&mut self.indices, vertex_index);
                vertex_index += 4;
                proof {
                    let faces = render_voxel.faces@;
                    assert(faces.take(j as int + 1).drop_last() =~= faces.take(j as int));
                    assert(faces.take(j as int + 1).last() == faces[j as int]);
                    assert(self.vertices@ =~= before + face@);
                    lemma_mesh_indices_push(done + j);
                }
                j += 1;
            }
            proof {
                assert(render_voxel.faces@.take(j as int) =~= render_voxel.faces@);
                assert(faces_vertices(
                    *render_voxel.voxel,
                    Seq::<Face>::empty(),
                    chunk_position,
                ) =~= Seq::<BlockVertex>::empty());
            }
            i += 1;
        }
        proof {
            assert(list.take(i as int) =~= list);
        }
    }
}

impl Clone for RawChunkMesh {
    fn clone(&self) -> (mesh: RawChunkMesh)
        ensures
            mesh@ == self@,
    {
        RawChunkMesh {
            position: self.position,
            vertices: self.vertices.clone(),
            indices: self.indices.clone(),
        }
    }
}

/// Where two opaque voxels of a section touch, neither shows the face that it
/// shares with the other: a mesh has a quad for neither side.
pub proof fn lemma_shared_face_hidden(voxels: Seq<Voxel>, index: int, face: Face)
    requires
        voxels.len() == SECTION_VOLUME,
        0 <= index < SECTION_VOLUME,
        neighbor(index_coords(index), face) is Some,
        voxels[index].visibility is Opaque,
        voxels[coords_index(neighbor(index_coords(index), face).unwrap())].visibility is Opaque,
    ensures
        !face_visible(voxels, index, face),
        !visible_faces(voxels, index).contains(face),
        !face_visible(
            voxels,
            coords_index(neighbor(index_coords(index), face).unwrap()),
            face.spec_opposite(),
        ),
        !visible_faces(
            voxels,
            coords_index(neighbor(index_coords(index), face).unwrap()),
        ).contains(face.spec_opposite()),
{
    let here = index_coords(index);
    let there = neighbor(here, face).unwrap();
    let other = coords_index(there);
    lemma_index_round_trip(index);
    lemma_neighbor_inside(here, face);
    lemma_coords_round_trip(there);
    lemma_visible_face_member(voxels, index, 6, face);
    lemma_visible_face_member(voxels, other, 6, face.spec_opposite());
}

/// A list of voxels that are all empty adds nothing to a mesh.
pub proof fn lemma_empty_voxels_render_nothing(voxels: Seq<Voxel>, n: int)
    requires
        0 <= n <= voxels.len(),
        forall|i: int| 0 <= i < n ==> (#[trigger] voxels[i]).visibility is Empty,
    ensures
        render_list(voxels, n) == Seq::<RenderVoxelView>::empty(),
    decreases n,
{
    if n > 0 {
        lemma_empty_voxels_render_nothing(voxels, n - 1);
    }
}

/// The mesh of a section whose voxels are all empty has no vertex and no index.
pub proof fn lemma_empty_voxels_mesh(position: BlockPosition, voxels: Seq<Voxel>)
    requires
        voxels.len() == SECTION_VOLUME,
        forall|i: int| 0 <= i < voxels.len() ==> (#[trigger] voxels[i]).visibility is Empty,
    ensures
        mesh_of(position, voxels).vertices == Seq::<BlockVertex>::empty(),
        mesh_of(position, voxels).indices == Seq::<u32>::empty(),
{
    lemma_empty_voxels_render_nothing(voxels, SECTION_VOLUME as int);
    assert(mesh_indices(0) =~= Seq::<u32>::empty());
}

/// The corners of a voxel's faces are four for each face.
pub proof fn lemma_faces_vertices_len(voxel: Voxel, faces: Seq<Face>, origin: BlockPosition)
    ensures
        faces_vertices(voxel, faces, origin).len() == 4 * faces.len(),
    decreases faces.len(),
{
    if faces.len() > 0 {
        lemma_faces_vertices_len(voxel, faces.drop_last(), origin);
    }
}

/// A mesh has four vertices and six indices for each face in the list it was
/// made of.
pub proof fn lemma_list_vertices_len(list: Seq<RenderVoxelView>, origin: BlockPosition)
    ensures
        list_vertices(list, origin).len() == 4 * list_quads(list),
        0 <= list_quads(list),
        mesh_indices(list_quads(list)).len() == 6 * list_quads(list),
    decreases list.len(),
{
    if list.len() > 0 {
        lemma_list_vertices_len(list.drop_last(), origin);
        lemma_faces_vertices_len(list.last().voxel, list.last().faces, origin);
    }
}

/// Every index of a mesh names one of its vertices.
pub proof fn lemma_mesh_indices_in_range(position: BlockPosition, voxels: Seq<Voxel>, i: int)
    requires
        0 <= i < mesh_of(position, voxels).indices.len(),
    ensures
        0 <= mesh_of(position, voxels).indices[i] < mesh_of(position, voxels).vertices.len(),
{
    let list = render_list(voxels, SECTION_VOLUME as int);
    lemma_list_vertices_len(list, position);
    lemma_render_list_quads(voxels, SECTION_VOLUME as int);
    let quads = list_quads(list);
    assert(0 <= i / 6 < quads);
    assert(0 <= crate::cube_data::base_indices()[i % 6] <= 3);
}

/// A single opaque voxel in a section that is empty otherwise shows all six
/// faces, whatever its place: its mesh has 24 vertices and 36 indices.
pub proof fn lemma_single_voxel_mesh(position: BlockPosition, voxels: Seq<Voxel>, index: int)
    requires
        voxels.len() == SECTION_VOLUME,
        0 <= index < SECTION_VOLUME,
        voxels[index].visibility is Opaque,
        forall|i: int|
            0 <= i < voxels.len() && i != index ==> (#[trigger] voxels[i]).visibility is Empty,
    ensures
        visible_faces(voxels, index) == Face::all(),
        render_list(voxels, SECTION_VOLUME as int) == seq![
            RenderVoxelView { voxel: voxels[index], faces: Face::all() },
        ],
        mesh_of(position, voxels).vertices.len() == 24,
        mesh_of(position, voxels).indices.len() == 36,
{
    let here = index_coords(index);
    lemma_index_round_trip(index);
    assert forall|face: Face| face_visible(voxels, index, face) by {
        lemma_neighbor_inside(here, face);
        if neighbor(here, face) is Some {
            let there = neighbor(here, face).unwrap();
            lemma_coords_round_trip(there);
            assert(coords_index(there) != index);
        }
    }
    let faces = visible_faces(voxels, index);
    assert(faces =~= Face::all()) by {
        reveal_with_fuel(visible_faces_upto, 7);
    }
    lemma_single_voxel_render_list(voxels, index, SECTION_VOLUME as int);
    let list = render_list(voxels, SECTION_VOLUME as int);
    assert(list.len() == 1);
    assert(list.last().faces == Face::all());
    assert(Face::all().len() == 6);
    assert(list.drop_last() =~= Seq::<RenderVoxelView>::empty());
    assert(list_quads(list.drop_last()) == 0);
    assert(list_quads(list) == 6);
    lemma_list_vertices_len(list, position);
}

/// Of a section with a single voxel that is not empty, the list holds that
/// voxel once the first `n` voxels reach it, and nothing before.
proof fn lemma_single_voxel_render_list(voxels: Seq<Voxel>, index: int, n: int)
    requires
        0 <= n <= voxels.len(),
        0 <= index < voxels.len(),
        !(voxels[index].visibility is Empty),
        visible_faces(voxels, index).len() > 0,
        forall|i: int|
            0 <= i < voxels.len() && i != index ==> (#[trigger] voxels[i]).visibility is Empty,
    ensures
        render_list(voxels, n) == if n <= index {
            Seq::<RenderVoxelView>::empty()
        } else {
            seq![RenderVoxelView { voxel: voxels[index], faces: visible_faces(voxels, index) }]
        },
    decreases n,
{
    if n > 0 {
        lemma_single_voxel_render_list(voxels, index, n - 1);
        if n - 1 == index {
            assert(render_list(voxels, n) =~= seq![
                RenderVoxelView { voxel: voxels[index], faces: visible_faces(voxels, index) },
            ]);
        }
    }
}

} // verus!
