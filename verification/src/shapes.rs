use crate::face::{Face, Normal};
use crate::position::BlockPosition;
use crate::texture::{TextureCoordinates, UVCoordinates};
use vstd::prelude::*;

verus! {

/// A point in space, measured in half blocks: the corners of a cube of whole
/// edge length round a whole centre are whole numbers of half blocks.
#[derive(Debug, Clone, Copy, PartialEq, Eq, Hash, Structural)]
pub struct Point3 {
    pub x: i64,
    pub y: i64,
    pub z: i64,
}

/// A corner of a shape: where it is, which point of the atlas it shows and
/// which way its surface looks.
#[derive(Debug, Clone, Copy, PartialEq, Eq, Hash, Structural)]
pub struct Vertex {
    /// The position of the vertex
    pub position: Point3,
    /// The uv coordinates of the vertex
    pub uv: TextureCoordinates,
    pub normal: Normal,
}

impl Vertex {
    pub fn new(position: Point3, uv: TextureCoordinates, normal: Normal) -> (v: Vertex)
        ensures
            v == (Vertex { position, uv, normal }),
    {
        Vertex { position, uv, normal }
    }
}

/// Whether every index of a sequence, raised by `offset`, still fits an index.
pub open spec fn offset_fits(indices: Seq<u32>, offset: int) -> bool {
    forall|i: int| 0 <= i < indices.len() ==> #[trigger] indices[i] + offset <= u32::MAX
}

/// The indices of a sequence, each raised by `offset`.
pub open spec fn offset_indices(indices: Seq<u32>, offset: int) -> Seq<u32> {
    Seq::new(indices.len(), |i: int| (indices[i] + offset) as u32)
}

/// Basic Shape trait
pub trait Shape {
    /// The corners of the shape.
    spec fn spec_vertices(&self) -> Seq<Vertex>;

    /// The indices that join the corners to triangles, counted from the first
    /// corner of the shape.
    spec fn spec_indices(&self) -> Seq<u32>;

    /// The triangles of the shape, each with its three corners.
    spec fn spec_grouped(&self) -> Seq<Seq<Vertex>>;

    /// Whether the indices of the shape can be put behind the given ones.
    spec fn can_push_indices(&self, indices: Seq<u32>) -> bool;

    /// The given indices with those of the shape behind them.
    spec fn spec_push_indices(&self, indices: Seq<u32>) -> Seq<u32>;

    /// verticies of the shape
    fn vertices(&self) -> (vertices: Vec<Vertex>)
        ensures
            vertices@ == self.spec_vertices(),
    ;

    fn number_of_verticies(&self) -> (n: usize)
        ensures
            n == self.spec_vertices().len(),
    ;

    fn push_verticies(&self, verticies: &mut Vec<Vertex>)
        ensures
            final(verticies)@ == old(verticies)@ + self.spec_vertices(),
    ;

    /// indices of the shape
    fn indices(&self) -> (indices: Vec<u32>)
        requires
            self.can_push_indices(Seq::empty()),
        ensures
            indices@ == self.spec_indices(),
    ;

    fn number_of_indices(&self) -> (n: usize)
        requires
            self.can_push_indices(Seq::empty()),
        ensures
            n == self.spec_indices().len(),
    ;

    fn push_indices(&self, indices: &mut Vec<u32>)
        requires
            self.can_push_indices(old(indices)@),
        ensures
            final(indices)@ == self.spec_push_indices(old(indices)@),
    ;

    fn verticies_grouped(&self) -> (triangles: Vec<[Vertex; 3]>)
        ensures
            triangles.len() == self.spec_grouped().len(),
            forall|i: int| 0 <= i < triangles.len() ==> (#[trigger] triangles[i])@ == self.spec_grouped()[i],
    ;
}

/// Puts vertices behind others, one by one.
pub fn extend_vertices(verticies: &mut Vec<Vertex>, more: &Vec<Vertex>)
    ensures
        final(verticies)@ == old(verticies)@ + more@,
{
    let mut i: usize = 0;
    while i < more.len()
        invariant
            i <= more.len(),
            verticies@ == old(verticies)@ + more@.take(i as int),
        decreases more.len() - i,
    {
        verticies.push(more[i]);
        proof {
            assert(more@.take(i as int + 1) =~= more@.take(i as int).push(more@[i as int]));
            assert(verticies@ =~= old(verticies)@ + more@.take(i as int + 1));
        }
        i += 1;
    }
    assert(more@.take(i as int) =~= more@);
}

/// Puts indices behind others, each raised by `offset`.
pub fn extend_indices(indices: &mut Vec<u32>, more: &Vec<u32>, offset: u32)
    requires
        offset_fits(more@, offset as int),
    ensures
        final(indices)@ == old(indices)@ + offset_indices(more@, offset as int),
{
    let mut i: usize = 0;
    while i < more.len()
        invariant
            i <= more.len(),
            offset_fits(more@, offset as int),
            indices@ == old(indices)@ + offset_indices(more@, offset as int).take(i as int),
        decreases more.len() - i,
    {
        indices.push(more[i] + offset);
        proof {
            let all = offset_indices(more@, offset as int);
            assert(all.take(i as int + 1) =~= all.take(i as int).push(all[i as int]));
            assert(indices@ =~= old(indices)@ + all.take(i as int + 1));
        }
        i += 1;
    }
    proof {
        let all = offset_indices(more@, offset as int);
        assert(all.take(i as int) =~= all);
    }
}

/// A flat rectangle given by its four corners.
#[derive(Debug, Clone, Copy, PartialEq, Eq, Hash, Structural)]
pub struct Quad {
    pub top_left: Vertex,
    pub top_right: Vertex,
    pub bottom_left: Vertex,
    pub bottom_right: Vertex,
}

/// Whether both ends of an edge of length `size` blocks round the centre `center`
/// are half-block numbers that a machine word holds.
pub open spec fn axis_fits(center: int, size: int) -> bool {
    &&& i64::MIN <= 2 * center - size <= i64::MAX
    &&& i64::MIN <= 2 * center + size <= i64::MAX
}

/// The lower end of that edge, in half blocks.
pub open spec fn axis_low(center: int, size: int) -> i64 {
    (2 * center - size) as i64
}

/// The upper end of that edge, in half blocks.
pub open spec fn axis_high(center: int, size: int) -> i64 {
    (2 * center + size) as i64
}

fn edge_low(center: i64, size: i64) -> (low: i64)
    requires
        axis_fits(center as int, size as int),
    ensures
        low == axis_low(center as int, size as int),
{
    let doubled: i128 = 2 * (center as i128);
    (doubled - size as i128) as i64
}

fn edge_high(center: i64, size: i64) -> (high: i64)
    requires
        axis_fits(center as int, size as int),
    ensures
        high == axis_high(center as int, size as int),
{
    let doubled: i128 = 2 * (center as i128);
    (doubled + size as i128) as i64
}

impl Quad {
    pub fn new(top_left: Vertex, top_right: Vertex, bottom_left: Vertex, bottom_right: Vertex) -> (q:
        Quad)
        ensures
            q == (Quad { top_left, top_right, bottom_left, bottom_right }),
    {
        Quad { top_left, top_right, bottom_left, bottom_right }
    }

    /// The quad with the given corners, each showing its own corner of the
    /// texture, all looking the same way.
    pub open spec fn spec_with_normal(
        top_left: Point3,
        top_right: Point3,
        bottom_left: Point3,
        bottom_right: Point3,
        uv_coordinates: UVCoordinates,
        normal: Normal,
    ) -> Quad {
        Quad {
            top_left: Vertex { position: top_left, uv: uv_coordinates.top_left, normal },
            top_right: Vertex { position: top_right, uv: uv_coordinates.top_right, normal },
            bottom_left: Vertex { position: bottom_left, uv: uv_coordinates.bottom_left, normal },
            bottom_right: Vertex { position: bottom_right, uv: uv_coordinates.bottom_right, normal },
        }
    }

    pub fn new_with_normal(
        top_left: Point3,
        top_right: Point3,
        bottom_left: Point3,
        bottom_right: Point3,
        uv_coordinates: UVCoordinates,
        normal: Normal,
    ) -> (q: Quad)
        ensures
            q == Quad::spec_with_normal(
                top_left,
                top_right,
                bottom_left,
                bottom_right,
                uv_coordinates,
                normal,
            ),
    {
        Quad {
            top_left: Vertex::new(top_left, uv_coordinates.top_left, normal),
            top_right: Vertex::new(top_right, uv_coordinates.top_right, normal),
            bottom_left: Vertex::new(bottom_left, uv_coordinates.bottom_left, normal),
            bottom_right: Vertex::new(bottom_right, uv_coordinates.bottom_right, normal),
        }
    }

    /// Whether a cube of the given size round the given centre has corners that
    /// the vertices can hold.
    pub open spec fn cube_fits(center: BlockPosition, size: BlockPosition) -> bool {
        &&& axis_fits(center.x as int, size.x as int)
        &&& axis_fits(center.y as int, size.y as int)
        &&& axis_fits(center.z as int, size.z as int)
    }

    /// The face of a cube as a quad. The cube has its centre at `center` and
    /// edges of `size` blocks; the quad lies in the side of the cube that the
    /// face looks out of, and its corners are listed as seen from outside.
    pub open spec fn spec_quad_from_face(
        face: Face,
        center: BlockPosition,
        size: BlockPosition,
        uv_coordinates: UVCoordinates,
    ) -> Quad {
        let x_left = axis_low(center.x as int, size.x as int);
        let x_right = axis_high(center.x as int, size.x as int);
        let y_up = axis_high(center.y as int, size.y as int);
        let y_down = axis_low(center.y as int, size.y as int);
        let z_front = axis_low(center.z as int, size.z as int);
        let z_back = axis_high(center.z as int, size.z as int);
        let normal = face.spec_normal();
        match face {
            Face::North => Quad::spec_with_normal(
                Point3 { x: x_right, y: y_up, z: z_front },
                Point3 { x: x_left, y: y_up, z: z_front },
                Point3 { x: x_right, y: y_down, z: z_front },
                Point3 { x: x_left, y: y_down, z: z_front },
                uv_coordinates,
                normal,
            ),
            Face::Top => Quad::spec_with_normal(
                Point3 { x: x_right, y: y_up, z: z_back },
                Point3 { x: x_left, y: y_up, z: z_back },
                Point3 { x: x_right, y: y_up, z: z_front },
                Point3 { x: x_left, y: y_up, z: z_front },
                uv_coordinates,
                normal,
            ),
            Face::Bottom => Quad::spec_with_normal(
                Point3 { x: x_left, y: y_down, z: z_back },
                Point3 { x: x_right, y: y_down, z: z_back },
                Point3 { x: x_left, y: y_down, z: z_front },
                Point3 { x: x_right, y: y_down, z: z_front },
                uv_coordinates,
                normal,
            ),
            Face::West => Quad::spec_with_normal(
                Point3 { x: x_left, y: y_up, z: z_front },
                Point3 { x: x_left, y: y_up, z: z_back },
                Point3 { x: x_left, y: y_down, z: z_front },
                Point3 { x: x_left, y: y_down, z: z_back },
                uv_coordinates,
                normal,
            ),
            Face::East => Quad::spec_with_normal(
                Point3 { x: x_right, y: y_up, z: z_back },
                Point3 { x: x_right, y: y_up, z: z_front },
                Point3 { x: x_right, y: y_down, z: z_back },
                Point3 { x: x_right, y: y_down, z: z_front },
                uv_coordinates,
                normal,
            ),
            Face::South => Quad::spec_with_normal(
                Point3 { x: x_left, y: y_up, z: z_back },
                Point3 { x: x_right, y: y_up, z: z_back },
                Point3 { x: x_left, y: y_down, z: z_back },
                Point3 { x: x_right, y: y_down, z: z_back },
                uv_coordinates,
                normal,
            ),
        }
    }

    /// Creates a new Quad from a face
    /// # Arguments
    /// * `face` - The face to create the quad from
    /// * `center` - The centre of the cube, in blocks
    /// * `size` - The edge lengths of the cube, in blocks
    /// * `uv_coordinates` - The UV coordinates of the quad
    pub fn new_quad_from_face(
        face: Face,
        center: BlockPosition,
        size: BlockPosition,
        uv_coordinates: UVCoordinates,
    ) -> (q: Quad)
        requires
            Quad::cube_fits(center, size),
        ensures
            q == Quad::spec_quad_from_face(face, center, size, uv_coordinates),
    {
        // Y is up. Z is front. X is left.
        let x_left: i64 = edge_low(center.x, size.x);
        let x_right: i64 = edge_high(center.x, size.x);

        let y_up: i64 = edge_high(center.y, size.y);
        let y_down: i64 = edge_low(center.y, size.y);

        let z_front: i64 = edge_low(center.z, size.z);
        let z_back: i64 = edge_high(center.z, size.z);
        match face {
            Face::North => Quad::new_with_normal(
                Point3 { x: x_right, y: y_up, z: z_front },
                Point3 { x: x_left, y: y_up, z: z_front },
                Point3 { x: x_right, y: y_down, z: z_front },
                Point3 { x: x_left, y: y_down, z: z_front },
                uv_coordinates,
                face.normal(),
            ),
            Face::Top => Quad::new_with_normal(
                Point3 { x: x_right, y: y_up, z: z_back },
                Point3 { x: x_left, y: y_up, z: z_back },
                Point3 { x: x_right, y: y_up, z: z_front },
                Point3 { x: x_left, y: y_up, z: z_front },
                uv_coordinates,
                face.normal(),
            ),
            Face::Bottom => Quad::new_with_normal(
                Point3 { x: x_left, y: y_down, z: z_back },
                Point3 { x: x_right, y: y_down, z: z_back },
                Point3 { x: x_left, y: y_down, z: z_front },
                Point3 { x: x_right, y: y_down, z: z_front },
                uv_coordinates,
                face.normal(),
            ),
            Face::West => Quad::new_with_normal(
                Point3 { x: x_left, y: y_up, z: z_front },
                Point3 { x: x_left, y: y_up, z: z_back },
                Point3 { x: x_left, y: y_down, z: z_front },
                Point3 { x: x_left, y: y_down, z: z_back },
                uv_coordinates,
                face.normal(),
            ),
            Face::East => Quad::new_with_normal(
                Point3 { x: x_right, y: y_up, z: z_back },
                Point3 { x: x_right, y: y_up, z: z_front },
                Point3 { x: x_right, y: y_down, z: z_back },
                Point3 { x: x_right, y: y_down, z: z_front },
                uv_coordinates,
                face.normal(),
            ),
            Face::South => Quad::new_with_normal(
                Point3 { x: x_left, y: y_up, z: z_back },
                Point3 { x: x_right, y: y_up, z: z_back },
                Point3 { x: x_left, y: y_down, z: z_back },
                Point3 { x: x_right, y: y_down, z: z_back },
                uv_coordinates,
                face.normal(),
            ),
        }
    }
}

/// The indices of the two triangles of a quad, counted from its first corner.
pub open spec fn quad_shape_indices() -> Seq<u32> {
    seq![2u32, 0u32, 3u32, 0u32, 1u32, 3u32]
}

impl Shape for Quad {
    open spec fn spec_vertices(&self) -> Seq<Vertex> {
        seq![self.top_left, self.top_right, self.bottom_left, self.bottom_right]
    }

    open spec fn spec_indices(&self) -> Seq<u32> {
        quad_shape_indices()
    }

    open spec fn spec_grouped(&self) -> Seq<Seq<Vertex>> {
        seq![
            seq![self.top_left, self.bottom_left, self.top_right],
            seq![self.top_right, self.bottom_left, self.bottom_right],
        ]
    }

    /// The indices of a quad are raised by the number of indices that are
    /// there already, which must leave room for them.
    open spec fn can_push_indices(&self, indices: Seq<u32>) -> bool {
        indices.len() + 3 <= u32::MAX
    }

    open spec fn spec_push_indices(&self, indices: Seq<u32>) -> Seq<u32> {
        indices + offset_indices(quad_shape_indices(), indices.len() as int)
    }

    fn vertices(&self) -> (vertices: Vec<Vertex>) {
        let vertices = vec![self.top_left, self.top_right, self.bottom_left, self.bottom_right];
        assert(vertices@ =~= self.spec_vertices());
        vertices
    }

    fn number_of_verticies(&self) -> (n: usize) {
        self.vertices().len()
    }

    fn push_verticies(&self, verticies: &mut Vec<Vertex>) {
        let more = self.vertices();
        extend_vertices(verticies, &more);
    }

    fn indices(&self) -> (indices: Vec<u32>) {
        let indices: Vec<u32> = vec![2, 0, 3, 0, 1, 3];
        assert(indices@ =~= quad_shape_indices());
        indices
    }

    fn number_of_indices(&self) -> (n: usize) {
        self.indices().len()
    }

    fn push_indices(&self, indices: &mut Vec<u32>) {
        let offset: u32 = indices.len() as u32;
        let more = self.indices();
        extend_indices(indices, &more, offset);
    }

    fn verticies_grouped(&self) -> (triangles: Vec<[Vertex; 3]>) {
        let first = [self.top_left, self.bottom_left, self.top_right];
        let second = [self.top_right, self.bottom_left, self.bottom_right];
        assert(first@ =~= self.spec_grouped()[0]);
        assert(second@ =~= self.spec_grouped()[1]);
        vec![first, second]
    }
}

/// Every corner of the quad of a face lies in the side of the cube that the
/// face looks out of, and looks the way the face does.
pub proof fn lemma_quad_lies_in_its_side(
    face: Face,
    center: BlockPosition,
    size: BlockPosition,
    uv: UVCoordinates,
    corner: int,
)
    requires
        0 <= corner < 4,
    ensures
        ({
            let v = Quad::spec_quad_from_face(face, center, size, uv).spec_vertices()[corner];
            &&& v.normal == face.spec_normal()
            &&& v.uv == uv.corners()[corner]
            &&& face.spec_normal().x == 1 ==> v.position.x == axis_high(center.x as int, size.x as int)
            &&& face.spec_normal().x == -1 ==> v.position.x == axis_low(center.x as int, size.x as int)
            &&& face.spec_normal().y == 1 ==> v.position.y == axis_high(center.y as int, size.y as int)
            &&& face.spec_normal().y == -1 ==> v.position.y == axis_low(center.y as int, size.y as int)
            &&& face.spec_normal().z == 1 ==> v.position.z == axis_high(center.z as int, size.z as int)
            &&& face.spec_normal().z == -1 ==> v.position.z == axis_low(center.z as int, size.z as int)
        }),
{
}

} // verus!
