use crate::shapes::{extend_indices, extend_vertices, offset_fits, offset_indices, Shape, Vertex};
use vstd::prelude::*;

verus! {

/// The corners of the first `n` of a sequence of shapes, shape after shape.
pub open spec fn flat_vertices<T: Shape>(primitives: Seq<T>, n: int) -> Seq<Vertex>
    decreases n,
{
    if n <= 0 {
        Seq::empty()
    } else {
        flat_vertices(primitives, n - 1) + primitives[n - 1].spec_vertices()
    }
}

/// The triangles of the first `n` of a sequence of shapes, shape after shape.
pub open spec fn flat_grouped<T: Shape>(primitives: Seq<T>, n: int) -> Seq<Seq<Vertex>>
    decreases n,
{
    if n <= 0 {
        Seq::empty()
    } else {
        flat_grouped(primitives, n - 1) + primitives[n - 1].spec_grouped()
    }
}

/// The given indices with those of the first `n` shapes behind them. The
/// indices of a shape are raised by `offset` and by the number of corners of
/// the shapes before it.
pub open spec fn flat_indices<T: Shape>(primitives: Seq<T>, indices: Seq<u32>, offset: int, n: int) -> Seq<
    u32,
>
    decreases n,
{
    if n <= 0 {
        indices
    } else {
        flat_indices(primitives, indices, offset, n - 1) + offset_indices(
            primitives[n - 1].spec_indices(),
            offset + flat_vertices(primitives, n - 1).len(),
        )
    }
}

/// Whether the indices of the first `n` shapes, raised as `flat_indices` raises
/// them, all fit an index, and each of the shapes can list its own.
pub open spec fn flat_indices_fit<T: Shape>(primitives: Seq<T>, offset: int, n: int) -> bool
    decreases n,
{
    if n <= 0 {
        0 <= offset <= u32::MAX
    } else {
        &&& flat_indices_fit(primitives, offset, n - 1)
        &&& primitives[n - 1].can_push_indices(Seq::empty())
        &&& offset_fits(
            primitives[n - 1].spec_indices(),
            offset + flat_vertices(primitives, n - 1).len(),
        )
        &&& offset + flat_vertices(primitives, n).len() <= u32::MAX
    }
}

/// Both unsized and sized complex shapes use the same implementation
pub fn verticies_grouped<T: Shape>(primitives: &[T]) -> (triangles: Vec<[Vertex; 3]>)
    ensures
        triangles.len() == flat_grouped(primitives@, primitives@.len() as int).len(),
        forall|i: int|
            0 <= i < triangles.len() ==> (#[trigger] triangles[i])@ == flat_grouped(
                primitives@,
                primitives@.len() as int,
            )[i],
{
    let mut triangles: Vec<[Vertex; 3]> = Vec::new();
    let mut n: usize = 0;
    while n < primitives.len()
        invariant
            n <= primitives.len(),
            triangles.len() == flat_grouped(primitives@, n as int).len(),
            forall|i: int|
                0 <= i < triangles.len() ==> (#[trigger] triangles[i])@ == flat_grouped(
                    primitives@,
                    n as int,
                )[i],
        decreases primitives.len() - n,
    {
        let more = primitives[n].verticies_grouped();
        let ghost before = triangles@;
        let mut k: usize = 0;
        while k < more.len()
            invariant
                k <= more.len(),
                n < primitives.len(),
                more.len() == primitives@[n as int].spec_grouped().len(),
                forall|i: int|
                    0 <= i < more.len() ==> (#[trigger] more[i])@
                        == primitives@[n as int].spec_grouped()[i],
                triangles.len() == before.len() + k,
                forall|i: int| 0 <= i < before.len() ==> #[trigger] triangles[i] == before[i],
                forall|i: int|
                    0 <= i < k ==> (#[trigger] triangles[before.len() + i])@
                        == primitives@[n as int].spec_grouped()[i],
            decreases more.len() - k,
        {
            triangles.push(more[k]);
            k += 1;
        }
        proof {
            let all = flat_grouped(primitives@, n as int + 1);
            assert forall|i: int| 0 <= i < triangles.len() implies (#[trigger] triangles[i])@
                == all[i] by {
                if i < before.len() {
                    assert(triangles[i] == before[i]);
                } else {
                    assert(triangles[before.len() + (i - before.len())]@
                        == primitives@[n as int].spec_grouped()[i - before.len()]);
                }
            }
        }
        n += 1;
    }
    triangles
}

/// The corners of a sequence of shapes, shape after shape.
pub fn vertices<T: Shape>(primitives: &[T]) -> (verticies: Vec<Vertex>)
    ensures
        verticies@ == flat_vertices(primitives@, primitives@.len() as int),
{
    let mut verticies: Vec<Vertex> = Vec::new();
    push_verticies(primitives, &mut verticies);
    verticies
}

/// Puts the corners of a sequence of shapes behind the given ones.
pub fn push_verticies<T: Shape>(primitives: &[T], verticies: &mut Vec<Vertex>)
    ensures
        final(verticies)@ == old(verticies)@ + flat_vertices(primitives@, primitives@.len() as int),
{
    let mut n: usize = 0;
    while n < primitives.len()
        invariant
            n <= primitives.len(),
            verticies@ == old(verticies)@ + flat_vertices(primitives@, n as int),
        decreases primitives.len() - n,
    {
        let more = primitives[n].vertices();
        extend_vertices(verticies, &more);
        proof {
            assert(verticies@ =~= old(verticies)@ + flat_vertices(primitives@, n as int + 1));
        }
        n += 1;
    }
}

/// The indices of a sequence of shapes, counted from the first corner of the
/// first shape.
pub fn indices<T: Shape>(primitives: &[T]) -> (indices: Vec<u32>)
    requires
        flat_indices_fit(primitives@, 0, primitives@.len() as int),
    ensures
        indices@ == flat_indices(primitives@, Seq::empty(), 0, primitives@.len() as int),
{
    let mut indices: Vec<u32> = Vec::new();
    push_indices(primitives, &mut indices);
    indices
}

/// The first shapes fit where more of them do, and their corners are part of
/// the corners of more of them.
pub proof fn lemma_flat_indices_fit<T: Shape>(primitives: Seq<T>, offset: int, n: int, m: int)
    requires
        0 <= n <= m,
        flat_indices_fit(primitives, offset, m),
    ensures
        flat_indices_fit(primitives, offset, n),
        0 <= offset <= u32::MAX,
        flat_vertices(primitives, n).len() <= flat_vertices(primitives, m).len(),
        offset + flat_vertices(primitives, n).len() <= u32::MAX,
    decreases m,
{
    if m > 0 {
        if n < m {
            lemma_flat_indices_fit(primitives, offset, n, m - 1);
        } else {
            lemma_flat_indices_fit(primitives, offset, m - 1, m - 1);
        }
    }
}

/// Puts the indices of a sequence of shapes behind the given ones, raised by
/// the number of indices that are there already.
pub fn push_indices<T: Shape>(primitives: &[T], indices: &mut Vec<u32>)
    requires
        old(indices).len() <= u32::MAX,
        flat_indices_fit(primitives@, old(indices).len() as int, primitives@.len() as int),
    ensures
        final(indices)@ == flat_indices(
            primitives@,
            old(indices)@,
            old(indices).len() as int,
            primitives@.len() as int,
        ),
{
    let start: u32 = indices.len() as u32;
    let mut offset: u32 = start;
    let mut n: usize = 0;
    while n < primitives.len()
        invariant
            n <= primitives.len(),
            start == old(indices).len(),
            flat_indices_fit(primitives@, start as int, primitives@.len() as int),
            offset == start + flat_vertices(primitives@, n as int).len(),
            indices@ == flat_indices(primitives@, old(indices)@, start as int, n as int),
        decreases primitives.len() - n,
    {
        proof {
            lemma_flat_indices_fit(primitives@, start as int, n as int + 1, primitives@.len() as int);
        }
        let quad_indices = primitives[n].indices();
        extend_indices(indices, &quad_indices, offset);
        let corners: usize = primitives[n].vertices().len();
        offset += corners as u32;
        n += 1;
    }
}

/// ComplexShape that is composed of a constant size of primitives
#[derive(Debug, Clone, Copy, PartialEq)]
pub struct SizedComplexShape<T: Shape, const D: usize> {
    pub primitives: [T; D],
}

impl<T: Shape, const D: usize> SizedComplexShape<T, D> {
    pub fn new(primitives: [T; D]) -> (shape: Self)
        ensures
            shape.primitives == primitives,
    {
        SizedComplexShape { primitives: primitives }
    }
}

impl<T: Shape, const D: usize> Shape for SizedComplexShape<T, D> {
    open spec fn spec_vertices(&self) -> Seq<Vertex> {
        flat_vertices(self.primitives@, D as int)
    }

    open spec fn spec_indices(&self) -> Seq<u32> {
        flat_indices(self.primitives@, Seq::empty(), 0, D as int)
    }

    open spec fn spec_grouped(&self) -> Seq<Seq<Vertex>> {
        flat_grouped(self.primitives@, D as int)
    }

    open spec fn can_push_indices(&self, indices: Seq<u32>) -> bool {
        indices.len() <= u32::MAX && flat_indices_fit(
            self.primitives@,
            indices.len() as int,
            D as int,
        )
    }

    open spec fn spec_push_indices(&self, indices: Seq<u32>) -> Seq<u32> {
        flat_indices(self.primitives@, indices, indices.len() as int, D as int)
    }

    fn vertices(&self) -> (verticies: Vec<Vertex>) {
        vertices(self.primitives.as_slice())
    }

    fn number_of_verticies(&self) -> (n: usize) {
        self.vertices().len()
    }

    fn push_verticies(&self, verticies: &mut Vec<Vertex>) {
        push_verticies(self.primitives.as_slice(), verticies);
    }

    fn indices(&self) -> (indices: Vec<u32>) {
        indices(self.primitives.as_slice())
    }

    fn number_of_indices(&self) -> (n: usize) {
        self.indices().len()
    }

    fn push_indices(&self, indices: &mut Vec<u32>) {
        push_indices(self.primitives.as_slice(), indices);
    }

    fn verticies_grouped(&self) -> (triangles: Vec<[Vertex; 3]>) {
        verticies_grouped(self.primitives.as_slice())
    }
}

impl<T: Shape, const D: usize> From<[T; D]> for SizedComplexShape<T, D> {
    fn from(primitives: [T; D]) -> (shape: Self) {
        SizedComplexShape { primitives: primitives }
    }
}

impl<T: Shape, const D: usize> vstd::std_specs::convert::FromSpecImpl<[T; D]> for SizedComplexShape<T, D> {
    open spec fn obeys_from_spec() -> bool {
        true
    }

    open spec fn from_spec(primitives: [T; D]) -> Self {
        SizedComplexShape { primitives: primitives }
    }
}

/// A shape that is composed of any number of primitives
#[derive(Debug, Clone, PartialEq)]
pub struct ComplexShape<T: Shape> {
    pub primitives: Vec<T>,
}

impl<T: Shape> ComplexShape<T> {
    pub fn new(primitives: Vec<T>) -> (shape: Self)
        ensures
            shape.primitives == primitives,
    {
        ComplexShape { primitives }
    }
}

impl<T: Shape> Shape for ComplexShape<T> {
    open spec fn spec_vertices(&self) -> Seq<Vertex> {
        flat_vertices(self.primitives@, self.primitives@.len() as int)
    }

    open spec fn spec_indices(&self) -> Seq<u32> {
        flat_indices(self.primitives@, Seq::empty(), 0, self.primitives@.len() as int)
    }

    open spec fn spec_grouped(&self) -> Seq<Seq<Vertex>> {
        flat_grouped(self.primitives@, self.primitives@.len() as int)
    }

    open spec fn can_push_indices(&self, indices: Seq<u32>) -> bool {
        indices.len() <= u32::MAX && flat_indices_fit(
            self.primitives@,
            indices.len() as int,
            self.primitives@.len() as int,
        )
    }

    open spec fn spec_push_indices(&self, indices: Seq<u32>) -> Seq<u32> {
        flat_indices(
            self.primitives@,
            indices,
            indices.len() as int,
            self.primitives@.len() as int,
        )
    }

    fn vertices(&self) -> (verticies: Vec<Vertex>) {
        vertices(self.primitives.as_slice())
    }

    fn number_of_verticies(&self) -> (n: usize) {
        self.vertices().len()
    }

    fn push_verticies(&self, verticies: &mut Vec<Vertex>) {
        push_verticies(self.primitives.as_slice(), verticies);
    }

    fn indices(&self) -> (indices: Vec<u32>) {
        indices(self.primitives.as_slice())
    }

    fn number_of_indices(&self) -> (n: usize) {
        self.indices().len()
    }

    fn push_indices(&self, indices: &mut Vec<u32>) {
        push_indices(self.primitives.as_slice(), indices);
    }

    fn verticies_grouped(&self) -> (triangles: Vec<[Vertex; 3]>) {
        verticies_grouped(self.primitives.as_slice())
    }
}

} // verus!
