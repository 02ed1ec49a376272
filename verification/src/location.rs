use crate::face::Face;
use crate::position::BlockPosition;
use vstd::prelude::*;

verus! {

/// A place in space given by three whole numbers.
pub struct Coords {
    pub x: int,
    pub y: int,
    pub z: int,
}

/// Whether a place lies inside a section, that is in `[0, 16)` on every axis.
pub open spec fn coords_valid(c: Coords) -> bool {
    0 <= c.x < 16 && 0 <= c.y < 16 && 0 <= c.z < 16
}

/// The place that a flat index of a section stands for.
pub open spec fn index_coords(index: int) -> Coords {
    Coords { x: index % 16, y: (index / 256) % 16, z: (index / 16) % 16 }
}

/// The flat index of a place: `(y << 8) | (z << 4) | x` on the low four bits
/// of each coordinate.
pub open spec fn coords_index(c: Coords) -> int {
    (c.y % 16) * 256 + (c.z % 16) * 16 + c.x % 16
}

/// The place one step from `c` in the direction a face looks in.
pub open spec fn coords_step(c: Coords, face: Face) -> Coords {
    let n = face.spec_normal();
    Coords { x: c.x + n.x, y: c.y + n.y, z: c.z + n.z }
}

/// The neighbour of `c` across a face, where that neighbour lies inside the
/// section.
pub open spec fn neighbor(c: Coords, face: Face) -> Option<Coords> {
    if coords_valid(coords_step(c, face)) {
        Some(coords_step(c, face))
    } else {
        None
    }
}

/// Whether `c` touches the side of the section that a face looks at.
pub open spec fn on_boundary(c: Coords, face: Face) -> bool {
    match face {
        Face::North => c.z == 0,
        Face::South => c.z == 15,
        Face::Bottom => c.y == 0,
        Face::Top => c.y == 15,
        Face::West => c.x == 0,
        Face::East => c.x == 15,
    }
}

/// A position that can name a block inside a section.
pub trait VoxelLocation: Sized {
    spec fn coords(&self) -> Coords;

    /// The position that a flat index in `0..4096` stands for.
    fn from_index(index: usize) -> (r: Self)
        requires
            index < 4096,
        ensures
            r.coords() == index_coords(index as int),
    ;

    /// The flat index of the position. Only the low four bits of each
    /// coordinate count.
    fn to_index(&self) -> (index: usize)
        ensures
            index == coords_index(self.coords()),
            index < 4096,
    ;

    fn as_u32(&self) -> (index: u32)
        ensures
            index == coords_index(self.coords()),
    {
        self.to_index() as u32
    }

    fn as_u64(&self) -> (index: u64)
        ensures
            index == coords_index(self.coords()),
    {
        self.to_index() as u64
    }

    fn as_u16(&self) -> (index: u16)
        ensures
            index == coords_index(self.coords()),
    {
        self.to_index() as u16
    }

    fn is_valid_position(&self) -> (valid: bool)
        ensures
            valid == coords_valid(self.coords()),
    ;

    /// The neighbour across a face, or `None` where it would leave the section.
    fn position_for_face(&self, face: Face) -> (r: Option<Self>)
        ensures
            r is Some == neighbor(self.coords(), face) is Some,
            r matches Some(p) ==> Some(p.coords()) == neighbor(self.coords(), face),
    ;
}

impl VoxelLocation for BlockPosition {
    open spec fn coords(&self) -> Coords {
        Coords { x: self.x as int, y: self.y as int, z: self.z as int }
    }

    fn from_index(index: usize) -> (r: Self) {
        let x: usize = index & 0xF;
        let y: usize = (index >> 8) & 0xF;
        let z: usize = (index >> 4) & 0xF;
        assert(index & 0xF == index % 16 && (index >> 8) & 0xF == (index / 256) % 16 && (index
            >> 4) & 0xF == (index / 16) % 16) by (bit_vector);
        BlockPosition { x: x as i64, y: y as i64, z: z as i64 }
    }

    fn to_index(&self) -> (index: usize) {
        self.relative_block()
    }

    fn is_valid_position(&self) -> (valid: bool) {
        (self.x < 16 && self.y < 16 && self.z < 16) && (self.x >= 0 && self.y >= 0 && self.z
            >= 0)
    }

    fn position_for_face(&self, face: Face) -> (r: Option<Self>) {
        // Further than one step from the section, no step leads into it.
        if self.x < -1 || self.x > 16 || self.y < -1 || self.y > 16 || self.z < -1 || self.z > 16 {
            return None;
        }
        let n = face.normal();
        let new = BlockPosition {
            x: self.x + n.x as i64,
            y: self.y + n.y as i64,
            z: self.z + n.z as i64,
        };
        if new.is_valid_position() {
            Some(new)
        } else {
            None
        }
    }
}

/// A flat index in `0..4096` names a place inside the section, and the index of
/// that place is the index again.
pub proof fn lemma_index_round_trip(index: int)
    requires
        0 <= index < 4096,
    ensures
        coords_valid(index_coords(index)),
        coords_index(index_coords(index)) == index,
{
}

/// A place inside the section has a flat index in `0..4096`, and the place of
/// that index is the place again.
pub proof fn lemma_coords_round_trip(c: Coords)
    requires
        coords_valid(c),
    ensures
        0 <= coords_index(c) < 4096,
        index_coords(coords_index(c)) == c,
{
}

/// Two different places inside the section have different flat indices.
pub proof fn lemma_coords_index_injective(a: Coords, b: Coords)
    requires
        coords_valid(a),
        coords_valid(b),
        coords_index(a) == coords_index(b),
    ensures
        a == b,
{
    lemma_coords_round_trip(a);
    lemma_coords_round_trip(b);
}

/// A place that touches the side of the section a face looks at has no
/// neighbour across that face.
pub proof fn lemma_boundary_has_no_neighbor(c: Coords, face: Face)
    requires
        on_boundary(c, face),
    ensures
        neighbor(c, face) is None,
{
}

/// Inside the section, a place has a neighbour across a face exactly when it
/// does not touch the side that the face looks at; the neighbour then looks
/// back across the opposite face.
pub proof fn lemma_neighbor_inside(c: Coords, face: Face)
    requires
        coords_valid(c),
    ensures
        neighbor(c, face) is Some <==> !on_boundary(c, face),
        neighbor(c, face) matches Some(n) ==> neighbor(n, face.spec_opposite()) == Some(c) && n
            != c,
{
}

} // verus!
