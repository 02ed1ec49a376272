use vstd::prelude::*;

verus! {

/// A unit vector along one axis: the direction a face of a cube looks in.
#[derive(Debug, Clone, Copy, PartialEq, Eq, Hash, Structural)]
pub struct Normal {
    pub x: i8,
    pub y: i8,
    pub z: i8,
}

/// The six faces of a cube, in the order in which a mesh lists them.
#[derive(Debug, Clone, Copy, PartialEq, Eq, Hash, Structural)]
pub enum Face {
    /// Looks towards negative Z.
    North,
    /// Looks towards positive Y.
    Top,
    /// Looks towards negative Y.
    Bottom,
    /// Looks towards negative X.
    West,
    /// Looks towards positive X.
    East,
    /// Looks towards positive Z.
    South,
}

impl Face {
    /// The faces in their fixed order.
    pub open spec fn all() -> Seq<Face> {
        seq![Face::North, Face::Top, Face::Bottom, Face::West, Face::East, Face::South]
    }

    /// The place of a face in the fixed order.
    pub open spec fn spec_index(self) -> int {
        match self {
            Face::North => 0,
            Face::Top => 1,
            Face::Bottom => 2,
            Face::West => 3,
            Face::East => 4,
            Face::South => 5,
        }
    }

    pub open spec fn spec_normal(self) -> Normal {
        match self {
            Face::North => Normal { x: 0, y: 0, z: -1i8 },
            Face::Top => Normal { x: 0, y: 1, z: 0 },
            Face::Bottom => Normal { x: 0, y: -1i8, z: 0 },
            Face::West => Normal { x: -1i8, y: 0, z: 0 },
            Face::East => Normal { x: 1, y: 0, z: 0 },
            Face::South => Normal { x: 0, y: 0, z: 1 },
        }
    }

    /// The face on the other side of the cube.
    pub open spec fn spec_opposite(self) -> Face {
        match self {
            Face::North => Face::South,
            Face::Top => Face::Bottom,
            Face::Bottom => Face::Top,
            Face::West => Face::East,
            Face::East => Face::West,
            Face::South => Face::North,
        }
    }

    /// The six faces, first to last.
    pub fn iter() -> (faces: [Face; 6])
        ensures
            faces@ == Face::all(),
    {
        let faces = [Face::North, Face::Top, Face::Bottom, Face::West, Face::East, Face::South];
        assert(faces@ =~= Face::all());
        faces
    }

    #[verifier::when_used_as_spec(spec_normal)]
    pub fn normal(self) -> (n: Normal)
        ensures
            n == self.spec_normal(),
    {
        match self {
            Face::North => Normal { x: 0, y: 0, z: -1i8 },
            Face::Top => Normal { x: 0, y: 1, z: 0 },
            Face::Bottom => Normal { x: 0, y: -1i8, z: 0 },
            Face::West => Normal { x: -1i8, y: 0, z: 0 },
            Face::East => Normal { x: 1, y: 0, z: 0 },
            Face::South => Normal { x: 0, y: 0, z: 1 },
        }
    }

    #[verifier::when_used_as_spec(spec_opposite)]
    pub fn opposite(self) -> (f: Face)
        ensures
            f == self.spec_opposite(),
    {
        match self {
            Face::North => Face::South,
            Face::Top => Face::Bottom,
            Face::Bottom => Face::Top,
            Face::West => Face::East,
            Face::East => Face::West,
            Face::South => Face::North,
        }
    }
}

impl From<Face> for usize {
    fn from(face: Face) -> (index: usize) {
        match face {
            Face::North => 0,
            Face::Top => 1,
            Face::Bottom => 2,
            Face::West => 3,
            Face::East => 4,
            Face::South => 5,
        }
    }
}

impl vstd::std_specs::convert::FromSpecImpl<Face> for usize {
    open spec fn obeys_from_spec() -> bool {
        true
    }

    open spec fn from_spec(face: Face) -> usize {
        face.spec_index() as usize
    }
}

/// Every face stands in the fixed order at its own place, and nothing else does.
pub proof fn lemma_faces_in_order(face: Face)
    ensures
        Face::all().len() == 6,
        0 <= face.spec_index() < 6,
        Face::all()[face.spec_index()] == face,
{
}

/// The normal of the opposite face is the negated normal, and the opposite of
/// the opposite is the face itself.
pub proof fn lemma_opposite_face(face: Face)
    ensures
        face.spec_opposite().spec_opposite() == face,
        face.spec_opposite().spec_normal().x == -face.spec_normal().x,
        face.spec_opposite().spec_normal().y == -face.spec_normal().y,
        face.spec_opposite().spec_normal().z == -face.spec_normal().z,
{
}

} // verus!
