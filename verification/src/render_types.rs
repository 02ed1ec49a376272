use crate::face::Normal;
use crate::shapes::Point3;
use crate::texture::TextureCoordinates;
use vstd::prelude::*;

verus! {

/// A corner of a model: where it is, which point of its texture it shows and
/// which way its surface looks.
#[derive(Debug, Clone, Copy, PartialEq, Eq, Structural)]
pub struct BasicModelVertex {
    pub position: Point3,
    pub tex_coords: TextureCoordinates,
    pub normal: Normal,
}

/// The material of a mesh that has one material only.
#[derive(Debug, Clone, Copy, PartialEq, Eq, Structural)]
pub struct NoMaterialId;

} // verus!
