//! The core of a voxel world renderer: a world of chunks and sections, the
//! meshes of the sections with their hidden faces left out, and the loop that
//! keeps the meshes on show in step with a viewer who moves.
//!
//! Lengths are whole numbers throughout. The corners of a mesh are counted in
//! half blocks and the points of a texture in texels of the atlas; what draws
//! the meshes turns them into fractions.

pub mod basic_cube;
pub mod blocks;
pub mod chunk;
pub mod chunk_map;
pub mod chunk_mesh;
pub mod complex_shape;
pub mod cube;
pub mod cube_data;
pub mod face;
pub mod game;
pub mod location;
pub mod mesh_map;
pub mod position;
pub mod random;
pub mod render_types;
pub mod shapes;
pub mod streaming;
pub mod texture;
pub mod texture_atlas;
pub mod voxel_state;
pub mod world;
