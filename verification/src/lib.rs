//! The spatial core of a voxel planet: cell addresses on the root faces of a
//! hexagonal grid, movement between cells, chunks of voxel data, and the
//! construction of triangle meshes from them.
//!
//! Everything in this crate is integer logic. Real-space positions, which
//! need floating point, are left to the caller: meshes name each vertex by
//! the cell it belongs to and its offset from the cell centre.

pub mod cell_dweller;
pub mod globe;
pub mod movement;
pub mod physics;
pub mod render;
