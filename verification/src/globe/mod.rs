//! The globe: addresses, resolution, voxel storage and mesh construction.

pub mod cell_pos;
pub mod cell_shape;
pub mod chunk;
pub mod culling;
pub mod dir;
pub mod geometry;
pub mod globe;
pub mod mesh;
pub mod spec;

pub use self::cell_pos::{CellPos, IntCoord, RootIndex};
pub use self::chunk::{Cell, Chunk, Material, OutOfRange};
pub use self::dir::{Dir, DirIndex};
pub use self::geometry::{CollisionMesh, Geometry};
pub use self::globe::{AddChunkError, Globe, NotFound};
pub use self::mesh::{CellVertex, Ring, Triangle};
pub use self::spec::Spec;
