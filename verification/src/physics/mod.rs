//! What the physics of a globe needs to know of it.

pub mod collision;

pub use self::collision::Collision;
