//! What the drawing of a globe needs to know of it.

pub mod player_camera;
