//! Things that live in the cells of a globe.

pub mod cell_dweller;

pub use self::cell_dweller::CellDweller;
