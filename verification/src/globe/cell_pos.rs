use vstd::prelude::*;

verus! {

/// A coordinate of a cell within the frame of its root face.
pub type IntCoord = i64;

/// The number of a root face.
pub type RootIndex = u8;

/// The address of one cell: the root face it is counted from, its place
/// `(x, y)` in that face's hexagonal frame, and its layer `z`, counted
/// outward from the globe's floor.
///
/// Two addresses name the same cell exactly when all four parts are equal.
#[derive(Clone, Copy, Debug, PartialEq, Eq, Structural, Hash)]
pub struct CellPos {
    pub root: RootIndex,
    pub x: IntCoord,
    pub y: IntCoord,
    pub z: IntCoord,
}

impl CellPos {
    /// The address with the given parts.
    pub fn new(root: RootIndex, x: IntCoord, y: IntCoord, z: IntCoord) -> (pos: CellPos)
        ensures
            pos == (CellPos { root, x, y, z }),
    {
        CellPos { root, x, y, z }
    }

    /// The address `dz` layers further out in the same column, where it can
    /// be written down.
    pub open spec fn in_layer_offset(self, dz: int) -> Option<CellPos> {
        if i64::MIN <= self.z + dz <= i64::MAX {
            Some(CellPos { z: (self.z + dz) as i64, ..self })
        } else {
            None
        }
    }

    /// The cell directly above this one, or `None` where the layer number
    /// would leave the range of `IntCoord`.
    pub fn above(&self) -> (r: Option<CellPos>)
        ensures
            r == self.in_layer_offset(1),
    {
        match self.z.checked_add(1) {
            Some(z) => Some(CellPos { root: self.root, x: self.x, y: self.y, z }),
            None => None,
        }
    }

    /// The cell directly below this one, or `None` where the layer number
    /// would leave the range of `IntCoord`.
    pub fn below(&self) -> (r: Option<CellPos>)
        ensures
            r == self.in_layer_offset(-1),
    {
        match self.z.checked_sub(1) {
            Some(z) => Some(CellPos { root: self.root, x: self.x, y: self.y, z }),
            None => None,
        }
    }
}

impl Default for CellPos {
    /// The cell at the origin of root face 0, on the floor.
    fn default() -> (pos: CellPos)
        ensures
            pos == (CellPos { root: 0, x: 0, y: 0, z: 0 }),
    {
        CellPos { root: 0, x: 0, y: 0, z: 0 }
    }
}

} // verus!
