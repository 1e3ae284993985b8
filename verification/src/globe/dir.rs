use vstd::prelude::*;
use super::cell_pos::IntCoord;

verus! {

/// The number of one of the six edge slots of a hexagon, counted
/// anticlockwise from the positive x-axis.
pub type DirIndex = u8;

/// How many edge slots a hexagon has.
pub const HEX_EDGES: DirIndex = 6;

/// A facing direction: the edge slot of the current cell that the holder
/// looks across. Only the slots `0..6` are directions; any other index is
/// malformed, and the movement functions reject it.
#[derive(Clone, Copy, Debug, PartialEq, Eq, Structural, Hash)]
pub struct Dir {
    pub index: DirIndex,
}

/// The step in `(x, y)` from a cell to its neighbour across edge slot `index`.
pub open spec fn offset_of(index: DirIndex) -> (int, int) {
    if index == 0 {
        (1, 0)
    } else if index == 1 {
        (0, 1)
    } else if index == 2 {
        (-1, 1)
    } else if index == 3 {
        (-1, 0)
    } else if index == 4 {
        (0, -1)
    } else {
        (1, -1)
    }
}

/// The slot one edge to the left (anticlockwise) of `index`.
pub open spec fn slot_left_of(index: DirIndex) -> DirIndex {
    if index >= 5 {
        0
    } else {
        (index + 1) as DirIndex
    }
}

/// The slot one edge to the right (clockwise) of `index`.
pub open spec fn slot_right_of(index: DirIndex) -> DirIndex {
    if index == 0 || index > 5 {
        5
    } else {
        (index - 1) as DirIndex
    }
}

/// The slot that faces the other way.
pub open spec fn slot_opposite(index: DirIndex) -> DirIndex {
    if index < 3 {
        (index + 3) as DirIndex
    } else if index < 6 {
        (index - 3) as DirIndex
    } else {
        index
    }
}

/// The step in `(x, y)` from a cell to its neighbour across edge slot `index`.
/// An index past the last slot is read as the last slot.
pub fn neighbor_offset(index: DirIndex) -> (offset: (IntCoord, IntCoord))
    ensures
        offset.0 == offset_of(index).0,
        offset.1 == offset_of(index).1,
{
    if index == 0 {
        (1, 0)
    } else if index == 1 {
        (0, 1)
    } else if index == 2 {
        (-1, 1)
    } else if index == 3 {
        (-1, 0)
    } else if index == 4 {
        (0, -1)
    } else {
        (1, -1)
    }
}

impl Dir {
    /// The direction that looks across edge slot `index`.
    pub fn new(index: DirIndex) -> (dir: Dir)
        ensures
            dir.index == index,
    {
        Dir { index }
    }

    /// Whether this is one of the six directions.
    pub open spec fn is_hex_edge(self) -> bool {
        self.index < HEX_EDGES
    }

    /// Whether this is one of the six directions.
    pub fn points_at_hex_edge(&self) -> (b: bool)
        ensures
            b == self.is_hex_edge(),
    {
        self.index < HEX_EDGES
    }

    /// The direction one edge to the left. A malformed direction gives slot 0.
    pub fn next_hex_edge_left(&self) -> (dir: Dir)
        ensures
            dir.index == slot_left_of(self.index),
            dir.is_hex_edge(),
    {
        if self.index >= 5 {
            Dir { index: 0 }
        } else {
            Dir { index: self.index + 1 }
        }
    }

    /// The direction one edge to the right. A malformed direction gives slot 5.
    pub fn next_hex_edge_right(&self) -> (dir: Dir)
        ensures
            dir.index == slot_right_of(self.index),
            dir.is_hex_edge(),
    {
        if self.index == 0 || self.index > 5 {
            Dir { index: 5 }
        } else {
            Dir { index: self.index - 1 }
        }
    }

    /// The direction that faces the other way. A malformed direction is
    /// handed back as it is.
    pub fn opposite(&self) -> (dir: Dir)
        ensures
            dir.index == slot_opposite(self.index),
            dir.is_hex_edge() == self.is_hex_edge(),
    {
        if self.index < 3 {
            Dir { index: self.index + 3 }
        } else if self.index < 6 {
            Dir { index: self.index - 3 }
        } else {
            Dir { index: self.index }
        }
    }
}

impl Default for Dir {
    /// Facing along the positive x-axis.
    fn default() -> (dir: Dir)
        ensures
            dir.index == 0,
    {
        Dir { index: 0 }
    }
}

} // verus!
