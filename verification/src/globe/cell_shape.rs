//! The outlines that cells are drawn with.
//!
//! Offsets are counted in sixths of a cell step, so that the centre of a
//! cell, the middles of its edges and its corners all fall on whole numbers:
//! the middle of the edge in slot `i` lies three times `offset_of(i)` from
//! the centre, and the corner between the slots `i` and `i + 1` lies twice
//! the sum of their two steps from it.
//!
//! A chunk draws of each cell only what lies within its own rhombus of
//! columns. Of a cell on one side of that rhombus this is half the hexagon,
//! of a cell on one of its corners a wedge, and four chunks that meet in a
//! cell draw the whole of it between them.

use vstd::prelude::*;
use super::cell_pos::{CellPos, IntCoord};

verus! {

/// A point of a cell's outline, as the offset from the cell's centre.
#[derive(Clone, Copy, Debug, PartialEq, Eq, Structural, Hash)]
pub struct DirOffset {
    pub x: IntCoord,
    pub y: IntCoord,
}

/// The part of a hexagon that a chunk draws of a cell, by where the cell
/// lies in the chunk's range of columns. North is the side of low x and low
/// y, south the side of high x and high y.
#[derive(Clone, Copy, Debug, PartialEq, Eq, Structural, Hash)]
pub enum CellShape {
    /// A cell inside the range: the whole hexagon.
    FullHex,
    /// The corner of lowest x and y.
    NorthPortion,
    /// The corner of highest x and y.
    SouthPortion,
    /// The corner of highest x and lowest y.
    WestPortion,
    /// The corner of lowest x and highest y.
    EastPortion,
    /// The side of lowest y.
    NorthWestPortion,
    /// The side of lowest x.
    NorthEastPortion,
    /// The side of highest x.
    SouthWestPortion,
    /// The side of highest y.
    SouthEastPortion,
}

pub open spec fn at(x: int, y: int) -> DirOffset {
    DirOffset { x: x as i64, y: y as i64 }
}

impl CellShape {
    /// The outline of the shape, anticlockwise seen from outside the globe.
    pub open spec fn outline(self) -> Seq<DirOffset> {
        match self {
            CellShape::FullHex => seq![
                at(2, 2),
                at(-2, 4),
                at(-4, 2),
                at(-2, -2),
                at(2, -4),
                at(4, -2),
            ],
            CellShape::NorthPortion => seq![at(0, 0), at(3, 0), at(2, 2), at(0, 3)],
            CellShape::SouthPortion => seq![at(0, 0), at(-3, 0), at(-2, -2), at(0, -3)],
            CellShape::WestPortion => seq![at(0, 0), at(0, 3), at(-2, 4), at(-4, 2), at(-3, 0)],
            CellShape::EastPortion => seq![at(0, 0), at(0, -3), at(2, -4), at(4, -2), at(3, 0)],
            CellShape::NorthWestPortion => seq![
                at(3, 0),
                at(2, 2),
                at(-2, 4),
                at(-4, 2),
                at(-3, 0),
            ],
            CellShape::NorthEastPortion => seq![
                at(0, -3),
                at(2, -4),
                at(4, -2),
                at(2, 2),
                at(0, 3),
            ],
            CellShape::SouthWestPortion => seq![
                at(0, 3),
                at(-2, 4),
                at(-4, 2),
                at(-2, -2),
                at(0, -3),
            ],
            CellShape::SouthEastPortion => seq![
                at(-3, 0),
                at(-2, -2),
                at(2, -4),
                at(4, -2),
                at(3, 0),
            ],
        }
    }

    /// The shape that a chunk draws of the cell in column `(x, y)`, where
    /// the chunk's columns run from `(min_x, min_y)` to `(max_x, max_y)`.
    /// A corner goes before a side: first the corner of both low sides, then
    /// that of both high sides, then the two mixed corners, then the four
    /// sides, and what is left is a whole hexagon.
    pub open spec fn in_range(x: int, y: int, min_x: int, min_y: int, max_x: int, max_y: int)
        -> CellShape {
        if x == min_x && y == min_y {
            CellShape::NorthPortion
        } else if x == max_x && y == max_y {
            CellShape::SouthPortion
        } else if x == max_x && y == min_y {
            CellShape::WestPortion
        } else if x == min_x && y == max_y {
            CellShape::EastPortion
        } else if y == min_y {
            CellShape::NorthWestPortion
        } else if x == min_x {
            CellShape::NorthEastPortion
        } else if x == max_x {
            CellShape::SouthWestPortion
        } else if y == max_y {
            CellShape::SouthEastPortion
        } else {
            CellShape::FullHex
        }
    }

    /// The shape that a chunk draws of the cell in column `(x, y)`, where
    /// the chunk's columns run from `(min_x, min_y)` to `(max_x, max_y)`.
    pub fn for_cell(
        x: IntCoord,
        y: IntCoord,
        min_x: IntCoord,
        min_y: IntCoord,
        max_x: IntCoord,
        max_y: IntCoord,
    ) -> (shape: CellShape)
        ensures
            shape == CellShape::in_range(
                x as int,
                y as int,
                min_x as int,
                min_y as int,
                max_x as int,
                max_y as int,
            ),
    {
        if x == min_x && y == min_y {
            CellShape::NorthPortion
        } else if x == max_x && y == max_y {
            CellShape::SouthPortion
        } else if x == max_x && y == min_y {
            CellShape::WestPortion
        } else if x == min_x && y == max_y {
            CellShape::EastPortion
        } else if y == min_y {
            CellShape::NorthWestPortion
        } else if x == min_x {
            CellShape::NorthEastPortion
        } else if x == max_x {
            CellShape::SouthWestPortion
        } else if y == max_y {
            CellShape::SouthEastPortion
        } else {
            CellShape::FullHex
        }
    }

    /// The outline of the shape, anticlockwise seen from outside the globe.
    pub fn top_outline_dir_offsets(&self) -> (offsets: Vec<DirOffset>)
        ensures
            offsets@ == self.outline(),
            4 <= offsets@.len() <= 6,
    {
        let offsets = match self {
            CellShape::FullHex => vec![
                point(2, 2),
                point(-2, 4),
                point(-4, 2),
                point(-2, -2),
                point(2, -4),
                point(4, -2),
            ],
            CellShape::NorthPortion => vec![point(0, 0), point(3, 0), point(2, 2), point(0, 3)],
            CellShape::SouthPortion => vec![point(0, 0), point(-3, 0), point(-2, -2), point(0, -3)],
            CellShape::WestPortion => vec![
                point(0, 0),
                point(0, 3),
                point(-2, 4),
                point(-4, 2),
                point(-3, 0),
            ],
            CellShape::EastPortion => vec![
                point(0, 0),
                point(0, -3),
                point(2, -4),
                point(4, -2),
                point(3, 0),
            ],
            CellShape::NorthWestPortion => vec![
                point(3, 0),
                point(2, 2),
                point(-2, 4),
                point(-4, 2),
                point(-3, 0),
            ],
            CellShape::NorthEastPortion => vec![
                point(0, -3),
                point(2, -4),
                point(4, -2),
                point(2, 2),
                point(0, 3),
            ],
            CellShape::SouthWestPortion => vec![
                point(0, 3),
                point(-2, 4),
                point(-4, 2),
                point(-2, -2),
                point(0, -3),
            ],
            CellShape::SouthEastPortion => vec![
                point(-3, 0),
                point(-2, -2),
                point(2, -4),
                point(4, -2),
                point(3, 0),
            ],
        };
        assert(offsets@ =~= self.outline());
        offsets
    }
}

/// Every outline has between four and six points.
pub proof fn lemma_outline_len(shape: CellShape)
    ensures
        4 <= shape.outline().len() <= 6,
{
}

fn point(x: IntCoord, y: IntCoord) -> (p: DirOffset)
    ensures
        p == at(x as int, y as int),
{
    DirOffset { x, y }
}

} // verus!
