//! Which cells are drawn.
//!
//! A cell is drawn unless it is air or enclosed: known to have a neighbour
//! that is not air across every edge, above and below. A neighbour that the
//! cell data at hand does not store is not known, so a cell on the rim of
//! that data is always drawn: better to draw too much there than too
//! little.

use vstd::prelude::*;
use super::cell_pos::{CellPos, IntCoord};
use super::chunk::{Cell, Chunk, Material, in_footprint};
use super::dir::{Dir, DirIndex, offset_of};
use crate::movement::{adjacent, edge_exists};

verus! {

/// Whether `cells` shows a neighbour at `neighbor` that is not air.
pub open spec fn known_to_block(cells: Map<CellPos, Cell>, neighbor: Option<CellPos>) -> bool {
    &&& neighbor.is_some()
    &&& cells.dom().contains(neighbor.unwrap())
    &&& cells[neighbor.unwrap()].material != Material::Air
}

/// Whether the cell at `pos` is closed off across edge slot `index`: it has
/// no edge there, or `cells` shows a neighbour across it that is not air.
pub open spec fn edge_blocked(
    cells: Map<CellPos, Cell>,
    pos: CellPos,
    index: DirIndex,
    root_resolution: [IntCoord; 2],
) -> bool {
    edge_exists(pos, Dir { index }, root_resolution) ==> known_to_block(
        cells,
        adjacent(pos, Dir { index }),
    )
}

/// Whether the cell at `pos` is enclosed: `cells` shows a neighbour that is
/// not air across each of its six, or five, edges, above it and below it.
pub open spec fn enclosed(cells: Map<CellPos, Cell>, pos: CellPos, root_resolution: [IntCoord; 2])
    -> bool {
    &&& edge_blocked(cells, pos, 0, root_resolution)
    &&& edge_blocked(cells, pos, 1, root_resolution)
    &&& edge_blocked(cells, pos, 2, root_resolution)
    &&& edge_blocked(cells, pos, 3, root_resolution)
    &&& edge_blocked(cells, pos, 4, root_resolution)
    &&& edge_blocked(cells, pos, 5, root_resolution)
    &&& known_to_block(cells, pos.in_layer_offset(1))
    &&& known_to_block(cells, pos.in_layer_offset(-1))
}

/// Whether the cell at `pos` is drawn: it is stored, not air and not
/// enclosed.
pub open spec fn drawn(cells: Map<CellPos, Cell>, pos: CellPos, root_resolution: [IntCoord; 2])
    -> bool {
    &&& cells.dom().contains(pos)
    &&& cells[pos].material != Material::Air
    &&& !enclosed(cells, pos, root_resolution)
}

/// Whether `cells` shows a neighbour at `neighbor` that is air.
pub open spec fn known_to_be_air(cells: Map<CellPos, Cell>, neighbor: Option<CellPos>) -> bool {
    &&& neighbor.is_some()
    &&& cells.dom().contains(neighbor.unwrap())
    &&& cells[neighbor.unwrap()].material == Material::Air
}

/// Whether the cell at `pos` has air across edge slot `index`, if it has an
/// edge there.
pub open spec fn edge_open(
    cells: Map<CellPos, Cell>,
    pos: CellPos,
    index: DirIndex,
    root_resolution: [IntCoord; 2],
) -> bool {
    edge_exists(pos, Dir { index }, root_resolution) ==> known_to_be_air(
        cells,
        adjacent(pos, Dir { index }),
    )
}

/// Whether the cell at `pos` stands free: `cells` shows air across each of
/// its six, or five, edges, above it and below it.
pub open spec fn surrounded_by_air(
    cells: Map<CellPos, Cell>,
    pos: CellPos,
    root_resolution: [IntCoord; 2],
) -> bool {
    &&& edge_open(cells, pos, 0, root_resolution)
    &&& edge_open(cells, pos, 1, root_resolution)
    &&& edge_open(cells, pos, 2, root_resolution)
    &&& edge_open(cells, pos, 3, root_resolution)
    &&& edge_open(cells, pos, 4, root_resolution)
    &&& edge_open(cells, pos, 5, root_resolution)
    &&& known_to_be_air(cells, pos.in_layer_offset(1))
    &&& known_to_be_air(cells, pos.in_layer_offset(-1))
}

/// Whether the cell at `pos` lies on the rim of a chunk at `origin` with
/// `resolution`: in its first or last row, column or layer.
pub open spec fn on_rim(origin: CellPos, resolution: [IntCoord; 3], pos: CellPos) -> bool {
    ||| pos.x == origin.x
    ||| pos.x == origin.x + resolution[0]
    ||| pos.y == origin.y
    ||| pos.y == origin.y + resolution[1]
    ||| pos.z == origin.z
    ||| pos.z == origin.z + resolution[2] - 1
}

/// A cell that is not air and has air all round it is drawn.
pub proof fn lemma_cell_in_the_open_is_drawn(
    cells: Map<CellPos, Cell>,
    pos: CellPos,
    root_resolution: [IntCoord; 2],
)
    requires
        cells.dom().contains(pos),
        cells[pos].material != Material::Air,
        surrounded_by_air(cells, pos, root_resolution),
    ensures
        drawn(cells, pos, root_resolution),
{
}

/// A cell of which every neighbour is known, and none of them is air, is
/// not drawn.
pub proof fn lemma_enclosed_cell_is_not_drawn(
    cells: Map<CellPos, Cell>,
    pos: CellPos,
    root_resolution: [IntCoord; 2],
)
    requires
        enclosed(cells, pos, root_resolution),
    ensures
        !drawn(cells, pos, root_resolution),
{
}

/// A cell with a neighbour that is not known, or is air, is not enclosed,
/// whatever its other neighbours are.
pub proof fn lemma_one_open_edge_keeps_a_cell(
    cells: Map<CellPos, Cell>,
    pos: CellPos,
    index: DirIndex,
    root_resolution: [IntCoord; 2],
)
    requires
        edge_exists(pos, Dir { index }, root_resolution),
        !known_to_block(cells, adjacent(pos, Dir { index })),
    ensures
        !enclosed(cells, pos, root_resolution),
{
    assert(!edge_blocked(cells, pos, index, root_resolution));
    assert(index == 0 || index == 1 || index == 2 || index == 3 || index == 4 || index == 5);
}

/// A cell on the rim of a chunk is never enclosed by what the chunk alone
/// shows, whatever its neighbours within the chunk are: a neighbour of it
/// lies outside the chunk.
pub proof fn lemma_rim_cell_is_never_enclosed(
    chunk: &Chunk,
    pos: CellPos,
    root_resolution: [IntCoord; 2],
)
    requires
        chunk.wf(),
        chunk.stores(pos),
        on_rim(chunk.origin(), chunk.resolution(), pos),
    ensures
        !enclosed(chunk@, pos, root_resolution),
{
    chunk.lemma_stores_footprint();
    let origin = chunk.origin();
    let resolution = chunk.resolution();
    let cells = chunk@;
    assert(in_footprint(origin, resolution, pos));
    assert forall|n: CellPos| !in_footprint(origin, resolution, n) implies !known_to_block(
        cells,
        Some(n),
    ) by {}
    if pos.z == origin.z {
        if pos.in_layer_offset(-1).is_some() {
            assert(!in_footprint(origin, resolution, pos.in_layer_offset(-1).unwrap()));
        }
    } else if pos.z == origin.z + resolution[2] - 1 {
        if pos.in_layer_offset(1).is_some() {
            assert(!in_footprint(origin, resolution, pos.in_layer_offset(1).unwrap()));
        }
    } else if pos.x == origin.x {
        // Slots 2 and 3 look at the column before the first.
        lemma_edge_out_of_chunk(chunk, pos, 2, root_resolution);
        lemma_edge_out_of_chunk(chunk, pos, 3, root_resolution);
    } else if pos.x == origin.x + resolution[0] {
        // Slots 0 and 5 look at the column after the last.
        lemma_edge_out_of_chunk(chunk, pos, 0, root_resolution);
        lemma_edge_out_of_chunk(chunk, pos, 5, root_resolution);
    } else if pos.y == origin.y {
        // Slots 4 and 5 look at the row before the first.
        lemma_edge_out_of_chunk(chunk, pos, 4, root_resolution);
        lemma_edge_out_of_chunk(chunk, pos, 5, root_resolution);
    } else {
        // Slots 1 and 2 look at the row after the last.
        lemma_edge_out_of_chunk(chunk, pos, 1, root_resolution);
        lemma_edge_out_of_chunk(chunk, pos, 2, root_resolution);
    }
}

/// An edge that the cell has, and that looks out of the chunk, is not
/// blocked by what the chunk shows.
proof fn lemma_edge_out_of_chunk(
    chunk: &Chunk,
    pos: CellPos,
    index: DirIndex,
    root_resolution: [IntCoord; 2],
)
    requires
        chunk.wf(),
        index < 6,
        !in_footprint(
            chunk.origin(),
            chunk.resolution(),
            CellPos {
                root: pos.root,
                x: (pos.x + offset_of(index).0) as i64,
                y: (pos.y + offset_of(index).1) as i64,
                z: pos.z,
            },
        ) || pos.x + offset_of(index).0 > i64::MAX || pos.x + offset_of(index).0 < i64::MIN || pos.y
            + offset_of(index).1 > i64::MAX || pos.y + offset_of(index).1 < i64::MIN,
    ensures
        edge_exists(pos, Dir { index }, root_resolution) ==> !edge_blocked(
            chunk@,
            pos,
            index,
            root_resolution,
        ),
{
    chunk.lemma_stores_footprint();
    let neighbor = adjacent(pos, Dir { index });
    if neighbor.is_some() {
        assert(!in_footprint(chunk.origin(), chunk.resolution(), neighbor.unwrap()));
    }
}

} // verus!
