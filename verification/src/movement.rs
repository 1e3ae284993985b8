//! Movement on the grid of one root face.
//!
//! A root face is a rhombus of hexagonal cells with the in-face coordinates
//! `0..=root_resolution[0]` by `0..=root_resolution[1]`. Every cell has six
//! edge slots, numbered anticlockwise, and slot `i` looks at the cell
//! `offset_of(i)` away. The two cells at the acute corners of the face, its
//! poles, are pentagons: at the pole in the origin slot 4 has no edge, and
//! at the opposite pole slot 1 has none. A turn at a pentagon steps over the
//! missing slot, so five turns go once round it, where a hexagon takes six.
//!
//! An address is always read in the frame of its own root face. Turning
//! never changes the address, and a step changes `x` and `y` only.

use vstd::prelude::*;
use crate::globe::cell_pos::{CellPos, IntCoord};
use crate::globe::dir::{
    Dir, DirIndex, offset_of, neighbor_offset, slot_left_of, slot_opposite, slot_right_of,
};

verus! {

/// The rotational sense of a turn, seen from outside the globe.
#[derive(Clone, Copy, Debug, PartialEq, Eq, Structural, Hash)]
pub enum TurnDir {
    Left,
    Right,
}

/// A step was asked for across an edge that is not there.
#[derive(Clone, Copy, Debug, PartialEq, Eq, Structural, Hash)]
pub struct OutOfBounds;

/// Why a turn could not be made. Either way the holder of the direction has
/// broken the grid's rules, and nothing was changed.
#[derive(Clone, Copy, Debug, PartialEq, Eq, Structural, Hash)]
pub enum TurnError {
    /// The direction is none of the six edge slots.
    NotAnEdge,
    /// The direction is the slot that the pentagon underfoot lacks.
    MissingEdge,
}

/// The edge slot without an edge at the pole in the origin of a root face.
pub const ORIGIN_POLE_MISSING_SLOT: DirIndex = 4;

/// The edge slot without an edge at the pole opposite the origin.
pub const FAR_POLE_MISSING_SLOT: DirIndex = 1;

/// Whether `pos` is the pole in the origin of its root face.
pub open spec fn at_origin_pole(pos: CellPos) -> bool {
    pos.x == 0 && pos.y == 0
}

/// Whether `pos` is the pole opposite the origin of its root face.
pub open spec fn at_far_pole(pos: CellPos, resolution: [IntCoord; 2]) -> bool {
    pos.x == resolution[0] && pos.y == resolution[1]
}

/// Whether the cell at `pos` is a pentagon: one of the two poles of its
/// root face.
pub open spec fn pentagon_at(pos: CellPos, resolution: [IntCoord; 2]) -> bool {
    at_origin_pole(pos) || at_far_pole(pos, resolution)
}

/// The edge slot that the cell at `pos` lacks, if it is a pentagon.
pub open spec fn missing_slot(pos: CellPos, resolution: [IntCoord; 2]) -> Option<DirIndex> {
    if at_origin_pole(pos) {
        Some(ORIGIN_POLE_MISSING_SLOT)
    } else if at_far_pole(pos, resolution) {
        Some(FAR_POLE_MISSING_SLOT)
    } else {
        None
    }
}

/// Whether `dir` looks across an edge that the cell at `pos` has.
pub open spec fn edge_exists(pos: CellPos, dir: Dir, resolution: [IntCoord; 2]) -> bool {
    dir.is_hex_edge() && missing_slot(pos, resolution) != Some(dir.index)
}

/// The slot next to `index` in the sense of `turn_dir`.
pub open spec fn next_slot(index: DirIndex, turn_dir: TurnDir) -> DirIndex {
    match turn_dir {
        TurnDir::Left => slot_left_of(index),
        TurnDir::Right => slot_right_of(index),
    }
}

/// The direction faced after one turn at `pos` from `dir`: the next slot in
/// the sense of `turn_dir`, or the one after it where the cell has no edge
/// in the next slot.
pub open spec fn turned(pos: CellPos, dir: Dir, resolution: [IntCoord; 2], turn_dir: TurnDir) -> Dir {
    let next = next_slot(dir.index, turn_dir);
    if missing_slot(pos, resolution) == Some(next) {
        Dir { index: next_slot(next, turn_dir) }
    } else {
        Dir { index: next }
    }
}

/// The direction faced after `n` turns in the same sense.
pub open spec fn turned_n(
    pos: CellPos,
    dir: Dir,
    resolution: [IntCoord; 2],
    turn_dir: TurnDir,
    n: nat,
) -> Dir
    decreases n,
{
    if n == 0 {
        dir
    } else {
        turned(pos, turned_n(pos, dir, resolution, turn_dir, (n - 1) as nat), resolution, turn_dir)
    }
}

/// The cell one step from `pos` across the edge that `dir` looks at, in the
/// frame of the same root face: `None` where `dir` is no edge slot, where
/// `pos` is the origin pole and `dir` its missing slot, and where a
/// coordinate would leave the range of `IntCoord`.
pub open spec fn adjacent(pos: CellPos, dir: Dir) -> Option<CellPos> {
    let x = pos.x + offset_of(dir.index).0;
    let y = pos.y + offset_of(dir.index).1;
    if !dir.is_hex_edge() {
        None
    } else if at_origin_pole(pos) && dir.index == ORIGIN_POLE_MISSING_SLOT {
        None
    } else if x < i64::MIN || x > i64::MAX || y < i64::MIN || y > i64::MAX {
        None
    } else {
        Some(CellPos { root: pos.root, x: x as i64, y: y as i64, z: pos.z })
    }
}

/// Whether `pos` lies on the rim of its root face, or outside the face.
pub open spec fn on_root_boundary(pos: CellPos, resolution: [IntCoord; 2]) -> bool {
    pos.x <= 0 || pos.y <= 0 || pos.x >= resolution[0] || pos.y >= resolution[1]
}

/// Whether the cell at `pos` is a pentagon. Every turn and every count of
/// neighbours asks this first.
pub fn is_pentagon(pos: &CellPos, resolution: [IntCoord; 2]) -> (b: bool)
    ensures
        b == pentagon_at(*pos, resolution),
{
    (pos.x == 0 && pos.y == 0) || (pos.x == resolution[0] && pos.y == resolution[1])
}

/// Whether `dir` looks across an edge that the cell at `pos` has: the
/// condition under which a turn at `pos` from `dir` succeeds.
pub fn has_edge(pos: &CellPos, dir: Dir, resolution: [IntCoord; 2]) -> (b: bool)
    ensures
        b == edge_exists(*pos, dir, resolution),
{
    if !dir.points_at_hex_edge() {
        false
    } else if pos.x == 0 && pos.y == 0 {
        dir.index != ORIGIN_POLE_MISSING_SLOT
    } else if pos.x == resolution[0] && pos.y == resolution[1] {
        dir.index != FAR_POLE_MISSING_SLOT
    } else {
        true
    }
}

/// The neighbour of `pos` in direction `dir`, in the frame of the root face
/// of `pos`: the root and the layer are those of `pos`, and `x` and `y` are
/// one step on.
///
/// Fails for a direction that is no edge slot, for the missing slot of the
/// origin pole, and for a step that would leave the range of `IntCoord`.
/// Without the resolution the far pole cannot be told from a hexagon here;
/// who knows the resolution asks `has_edge` first.
pub fn adjacent_pos_in_dir(pos: CellPos, dir: Dir) -> (r: Result<CellPos, OutOfBounds>)
    ensures
        r.is_ok() == adjacent(pos, dir).is_some(),
        r.is_ok() ==> r.unwrap() == adjacent(pos, dir).unwrap(),
{
    if !dir.points_at_hex_edge() {
        return Err(OutOfBounds);
    }
    if pos.x == 0 && pos.y == 0 && dir.index == ORIGIN_POLE_MISSING_SLOT {
        return Err(OutOfBounds);
    }
    let (dx, dy) = neighbor_offset(dir.index);
    match (pos.x.checked_add(dx), pos.y.checked_add(dy)) {
        (Some(x), Some(y)) => Ok(CellPos { root: pos.root, x, y, z: pos.z }),
        _ => Err(OutOfBounds),
    }
}

/// Turns the holder of `pos` and `dir` by one edge of the cell underfoot:
/// 60 degrees on a hexagon, 72 on a pentagon.
///
/// `dir` moves to the next edge in the sense of `turn_dir`, stepping over
/// the slot that a pentagon lacks. `pos` stays as it is. The turn fails, and
/// changes nothing, where `dir` is not an edge of the cell at `pos`.
pub fn turn_by_one_hex_edge(
    pos: &mut CellPos,
    dir: &mut Dir,
    resolution: [IntCoord; 2],
    turn_dir: TurnDir,
) -> (r: Result<(), TurnError>)
    ensures
        *final(pos) == *old(pos),
        r.is_ok() == edge_exists(*old(pos), *old(dir), resolution),
        r.is_ok() ==> *final(dir) == turned(*old(pos), *old(dir), resolution, turn_dir),
        r.is_ok() ==> edge_exists(*final(pos), *final(dir), resolution),
        r.is_err() ==> *final(dir) == *old(dir),
        r == Err::<(), TurnError>(TurnError::NotAnEdge) <==> !old(dir).is_hex_edge(),
        r == Err::<(), TurnError>(TurnError::MissingEdge) <==> old(dir).is_hex_edge()
            && missing_slot(*old(pos), resolution) == Some(old(dir).index),
{
    if !dir.points_at_hex_edge() {
        return Err(TurnError::NotAnEdge);
    }
    let missing: Option<DirIndex> = if pos.x == 0 && pos.y == 0 {
        Some(ORIGIN_POLE_MISSING_SLOT)
    } else if pos.x == resolution[0] && pos.y == resolution[1] {
        Some(FAR_POLE_MISSING_SLOT)
    } else {
        None
    };
    match missing {
        Some(slot) => {
            if dir.index == slot {
                return Err(TurnError::MissingEdge);
            }
            let next = step_slot(*dir, turn_dir);
            if next.index == slot {
                *dir = step_slot(next, turn_dir);
            } else {
                *dir = next;
            }
        },
        None => {
            *dir = step_slot(*dir, turn_dir);
        },
    }
    Ok(())
}

/// At a hexagon, six turns in one sense bring the holder back to the
/// direction it set out from, and no smaller number of turns does.
pub proof fn lemma_six_turns_close_the_loop(
    pos: CellPos,
    dir: Dir,
    resolution: [IntCoord; 2],
    turn_dir: TurnDir,
)
    requires
        !pentagon_at(pos, resolution),
        dir.is_hex_edge(),
    ensures
        turned_n(pos, dir, resolution, turn_dir, 6) == dir,
        forall|k: nat| 0 < k < 6 ==> turned_n(pos, dir, resolution, turn_dir, k) != dir,
{
    reveal_with_fuel(turned_n, 7);
    assert forall|k: nat| 0 < k < 6 implies turned_n(pos, dir, resolution, turn_dir, k) != dir by {
        assert(k == 1 || k == 2 || k == 3 || k == 4 || k == 5);
    }
}

/// At a pentagon, five turns in one sense bring the holder back to the
/// direction it set out from, and no smaller number of turns does.
pub proof fn lemma_five_turns_close_the_loop(
    pos: CellPos,
    dir: Dir,
    resolution: [IntCoord; 2],
    turn_dir: TurnDir,
)
    requires
        pentagon_at(pos, resolution),
        edge_exists(pos, dir, resolution),
    ensures
        turned_n(pos, dir, resolution, turn_dir, 5) == dir,
        forall|k: nat| 0 < k < 5 ==> turned_n(pos, dir, resolution, turn_dir, k) != dir,
{
    reveal_with_fuel(turned_n, 6);
    assert forall|k: nat| 0 < k < 5 implies turned_n(pos, dir, resolution, turn_dir, k) != dir by {
        assert(k == 1 || k == 2 || k == 3 || k == 4);
    }
}

/// Every turn ends on an edge of the cell, so turns can follow one another
/// without end.
pub proof fn lemma_turns_stay_on_edges(
    pos: CellPos,
    dir: Dir,
    resolution: [IntCoord; 2],
    turn_dir: TurnDir,
    n: nat,
)
    requires
        edge_exists(pos, dir, resolution),
    ensures
        edge_exists(pos, turned_n(pos, dir, resolution, turn_dir, n), resolution),
    decreases n,
{
    if n > 0 {
        lemma_turns_stay_on_edges(pos, dir, resolution, turn_dir, (n - 1) as nat);
    }
}

/// From a cell inside its root face, a step in any direction followed by a
/// step in the opposite direction ends on the cell it began on.
pub proof fn lemma_step_there_and_back(pos: CellPos, dir: Dir, resolution: [IntCoord; 2])
    requires
        !on_root_boundary(pos, resolution),
        dir.is_hex_edge(),
    ensures
        adjacent(pos, dir).is_some(),
        adjacent(adjacent(pos, dir).unwrap(), Dir { index: slot_opposite(dir.index) }) == Some(pos),
{
}

/// The direction one slot on from `dir` in the sense of `turn_dir`.
fn step_slot(dir: Dir, turn_dir: TurnDir) -> (next: Dir)
    ensures
        next.index == next_slot(dir.index, turn_dir),
        next.is_hex_edge(),
{
    match turn_dir {
        TurnDir::Left => dir.next_hex_edge_left(),
        TurnDir::Right => dir.next_hex_edge_right(),
    }
}

} // verus!
