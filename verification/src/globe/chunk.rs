//! Chunks: dense blocks of voxel cells.

use vstd::prelude::*;
use super::cell_pos::{CellPos, IntCoord};

verus! {

/// What a cell is made of.
#[derive(Clone, Copy, Debug, PartialEq, Eq, Structural, Hash)]
pub enum Material {
    Air,
    Solid,
    Water,
}

/// One voxel.
#[derive(Clone, Copy, Debug, PartialEq, Eq, Structural, Hash)]
pub struct Cell {
    pub material: Material,
}

/// A cell was asked for at an address that the chunk, or the globe, does
/// not store.
#[derive(Clone, Copy, Debug, PartialEq, Eq, Structural, Hash)]
pub struct OutOfRange;

/// Whether a chunk at `origin` with `resolution` cells along x, y and z
/// stores the cell at `pos`.
///
/// A chunk owns `resolution[0]` by `resolution[1]` columns of
/// `resolution[2]` cells, and stores one more row and one more column on
/// its far x and y sides, which it shares with the chunks next to it. It
/// shares no layer in z.
pub open spec fn in_footprint(origin: CellPos, resolution: [IntCoord; 3], pos: CellPos) -> bool {
    &&& pos.root == origin.root
    &&& origin.x <= pos.x <= origin.x + resolution[0]
    &&& origin.y <= pos.y <= origin.y + resolution[1]
    &&& origin.z <= pos.z < origin.z + resolution[2]
}

/// Whether a chunk can be made at `origin` with `resolution`: it owns at
/// least one cell in each direction, every address in it and the
/// address one past its far x and y sides can be written down, and the
/// number of its cells fits in `usize`.
pub open spec fn footprint_fits(origin: CellPos, resolution: [IntCoord; 3]) -> bool {
    &&& resolution[0] > 0
    &&& resolution[1] > 0
    &&& resolution[2] > 0
    &&& origin.x + resolution[0] < i64::MAX
    &&& origin.y + resolution[1] < i64::MAX
    &&& origin.z + resolution[2] <= i64::MAX
    &&& cell_count(resolution) <= usize::MAX
}

/// The number of cells that a chunk with `resolution` stores.
pub open spec fn cell_count(resolution: [IntCoord; 3]) -> int {
    (resolution[0] + 1) * (resolution[1] + 1) * resolution[2]
}

/// The place of the cell at `pos` in the storage of a chunk at `origin`:
/// layer by layer, row by row, x running fastest.
spec fn storage_index(origin: CellPos, resolution: [IntCoord; 3], pos: CellPos) -> int {
    ((pos.z - origin.z) * (resolution[1] + 1) + (pos.y - origin.y)) * (resolution[0] + 1) + (pos.x
        - origin.x)
}

/// Every stored cell has a place below `cell_count`.
proof fn lemma_storage_index_in_range(origin: CellPos, resolution: [IntCoord; 3], pos: CellPos)
    requires
        resolution[0] >= 0,
        resolution[1] >= 0,
        in_footprint(origin, resolution, pos),
    ensures
        0 <= storage_index(origin, resolution, pos) < cell_count(resolution),
{
    let nx = resolution[0] + 1;
    let ny = resolution[1] + 1;
    let nz = resolution[2] as int;
    let lx = pos.x - origin.x;
    let ly = pos.y - origin.y;
    let lz = pos.z - origin.z;
    assert(0 <= lz * ny + ly < nz * ny) by (nonlinear_arith)
        requires
            0 <= ly < ny,
            0 <= lz < nz,
    ;
    let rows = lz * ny + ly;
    assert(0 <= rows * nx + lx < (nz * ny) * nx) by (nonlinear_arith)
        requires
            0 <= lx < nx,
            0 <= rows < nz * ny,
    ;
    assert((nz * ny) * nx == nx * ny * nz) by (nonlinear_arith);
}

/// Two stored cells with the same place are the same cell.
proof fn lemma_storage_index_is_injective(
    origin: CellPos,
    resolution: [IntCoord; 3],
    p: CellPos,
    q: CellPos,
)
    requires
        resolution[0] >= 0,
        resolution[1] >= 0,
        in_footprint(origin, resolution, p),
        in_footprint(origin, resolution, q),
        storage_index(origin, resolution, p) == storage_index(origin, resolution, q),
    ensures
        p == q,
{
    let nx = resolution[0] + 1;
    let ny = resolution[1] + 1;
    let px = p.x - origin.x;
    let py = p.y - origin.y;
    let pz = p.z - origin.z;
    let qx = q.x - origin.x;
    let qy = q.y - origin.y;
    let qz = q.z - origin.z;
    let prow = pz * ny + py;
    let qrow = qz * ny + qy;
    assert(prow == qrow && px == qx) by (nonlinear_arith)
        requires
            0 <= px < nx,
            0 <= qx < nx,
            prow * nx + px == qrow * nx + qx,
    ;
    assert(pz == qz && py == qy) by (nonlinear_arith)
        requires
            0 <= py < ny,
            0 <= qy < ny,
            pz * ny + py == qz * ny + qy,
    ;
}

/// The voxels of one block of the globe, anchored at the address of its
/// first cell.
#[derive(Debug)]
pub struct Chunk {
    origin: CellPos,
    resolution: [IntCoord; 3],
    cells: Vec<Cell>,
}

impl Chunk {
    /// What holds of every chunk that exists at run time: its footprint
    /// fits, and it has a cell for every address in it.
    #[verifier::type_invariant]
    pub closed spec fn wf(&self) -> bool {
        &&& footprint_fits(self.origin, self.resolution)
        &&& self.cells@.len() == cell_count(self.resolution)
    }

    /// The address of the chunk's first cell.
    pub closed spec fn spec_origin(&self) -> CellPos {
        self.origin
    }

    /// The number of cells that the chunk owns along x, y and z.
    pub closed spec fn spec_resolution(&self) -> [IntCoord; 3] {
        self.resolution
    }

    /// The chunk as a map from the addresses it stores to their cells.
    pub closed spec fn view(&self) -> Map<CellPos, Cell> {
        Map::new(
            |pos: CellPos| in_footprint(self.origin, self.resolution, pos),
            |pos: CellPos| self.cells@[storage_index(self.origin, self.resolution, pos)],
        )
    }

    /// Whether the chunk stores the cell at `pos`.
    pub open spec fn stores(&self, pos: CellPos) -> bool {
        self@.dom().contains(pos)
    }

    /// A well-formed chunk stores exactly its footprint, and its footprint
    /// fits.
    pub proof fn lemma_stores_footprint(&self)
        requires
            self.wf(),
        ensures
            footprint_fits(self.origin(), self.resolution()),
            forall|pos: CellPos|
                #![trigger self.stores(pos)]
                #![trigger in_footprint(self.origin(), self.resolution(), pos)]
                self.stores(pos) <==> in_footprint(self.origin(), self.resolution(), pos),
    {
    }

    /// A chunk at `origin` in which every cell is `fill`, or `None` where
    /// no chunk can be made there with that resolution.
    pub fn new(origin: CellPos, resolution: [IntCoord; 3], fill: Cell) -> (r: Option<Chunk>)
        ensures
            r.is_some() == footprint_fits(origin, resolution),
            r.is_some() ==> {
                let chunk = r.unwrap();
                &&& chunk.wf()
                &&& chunk.origin() == origin
                &&& chunk.resolution() == resolution
                &&& forall|pos: CellPos|
                    #![trigger chunk.stores(pos)]
                    #![trigger in_footprint(origin, resolution, pos)]
                    chunk.stores(pos) <==> in_footprint(origin, resolution, pos)
                &&& forall|pos: CellPos|
                    #![trigger chunk.stores(pos)]
                    #![trigger chunk@[pos]]
                    chunk.stores(pos) ==> chunk@[pos] == fill
            },
    {
        if resolution[0] <= 0 || resolution[1] <= 0 || resolution[2] <= 0 {
            return None;
        }
        if origin.x >= i64::MAX - resolution[0] || origin.y >= i64::MAX - resolution[1] || origin.z
            > i64::MAX - resolution[2] {
            return None;
        }
        let count = match stored_cells(resolution) {
            Some(count) => count,
            None => {
                return None;
            },
        };
        let mut cells: Vec<Cell> = Vec::new();
        let mut i: usize = 0;
        while i < count
            invariant
                i <= count,
                cells@.len() == i,
                forall|k: int| 0 <= k < i ==> cells@[k] == fill,
            decreases count - i,
        {
            cells.push(fill);
            i = i + 1;
        }
        let chunk = Chunk { origin, resolution, cells };
        proof {
            assert forall|pos: CellPos| #[trigger] chunk.stores(pos) implies chunk@[pos] == fill by {
                lemma_storage_index_in_range(origin, resolution, pos);
            }
        }
        Some(chunk)
    }

    /// The address of the chunk's first cell.
    #[verifier::when_used_as_spec(spec_origin)]
    pub fn origin(&self) -> (origin: CellPos)
        ensures
            origin == self.origin(),
    {
        self.origin
    }

    /// The number of cells that the chunk owns along x, y and z.
    #[verifier::when_used_as_spec(spec_resolution)]
    pub fn resolution(&self) -> (resolution: [IntCoord; 3])
        ensures
            resolution == self.resolution(),
    {
        self.resolution
    }

    /// Whether the chunk stores the cell at `pos`.
    pub fn contains(&self, pos: CellPos) -> (b: bool)
        ensures
            b == self.stores(pos),
            b == in_footprint(self.origin(), self.resolution(), pos),
            self.wf(),
            footprint_fits(self.origin(), self.resolution()),
    {
        proof {
            use_type_invariant(self);
        }
        pos.root == self.origin.root && self.origin.x <= pos.x && pos.x <= self.origin.x
            + self.resolution[0] && self.origin.y <= pos.y && pos.y <= self.origin.y
            + self.resolution[1] && self.origin.z <= pos.z && pos.z < self.origin.z
            + self.resolution[2]
    }

    /// The place of a stored cell in `cells`.
    fn cells_index(&self, pos: CellPos) -> (i: usize)
        requires
            self.stores(pos),
        ensures
            i == storage_index(self.origin, self.resolution, pos),
            i < self.cells@.len(),
    {
        proof {
            use_type_invariant(self);
            lemma_storage_index_in_range(self.origin, self.resolution, pos);
            lemma_cell_count_bounds(self.resolution);
        }
        let nx = self.resolution[0] as usize + 1;
        let ny = self.resolution[1] as usize + 1;
        let lx = (pos.x - self.origin.x) as usize;
        let ly = (pos.y - self.origin.y) as usize;
        let lz = (pos.z - self.origin.z) as usize;
        proof {
            let nz = self.resolution[2] as int;
            assert(0 <= lz * ny <= lz * ny + ly < nz * ny) by (nonlinear_arith)
                requires
                    0 <= ly < ny,
                    0 <= lz < nz,
            ;
            assert(nz * ny <= (nz * ny) * nx == nx * ny * nz) by (nonlinear_arith)
                requires
                    nx >= 1,
                    nz * ny >= 0,
            ;
            assert(0 <= (lz * ny + ly) * nx <= (lz * ny + ly) * nx + lx) by (nonlinear_arith)
                requires
                    0 <= lz * ny + ly,
                    0 <= nx,
                    0 <= lx,
            ;
        }
        (lz * ny + ly) * nx + lx
    }

    /// The cell at `pos`, which may lie in the shared row and column on the
    /// chunk's far sides. Fails where the chunk does not store `pos`.
    pub fn cell(&self, pos: CellPos) -> (r: Result<Cell, OutOfRange>)
        ensures
            r.is_ok() == self.stores(pos),
            r.is_ok() == in_footprint(self.origin(), self.resolution(), pos),
            r.is_ok() ==> r.unwrap() == self@[pos],
    {
        if !self.contains(pos) {
            return Err(OutOfRange);
        }
        let i = self.cells_index(pos);
        Ok(self.cells[i])
    }

    /// Puts `cell` at `pos` and leaves every other cell as it was. Fails,
    /// and changes nothing, where the chunk does not store `pos`.
    pub fn set_cell(&mut self, pos: CellPos, cell: Cell) -> (r: Result<(), OutOfRange>)
        ensures
            r.is_ok() == old(self).stores(pos),
            r.is_ok() == in_footprint(old(self).origin(), old(self).resolution(), pos),
            r.is_ok() ==> final(self)@ == old(self)@.insert(pos, cell),
            r.is_err() ==> final(self)@ == old(self)@,
            final(self).origin() == old(self).origin(),
            final(self).resolution() == old(self).resolution(),
            final(self).wf(),
    {
        proof {
            use_type_invariant(&*self);
        }
        if !self.contains(pos) {
            return Err(OutOfRange);
        }
        let i = self.cells_index(pos);
        self.cells[i] = cell;
        proof {
            assert forall|q: CellPos| #[trigger] self@.dom().contains(q) implies self@[q] == old(
                self,
            )@.insert(pos, cell)[q] by {
                lemma_storage_index_in_range(self.origin, self.resolution, q);
                if q != pos {
                    if storage_index(self.origin, self.resolution, q) == i {
                        lemma_storage_index_is_injective(self.origin, self.resolution, pos, q);
                    }
                }
            }
            assert(self@ =~= old(self)@.insert(pos, cell));
        }
        Ok(())
    }
}

/// No side of a chunk holds more cells than the whole chunk.
proof fn lemma_cell_count_bounds(resolution: [IntCoord; 3])
    requires
        resolution[0] > 0,
        resolution[1] > 0,
        resolution[2] > 0,
    ensures
        resolution[0] + 1 <= cell_count(resolution),
        resolution[1] + 1 <= cell_count(resolution),
        resolution[2] <= cell_count(resolution),
        (resolution[0] + 1) * (resolution[1] + 1) <= cell_count(resolution),
{
    let nx = resolution[0] + 1;
    let ny = resolution[1] + 1;
    let nz = resolution[2] as int;
    assert(nx <= nx * ny && ny <= nx * ny && nx * ny <= nx * ny * nz && nz <= nx * ny * nz)
        by (nonlinear_arith)
        requires
            nx >= 1,
            ny >= 1,
            nz >= 1,
    ;
}

/// The number of cells that a chunk with `resolution` stores, where it
/// fits in `usize`.
fn stored_cells(resolution: [IntCoord; 3]) -> (r: Option<usize>)
    requires
        resolution[0] > 0,
        resolution[1] > 0,
        resolution[2] > 0,
    ensures
        r.is_some() == (cell_count(resolution) <= usize::MAX),
        r.is_some() ==> r.unwrap() == cell_count(resolution),
{
    let nx: u64 = resolution[0] as u64 + 1;
    let ny: u64 = resolution[1] as u64 + 1;
    let nz: u64 = resolution[2] as u64;
    proof {
        lemma_cell_count_bounds(resolution);
    }
    let columns: u64 = match nx.checked_mul(ny) {
        Some(columns) => columns,
        None => {
            return None;
        },
    };
    let count: u64 = match columns.checked_mul(nz) {
        Some(count) => count,
        None => {
            return None;
        },
    };
    if count > usize::MAX as u64 {
        None
    } else {
        Some(count as usize)
    }
}

} // verus!
