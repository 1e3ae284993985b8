//! The globe: the chunks that are loaded for one planet.

use vstd::prelude::*;
use super::cell_pos::{CellPos, IntCoord};
use super::chunk::{Cell, Chunk, Material, OutOfRange, in_footprint};
use super::spec::Spec;

verus! {

/// A column was searched for a material that no cell in it has.
#[derive(Clone, Copy, Debug, PartialEq, Eq, Structural, Hash)]
pub struct NotFound;

/// Why a globe did not take a chunk.
#[derive(Clone, Copy, Debug, PartialEq, Eq, Structural, Hash)]
pub enum AddChunkError {
    /// The chunk's resolution is not the chunk resolution of the globe.
    WrongResolution,
    /// The globe already has a chunk at that origin.
    OriginTaken,
}

/// The cell of the column through `column` in layer `z`.
pub open spec fn column_cell(column: CellPos, z: int) -> CellPos {
    CellPos { root: column.root, x: column.x, y: column.y, z: z as i64 }
}

/// Where every chunk of a globe that stores `pos` was given `cell` there,
/// and nothing else was changed, the globe shows `cell` at `pos` if `pos`
/// is loaded, and every other cell as before.
proof fn lemma_cells_after_set(before: Globe, after: Globe, pos: CellPos, cell: Cell)
    requires
        after.chunk_seq().len() == before.chunk_seq().len(),
        forall|i: int|
            0 <= i < before.chunk_seq().len() ==> (#[trigger] after.chunk_seq()[i])@ == if before.chunk_seq()[i].stores(
                pos,
            ) {
                before.chunk_seq()[i]@.insert(pos, cell)
            } else {
                before.chunk_seq()[i]@
            },
    ensures
        before.loaded(pos) ==> after@ == before@.insert(pos, cell),
        !before.loaded(pos) ==> after@ == before@,
{
    assert forall|q: CellPos, i: int| 0 <= i < before.chunk_seq().len() implies #[trigger]
        after.chunk_seq()[i].stores(q) == before.chunk_seq()[i].stores(q) by {}
    assert forall|q: CellPos, i: int| #[trigger] after.owner_of(q, i) == before.owner_of(q, i) by {
        if before.owner_of(q, i) {
            assert forall|j: int| 0 <= j < i implies !(#[trigger] after.chunk_seq()[j]).stores(
                q,
            ) by {
                assert(!before.chunk_seq()[j].stores(q));
            }
        }
        if after.owner_of(q, i) {
            assert forall|j: int| 0 <= j < i implies !(#[trigger] before.chunk_seq()[j]).stores(
                q,
            ) by {
                assert(!after.chunk_seq()[j].stores(q));
            }
        }
    }
    let wanted = if before.loaded(pos) {
        before@.insert(pos, cell)
    } else {
        before@
    };
    assert forall|q: CellPos| #[trigger] after@.dom().contains(q) == wanted.dom().contains(q) by {
        if before@.dom().contains(q) {
            let i = choose|i: int| before.owner_of(q, i);
            assert(after.owner_of(q, i));
        }
        if after@.dom().contains(q) {
            let i = choose|i: int| after.owner_of(q, i);
            assert(before.owner_of(q, i));
        }
    }
    assert forall|q: CellPos| after@.dom().contains(q) implies #[trigger] after@[q] == wanted[q] by {
        let i = choose|i: int| after.owner_of(q, i);
        assert(before.owner_of(q, i));
        after.lemma_owner_decides(q, i);
        before.lemma_owner_decides(q, i);
    }
    assert(after@ =~= wanted);
}

/// The chunks that are loaded for one planet, and the planet's resolution.
/// No two of them have the same origin, and all have the chunk resolution
/// of the globe.
pub struct Globe {
    spec: Spec,
    chunks: Vec<Chunk>,
}

impl Globe {
    /// The resolution of the globe.
    pub closed spec fn spec_spec(&self) -> Spec {
        self.spec
    }

    /// The chunks of the globe, in the order in which they are kept.
    pub closed spec fn chunk_seq(&self) -> Seq<Chunk> {
        self.chunks@
    }

    /// What holds of every globe that exists at run time.
    #[verifier::type_invariant]
    pub open spec fn wf(&self) -> bool {
        &&& forall|i: int|
            0 <= i < self.chunk_seq().len() ==> (#[trigger] self.chunk_seq()[i]).wf()
                && self.chunk_seq()[i].resolution() == self.spec().chunk_resolution
        &&& forall|i: int, j: int|
            0 <= i < j < self.chunk_seq().len() ==> (#[trigger] self.chunk_seq()[i]).origin() != (
            #[trigger] self.chunk_seq()[j]).origin()
    }

    /// Whether chunk `i` is the first chunk of the globe that stores the
    /// cell at `pos`. Chunks that lie side by side both store the cells of
    /// the row or column between them, and the globe goes by the first.
    pub open spec fn owner_of(&self, pos: CellPos, i: int) -> bool {
        &&& 0 <= i < self.chunk_seq().len()
        &&& self.chunk_seq()[i].stores(pos)
        &&& forall|j: int| 0 <= j < i ==> !(#[trigger] self.chunk_seq()[j]).stores(pos)
    }

    /// The globe as a map from the addresses of the loaded cells to the
    /// cells.
    pub open spec fn view(&self) -> Map<CellPos, Cell> {
        Map::new(
            |pos: CellPos| exists|i: int| self.owner_of(pos, i),
            |pos: CellPos| self.chunk_seq()[choose|i: int| self.owner_of(pos, i)]@[pos],
        )
    }

    /// Whether `chunk` is one of the chunks of the globe.
    pub open spec fn has_chunk(&self, chunk: &Chunk) -> bool {
        exists|i: int| 0 <= i < self.chunk_seq().len() && (#[trigger] self.chunk_seq()[i]) == *chunk
    }

    /// Whether the cell at `pos` is loaded.
    pub open spec fn loaded(&self, pos: CellPos) -> bool {
        self@.dom().contains(pos)
    }

    /// Whether the cell of the column through `column` in layer `z` is
    /// loaded and made of `material`.
    pub open spec fn has_material_at(&self, column: CellPos, material: Material, z: int) -> bool {
        &&& i64::MIN <= z <= i64::MAX
        &&& self.loaded(column_cell(column, z))
        &&& self@[column_cell(column, z)].material == material
    }

    /// Whether layer `z` holds the lowest cell of the column through
    /// `column` that is loaded and made of `material`.
    pub open spec fn lowest_is_at(&self, column: CellPos, material: Material, z: int) -> bool {
        &&& self.has_material_at(column, material, z)
        &&& forall|k: int| k < z ==> !#[trigger] self.has_material_at(column, material, k)
    }

    /// Whether every cell that is loaded lies in one of the layers from
    /// `lowest` up to, but not counting, `end`.
    pub open spec fn within_layers(&self, lowest: int, end: int) -> bool {
        forall|pos: CellPos| #[trigger] self.loaded(pos) ==> lowest <= pos.z < end
    }

    /// A cell that a chunk of the globe stores is loaded, and the globe
    /// shows it as its first owner has it.
    pub proof fn lemma_owner_decides(&self, pos: CellPos, i: int)
        requires
            self.owner_of(pos, i),
        ensures
            self.loaded(pos),
            self@[pos] == self.chunk_seq()[i]@[pos],
    {
        let chosen = choose|i: int| self.owner_of(pos, i);
        assert(self.owner_of(pos, chosen));
        if chosen < i {
            assert(!self.chunk_seq()[chosen].stores(pos));
        }
        if i < chosen {
            assert(!self.chunk_seq()[i].stores(pos));
        }
    }

    /// Every cell that some chunk of the globe stores is loaded.
    pub proof fn lemma_stored_is_loaded(&self, pos: CellPos, i: int)
        requires
            0 <= i < self.chunk_seq().len(),
            self.chunk_seq()[i].stores(pos),
        ensures
            self.loaded(pos),
        decreases i,
    {
        if self.owner_of(pos, i) {
        } else {
            let j = choose|j: int| 0 <= j < i && (#[trigger] self.chunk_seq()[j]).stores(pos);
            self.lemma_stored_is_loaded(pos, j);
        }
    }

    /// A globe with a single chunk shows the cells of that chunk, and no
    /// others.
    pub proof fn lemma_lone_chunk_shows_itself(&self)
        requires
            self.chunk_seq().len() == 1,
        ensures
            self@ == self.chunk_seq()[0]@,
    {
        let chunk = self.chunk_seq()[0];
        assert forall|pos: CellPos| #[trigger]
            self@.dom().contains(pos) == chunk@.dom().contains(pos) by {
            if chunk@.dom().contains(pos) {
                assert(self.owner_of(pos, 0));
            }
            if self@.dom().contains(pos) {
                let i = choose|i: int| self.owner_of(pos, i);
                assert(i == 0);
            }
        }
        assert forall|pos: CellPos| self@.dom().contains(pos) implies #[trigger] self@[pos]
            == chunk@[pos] by {
            assert(self.owner_of(pos, 0));
            self.lemma_owner_decides(pos, 0);
        }
        assert(self@ =~= chunk@);
    }

    /// A globe with the resolution `spec` and no chunks.
    pub fn new(spec: Spec) -> (globe: Globe)
        ensures
            globe.spec() == spec,
            globe.chunk_seq().len() == 0,
            globe.wf(),
    {
        Globe { spec, chunks: Vec::new() }
    }

    /// The resolution of the globe.
    #[verifier::when_used_as_spec(spec_spec)]
    pub fn spec(&self) -> (spec: Spec)
        ensures
            spec == self.spec(),
    {
        self.spec
    }

    /// The chunks of the globe, in the order in which they are kept.
    pub fn chunks(&self) -> (chunks: &Vec<Chunk>)
        ensures
            chunks@ == self.chunk_seq(),
            self.wf(),
    {
        proof {
            use_type_invariant(self);
        }
        &self.chunks
    }

    /// The place among the chunks of the one at `origin`, if there is one.
    pub fn index_of_chunk_at(&self, origin: CellPos) -> (r: Option<usize>)
        ensures
            match r {
                Some(i) => i < self.chunk_seq().len() && self.chunk_seq()[i as int].origin()
                    == origin,
                None => forall|i: int|
                    0 <= i < self.chunk_seq().len() ==> (#[trigger] self.chunk_seq()[i]).origin()
                        != origin,
            },
    {
        let mut i: usize = 0;
        while i < self.chunks.len()
            invariant
                i <= self.chunks@.len(),
                forall|k: int| 0 <= k < i ==> (#[trigger] self.chunks@[k]).origin() != origin,
            decreases self.chunks@.len() - i,
        {
            if self.chunks[i].origin() == origin {
                return Some(i);
            }
            i = i + 1;
        }
        None
    }

    /// The chunk at `origin`, if it is loaded.
    pub fn chunk_at(&self, origin: CellPos) -> (r: Option<&Chunk>)
        ensures
            match r {
                Some(chunk) => chunk.origin() == origin && self.has_chunk(chunk),
                None => forall|i: int|
                    0 <= i < self.chunk_seq().len() ==> (#[trigger] self.chunk_seq()[i]).origin()
                        != origin,
            },
    {
        match self.index_of_chunk_at(origin) {
            Some(i) => Some(&self.chunks[i]),
            None => None,
        }
    }

    /// Takes `chunk` into the globe, behind the chunks that are there.
    /// Fails, and changes nothing, where the chunk has another resolution
    /// than the globe's chunks, or the globe has a chunk at its origin.
    pub fn add_chunk(&mut self, chunk: Chunk) -> (r: Result<(), AddChunkError>)
        ensures
            final(self).spec() == old(self).spec(),
            final(self).wf(),
            match r {
                Ok(_) => final(self).chunk_seq() == old(self).chunk_seq().push(chunk),
                Err(_) => final(self).chunk_seq() == old(self).chunk_seq(),
            },
            r == Err::<(), AddChunkError>(AddChunkError::WrongResolution) <==> chunk.resolution()
                != old(self).spec().chunk_resolution,
            r == Err::<(), AddChunkError>(AddChunkError::OriginTaken) <==> chunk.resolution() == old(
                self,
            ).spec().chunk_resolution && exists|i: int|
                0 <= i < old(self).chunk_seq().len() && (#[trigger] old(self).chunk_seq()[i]).origin()
                    == chunk.origin(),
    {
        proof {
            use_type_invariant(&*self);
            use_type_invariant(&chunk);
        }
        let resolution = chunk.resolution();
        let wanted = self.spec.chunk_resolution;
        if resolution[0] != wanted[0] || resolution[1] != wanted[1] || resolution[2] != wanted[2] {
            assert(resolution != wanted);
            return Err(AddChunkError::WrongResolution);
        }
        assert(resolution =~= wanted);
        if self.index_of_chunk_at(chunk.origin()).is_some() {
            return Err(AddChunkError::OriginTaken);
        }
        let mut chunks: Vec<Chunk> = Vec::new();
        std::mem::swap(&mut self.chunks, &mut chunks);
        chunks.push(chunk);
        std::mem::swap(&mut self.chunks, &mut chunks);
        Ok(())
    }

    /// Takes the chunk at `origin` out of the globe and hands it back, or
    /// `None` where the globe has no chunk there. The other chunks keep
    /// their order.
    pub fn remove_chunk(&mut self, origin: CellPos) -> (r: Option<Chunk>)
        ensures
            final(self).spec() == old(self).spec(),
            final(self).wf(),
            match r {
                Some(chunk) => chunk.origin() == origin && exists|i: int|
                    0 <= i < old(self).chunk_seq().len() && (#[trigger] old(self).chunk_seq()[i])
                        == chunk && final(self).chunk_seq() == old(self).chunk_seq().remove(i),
                None => final(self).chunk_seq() == old(self).chunk_seq() && forall|i: int|
                    0 <= i < old(self).chunk_seq().len() ==> (#[trigger] old(
                        self,
                    ).chunk_seq()[i]).origin() != origin,
            },
    {
        proof {
            use_type_invariant(&*self);
        }
        match self.index_of_chunk_at(origin) {
            Some(i) => {
                let mut chunks: Vec<Chunk> = Vec::new();
                std::mem::swap(&mut self.chunks, &mut chunks);
                let chunk = chunks.remove(i);
                std::mem::swap(&mut self.chunks, &mut chunks);
                Some(chunk)
            },
            None => None,
        }
    }

    /// The cell at `pos`, as the first chunk that stores it has it. Fails
    /// where no chunk of the globe stores `pos`.
    pub fn cell(&self, pos: CellPos) -> (r: Result<Cell, OutOfRange>)
        ensures
            r.is_ok() == self.loaded(pos),
            r.is_ok() ==> r.unwrap() == self@[pos],
    {
        let mut i: usize = 0;
        while i < self.chunks.len()
            invariant
                i <= self.chunks@.len(),
                forall|k: int| 0 <= k < i ==> !(#[trigger] self.chunks@[k]).stores(pos),
            decreases self.chunks@.len() - i,
        {
            match self.chunks[i].cell(pos) {
                Ok(cell) => {
                    proof {
                        self.lemma_owner_decides(pos, i as int);
                    }
                    return Ok(cell);
                },
                Err(_) => {},
            }
            i = i + 1;
        }
        Err(OutOfRange)
    }

    /// Puts `cell` at `pos` in every chunk that stores `pos`, so that chunks
    /// which share the cell keep showing the same, and leaves every other
    /// cell as it was. Fails, and changes nothing, where `pos` is not
    /// loaded.
    pub fn set_cell(&mut self, pos: CellPos, cell: Cell) -> (r: Result<(), OutOfRange>)
        ensures
            final(self).spec() == old(self).spec(),
            final(self).wf(),
            final(self).chunk_seq().len() == old(self).chunk_seq().len(),
            forall|i: int|
                0 <= i < old(self).chunk_seq().len() ==> {
                    let before = old(self).chunk_seq()[i];
                    let after = #[trigger] final(self).chunk_seq()[i];
                    &&& after.origin() == before.origin()
                    &&& after.resolution() == before.resolution()
                    &&& after@ == if before.stores(pos) {
                        before@.insert(pos, cell)
                    } else {
                        before@
                    }
                },
            r.is_ok() == old(self).loaded(pos),
            r.is_ok() ==> final(self)@ == old(self)@.insert(pos, cell),
            r.is_err() ==> final(self)@ == old(self)@,
    {
        proof {
            use_type_invariant(&*self);
        }
        let ghost before = self.chunks@;
        let mut chunks: Vec<Chunk> = Vec::new();
        std::mem::swap(&mut self.chunks, &mut chunks);
        let mut found = false;
        let mut i: usize = 0;
        while i < chunks.len()
            invariant
                i <= chunks@.len(),
                chunks@.len() == before.len(),
                found == exists|k: int| 0 <= k < i && (#[trigger] before[k]).stores(pos),
                forall|k: int| 0 <= k < before.len() ==> (#[trigger] before[k]).wf(),
                forall|k: int|
                    i <= k < before.len() ==> #[trigger] chunks@[k] == before[k],
                forall|k: int|
                    0 <= k < i ==> {
                        let after = #[trigger] chunks@[k];
                        &&& after.wf()
                        &&& after.origin() == before[k].origin()
                        &&& after.resolution() == before[k].resolution()
                        &&& after@ == if before[k].stores(pos) {
                            before[k]@.insert(pos, cell)
                        } else {
                            before[k]@
                        }
                    },
            decreases chunks@.len() - i,
        {
            let ghost was = chunks@;
            match chunks[i].set_cell(pos, cell) {
                Ok(_) => {
                    found = true;
                },
                Err(_) => {},
            }
            assert(forall|k: int| 0 <= k < was.len() && k != i ==> chunks@[k] == was[k]);
            i = i + 1;
        }
        std::mem::swap(&mut self.chunks, &mut chunks);
        proof {
            lemma_cells_after_set(*old(self), *self, pos, cell);
            if found {
                let k = choose|k: int| 0 <= k < before.len() && (#[trigger] before[k]).stores(pos);
                old(self).lemma_stored_is_loaded(pos, k);
            } else {
                assert forall|k: int| !old(self).owner_of(pos, k) by {
                    if 0 <= k < before.len() {
                        assert(!before[k].stores(pos));
                    }
                }
            }
        }
        if found {
            Ok(())
        } else {
            Err(OutOfRange)
        }
    }

    /// The layers that the chunks of the globe lie in: the lowest layer
    /// that a chunk begins in, and the first layer above all chunks. `None`
    /// where the globe has no chunks.
    fn layer_bounds(&self) -> (r: Option<(IntCoord, IntCoord)>)
        ensures
            r.is_none() == (self.chunk_seq().len() == 0),
            r.is_some() ==> r.unwrap().0 < r.unwrap().1 && self.within_layers(
                r.unwrap().0 as int,
                r.unwrap().1 as int,
            ),
            r.is_some() ==> exists|i: int|
                0 <= i < self.chunk_seq().len() && (#[trigger] self.chunk_seq()[i]).origin().z
                    == r.unwrap().0,
            r.is_some() ==> exists|i: int|
                0 <= i < self.chunk_seq().len() && (#[trigger] self.chunk_seq()[i]).origin().z
                    + self.chunk_seq()[i].resolution()[2] == r.unwrap().1,
    {
        proof {
            use_type_invariant(self);
        }
        if self.chunks.len() == 0 {
            return None;
        }
        proof {
            self.chunk_seq()[0].lemma_stores_footprint();
        }
        let mut lowest = self.chunks[0].origin().z;
        let mut end = self.chunks[0].origin().z + self.chunks[0].resolution()[2];
        let mut i: usize = 1;
        while i < self.chunks.len()
            invariant
                self.wf(),
                1 <= i <= self.chunks@.len(),
                lowest < end,
                forall|k: int|
                    0 <= k < i ==> lowest <= (#[trigger] self.chunks@[k]).origin().z
                        && self.chunks@[k].origin().z + self.chunks@[k].resolution()[2] <= end,
                exists|k: int| 0 <= k < i && (#[trigger] self.chunks@[k]).origin().z == lowest,
                exists|k: int|
                    0 <= k < i && (#[trigger] self.chunks@[k]).origin().z
                        + self.chunks@[k].resolution()[2] == end,
            decreases self.chunks@.len() - i,
        {
            proof {
                self.chunk_seq()[i as int].lemma_stores_footprint();
            }
            let origin = self.chunks[i].origin();
            let resolution = self.chunks[i].resolution();
            if origin.z < lowest {
                lowest = origin.z;
            }
            if origin.z + resolution[2] > end {
                end = origin.z + resolution[2];
            }
            i = i + 1;
        }
        proof {
            assert forall|pos: CellPos| #[trigger] self.loaded(pos) implies lowest <= pos.z
                < end by {
                let k = choose|k: int| self.owner_of(pos, k);
                self.chunk_seq()[k].lemma_stores_footprint();
            }
        }
        Some((lowest, end))
    }

    /// The lowest cell made of `material` in the column through
    /// `start_pos`, among the cells that are loaded: the first such cell
    /// that a search from the core of the globe outward comes to. Fails
    /// where no cell of the column that is loaded is made of `material`.
    pub fn find_lowest_cell_containing(&self, start_pos: CellPos, material: Material) -> (r: Result<
        CellPos,
        NotFound,
    >)
        ensures
            r.is_ok() == exists|z: int| self.has_material_at(start_pos, material, z),
            r.is_ok() ==> self.lowest_is_at(start_pos, material, r.unwrap().z as int),
            r.is_ok() ==> r.unwrap() == column_cell(start_pos, r.unwrap().z as int),
    {
        let (lowest, end) = match self.layer_bounds() {
            Some(bounds) => bounds,
            None => {
                return Err(NotFound);
            },
        };
        let mut z = lowest;
        while z < end
            invariant
                lowest <= z <= end,
                self.within_layers(lowest as int, end as int),
                forall|k: int| k < z ==> !#[trigger] self.has_material_at(start_pos, material, k),
            decreases end - z,
        {
            let pos = CellPos { root: start_pos.root, x: start_pos.x, y: start_pos.y, z };
            match self.cell(pos) {
                Ok(cell) => {
                    if cell.material == material {
                        assert(self.has_material_at(start_pos, material, z as int));
                        return Ok(pos);
                    }
                },
                Err(_) => {},
            }
            z = z + 1;
        }
        Err(NotFound)
    }
}

} // verus!
