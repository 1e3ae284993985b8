//! Meshes, and what the mesh of a range of cells is.
//!
//! A mesh is a sequence of vertices and a sequence of triangles, each
//! triangle three places in the sequence of vertices. A vertex is named by
//! the cell it belongs to, its offset from the centre of that cell and the
//! ring it lies on; where that is in space is for the caller to work out.
//!
//! Cells are drawn layer by layer, row by row, x running fastest, each cell
//! after all that was drawn before it.

use vstd::prelude::*;
use super::cell_pos::{CellPos, IntCoord};
use super::cell_shape::{CellShape, DirOffset};
use super::chunk::{Cell, in_footprint};
use super::culling::drawn;

verus! {

/// The rings of vertices that a drawn cell has: the outline of its top
/// face, the same outline again as the upper rim of its walls, and the
/// outline on its bottom as their lower rim.
#[derive(Clone, Copy, Debug, PartialEq, Eq, Structural, Hash)]
pub enum Ring {
    /// On the top surface of the cell, as part of its top face.
    Top,
    /// On the top surface of the cell, as part of its walls.
    SideTop,
    /// On the bottom surface of the cell, as part of its walls.
    SideBottom,
}

/// One vertex of a mesh.
#[derive(Clone, Copy, Debug, PartialEq, Eq, Structural, Hash)]
pub struct CellVertex {
    pub cell: CellPos,
    pub offset: DirOffset,
    pub ring: Ring,
}

/// One triangle of a mesh: the places of its corners in the mesh's
/// vertices, anticlockwise seen from outside.
#[derive(Clone, Copy, Debug, PartialEq, Eq, Structural, Hash)]
pub struct Triangle {
    pub a: usize,
    pub b: usize,
    pub c: usize,
}

/// A mesh as two sequences.
pub struct Mesh {
    pub vertices: Seq<CellVertex>,
    pub triangles: Seq<Triangle>,
}

/// One ring of the vertices of the cell at `cell`.
pub open spec fn ring_vertices(cell: CellPos, outline: Seq<DirOffset>, ring: Ring) -> Seq<
    CellVertex,
> {
    Seq::new(outline.len(), |i: int| CellVertex { cell, offset: outline[i], ring })
}

/// The vertices of the cell at `cell`: its three rings, one after another.
pub open spec fn cell_vertices(cell: CellPos, outline: Seq<DirOffset>) -> Seq<CellVertex> {
    ring_vertices(cell, outline, Ring::Top) + ring_vertices(cell, outline, Ring::SideTop)
        + ring_vertices(cell, outline, Ring::SideBottom)
}

/// The triangle between the places `a`, `b` and `c`.
pub open spec fn triangle(a: int, b: int, c: int) -> Triangle {
    Triangle { a: a as usize, b: b as usize, c: c as usize }
}

/// The top face of a cell whose vertices begin at place `first` and whose
/// outline has `n` points: a fan of `n - 2` triangles round the first
/// vertex of the top ring.
pub open spec fn top_fan(first: int, n: int) -> Seq<Triangle> {
    Seq::new((n - 2) as nat, |i: int| triangle(first, first + i + 1, first + i + 2))
}

/// One of the two triangles of the wall between the outline points `i`
/// and `i + 1`, the last wall closing the ring: with `a` and `d` on the
/// upper rim and `b` and `c` below them, the triangles `a b d` and `d b c`.
pub open spec fn wall_triangle(first: int, n: int, t: int) -> Triangle {
    let i = t / 2;
    let next = (i + 1) % n;
    let a = first + n + i;
    let b = first + 2 * n + i;
    let c = first + 2 * n + next;
    let d = first + n + next;
    if t % 2 == 0 {
        triangle(a, b, d)
    } else {
        triangle(d, b, c)
    }
}

/// The walls of a cell whose vertices begin at place `first` and whose
/// outline has `n` points: two triangles to each edge of the outline.
pub open spec fn walls(first: int, n: int) -> Seq<Triangle> {
    Seq::new((2 * n) as nat, |t: int| wall_triangle(first, n, t))
}

/// The triangles of a cell: its top face, then its walls.
pub open spec fn cell_triangles(first: int, n: int) -> Seq<Triangle> {
    top_fan(first, n) + walls(first, n)
}

/// `mesh` with the cell at `cell` drawn after it.
pub open spec fn with_cell(mesh: Mesh, cell: CellPos, outline: Seq<DirOffset>) -> Mesh {
    Mesh {
        vertices: mesh.vertices + cell_vertices(cell, outline),
        triangles: mesh.triangles + cell_triangles(mesh.vertices.len() as int, outline.len() as int),
    }
}

/// What a mesh is made from: cell data, the range of cells to draw and the
/// resolution of the root faces. The range is laid out like a chunk's
/// footprint: `resolution[0] + 1` by `resolution[1] + 1` columns of
/// `resolution[2]` cells from `origin`.
pub struct Region {
    pub cells: Map<CellPos, Cell>,
    pub origin: CellPos,
    pub resolution: [IntCoord; 3],
    pub root_resolution: [IntCoord; 2],
}

impl Region {
    /// Whether the range holds no cell at all.
    pub open spec fn is_empty(self) -> bool {
        self.resolution[0] < 0 || self.resolution[1] < 0 || self.resolution[2] <= 0
    }

    /// The number of cells in one row of the range.
    pub open spec fn row_len(self) -> nat {
        (self.resolution[0] + 1) as nat
    }

    /// The number of rows in one layer of the range.
    pub open spec fn rows(self) -> nat {
        (self.resolution[1] + 1) as nat
    }

    /// The number of layers of the range.
    pub open spec fn layers(self) -> nat {
        self.resolution[2] as nat
    }

    /// Whether the range holds the cell at `pos`.
    pub open spec fn holds(self, pos: CellPos) -> bool {
        in_footprint(self.origin, self.resolution, pos)
    }

    /// The address of the cell `i` steps along x, `j` along y and `k`
    /// layers out from the origin of the range.
    pub open spec fn cell_at(self, i: int, j: int, k: int) -> CellPos {
        CellPos {
            root: self.origin.root,
            x: (self.origin.x + i) as i64,
            y: (self.origin.y + j) as i64,
            z: (self.origin.z + k) as i64,
        }
    }

    /// The shape drawn of the cells in column `(i, j)` of the range.
    pub open spec fn shape_at(self, i: int, j: int) -> CellShape {
        CellShape::in_range(i, j, 0, 0, self.resolution[0] as int, self.resolution[1] as int)
    }

    /// Whether the cell at `pos` is drawn.
    pub open spec fn draws(self, pos: CellPos) -> bool {
        drawn(self.cells, pos, self.root_resolution)
    }

    /// `mesh` followed by what is drawn of the cell `(i, j, k)`.
    pub open spec fn with_cell_at(self, mesh: Mesh, i: int, j: int, k: int) -> Mesh {
        if self.draws(self.cell_at(i, j, k)) {
            with_cell(mesh, self.cell_at(i, j, k), self.shape_at(i, j).outline())
        } else {
            mesh
        }
    }

    /// `mesh` followed by the first `count` cells of row `j` in layer `k`.
    pub open spec fn with_row(self, mesh: Mesh, count: nat, j: int, k: int) -> Mesh
        decreases count,
    {
        if count == 0 {
            mesh
        } else {
            self.with_cell_at(self.with_row(mesh, (count - 1) as nat, j, k), count - 1, j, k)
        }
    }

    /// `mesh` followed by the first `count` rows of layer `k`.
    pub open spec fn with_rows(self, mesh: Mesh, count: nat, k: int) -> Mesh
        decreases count,
    {
        if count == 0 {
            mesh
        } else {
            self.with_row(self.with_rows(mesh, (count - 1) as nat, k), self.row_len(), count - 1, k)
        }
    }

    /// `mesh` followed by the first `count` layers of the range.
    pub open spec fn with_layers(self, mesh: Mesh, count: nat) -> Mesh
        decreases count,
    {
        if count == 0 {
            mesh
        } else {
            self.with_rows(self.with_layers(mesh, (count - 1) as nat), self.rows(), count - 1)
        }
    }

    /// `mesh` followed by the mesh of the whole range.
    pub open spec fn appended_to(self, mesh: Mesh) -> Mesh {
        if self.is_empty() {
            mesh
        } else {
            self.with_layers(mesh, self.layers())
        }
    }
}

impl Region {
    /// Whether the cell at `pos` is one of the range and is drawn before
    /// the cell `(i, j, k)` comes up.
    pub open spec fn comes_before(self, pos: CellPos, i: int, j: int, k: int) -> bool {
        let x = pos.x - self.origin.x;
        let y = pos.y - self.origin.y;
        let z = pos.z - self.origin.z;
        self.holds(pos) && (z < k || (z == k && (y < j || (y == j && x < i))))
    }

    /// Whether the vertices of `mesh` from place `from` on are those of the
    /// drawn cells that come before the cell `(i, j, k)`: each of them
    /// belongs to such a cell, and each such cell has one.
    pub open spec fn shows_cells_before(self, mesh: Mesh, from: int, i: int, j: int, k: int)
        -> bool {
        &&& forall|t: int|
            from <= t < mesh.vertices.len() ==> self.comes_before(
                (#[trigger] mesh.vertices[t]).cell,
                i,
                j,
                k,
            ) && self.draws(mesh.vertices[t].cell)
        &&& forall|pos: CellPos|
            #[trigger] self.comes_before(pos, i, j, k) && self.draws(pos) ==> exists|t: int|
                from <= t < mesh.vertices.len() && (#[trigger] mesh.vertices[t]).cell == pos
    }

    /// Whether the vertices of `mesh` from place `from` on are those of the
    /// drawn cells of the range: each of them belongs to a cell of the
    /// range that is drawn, and each such cell has one.
    pub open spec fn shows_drawn_cells(self, mesh: Mesh, from: int) -> bool {
        &&& forall|t: int|
            from <= t < mesh.vertices.len() ==> self.holds((#[trigger] mesh.vertices[t]).cell)
                && self.draws(mesh.vertices[t].cell)
        &&& forall|pos: CellPos|
            self.holds(pos) && #[trigger] self.draws(pos) ==> exists|t: int|
                from <= t < mesh.vertices.len() && (#[trigger] mesh.vertices[t]).cell == pos
    }

    /// Before the first cell comes up, nothing has been drawn.
    pub proof fn lemma_nothing_before_the_first(self, mesh: Mesh)
        requires
            !self.is_empty(),
        ensures
            self.shows_cells_before(mesh, mesh.vertices.len() as int, 0, 0, 0),
    {
    }

    /// What is drawn up to the cell `(i, j, k)`, and then of that cell, is
    /// what is drawn up to the next cell of the row.
    pub proof fn lemma_one_more_cell(
        self,
        mesh: Mesh,
        longer: Mesh,
        from: int,
        pos: CellPos,
        i: int,
        j: int,
        k: int,
    )
        requires
            self.shows_cells_before(mesh, from, i, j, k),
            0 <= from <= mesh.vertices.len(),
            begins_with(longer, mesh),
            self.holds(pos),
            pos.x - self.origin.x == i,
            pos.y - self.origin.y == j,
            pos.z - self.origin.z == k,
            forall|t: int|
                mesh.vertices.len() <= t < longer.vertices.len() ==> (
                #[trigger] longer.vertices[t]).cell == pos,
            (mesh.vertices.len() < longer.vertices.len()) == self.draws(pos),
        ensures
            self.shows_cells_before(longer, from, i + 1, j, k),
    {
        assert forall|t: int| from <= t < longer.vertices.len() implies self.comes_before(
            (#[trigger] longer.vertices[t]).cell,
            i + 1,
            j,
            k,
        ) && self.draws(longer.vertices[t].cell) by {
            if t < mesh.vertices.len() {
                assert(longer.vertices[t] == mesh.vertices[t]);
                assert(self.comes_before(mesh.vertices[t].cell, i, j, k));
            }
        }
        assert forall|p: CellPos| #[trigger]
            self.comes_before(p, i + 1, j, k) && self.draws(p) implies exists|t: int|
            from <= t < longer.vertices.len() && (#[trigger] longer.vertices[t]).cell == p by {
            if p == pos {
                let t = mesh.vertices.len() as int;
                assert(longer.vertices[t].cell == p);
            } else {
                assert(self.comes_before(p, i, j, k));
                let t = choose|t: int|
                    from <= t < mesh.vertices.len() && (#[trigger] mesh.vertices[t]).cell == p;
                assert(longer.vertices[t] == mesh.vertices[t]);
            }
        }
    }

    /// What is drawn up to the end of row `j` is what is drawn up to the
    /// beginning of the next row.
    pub proof fn lemma_row_done(self, mesh: Mesh, from: int, j: int, k: int)
        requires
            0 <= from,
            self.shows_cells_before(mesh, from, self.resolution[0] + 1, j, k),
        ensures
            self.shows_cells_before(mesh, from, 0, j + 1, k),
    {
        assert forall|t: int| from <= t < mesh.vertices.len() implies self.comes_before(
            (#[trigger] mesh.vertices[t]).cell,
            0,
            j + 1,
            k,
        ) && self.draws(mesh.vertices[t].cell) by {
            assert(self.comes_before(mesh.vertices[t].cell, self.resolution[0] + 1, j, k));
        }
        assert forall|p: CellPos| #[trigger]
            self.comes_before(p, 0, j + 1, k) && self.draws(p) implies exists|t: int|
            from <= t < mesh.vertices.len() && (#[trigger] mesh.vertices[t]).cell == p by {
            assert(self.comes_before(p, self.resolution[0] + 1, j, k));
        }
    }

    /// What is drawn up to the end of layer `k` is what is drawn up to the
    /// beginning of the next layer.
    pub proof fn lemma_layer_done(self, mesh: Mesh, from: int, k: int)
        requires
            0 <= from,
            self.shows_cells_before(mesh, from, 0, self.resolution[1] + 1, k),
        ensures
            self.shows_cells_before(mesh, from, 0, 0, k + 1),
    {
        assert forall|t: int| from <= t < mesh.vertices.len() implies self.comes_before(
            (#[trigger] mesh.vertices[t]).cell,
            0,
            0,
            k + 1,
        ) && self.draws(mesh.vertices[t].cell) by {
            assert(self.comes_before(mesh.vertices[t].cell, 0, self.resolution[1] + 1, k));
        }
        assert forall|p: CellPos| #[trigger]
            self.comes_before(p, 0, 0, k + 1) && self.draws(p) implies exists|t: int|
            from <= t < mesh.vertices.len() && (#[trigger] mesh.vertices[t]).cell == p by {
            assert(self.comes_before(p, 0, self.resolution[1] + 1, k));
        }
    }

    /// What is drawn up to the end of the last layer is what is drawn of the
    /// range.
    pub proof fn lemma_range_done(self, mesh: Mesh, from: int)
        requires
            0 <= from,
            self.shows_cells_before(mesh, from, 0, 0, self.resolution[2] as int),
        ensures
            self.shows_drawn_cells(mesh, from),
    {
        assert forall|t: int| from <= t < mesh.vertices.len() implies self.holds(
            (#[trigger] mesh.vertices[t]).cell,
        ) && self.draws(mesh.vertices[t].cell) by {
            assert(self.comes_before(mesh.vertices[t].cell, 0, 0, self.resolution[2] as int));
        }
        assert forall|p: CellPos| self.holds(p) && #[trigger] self.draws(p) implies exists|t: int|
            from <= t < mesh.vertices.len() && (#[trigger] mesh.vertices[t]).cell == p by {
            assert(self.comes_before(p, 0, 0, self.resolution[2] as int));
        }
    }
}

/// Whether a chunk that owns `stored` cells along x, y and z stores every
/// cell of the range of `resolution` cells from its origin.
pub open spec fn covers(stored: [IntCoord; 3], resolution: [IntCoord; 3]) -> bool {
    ||| resolution[0] < 0
    ||| resolution[1] < 0
    ||| resolution[2] <= 0
    ||| (resolution[0] <= stored[0] && resolution[1] <= stored[1] && resolution[2] <= stored[2])
}

/// Whether `longer` begins with all of `mesh`, vertices and triangles.
pub open spec fn begins_with(longer: Mesh, mesh: Mesh) -> bool {
    &&& mesh.vertices.len() <= longer.vertices.len()
    &&& mesh.triangles.len() <= longer.triangles.len()
    &&& forall|t: int|
        0 <= t < mesh.vertices.len() ==> #[trigger] longer.vertices[t] == mesh.vertices[t]
    &&& forall|t: int|
        0 <= t < mesh.triangles.len() ==> #[trigger] longer.triangles[t] == mesh.triangles[t]
}

/// Whether the triangles of `mesh` from place `from` on have all their
/// corners among the vertices of `mesh` from place `low` on.
pub open spec fn triangles_within(mesh: Mesh, from: int, low: int) -> bool {
    forall|t: int|
        from <= t < mesh.triangles.len() ==> {
            let corners = #[trigger] mesh.triangles[t];
            &&& low <= corners.a < mesh.vertices.len()
            &&& low <= corners.b < mesh.vertices.len()
            &&& low <= corners.c < mesh.vertices.len()
        }
}

/// Whether every triangle of `mesh` has all its corners among the vertices
/// of `mesh`.
pub open spec fn well_indexed(mesh: Mesh) -> bool {
    triangles_within(mesh, 0, 0)
}

/// The two buffers of a mesh under construction as one mesh.
pub open spec fn mesh_of(vertex_data: Seq<CellVertex>, index_data: Seq<Triangle>) -> Mesh {
    Mesh { vertices: vertex_data, triangles: index_data }
}

} // verus!
