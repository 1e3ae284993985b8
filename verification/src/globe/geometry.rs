//! The builder of meshes for chunks and globes.

use vstd::prelude::*;
use super::cell_pos::{CellPos, IntCoord};
use super::cell_shape::{CellShape, DirOffset};
use super::chunk::{Cell, Chunk, Material, OutOfRange, in_footprint};
use super::culling::{
    drawn, edge_blocked, enclosed, known_to_block, lemma_rim_cell_is_never_enclosed, on_rim,
};
use super::dir::{Dir, DirIndex, HEX_EDGES};
use super::globe::Globe;
use super::mesh::{
    CellVertex, Mesh, Region, Ring, Triangle, begins_with, cell_triangles, cell_vertices, covers, mesh_of,
    ring_vertices, top_fan, triangles_within, walls, well_indexed, with_cell,
};
use super::spec::Spec;
use crate::movement::{adjacent_pos_in_dir, has_edge};

verus! {

/// The cell data that a mesh of `chunk` goes by: that of the whole globe
/// where a globe is given, else that of the chunk alone.
pub open spec fn cells_known(chunk: &Chunk, globe: Option<&Globe>) -> Map<CellPos, Cell> {
    match globe {
        Some(globe) => globe@,
        None => chunk@,
    }
}

/// Whether `chunk` is one of the chunks of `globe`, where a globe is given.
pub open spec fn belongs(chunk: &Chunk, globe: Option<&Globe>) -> bool {
    match globe {
        Some(globe) => globe.wf() && globe.has_chunk(chunk),
        None => true,
    }
}

/// A finished mesh for the physics of a globe: the same vertices and
/// triangles as the mesh that is drawn.
#[derive(Debug)]
pub struct CollisionMesh {
    pub vertices: Vec<CellVertex>,
    pub indices: Vec<Triangle>,
}

/// Builds meshes for the chunks of one globe.
pub struct Geometry {
    spec: Spec,
}

impl Geometry {
    /// The resolution that this builder was made for.
    pub closed spec fn spec_spec(&self) -> Spec {
        self.spec
    }

    /// A builder for globes with the resolution `globe_spec`.
    pub fn new(globe_spec: Spec) -> (geometry: Geometry)
        ensures
            geometry.spec() == globe_spec,
    {
        Geometry { spec: globe_spec }
    }

    /// The resolution that this builder was made for.
    #[verifier::when_used_as_spec(spec_spec)]
    pub fn spec(&self) -> (spec: Spec)
        ensures
            spec == self.spec(),
    {
        self.spec
    }

    /// What a mesh is made from that draws the range which this builder's
    /// resolution lays out from `origin`, going by `cells`.
    pub open spec fn region(&self, cells: Map<CellPos, Cell>, origin: CellPos) -> Region {
        Region {
            cells,
            origin,
            resolution: self.spec().chunk_resolution,
            root_resolution: self.spec().root_resolution,
        }
    }

    /// What the mesh of `chunk` alone is made from.
    pub open spec fn region_of(&self, chunk: &Chunk) -> Region {
        self.region(chunk@, chunk.origin())
    }

    /// `mesh` followed by the meshes of the first `count` chunks of
    /// `globe`, each going by the cells of the whole globe.
    pub open spec fn with_chunks(&self, globe: &Globe, mesh: Mesh, count: nat) -> Mesh
        decreases count,
    {
        if count == 0 {
            mesh
        } else {
            self.region(globe@, globe.chunk_seq()[count - 1].origin()).appended_to(
                self.with_chunks(globe, mesh, (count - 1) as nat),
            )
        }
    }

    /// The mesh of `globe`: the meshes of its chunks, one after another.
    pub open spec fn globe_mesh(&self, globe: &Globe) -> Mesh {
        self.with_chunks(globe, mesh_of(Seq::empty(), Seq::empty()), globe.chunk_seq().len())
    }

    /// Whether the cell at `pos` lies in the range that this builder draws
    /// of one of the first `count` chunks of `globe`.
    pub open spec fn in_drawn_range(&self, globe: &Globe, pos: CellPos, count: int) -> bool {
        exists|c: int|
            0 <= c < count && #[trigger] self.region(
                globe@,
                globe.chunk_seq()[c].origin(),
            ).holds(pos)
    }

    /// Whether the vertices of `mesh` are those of the cells that are drawn
    /// of the first `count` chunks of `globe`: each of them belongs to a
    /// cell in the range of such a chunk that is drawn, and each such cell
    /// has one.
    pub open spec fn shows_drawn_cells_of(&self, globe: &Globe, mesh: Mesh, count: int) -> bool {
        &&& forall|t: int|
            0 <= t < mesh.vertices.len() ==> self.in_drawn_range(
                globe,
                (#[trigger] mesh.vertices[t]).cell,
                count,
            ) && drawn(globe@, mesh.vertices[t].cell, self.spec().root_resolution)
        &&& forall|c: int, pos: CellPos|
            0 <= c < count && #[trigger] self.region(globe@, globe.chunk_seq()[c].origin()).holds(
                pos,
            ) && drawn(globe@, pos, self.spec().root_resolution) ==> exists|t: int|
                0 <= t < mesh.vertices.len() && (#[trigger] mesh.vertices[t]).cell == pos
    }

    /// Whether this builder can draw `globe`: the globe has no chunks, or
    /// its chunks store all of the range that the builder's resolution lays
    /// out.
    pub open spec fn can_draw(&self, globe: &Globe) -> bool {
        globe.chunk_seq().len() == 0 || covers(
            globe.spec().chunk_resolution,
            self.spec().chunk_resolution,
        )
    }

    /// The mesh of `globe` for its physics. It is made as `make_geometry`
    /// makes the mesh that is drawn, and fails where that fails.
    pub fn build_collision_mesh(&self, globe: &Globe) -> (r: Result<CollisionMesh, OutOfRange>)
        ensures
            r.is_ok() == self.can_draw(globe),
            r.is_ok() ==> mesh_of(r.unwrap().vertices@, r.unwrap().indices@) == self.globe_mesh(
                globe,
            ),
            r.is_ok() ==> well_indexed(mesh_of(r.unwrap().vertices@, r.unwrap().indices@)),
            r.is_ok() ==> self.shows_drawn_cells_of(
                globe,
                mesh_of(r.unwrap().vertices@, r.unwrap().indices@),
                globe.chunk_seq().len() as int,
            ),
    {
        match self.make_geometry(globe) {
            Ok((vertices, indices)) => Ok(CollisionMesh { vertices, indices }),
            Err(e) => Err(e),
        }
    }

    /// The mesh of `globe`: the vertices of its cells, and the triangles
    /// between them as places among those vertices. The chunks are drawn
    /// one after another, and whether a cell is enclosed goes by all the
    /// cells that the globe has loaded.
    ///
    /// Fails where a chunk of the globe does not store all of the range
    /// that this builder's resolution lays out from its origin.
    pub fn make_geometry(&self, globe: &Globe) -> (r: Result<
        (Vec<CellVertex>, Vec<Triangle>),
        OutOfRange,
    >)
        ensures
            r.is_ok() == self.can_draw(globe),
            r.is_ok() ==> mesh_of(r.unwrap().0@, r.unwrap().1@) == self.globe_mesh(globe),
            r.is_ok() ==> well_indexed(mesh_of(r.unwrap().0@, r.unwrap().1@)),
            r.is_ok() ==> self.shows_drawn_cells_of(
                globe,
                mesh_of(r.unwrap().0@, r.unwrap().1@),
                globe.chunk_seq().len() as int,
            ),
    {
        let mut vertex_data: Vec<CellVertex> = Vec::new();
        let mut index_data: Vec<Triangle> = Vec::new();
        let chunks = globe.chunks();
        let mut i: usize = 0;
        while i < chunks.len()
            invariant
                globe.wf(),
                chunks@ == globe.chunk_seq(),
                i <= chunks@.len(),
                i > 0 ==> self.can_draw(globe),
                well_indexed(mesh_of(vertex_data@, index_data@)),
                self.shows_drawn_cells_of(globe, mesh_of(vertex_data@, index_data@), i as int),
                mesh_of(vertex_data@, index_data@) == self.with_chunks(
                    globe,
                    mesh_of(Seq::empty(), Seq::empty()),
                    i as nat,
                ),
            decreases chunks@.len() - i,
        {
            let chunk = &chunks[i];
            assert(globe.has_chunk(chunk)) by {
                assert(globe.chunk_seq()[i as int] == *chunk);
            }
            let ghost drawn_so_far = mesh_of(vertex_data@, index_data@);
            match self.make_range_geometry(chunk, Some(globe), &mut vertex_data, &mut index_data) {
                Ok(_) => {},
                Err(e) => {
                    return Err(e);
                },
            }
            proof {
                self.lemma_one_more_chunk(
                    globe,
                    drawn_so_far,
                    mesh_of(vertex_data@, index_data@),
                    i as int,
                );
            }
            i = i + 1;
        }
        Ok((vertex_data, index_data))
    }

    /// Appends the mesh of `chunk` to the two buffers: the vertices of its
    /// cells to `vertex_data` and their triangles to `index_data`, which
    /// count places in `vertex_data` from its beginning. Whether a cell is
    /// enclosed goes by the cells of the chunk alone.
    ///
    /// Every cell of the range that this builder's resolution lays out from
    /// the chunk's origin is looked at, the shared row and column on the far
    /// x and y sides among them. Fails, and leaves the buffers as they were,
    /// where the chunk does not store all of that range.
    pub fn make_chunk_geometry(
        &self,
        chunk: &Chunk,
        vertex_data: &mut Vec<CellVertex>,
        index_data: &mut Vec<Triangle>,
    ) -> (r: Result<(), OutOfRange>)
        ensures
            r.is_ok() == covers(chunk.resolution(), self.spec().chunk_resolution),
            r.is_ok() ==> mesh_of(final(vertex_data)@, final(index_data)@) == self.region_of(
                chunk,
            ).appended_to(mesh_of(old(vertex_data)@, old(index_data)@)),
            r.is_ok() ==> begins_with(
                mesh_of(final(vertex_data)@, final(index_data)@),
                mesh_of(old(vertex_data)@, old(index_data)@),
            ) && triangles_within(
                mesh_of(final(vertex_data)@, final(index_data)@),
                old(index_data)@.len() as int,
                old(vertex_data)@.len() as int,
            ),
            r.is_ok() ==> self.region_of(chunk).shows_drawn_cells(
                mesh_of(final(vertex_data)@, final(index_data)@),
                old(vertex_data)@.len() as int,
            ),
            r.is_err() ==> final(vertex_data)@ == old(vertex_data)@ && final(index_data)@ == old(
                index_data,
            )@,
    {
        self.make_range_geometry(chunk, None, vertex_data, index_data)
    }

    /// Whether the cell at `cell_pos` is left out of the mesh of `chunk`
    /// because nothing of it can be seen: whether the cells of `chunk`
    /// alone show it to be enclosed.
    pub fn cull_cell(&self, chunk: &Chunk, cell_pos: CellPos) -> (culled: bool)
        ensures
            culled == enclosed(chunk@, cell_pos, self.spec().root_resolution),
    {
        self.cull(chunk, None, cell_pos)
    }

    /// What is drawn of the first `count` chunks, and then of the next, is
    /// what is drawn of the first `count + 1` chunks.
    proof fn lemma_one_more_chunk(&self, globe: &Globe, mesh: Mesh, longer: Mesh, count: int)
        requires
            0 <= count < globe.chunk_seq().len(),
            self.shows_drawn_cells_of(globe, mesh, count),
            begins_with(longer, mesh),
            self.region(globe@, globe.chunk_seq()[count].origin()).shows_drawn_cells(
                longer,
                mesh.vertices.len() as int,
            ),
        ensures
            self.shows_drawn_cells_of(globe, longer, count + 1),
    {
        let next = self.region(globe@, globe.chunk_seq()[count].origin());
        let root_resolution = self.spec().root_resolution;
        assert forall|t: int| 0 <= t < longer.vertices.len() implies self.in_drawn_range(
            globe,
            (#[trigger] longer.vertices[t]).cell,
            count + 1,
        ) && drawn(globe@, longer.vertices[t].cell, root_resolution) by {
            if t < mesh.vertices.len() {
                assert(longer.vertices[t] == mesh.vertices[t]);
                let c = choose|c: int|
                    0 <= c < count && #[trigger] self.region(
                        globe@,
                        globe.chunk_seq()[c].origin(),
                    ).holds(mesh.vertices[t].cell);
                assert(self.region(globe@, globe.chunk_seq()[c].origin()).holds(
                    longer.vertices[t].cell,
                ));
            } else {
                assert(next.holds(longer.vertices[t].cell));
            }
        }
        assert forall|c: int, pos: CellPos|
            0 <= c < count + 1 && #[trigger] self.region(
                globe@,
                globe.chunk_seq()[c].origin(),
            ).holds(pos) && drawn(globe@, pos, root_resolution) implies exists|t: int|
            0 <= t < longer.vertices.len() && (#[trigger] longer.vertices[t]).cell == pos by {
            if c < count {
                let t = choose|t: int|
                    0 <= t < mesh.vertices.len() && (#[trigger] mesh.vertices[t]).cell == pos;
                assert(longer.vertices[t] == mesh.vertices[t]);
            } else {
                assert(next.holds(pos) && next.draws(pos));
            }
        }
    }

    /// What holds throughout one pass over the range of `chunk`.
    spec fn in_pass(
        &self,
        chunk: &Chunk,
        globe: Option<&Globe>,
        region: Region,
        end_x: IntCoord,
        end_y: IntCoord,
        end_z: IntCoord,
    ) -> bool {
        &&& region == self.region(cells_known(chunk, globe), chunk.origin())
        &&& !region.is_empty()
        &&& chunk.wf()
        &&& belongs(chunk, globe)
        &&& covers(chunk.resolution(), region.resolution)
        &&& end_x == region.origin.x + region.resolution[0]
        &&& end_y == region.origin.y + region.resolution[1]
        &&& end_z == region.origin.z + region.resolution[2] - 1
        &&& end_x < i64::MAX
        &&& end_y < i64::MAX
        &&& end_z < i64::MAX
    }

    /// Appends the mesh of `chunk` to the two buffers, going by the cells
    /// of `globe` where one is given and by those of `chunk` where not.
    fn make_range_geometry(
        &self,
        chunk: &Chunk,
        globe: Option<&Globe>,
        vertex_data: &mut Vec<CellVertex>,
        index_data: &mut Vec<Triangle>,
    ) -> (r: Result<(), OutOfRange>)
        requires
            belongs(chunk, globe),
        ensures
            r.is_ok() == covers(chunk.resolution(), self.spec().chunk_resolution),
            r.is_ok() ==> mesh_of(final(vertex_data)@, final(index_data)@) == self.region(
                cells_known(chunk, globe),
                chunk.origin(),
            ).appended_to(mesh_of(old(vertex_data)@, old(index_data)@)),
            r.is_ok() ==> begins_with(
                mesh_of(final(vertex_data)@, final(index_data)@),
                mesh_of(old(vertex_data)@, old(index_data)@),
            ) && triangles_within(
                mesh_of(final(vertex_data)@, final(index_data)@),
                old(index_data)@.len() as int,
                old(vertex_data)@.len() as int,
            ),
            r.is_ok() ==> self.region(cells_known(chunk, globe), chunk.origin()).shows_drawn_cells(
                mesh_of(final(vertex_data)@, final(index_data)@),
                old(vertex_data)@.len() as int,
            ),
            r.is_err() ==> final(vertex_data)@ == old(vertex_data)@ && final(index_data)@ == old(
                index_data,
            )@,
    {
        let resolution = self.spec.chunk_resolution;
        if resolution[0] < 0 || resolution[1] < 0 || resolution[2] <= 0 {
            return Ok(());
        }
        let stored = chunk.resolution();
        if resolution[0] > stored[0] || resolution[1] > stored[1] || resolution[2] > stored[2] {
            return Err(OutOfRange);
        }
        let origin = chunk.origin();
        proof {
            use_type_invariant(chunk);
            chunk.lemma_stores_footprint();
        }
        // Cells on the far x and y sides are drawn in part, though the
        // chunk does not own them. Chunks share no cells along z.
        let end_x = origin.x + resolution[0];
        let end_y = origin.y + resolution[1];
        let end_z = origin.z + resolution[2] - 1;
        let ghost region = self.region(cells_known(chunk, globe), chunk.origin());
        let ghost before = mesh_of(vertex_data@, index_data@);
        proof {
            region.lemma_nothing_before_the_first(before);
        }
        let mut cell_z = origin.z;
        while cell_z <= end_z
            invariant
                self.in_pass(chunk, globe, region, end_x, end_y, end_z),
                begins_with(mesh_of(vertex_data@, index_data@), before),
                triangles_within(
                    mesh_of(vertex_data@, index_data@),
                    before.triangles.len() as int,
                    before.vertices.len() as int,
                ),
                origin == region.origin,
                origin.z <= cell_z <= end_z + 1,
                region.shows_cells_before(
                    mesh_of(vertex_data@, index_data@),
                    before.vertices.len() as int,
                    0,
                    0,
                    cell_z - origin.z,
                ),
                mesh_of(vertex_data@, index_data@) == region.with_layers(
                    before,
                    (cell_z - origin.z) as nat,
                ),
            decreases end_z + 1 - cell_z,
        {
            let ghost layer_start = mesh_of(vertex_data@, index_data@);
            let mut cell_y = origin.y;
            while cell_y <= end_y
                invariant
                    self.in_pass(chunk, globe, region, end_x, end_y, end_z),
                begins_with(mesh_of(vertex_data@, index_data@), before),
                triangles_within(
                    mesh_of(vertex_data@, index_data@),
                    before.triangles.len() as int,
                    before.vertices.len() as int,
                ),
                    origin == region.origin,
                    origin.z <= cell_z <= end_z,
                    origin.y <= cell_y <= end_y + 1,
                    region.shows_cells_before(
                        mesh_of(vertex_data@, index_data@),
                        before.vertices.len() as int,
                        0,
                        cell_y - origin.y,
                        cell_z - origin.z,
                    ),
                    mesh_of(vertex_data@, index_data@) == region.with_rows(
                        layer_start,
                        (cell_y - origin.y) as nat,
                        cell_z - origin.z,
                    ),
                decreases end_y + 1 - cell_y,
            {
                let ghost row_start = mesh_of(vertex_data@, index_data@);
                let mut cell_x = origin.x;
                while cell_x <= end_x
                    invariant
                        self.in_pass(chunk, globe, region, end_x, end_y, end_z),
                begins_with(mesh_of(vertex_data@, index_data@), before),
                triangles_within(
                    mesh_of(vertex_data@, index_data@),
                    before.triangles.len() as int,
                    before.vertices.len() as int,
                ),
                        origin == region.origin,
                        origin.z <= cell_z <= end_z,
                        origin.y <= cell_y <= end_y,
                        origin.x <= cell_x <= end_x + 1,
                        region.shows_cells_before(
                            mesh_of(vertex_data@, index_data@),
                            before.vertices.len() as int,
                            cell_x - origin.x,
                            cell_y - origin.y,
                            cell_z - origin.z,
                        ),
                        mesh_of(vertex_data@, index_data@) == region.with_row(
                            row_start,
                            (cell_x - origin.x) as nat,
                            cell_y - origin.y,
                            cell_z - origin.z,
                        ),
                    decreases end_x + 1 - cell_x,
                {
                    let cell_pos = CellPos { x: cell_x, y: cell_y, z: cell_z, root: origin.root };
                    proof {
                        chunk.lemma_stores_footprint();
                        assert(in_footprint(chunk.origin(), chunk.resolution(), cell_pos));
                        assert(cell_pos == region.cell_at(
                            cell_x - origin.x,
                            cell_y - origin.y,
                            cell_z - origin.z,
                        ));
                    }
                    let ghost drawn_so_far = mesh_of(vertex_data@, index_data@);
                    self.make_cell_geometry(
                        chunk,
                        globe,
                        cell_pos,
                        end_x,
                        end_y,
                        vertex_data,
                        index_data,
                    );
                    proof {
                        region.lemma_one_more_cell(
                            drawn_so_far,
                            mesh_of(vertex_data@, index_data@),
                            before.vertices.len() as int,
                            cell_pos,
                            cell_x - origin.x,
                            cell_y - origin.y,
                            cell_z - origin.z,
                        );
                    }
                    cell_x = cell_x + 1;
                }
                proof {
                    region.lemma_row_done(
                        mesh_of(vertex_data@, index_data@),
                        before.vertices.len() as int,
                        cell_y - origin.y,
                        cell_z - origin.z,
                    );
                }
                cell_y = cell_y + 1;
            }
            proof {
                region.lemma_layer_done(
                    mesh_of(vertex_data@, index_data@),
                    before.vertices.len() as int,
                    cell_z - origin.z,
                );
            }
            cell_z = cell_z + 1;
        }
        proof {
            region.lemma_range_done(
                mesh_of(vertex_data@, index_data@),
                before.vertices.len() as int,
            );
        }
        Ok(())
    }

    /// Appends what is drawn of the cell at `cell_pos` to the two buffers:
    /// nothing if the cell is culled or air, else its three rings of
    /// vertices, the fan of its top face and its walls.
    fn make_cell_geometry(
        &self,
        chunk: &Chunk,
        globe: Option<&Globe>,
        cell_pos: CellPos,
        end_x: IntCoord,
        end_y: IntCoord,
        vertex_data: &mut Vec<CellVertex>,
        index_data: &mut Vec<Triangle>,
    )
        requires
            chunk.stores(cell_pos),
            belongs(chunk, globe),
            end_x == chunk.origin().x + self.spec().chunk_resolution[0],
            end_y == chunk.origin().y + self.spec().chunk_resolution[1],
        ensures
            mesh_of(final(vertex_data)@, final(index_data)@) == self.region(
                cells_known(chunk, globe),
                chunk.origin(),
            ).with_cell_at(
                mesh_of(old(vertex_data)@, old(index_data)@),
                cell_pos.x - chunk.origin().x,
                cell_pos.y - chunk.origin().y,
                cell_pos.z - chunk.origin().z,
            ),
            begins_with(
                mesh_of(final(vertex_data)@, final(index_data)@),
                mesh_of(old(vertex_data)@, old(index_data)@),
            ),
            triangles_within(
                mesh_of(final(vertex_data)@, final(index_data)@),
                old(index_data)@.len() as int,
                old(vertex_data)@.len() as int,
            ),
            (old(vertex_data)@.len() < final(vertex_data)@.len()) == self.region(
                cells_known(chunk, globe),
                chunk.origin(),
            ).draws(cell_pos),
            forall|t: int|
                old(vertex_data)@.len() <= t < final(vertex_data)@.len() ==> (
                #[trigger] final(vertex_data)@[t]).cell == cell_pos,
    {
        let origin = chunk.origin();
        proof {
            use_type_invariant(chunk);
            chunk.lemma_stores_footprint();
            assert(in_footprint(chunk.origin(), chunk.resolution(), cell_pos));
        }
        if self.cull(chunk, globe, cell_pos) {
            return ;
        }
        let material = match lookup(chunk, globe, cell_pos) {
            Ok(cell) => cell.material,
            Err(_) => Material::Air,
        };
        // Air is not drawn.
        if material == Material::Air {
            return ;
        }
        // The most specific shapes are told apart first.
        let cell_shape = CellShape::for_cell(cell_pos.x, cell_pos.y, origin.x, origin.y, end_x, end_y);
        let offsets = cell_shape.top_outline_dir_offsets();
        emit_cell(vertex_data, index_data, cell_pos, &offsets);
    }

    /// Whether the cell data at hand shows the cell at `cell_pos` to be
    /// enclosed.
    fn cull(&self, chunk: &Chunk, globe: Option<&Globe>, cell_pos: CellPos) -> (culled: bool)
        ensures
            culled == enclosed(cells_known(chunk, globe), cell_pos, self.spec().root_resolution),
    {
        let root_resolution = self.spec.root_resolution;
        let ghost cells = cells_known(chunk, globe);
        let mut index: DirIndex = 0;
        while index < HEX_EDGES
            invariant
                index <= HEX_EDGES,
                root_resolution == self.spec().root_resolution,
                cells == cells_known(chunk, globe),
                forall|d: DirIndex|
                    d < index ==> #[trigger] edge_blocked(cells, cell_pos, d, root_resolution),
            decreases HEX_EDGES - index,
        {
            let dir = Dir::new(index);
            if has_edge(&cell_pos, dir, root_resolution) {
                let neighbor = match adjacent_pos_in_dir(cell_pos, dir) {
                    Ok(neighbor) => Some(neighbor),
                    Err(_) => None,
                };
                if !blocks(chunk, globe, neighbor) {
                    assert(!edge_blocked(cells, cell_pos, index, root_resolution));
                    return false;
                }
            }
            index = index + 1;
        }
        blocks(chunk, globe, cell_pos.above()) && blocks(chunk, globe, cell_pos.below())
    }
}

/// Appends one ring of the vertices of the cell at `cell` to `vertex_data`.
fn push_ring(vertex_data: &mut Vec<CellVertex>, cell: CellPos, offsets: &Vec<DirOffset>, ring: Ring)
    ensures
        final(vertex_data)@ == old(vertex_data)@ + ring_vertices(cell, offsets@, ring),
{
    let ghost all = ring_vertices(cell, offsets@, ring);
    let mut i: usize = 0;
    while i < offsets.len()
        invariant
            i <= offsets@.len(),
            all == ring_vertices(cell, offsets@, ring),
            vertex_data@ == old(vertex_data)@ + all.take(i as int),
        decreases offsets@.len() - i,
    {
        vertex_data.push(CellVertex { cell, offset: offsets[i], ring });
        assert(all.take(i + 1) =~= all.take(i as int).push(all[i as int]));
        i = i + 1;
    }
    assert(all.take(i as int) =~= all);
}

/// Appends the top face of a cell to `index_data`: every triangle holds the
/// first vertex of the top ring and two that follow one another.
fn push_top_fan(index_data: &mut Vec<Triangle>, first: usize, n: usize)
    requires
        2 <= n,
        first + n <= usize::MAX,
    ensures
        final(index_data)@ == old(index_data)@ + top_fan(first as int, n as int),
{
    let ghost all = top_fan(first as int, n as int);
    let mut i: usize = 1;
    while i < n - 1
        invariant
            2 <= n,
            first + n <= usize::MAX,
            1 <= i <= n - 1,
            all == top_fan(first as int, n as int),
            index_data@ == old(index_data)@ + all.take(i - 1),
        decreases n - i,
    {
        index_data.push(Triangle { a: first, b: first + i, c: first + i + 1 });
        assert(all.take(i as int) =~= all.take(i - 1).push(all[i - 1]));
        i = i + 1;
    }
    assert(all.take(i - 1) =~= all);
}

/// Appends the walls of a cell to `index_data`: for each edge of the
/// outline the two triangles of the quad between the upper and the lower
/// rim.
fn push_walls(index_data: &mut Vec<Triangle>, first: usize, n: usize)
    requires
        1 <= n,
        first + 3 * n <= usize::MAX,
    ensures
        final(index_data)@ == old(index_data)@ + walls(first as int, n as int),
{
    let ghost all = walls(first as int, n as int);
    let first_side_top = first + n;
    let first_side_bottom = first_side_top + n;
    let mut ab_i: usize = 0;
    while ab_i < n
        invariant
            1 <= n,
            first + 3 * n <= usize::MAX,
            first_side_top == first + n,
            first_side_bottom == first + 2 * n,
            ab_i <= n,
            all == walls(first as int, n as int),
            index_data@ == old(index_data)@ + all.take(2 * ab_i),
        decreases n - ab_i,
    {
        let cd_i = (ab_i + 1) % n;
        let a_i = first_side_top + ab_i;
        let b_i = first_side_bottom + ab_i;
        let c_i = first_side_bottom + cd_i;
        let d_i = first_side_top + cd_i;
        index_data.push(Triangle { a: a_i, b: b_i, c: d_i });
        index_data.push(Triangle { a: d_i, b: b_i, c: c_i });
        proof {
            let t = 2 * ab_i as int;
            assert(t / 2 == ab_i && t % 2 == 0 && (t + 1) / 2 == ab_i && (t + 1) % 2 == 1);
            assert(all.take(t + 2) =~= all.take(t).push(all[t]).push(all[t + 1]));
        }
        ab_i = ab_i + 1;
    }
    assert(all.take(2 * ab_i) =~= all);
}

/// Appends the cell at `cell_pos`, drawn with the outline `offsets`, to
/// the two buffers.
fn emit_cell(
    vertex_data: &mut Vec<CellVertex>,
    index_data: &mut Vec<Triangle>,
    cell_pos: CellPos,
    offsets: &Vec<DirOffset>,
)
    requires
        2 <= offsets@.len(),
    ensures
        mesh_of(final(vertex_data)@, final(index_data)@) == with_cell(
            mesh_of(old(vertex_data)@, old(index_data)@),
            cell_pos,
            offsets@,
        ),
        begins_with(
            mesh_of(final(vertex_data)@, final(index_data)@),
            mesh_of(old(vertex_data)@, old(index_data)@),
        ),
        triangles_within(
            mesh_of(final(vertex_data)@, final(index_data)@),
            old(index_data)@.len() as int,
            old(vertex_data)@.len() as int,
        ),
        old(vertex_data)@.len() < final(vertex_data)@.len(),
        forall|t: int|
            old(vertex_data)@.len() <= t < final(vertex_data)@.len() ==> (
            #[trigger] final(vertex_data)@[t]).cell == cell_pos,
{
    let first_top_vertex_index = vertex_data.len();
    let n = offsets.len();
    // The outline once for the top face, again for the upper rim of the
    // walls, so that the two can be shaded apart, and on the bottom for
    // their lower rim.
    push_ring(vertex_data, cell_pos, offsets, Ring::Top);
    push_ring(vertex_data, cell_pos, offsets, Ring::SideTop);
    push_ring(vertex_data, cell_pos, offsets, Ring::SideBottom);
    let vertex_count = vertex_data.len();
    assert(vertex_count == first_top_vertex_index + 3 * n);
    push_top_fan(index_data, first_top_vertex_index, n);
    push_walls(index_data, first_top_vertex_index, n);
    assert(vertex_data@ =~= old(vertex_data)@ + cell_vertices(cell_pos, offsets@));
    assert(index_data@ =~= old(index_data)@ + cell_triangles(
        first_top_vertex_index as int,
        n as int,
    ));
    assert forall|t: int| old(vertex_data)@.len() <= t < vertex_data@.len() implies (
    #[trigger] vertex_data@[t]).cell == cell_pos by {
        let u = t - old(vertex_data)@.len();
        assert(vertex_data@[t] == cell_vertices(cell_pos, offsets@)[u]);
    }
    assert forall|t: int| old(index_data)@.len() <= t < index_data@.len() implies {
        let corners = #[trigger] index_data@[t];
        &&& first_top_vertex_index <= corners.a < vertex_count
        &&& first_top_vertex_index <= corners.b < vertex_count
        &&& first_top_vertex_index <= corners.c < vertex_count
    } by {
        let fan = top_fan(first_top_vertex_index as int, n as int);
        let u = t - old(index_data)@.len();
        if u < fan.len() {
            assert(index_data@[t] == fan[u]);
        } else {
            let w = u - fan.len();
            assert(index_data@[t] == walls(first_top_vertex_index as int, n as int)[w]);
            assert(0 <= w / 2 < n && 0 <= (w / 2 + 1) % (n as int) < n);
        }
    }
}

/// A cell on the rim of a chunk that is not air is drawn in the mesh of the
/// chunk alone, whatever its neighbours within the chunk are.
pub proof fn lemma_rim_cell_is_drawn(geometry: &Geometry, chunk: &Chunk, pos: CellPos)
    requires
        chunk.wf(),
        chunk.stores(pos),
        chunk@[pos].material != Material::Air,
        on_rim(chunk.origin(), chunk.resolution(), pos),
    ensures
        geometry.region_of(chunk).draws(pos),
{
    lemma_rim_cell_is_never_enclosed(chunk, pos, geometry.spec().root_resolution);
}

/// A cell on the rim of the only chunk of a globe that is not air is drawn
/// in the mesh of the globe: no other chunk is there to show what lies
/// beyond the rim.
pub proof fn lemma_rim_cell_of_lone_chunk_is_drawn(geometry: &Geometry, globe: &Globe, pos: CellPos)
    requires
        globe.wf(),
        globe.chunk_seq().len() == 1,
        globe.chunk_seq()[0].stores(pos),
        globe.chunk_seq()[0]@[pos].material != Material::Air,
        on_rim(globe.chunk_seq()[0].origin(), globe.chunk_seq()[0].resolution(), pos),
    ensures
        drawn(globe@, pos, geometry.spec().root_resolution),
{
    globe.lemma_lone_chunk_shows_itself();
    lemma_rim_cell_is_never_enclosed(&globe.chunk_seq()[0], pos, geometry.spec().root_resolution);
}

/// The mesh of a chunk is decided by the builder, the origin and the cells
/// of the chunk, and what the buffers held: built again from the same, it
/// comes out vertex for vertex and triangle for triangle the same.
pub proof fn lemma_chunk_mesh_is_repeatable(
    geometry: &Geometry,
    chunk: &Chunk,
    again: &Chunk,
    start: Mesh,
    first: Mesh,
    second: Mesh,
)
    requires
        again.origin() == chunk.origin(),
        again@ == chunk@,
        first == geometry.region_of(chunk).appended_to(start),
        second == geometry.region_of(again).appended_to(start),
    ensures
        first == second,
{
}

/// The mesh of a globe is decided by the builder and the chunks of the
/// globe in their order: built again from the same, it comes out vertex for
/// vertex and triangle for triangle the same.
pub proof fn lemma_globe_mesh_is_repeatable(geometry: &Geometry, globe: &Globe, again: &Globe)
    requires
        again.chunk_seq() == globe.chunk_seq(),
    ensures
        geometry.globe_mesh(again) == geometry.globe_mesh(globe),
{
    lemma_same_chunks_same_cells(globe, again);
    lemma_globe_mesh_goes_by_chunks(
        geometry,
        globe,
        again,
        mesh_of(Seq::empty(), Seq::empty()),
        globe.chunk_seq().len(),
    );
}

/// Two globes with the same chunks show the same cells.
proof fn lemma_same_chunks_same_cells(globe: &Globe, again: &Globe)
    requires
        again.chunk_seq() == globe.chunk_seq(),
    ensures
        again@ == globe@,
{
    assert forall|pos: CellPos| #[trigger]
        again@.dom().contains(pos) == globe@.dom().contains(pos) by {
        if globe@.dom().contains(pos) {
            let i = choose|i: int| globe.owner_of(pos, i);
            assert(again.owner_of(pos, i));
        }
        if again@.dom().contains(pos) {
            let i = choose|i: int| again.owner_of(pos, i);
            assert(globe.owner_of(pos, i));
        }
    }
    assert forall|pos: CellPos| globe@.dom().contains(pos) implies #[trigger] again@[pos]
        == globe@[pos] by {
        let i = choose|i: int| globe.owner_of(pos, i);
        assert(again.owner_of(pos, i));
        globe.lemma_owner_decides(pos, i);
        again.lemma_owner_decides(pos, i);
    }
    assert(again@ =~= globe@);
}

/// The meshes of the first `count` chunks of two globes with the same
/// chunks and cells are the same.
proof fn lemma_globe_mesh_goes_by_chunks(
    geometry: &Geometry,
    globe: &Globe,
    again: &Globe,
    start: Mesh,
    count: nat,
)
    requires
        again.chunk_seq() == globe.chunk_seq(),
        again@ == globe@,
    ensures
        geometry.with_chunks(again, start, count) == geometry.with_chunks(globe, start, count),
    decreases count,
{
    if count > 0 {
        lemma_globe_mesh_goes_by_chunks(geometry, globe, again, start, (count - 1) as nat);
    }
}

/// The cell at `pos` as the cell data at hand has it.
fn lookup(chunk: &Chunk, globe: Option<&Globe>, pos: CellPos) -> (r: Result<Cell, OutOfRange>)
    ensures
        r.is_ok() == cells_known(chunk, globe).dom().contains(pos),
        r.is_ok() ==> r.unwrap() == cells_known(chunk, globe)[pos],
{
    match globe {
        Some(globe) => globe.cell(pos),
        None => chunk.cell(pos),
    }
}

/// Whether the cell data at hand shows a neighbour at `neighbor` that is
/// not air.
fn blocks(chunk: &Chunk, globe: Option<&Globe>, neighbor: Option<CellPos>) -> (b: bool)
    ensures
        b == known_to_block(cells_known(chunk, globe), neighbor),
{
    match neighbor {
        Some(pos) => match lookup(chunk, globe, pos) {
            Ok(cell) => cell.material != Material::Air,
            Err(_) => false,
        },
        None => false,
    }
}

} // verus!
