use vstd::prelude::*;
use super::cell_pos::IntCoord;

verus! {

/// The resolution of one globe, fixed when the globe is made.
///
/// `root_resolution` is the number of cell steps along the two axes of a
/// root face, so a face holds the cells `0..=root_resolution[0]` by
/// `0..=root_resolution[1]`. `chunk_resolution` is the number of cells that
/// a chunk owns along x, y and z.
#[derive(Clone, Copy, Debug, PartialEq, Eq, Hash)]
pub struct Spec {
    pub root_resolution: [IntCoord; 2],
    pub chunk_resolution: [IntCoord; 3],
}

impl Spec {
    /// The resolution with the given numbers of cell steps.
    pub fn new(root_resolution: [IntCoord; 2], chunk_resolution: [IntCoord; 3]) -> (spec: Spec)
        ensures
            spec.root_resolution == root_resolution,
            spec.chunk_resolution == chunk_resolution,
    {
        Spec { root_resolution, chunk_resolution }
    }
}

} // verus!
