//! Mesh indices shared by the loaders and the slicer.
use vstd::prelude::*;

verus! {

/// A triangle that holds the indices of its 3 points in a list of vertices.
#[derive(Default, Clone, Copy, Debug, PartialEq)]
pub struct IndexedTriangle {
    /// The indices of the 3 vertices
    pub verts: [usize; 3],
}

/// A line that holds the indices of its 2 points in a list of vertices.
#[derive(Default, Clone, Copy, Debug, PartialEq)]
pub struct IndexedLine {
    /// The indices of the 2 vertices
    pub verts: [usize; 2],
}

} // verus!
