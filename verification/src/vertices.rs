//! Vertices of a two-dimensional mesh.

use vstd::prelude::*;

verus! {

/// A vertex of a 2d mesh: a point of type `P` with a tag.
///
/// The library never looks inside the point; it only stores it and hands it back.
pub struct Vertex2d<P> {
    /// Associated point.
    pub point: P,
    /// Associated tag.
    pub tag: usize,
}

} // verus!
