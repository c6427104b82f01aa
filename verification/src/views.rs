//! Views on mesh elements: an element seen as the points that it joins.
//!
//! The points are of a type `P` that the library never looks into.

use vstd::prelude::*;
use crate::elements::EdgeInTri;

verus! {

/// Structure for defining a 2d edge view.
pub struct EdgeView2d<'a, P> {
    /// Reference to first point in the edge.
    pub p0: &'a P,
    /// Reference to second point in the edge.
    pub p1: &'a P,
}

/// Structure for defining a 2d tri view.
pub struct TriView2d<'a, P> {
    /// Reference to first vertex of the triangle.
    pub p0: &'a P,
    /// Reference to second vertex of the triangle.
    pub p1: &'a P,
    /// Reference to third vertex of the triangle.
    pub p2: &'a P,
}

/// Structure for defining a 3d edge view.
pub struct EdgeView3d<'a, P> {
    /// Reference to vertices of the edge.
    pub points: [&'a P; 2],
}

/// Structure for defining a 3d tri view.
pub struct TriView3d<'a, P> {
    /// Reference to vertices of the triangle.
    pub points: [&'a P; 3],
}

/// Structure for defining a 3d quad view.
pub struct QuadView3d<'a, P> {
    /// Reference to vertices of the quadrangle.
    pub points: [&'a P; 4],
}

/// Structure for defining a tetrahedron view.
pub struct TetView3d<'a, P> {
    /// Reference to vertices of the tetrahedron.
    pub points: [&'a P; 4],
}

/// Structure for defining a hexahedron view.
pub struct HexaView3d<'a, P> {
    /// Reference to vertices of the hexahedron.
    pub points: [&'a P; 8],
}

impl EdgeInTri {
    /// Slots of the corners that the edge runs from and to.
    pub open spec fn corners(self) -> (int, int) {
        match self {
            EdgeInTri::Edge01 => (0, 1),
            EdgeInTri::Edge12 => (1, 2),
            EdgeInTri::Edge20 => (2, 0),
        }
    }
}

impl<'a, P> TriView3d<'a, P> {
    /// Accesses the view to a local edge in a triangle.
    ///
    /// * `edge_name` - Local name of the edge in the triangle.
    pub fn get_edge_view<'b>(&'b self, edge_name: EdgeInTri) -> (edge: EdgeView3d<'a, P>)
        ensures
            edge.points[0] == self.points[edge_name.corners().0],
            edge.points[1] == self.points[edge_name.corners().1],
    {
        match edge_name {
            EdgeInTri::Edge01 => EdgeView3d { points: [self.points[0], self.points[1]] },
            EdgeInTri::Edge12 => EdgeView3d { points: [self.points[1], self.points[2]] },
            EdgeInTri::Edge20 => EdgeView3d { points: [self.points[2], self.points[0]] },
        }
    }
}

} // verus!
