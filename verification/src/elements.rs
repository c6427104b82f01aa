//! Mesh elements: tuples of indices into a shared pool of vertices.

use vstd::prelude::*;

verus! {

/// Edge as a mesh element.
pub struct Edge {
    /// Indices of the two end points in the mesh, in stored order.
    pub indexes: [usize; 2],
}

/// Triangle as a mesh element.
///
/// Local numbering order of a triangle is:
///
/// ```text
/// v2
///   *
///   |`\
///   |  `\
///   |    `\
///   |      `\
///   |        `\
///   *----------*
/// v0             v1
/// ```
pub struct Tri {
    /// Indices of the three corners in the mesh, in local order.
    pub indexes: [usize; 3],
}

/// Quadrangle as a mesh element.
///
/// ```text
/// v3                v2
///    * ---------- *
///    |            |
///    |            |
///    |            |
///    |            |
///    * ---------- *
/// v0                v1
/// ```
pub struct Quad {
    /// Indices of the four corners in the mesh, in local order.
    pub indexes: [usize; 4],
}

/// Tetrahedron as a mesh element.
pub struct Tet {
    /// Indices of the four corners in the mesh, in local order.
    pub indexes: [usize; 4],
}

/// Hexahedron as a mesh element.
pub struct Hexa {
    /// Indices of the eight corners in the mesh, in local order.
    pub indexes: [usize; 8],
}

/// Edges and triangles of a mesh, as flat arrays of elements.
pub struct MeshElements {
    /// Edges, each a pair of vertex indices.
    pub edges: Vec<Edge>,
    /// Triangles, each a triple of vertex indices.
    pub tris: Vec<Tri>,
}

/// Local ordering and naming of the edges of a triangle.
#[derive(Clone, Copy, Debug, PartialEq, Eq, Structural)]
pub enum EdgeInTri {
    /// Edge connecting point v0 to v1.
    Edge01,
    /// Edge connecting point v1 to v2.
    Edge12,
    /// Edge connecting point v2 to v0.
    Edge20,
}

/// Local ordering and naming of the edges of a quadrangle.
#[derive(Clone, Copy, Debug, PartialEq, Eq, Structural)]
pub enum EdgeInQuad {
    /// Edge connecting point v0 to v1.
    Edge01,
    /// Edge connecting point v1 to v2.
    Edge12,
    /// Edge connecting point v2 to v3.
    Edge23,
    /// Edge connecting point v3 to v0.
    Edge30,
}

/// Local ordering and naming of the triangles of a quadrangle.
#[derive(Clone, Copy, Debug, PartialEq, Eq, Structural)]
pub enum TriInQuad {
    /// Triangle connecting points (v0, v1, v3).
    Tri013,
    /// Triangle connecting points (v1, v2, v3).
    Tri123,
}

impl Edge {
    /// Creates the edge joining the two given vertices.
    pub fn new(indexes: [usize; 2]) -> (edge: Edge)
        ensures
            edge.indexes == indexes,
    {
        Edge { indexes }
    }

    /// Whether both end points are below `nvertices`.
    pub open spec fn within(self, nvertices: nat) -> bool {
        forall|k: int| 0 <= k < 2 ==> (#[trigger] self.indexes[k]) < nvertices
    }

    /// Number of end points of the edge that are vertex `v`.
    pub open spec fn occurrences(self, v: int) -> nat {
        (if self.indexes[0] == v {
            1nat
        } else {
            0nat
        }) + (if self.indexes[1] == v {
            1nat
        } else {
            0nat
        })
    }
}

impl Tri {
    /// Creates the triangle with the three given corners.
    pub fn new(indexes: [usize; 3]) -> (tri: Tri)
        ensures
            tri.indexes == indexes,
    {
        Tri { indexes }
    }

    /// Whether all three corners are below `nvertices`.
    pub open spec fn within(self, nvertices: nat) -> bool {
        forall|k: int| 0 <= k < 3 ==> (#[trigger] self.indexes[k]) < nvertices
    }

    /// Number of corners of the triangle that are vertex `v`.
    pub open spec fn occurrences(self, v: int) -> nat {
        (if self.indexes[0] == v {
            1nat
        } else {
            0nat
        }) + (if self.indexes[1] == v {
            1nat
        } else {
            0nat
        }) + (if self.indexes[2] == v {
            1nat
        } else {
            0nat
        })
    }

    /// Whether the three corners are three different vertices.
    pub open spec fn is_proper(self) -> bool {
        &&& self.indexes[0] != self.indexes[1]
        &&& self.indexes[1] != self.indexes[2]
        &&& self.indexes[2] != self.indexes[0]
    }

    /// Whether every corner of `other` is a corner of this triangle.
    pub open spec fn same_corners(self, other: Tri) -> bool {
        forall|k: int| 0 <= k < 3 ==> self.occurrences(#[trigger] other.indexes[k] as int) > 0
    }
}

impl Quad {
    /// Creates the quadrangle with the four given corners.
    pub fn new(indexes: [usize; 4]) -> (quad: Quad)
        ensures
            quad.indexes == indexes,
    {
        Quad { indexes }
    }

    /// Whether all four corners are below `nvertices`.
    pub open spec fn within(self, nvertices: nat) -> bool {
        forall|k: int| 0 <= k < 4 ==> (#[trigger] self.indexes[k]) < nvertices
    }
}

impl Tet {
    /// Creates the tetrahedron with the four given corners.
    pub fn new(indexes: [usize; 4]) -> (tet: Tet)
        ensures
            tet.indexes == indexes,
    {
        Tet { indexes }
    }

    /// Whether all four corners are below `nvertices`.
    pub open spec fn within(self, nvertices: nat) -> bool {
        forall|k: int| 0 <= k < 4 ==> (#[trigger] self.indexes[k]) < nvertices
    }
}

impl Hexa {
    /// Creates the hexahedron with the eight given corners.
    pub fn new(indexes: [usize; 8]) -> (hexa: Hexa)
        ensures
            hexa.indexes == indexes,
    {
        Hexa { indexes }
    }

    /// Whether all eight corners are below `nvertices`.
    pub open spec fn within(self, nvertices: nat) -> bool {
        forall|k: int| 0 <= k < 8 ==> (#[trigger] self.indexes[k]) < nvertices
    }
}

impl MeshElements {
    /// Whether every vertex index held by an edge or a triangle is below `nvertices`.
    pub open spec fn within(self, nvertices: nat) -> bool {
        &&& forall|i: int|
            0 <= i < self.edges@.len() ==> (#[trigger] self.edges@[i]).within(nvertices)
        &&& forall|j: int|
            0 <= j < self.tris@.len() ==> (#[trigger] self.tris@[j]).within(nvertices)
    }

    /// Tells whether every vertex index held by an edge or a triangle is below `nvertices`,
    /// that is, whether the elements fit a mesh of `nvertices` vertices.
    pub fn is_within(&self, nvertices: usize) -> (fits: bool)
        ensures
            fits == self.within(nvertices as nat),
    {
        let mut i: usize = 0;
        while i < self.edges.len()
            invariant
                i <= self.edges@.len(),
                forall|k: int| 0 <= k < i ==> (#[trigger] self.edges@[k]).within(nvertices as nat),
            decreases self.edges@.len() - i,
        {
            let e = &self.edges[i];
            if e.indexes[0] >= nvertices || e.indexes[1] >= nvertices {
                assert(!self.edges@[i as int].within(nvertices as nat));
                return false;
            }
            i += 1;
        }
        let mut j: usize = 0;
        while j < self.tris.len()
            invariant
                j <= self.tris@.len(),
                forall|k: int|
                    0 <= k < self.edges@.len() ==> (#[trigger] self.edges@[k]).within(
                        nvertices as nat,
                    ),
                forall|k: int| 0 <= k < j ==> (#[trigger] self.tris@[k]).within(nvertices as nat),
            decreases self.tris@.len() - j,
        {
            let t = &self.tris[j];
            if t.indexes[0] >= nvertices || t.indexes[1] >= nvertices || t.indexes[2] >= nvertices {
                assert(!self.tris@[j as int].within(nvertices as nat));
                return false;
            }
            j += 1;
        }
        true
    }
}

} // verus!
