//! Connection records: which slot of a neighbouring element an element is attached to.

use vstd::prelude::*;
use vstd::pervasive::unreached;
use crate::elements::{Edge, Tri};

verus! {

/// Label of a vertex within an element: its slot in the element's tuple of indices.
///
/// An edge has the slots `V0` and `V1`; a triangle has all three.
#[derive(Copy, Clone, Debug, PartialEq, Eq, Structural)]
pub enum VertexLabel {
    /// First point label.
    V0,
    /// Second point label.
    V1,
    /// Third point label.
    V2,
}

/// Label of an edge within a triangle.
///
/// The edges of a triangle `(v0, v1, v2)` are, in their canonical direction,
/// `E0 = (v0, v1)`, `E1 = (v1, v2)` and `E2 = (v2, v0)`.
#[derive(Copy, Clone, Debug, PartialEq, Eq, Structural)]
pub enum EdgeLabel {
    /// First edge label.
    E0,
    /// Second edge label.
    E1,
    /// Third edge label.
    E2,
}

/// Position of an edge within a triangle.
#[derive(Copy, Clone, Debug, PartialEq, Eq, Structural)]
pub struct EdgePosition {
    /// Label of the edge within the triangle.
    pub label: EdgeLabel,
    /// True if the edge's stored order opposes the canonical direction of that slot.
    pub is_reversed: bool,
}

/// Connection of a vertex with an edge: the vertex is slot `connecting_vertex` of edge
/// `edge_index`.
#[derive(Copy, Clone, Debug, PartialEq, Eq, Structural)]
pub struct VertexToEdge {
    /// Index of the edge.
    pub edge_index: usize,
    /// Position of the vertex in the edge.
    pub connecting_vertex: VertexLabel,
}

/// Connection of a vertex with a triangle: the vertex is slot `connecting_vertex` of
/// triangle `tri_index`.
#[derive(Copy, Clone, Debug, PartialEq, Eq, Structural)]
pub struct VertexToTri {
    /// Index of the triangle.
    pub tri_index: usize,
    /// Position of the vertex in the triangle.
    pub connecting_vertex: VertexLabel,
}

/// Connection of an edge with an edge: the end point `connecting_vertex` of this edge
/// coincides with the end point `neighbour.connecting_vertex` of edge `neighbour.edge_index`.
#[derive(Copy, Clone, Debug, PartialEq, Eq, Structural)]
pub struct EdgeToEdge {
    /// Position of the connecting vertex in the edge.
    pub connecting_vertex: VertexLabel,
    /// Connection with the neighbouring edge.
    pub neighbour: VertexToEdge,
}

/// Connection of an edge with a triangle: the edge is edge `connecting_edge.label` of
/// triangle `tri_index`, possibly reversed.
#[derive(Copy, Clone, Debug, PartialEq, Eq, Structural)]
pub struct EdgeToTri {
    /// Index of the triangle.
    pub tri_index: usize,
    /// Position of the edge in the triangle.
    pub connecting_edge: EdgePosition,
}

/// Connection of a triangle with a triangle: edge `connecting_edge` of this triangle is
/// shared with triangle `neighbour.tri_index`, where it stands at `neighbour.connecting_edge`.
#[derive(Copy, Clone, Debug, PartialEq, Eq, Structural)]
pub struct TriToTri {
    /// Position of the connecting edge in the triangle.
    pub connecting_edge: EdgeLabel,
    /// Connection with the neighbouring triangle.
    pub neighbour: EdgeToTri,
}

impl VertexLabel {
    /// The slot as a number: 0, 1 or 2.
    pub open spec fn index(self) -> nat {
        match self {
            VertexLabel::V0 => 0,
            VertexLabel::V1 => 1,
            VertexLabel::V2 => 2,
        }
    }

    /// The label of slot `i`, where there is one.
    pub open spec fn of_index(i: nat) -> Option<VertexLabel> {
        if i == 0 {
            Some(VertexLabel::V0)
        } else if i == 1 {
            Some(VertexLabel::V1)
        } else if i == 2 {
            Some(VertexLabel::V2)
        } else {
            None
        }
    }

    /// Whether the label names an end point of an edge, which has no third vertex.
    pub open spec fn in_edge(self) -> bool {
        self != VertexLabel::V2
    }

    /// The slot as a number.
    pub fn to_index(self) -> (i: usize)
        ensures
            i == self.index(),
    {
        match self {
            VertexLabel::V0 => 0,
            VertexLabel::V1 => 1,
            VertexLabel::V2 => 2,
        }
    }

    /// The label of slot `i`, or `None` if `i` is above 2.
    pub fn try_from_index(i: usize) -> (label: Option<VertexLabel>)
        ensures
            label == VertexLabel::of_index(i as nat),
    {
        if i == 0 {
            Some(VertexLabel::V0)
        } else if i == 1 {
            Some(VertexLabel::V1)
        } else if i == 2 {
            Some(VertexLabel::V2)
        } else {
            None
        }
    }
}

impl EdgeLabel {
    /// The slot as a number: 0, 1 or 2.
    pub open spec fn index(self) -> nat {
        match self {
            EdgeLabel::E0 => 0,
            EdgeLabel::E1 => 1,
            EdgeLabel::E2 => 2,
        }
    }

    /// The label of slot `i`, where there is one.
    pub open spec fn of_index(i: nat) -> Option<EdgeLabel> {
        if i == 0 {
            Some(EdgeLabel::E0)
        } else if i == 1 {
            Some(EdgeLabel::E1)
        } else if i == 2 {
            Some(EdgeLabel::E2)
        } else {
            None
        }
    }

    /// The slot as a number.
    pub fn to_index(self) -> (i: usize)
        ensures
            i == self.index(),
    {
        match self {
            EdgeLabel::E0 => 0,
            EdgeLabel::E1 => 1,
            EdgeLabel::E2 => 2,
        }
    }

    /// The label of slot `i`, or `None` if `i` is above 2.
    pub fn try_from_index(i: usize) -> (label: Option<EdgeLabel>)
        ensures
            label == EdgeLabel::of_index(i as nat),
    {
        if i == 0 {
            Some(EdgeLabel::E0)
        } else if i == 1 {
            Some(EdgeLabel::E1)
        } else if i == 2 {
            Some(EdgeLabel::E2)
        } else {
            None
        }
    }
}

/// Converting a label to its slot and back gives the label again, and a slot that has a
/// label is the slot of that label.
pub proof fn lemma_label_index_round_trip(v: VertexLabel, e: EdgeLabel, i: nat)
    ensures
        VertexLabel::of_index(v.index()) == Some(v),
        EdgeLabel::of_index(e.index()) == Some(e),
        VertexLabel::of_index(i) is Some <==> i <= 2,
        EdgeLabel::of_index(i) is Some <==> i <= 2,
        VertexLabel::of_index(i) matches Some(l) ==> l.index() == i,
        EdgeLabel::of_index(i) matches Some(l) ==> l.index() == i,
{
}

impl Edge {
    /// The vertex that stands at slot `label` of the edge.
    pub open spec fn vertex(self, label: VertexLabel) -> usize
        recommends
            label.in_edge(),
    {
        match label {
            VertexLabel::V0 => self.indexes[0],
            _ => self.indexes[1],
        }
    }
}

impl Tri {
    /// The vertex that stands at slot `label` of the triangle.
    pub open spec fn vertex(self, label: VertexLabel) -> usize {
        match label {
            VertexLabel::V0 => self.indexes[0],
            VertexLabel::V1 => self.indexes[1],
            VertexLabel::V2 => self.indexes[2],
        }
    }

    /// Tail and head of the canonical edge `label`: `(v0, v1)`, `(v1, v2)` or `(v2, v0)`.
    pub open spec fn canonical_ends(self, label: EdgeLabel) -> (usize, usize) {
        match label {
            EdgeLabel::E0 => (self.indexes[0], self.indexes[1]),
            EdgeLabel::E1 => (self.indexes[1], self.indexes[2]),
            EdgeLabel::E2 => (self.indexes[2], self.indexes[0]),
        }
    }

    /// The canonical edge `label` of the triangle as an edge of its own.
    pub open spec fn canonical_edge(self, label: EdgeLabel) -> Edge {
        Edge { indexes: [self.canonical_ends(label).0, self.canonical_ends(label).1] }
    }
}

impl EdgePosition {
    /// Whether edge `e` lies at this position in triangle `t`: its two end points are those
    /// of the canonical edge `self.label`, in the same order, or swapped if `is_reversed`.
    pub open spec fn locates(self, e: Edge, t: Tri) -> bool {
        let (tail, head) = t.canonical_ends(self.label);
        if self.is_reversed {
            e.indexes[0] == head && e.indexes[1] == tail
        } else {
            e.indexes[0] == tail && e.indexes[1] == head
        }
    }

    /// Order in which positions are tried: by label, and for one label the forward
    /// orientation before the reversed one.
    pub open spec fn rank(self) -> nat {
        2 * self.label.index() + if self.is_reversed { 1nat } else { 0nat }
    }
}

/// Position of edge `e` in triangle `t`: the first position, in the order of
/// [`EdgePosition::rank`], at which the edge lies, or `None` if it lies at none.
pub open spec fn edge_position(e: Edge, t: Tri) -> Option<EdgePosition> {
    let at = |label: EdgeLabel, is_reversed: bool| EdgePosition { label, is_reversed };
    if at(EdgeLabel::E0, false).locates(e, t) {
        Some(at(EdgeLabel::E0, false))
    } else if at(EdgeLabel::E0, true).locates(e, t) {
        Some(at(EdgeLabel::E0, true))
    } else if at(EdgeLabel::E1, false).locates(e, t) {
        Some(at(EdgeLabel::E1, false))
    } else if at(EdgeLabel::E1, true).locates(e, t) {
        Some(at(EdgeLabel::E1, true))
    } else if at(EdgeLabel::E2, false).locates(e, t) {
        Some(at(EdgeLabel::E2, false))
    } else if at(EdgeLabel::E2, true).locates(e, t) {
        Some(at(EdgeLabel::E2, true))
    } else {
        None
    }
}

/// Edge shared by triangles `t0` and `t1`: the first canonical edge of `t0`, in label order,
/// that has a position in `t1`, with that position; `None` if no edge of `t0` lies in `t1`.
pub open spec fn common_edge(t0: Tri, t1: Tri) -> Option<(EdgeLabel, EdgePosition)> {
    if let Some(p) = edge_position(t0.canonical_edge(EdgeLabel::E0), t1) {
        Some((EdgeLabel::E0, p))
    } else if let Some(p) = edge_position(t0.canonical_edge(EdgeLabel::E1), t1) {
        Some((EdgeLabel::E1, p))
    } else if let Some(p) = edge_position(t0.canonical_edge(EdgeLabel::E2), t1) {
        Some((EdgeLabel::E2, p))
    } else {
        None
    }
}

/// Whether two ordered pairs of vertices hold the same two vertices, in either order.
pub open spec fn same_ends(a: (usize, usize), b: (usize, usize)) -> bool {
    (a.0 == b.0 && a.1 == b.1) || (a.0 == b.1 && a.1 == b.0)
}

impl VertexToEdge {
    /// Creates a new vertex to edge connection.
    ///
    /// * `edge_index` - Index of the edge in the mesh the vertex is connected to.
    /// * `position` - Position of the vertex in the edge: 0 or 1.
    pub fn new(edge_index: usize, position: usize) -> (c: VertexToEdge)
        requires
            position <= 1,
        ensures
            c.edge_index == edge_index,
            c.connecting_vertex.index() == position,
    {
        match position {
            0 => VertexToEdge { edge_index, connecting_vertex: VertexLabel::V0 },
            1 => VertexToEdge { edge_index, connecting_vertex: VertexLabel::V1 },
            _ => unreached(),
        }
    }
}

impl VertexToTri {
    /// Creates a new vertex to triangle connection.
    ///
    /// * `tri_index` - Index of the triangle in the mesh the vertex is connected to.
    /// * `position` - Position of the vertex in the triangle: 0, 1 or 2.
    pub fn new(tri_index: usize, position: usize) -> (c: VertexToTri)
        requires
            position <= 2,
        ensures
            c.tri_index == tri_index,
            c.connecting_vertex.index() == position,
    {
        match position {
            0 => VertexToTri { tri_index, connecting_vertex: VertexLabel::V0 },
            1 => VertexToTri { tri_index, connecting_vertex: VertexLabel::V1 },
            2 => VertexToTri { tri_index, connecting_vertex: VertexLabel::V2 },
            _ => unreached(),
        }
    }
}

impl EdgeToEdge {
    /// Creates a new edge to edge connection.
    ///
    /// * `position` - Position of the connecting vertex in the current edge: 0 or 1.
    /// * `neighbour` - A vertex to edge connection yielding neighbouring edge information.
    pub fn new(position: usize, neighbour: VertexToEdge) -> (c: EdgeToEdge)
        requires
            position <= 1,
        ensures
            c.connecting_vertex.index() == position,
            c.neighbour == neighbour,
    {
        match position {
            0 => EdgeToEdge { connecting_vertex: VertexLabel::V0, neighbour },
            1 => EdgeToEdge { connecting_vertex: VertexLabel::V1, neighbour },
            _ => unreached(),
        }
    }
}

impl EdgeToTri {
    /// Creates a new edge to triangle connection.
    ///
    /// * `tri_index` - Index of the triangle in the mesh the edge is connected to.
    /// * `position` - Position of the edge in the triangle: 0, 1 or 2.
    /// * `is_reversed` - True if the edge is reversed in the triangle.
    pub fn new(tri_index: usize, position: usize, is_reversed: bool) -> (c: EdgeToTri)
        requires
            position <= 2,
        ensures
            c.tri_index == tri_index,
            c.connecting_edge.label.index() == position,
            c.connecting_edge.is_reversed == is_reversed,
    {
        let label = match position {
            0 => EdgeLabel::E0,
            1 => EdgeLabel::E1,
            2 => EdgeLabel::E2,
            _ => unreached(),
        };
        EdgeToTri { tri_index, connecting_edge: EdgePosition { label, is_reversed } }
    }

    /// Extracts the position of an edge in a triangle. The result is `None` where the edge
    /// is none of the triangle's three edges; sharing a single vertex does not count.
    pub fn get_edge_position(e: &Edge, t: &Tri) -> (position: Option<EdgePosition>)
        ensures
            position == edge_position(*e, *t),
    {
        // first face.
        if (e.indexes[0] == t.indexes[0]) && (e.indexes[1] == t.indexes[1]) {
            return Some(EdgePosition { label: EdgeLabel::E0, is_reversed: false });
        }
        if (e.indexes[1] == t.indexes[0]) && (e.indexes[0] == t.indexes[1]) {
            return Some(EdgePosition { label: EdgeLabel::E0, is_reversed: true });
        }
        // second face.
        if (e.indexes[0] == t.indexes[1]) && (e.indexes[1] == t.indexes[2]) {
            return Some(EdgePosition { label: EdgeLabel::E1, is_reversed: false });
        }
        if (e.indexes[1] == t.indexes[1]) && (e.indexes[0] == t.indexes[2]) {
            return Some(EdgePosition { label: EdgeLabel::E1, is_reversed: true });
        }
        // third face.
        if (e.indexes[0] == t.indexes[2]) && (e.indexes[1] == t.indexes[0]) {
            return Some(EdgePosition { label: EdgeLabel::E2, is_reversed: false });
        }
        if (e.indexes[1] == t.indexes[2]) && (e.indexes[0] == t.indexes[0]) {
            return Some(EdgePosition { label: EdgeLabel::E2, is_reversed: true });
        }
        None
    }
}

impl TriToTri {
    /// Creates a new triangle to triangle connection.
    ///
    /// * `position` - Position of the connecting edge in the current triangle: 0, 1 or 2.
    /// * `neighbour` - An edge to triangle connection representing the neighbouring triangle.
    pub fn new(position: usize, neighbour: EdgeToTri) -> (c: TriToTri)
        requires
            position <= 2,
        ensures
            c.connecting_edge.index() == position,
            c.neighbour == neighbour,
    {
        match position {
            0 => TriToTri { connecting_edge: EdgeLabel::E0, neighbour },
            1 => TriToTri { connecting_edge: EdgeLabel::E1, neighbour },
            2 => TriToTri { connecting_edge: EdgeLabel::E2, neighbour },
            _ => unreached(),
        }
    }

    /// Extracts the common edge of two triangles. The result is `None` where no edge of
    /// `t0` is an edge of `t1`.
    ///
    /// * `t0` - The label in the result is that of the common edge in `t0`.
    /// * `t1` - The position in the result is that of the common edge in `t1`, reversed
    ///   where `t1` runs along it against the direction of `t0`.
    pub fn get_common_edge(t0: &Tri, t1: &Tri) -> (common: Option<(EdgeLabel, EdgePosition)>)
        ensures
            common == common_edge(*t0, *t1),
    {
        // first edge of tri.
        let e01 = Edge { indexes: [t0.indexes[0], t0.indexes[1]] };
        assert(e01 == t0.canonical_edge(EdgeLabel::E0));
        if let Some(position) = EdgeToTri::get_edge_position(&e01, t1) {
            return Some((EdgeLabel::E0, position));
        }
        // second edge of tri.
        let e12 = Edge { indexes: [t0.indexes[1], t0.indexes[2]] };
        assert(e12 == t0.canonical_edge(EdgeLabel::E1));
        if let Some(position) = EdgeToTri::get_edge_position(&e12, t1) {
            return Some((EdgeLabel::E1, position));
        }
        // third edge of tri.
        let e20 = Edge { indexes: [t0.indexes[2], t0.indexes[0]] };
        assert(e20 == t0.canonical_edge(EdgeLabel::E2));
        if let Some(position) = EdgeToTri::get_edge_position(&e20, t1) {
            return Some((EdgeLabel::E2, position));
        }
        None
    }
}

/// The position of an edge in a triangle is the first at which it lies: the edge lies
/// there and at no position of lower rank, and it has no position only if it lies nowhere.
pub proof fn lemma_edge_position_first_match(e: Edge, t: Tri)
    ensures
        edge_position(e, t) matches Some(p) ==> p.locates(e, t) && forall|q: EdgePosition|
            q.locates(e, t) ==> p.rank() <= #[trigger] q.rank(),
        edge_position(e, t) is None <==> forall|q: EdgePosition| !#[trigger] q.locates(e, t),
{
    assert forall|q: EdgePosition| #[trigger] q.locates(e, t) implies edge_position(e, t) is Some
        && edge_position(e, t)->0.rank() <= q.rank() by {
        lemma_position_by_rank(q);
    }
}

/// A position is given by its label and its orientation.
proof fn lemma_position_by_rank(q: EdgePosition)
    ensures
        q == (EdgePosition { label: q.label, is_reversed: q.is_reversed }),
        q.rank() < 6,
        q.label == EdgeLabel::E0 || q.label == EdgeLabel::E1 || q.label == EdgeLabel::E2,
{
}

/// How an edge between two corners of a triangle lies in it. In a triangle `(v0, v1, v2)`
/// of three different vertices, the edge `(v0, v1)` is its first edge as it stands, the
/// edge `(v1, v0)` is its first edge reversed, and the edge `(v0, v2)` is its third edge
/// reversed, since that edge runs from `v2` to `v0`.
pub proof fn lemma_edge_orientations(v0: usize, v1: usize, v2: usize)
    requires
        v0 != v1,
        v1 != v2,
        v2 != v0,
    ensures
        edge_position(Edge { indexes: [v0, v1] }, Tri { indexes: [v0, v1, v2] }) == Some(
            EdgePosition { label: EdgeLabel::E0, is_reversed: false },
        ),
        edge_position(Edge { indexes: [v1, v0] }, Tri { indexes: [v0, v1, v2] }) == Some(
            EdgePosition { label: EdgeLabel::E0, is_reversed: true },
        ),
        edge_position(Edge { indexes: [v0, v2] }, Tri { indexes: [v0, v1, v2] }) == Some(
            EdgePosition { label: EdgeLabel::E2, is_reversed: true },
        ),
{
}

/// The common edge of two triangles is the first edge of the first triangle that has a
/// position in the second: no edge of lower label has one, and there is no common edge
/// only if no edge of the first triangle has a position in the second.
pub proof fn lemma_common_edge_first_match(t0: Tri, t1: Tri)
    ensures
        common_edge(t0, t1) matches Some((label, p)) ==> edge_position(
            t0.canonical_edge(label),
            t1,
        ) == Some(p) && forall|l: EdgeLabel|
            l.index() < label.index() ==> edge_position(#[trigger] t0.canonical_edge(l), t1)
                is None,
        common_edge(t0, t1) is None <==> forall|l: EdgeLabel|
            edge_position(#[trigger] t0.canonical_edge(l), t1) is None,
{
    assert forall|l: EdgeLabel|
        edge_position(#[trigger] t0.canonical_edge(l), t1) is Some implies (common_edge(t0, t1)
        matches Some((label, _)) && label.index() <= l.index()) by {
        assert(l == EdgeLabel::E0 || l == EdgeLabel::E1 || l == EdgeLabel::E2);
    }
}

/// Two triangles have an edge in common whichever of them is asked: where an edge of the
/// first has a position in the second, an edge of the second has one in the first.
pub proof fn lemma_common_edge_mutual(t0: Tri, t1: Tri)
    ensures
        common_edge(t0, t1) is Some <==> common_edge(t1, t0) is Some,
{
    lemma_common_edge_exists(t0, t1);
    lemma_common_edge_exists(t1, t0);
}

/// Two triangles have a common edge exactly if two corners that follow each other in one of
/// them are two corners that follow each other in the other, in either order.
pub proof fn lemma_common_edge_exists(t0: Tri, t1: Tri)
    ensures
        common_edge(t0, t1) is Some <==> exists|l0: EdgeLabel, l1: EdgeLabel|
            same_ends(#[trigger] t0.canonical_ends(l0), #[trigger] t1.canonical_ends(l1)),
{
    if common_edge(t0, t1) is Some {
        let (l0, p) = common_edge(t0, t1)->0;
        lemma_common_edge_first_match(t0, t1);
        lemma_edge_position_first_match(t0.canonical_edge(l0), t1);
        assert(same_ends(t0.canonical_ends(l0), t1.canonical_ends(p.label)));
    }
    if exists|l0: EdgeLabel, l1: EdgeLabel|
        same_ends(#[trigger] t0.canonical_ends(l0), #[trigger] t1.canonical_ends(l1)) {
        let (l0, l1) = choose|l0: EdgeLabel, l1: EdgeLabel|
            same_ends(#[trigger] t0.canonical_ends(l0), #[trigger] t1.canonical_ends(l1));
        let e = t0.canonical_edge(l0);
        let forward = EdgePosition { label: l1, is_reversed: false };
        let reversed = EdgePosition { label: l1, is_reversed: true };
        assert(forward.locates(e, t1) || reversed.locates(e, t1));
        lemma_edge_position_first_match(e, t1);
        lemma_common_edge_first_match(t0, t1);
    }
}

/// In a triangle with three different corners an edge lies at one position at most, which
/// is then its position.
pub proof fn lemma_edge_position_unique(e: Edge, t: Tri, p: EdgePosition, q: EdgePosition)
    requires
        t.is_proper(),
        p.locates(e, t),
        q.locates(e, t),
    ensures
        p == q,
        edge_position(e, t) == Some(p),
{
    lemma_position_by_rank(p);
    lemma_position_by_rank(q);
    lemma_edge_position_first_match(e, t);
}

/// Two triangles with three different corners each, which are not the same three corners,
/// have one edge in common at most: if two edges of the first have a position in the second,
/// they are the same edge.
pub proof fn lemma_common_edge_unique(t0: Tri, t1: Tri, l: EdgeLabel, m: EdgeLabel)
    requires
        t0.is_proper(),
        t1.is_proper(),
        !t0.same_corners(t1),
        edge_position(t0.canonical_edge(l), t1) is Some,
        edge_position(t0.canonical_edge(m), t1) is Some,
    ensures
        l == m,
{
    lemma_edge_position_first_match(t0.canonical_edge(l), t1);
    lemma_edge_position_first_match(t0.canonical_edge(m), t1);
}

/// The common edge of two triangles is seen alike from both. For two triangles with three
/// different corners each, which are not the same three corners: if edge `l0` of the first
/// stands at label `l1` of the second, then edge `l1` of the second stands at label `l0` of
/// the first, and it is reversed in the one exactly if it is reversed in the other.
pub proof fn lemma_common_edge_mirrored(t0: Tri, t1: Tri)
    requires
        t0.is_proper(),
        t1.is_proper(),
        !t0.same_corners(t1),
    ensures
        common_edge(t0, t1) matches Some((l0, p)) ==> common_edge(t1, t0) == Some(
            (p.label, EdgePosition { label: l0, is_reversed: p.is_reversed }),
        ),
{
    if let Some((l0, p)) = common_edge(t0, t1) {
        let back = EdgePosition { label: l0, is_reversed: p.is_reversed };
        lemma_common_edge_first_match(t0, t1);
        lemma_edge_position_first_match(t0.canonical_edge(l0), t1);
        assert(back.locates(t1.canonical_edge(p.label), t0));
        lemma_edge_position_unique(t1.canonical_edge(p.label), t0, back, back);
        lemma_common_edge_first_match(t1, t0);
        assert forall|m: EdgeLabel|
            edge_position(#[trigger] t1.canonical_edge(m), t0) is Some implies m == p.label by {
            assert(!t1.same_corners(t0));
            lemma_common_edge_unique(t1, t0, m, p.label);
        }
    }
}

} // verus!
