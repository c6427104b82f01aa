//! Incidence and adjacency lists of a mesh, as sequences computed from its elements.
//!
//! Each list is defined by running through the elements in the order of their indices and
//! appending what each element contributes. The lemmas that follow say which records a list
//! holds, without reference to that order.

use vstd::prelude::*;
use crate::connections::{
    common_edge, edge_position, lemma_common_edge_exists, lemma_common_edge_mirrored,
    lemma_common_edge_mutual, lemma_edge_position_first_match, same_ends, EdgeLabel,
    EdgePosition, EdgeToEdge, EdgeToTri, TriToTri, VertexLabel, VertexToEdge, VertexToTri,
};
use crate::elements::{Edge, Tri};

verus! {

/// What slot `slot` of edge number `i`, `e`, adds to the incident edges of vertex `v`: its
/// record if the slot holds `v`, and nothing otherwise.
pub open spec fn edge_incidence_at(e: Edge, i: int, v: int, slot: VertexLabel) -> Seq<
    VertexToEdge,
> {
    if e.vertex(slot) == v {
        seq![VertexToEdge { edge_index: i as usize, connecting_vertex: slot }]
    } else {
        Seq::empty()
    }
}

/// What edge number `i`, `e`, adds to the incident edges of vertex `v`: one record for
/// each of its end points that is `v`, the first end point first.
pub open spec fn edge_incidences(e: Edge, i: int, v: int) -> Seq<VertexToEdge> {
    edge_incidence_at(e, i, v, VertexLabel::V0) + edge_incidence_at(e, i, v, VertexLabel::V1)
}

/// What slot `slot` of triangle number `j`, `t`, adds to the incident triangles of vertex
/// `v`: its record if the slot holds `v`, and nothing otherwise.
pub open spec fn tri_incidence_at(t: Tri, j: int, v: int, slot: VertexLabel) -> Seq<VertexToTri> {
    if t.vertex(slot) == v {
        seq![VertexToTri { tri_index: j as usize, connecting_vertex: slot }]
    } else {
        Seq::empty()
    }
}

/// What triangle number `j`, `t`, adds to the incident triangles of vertex `v`: one record
/// for each of its corners that is `v`, in the order of the corners.
pub open spec fn tri_incidences(t: Tri, j: int, v: int) -> Seq<VertexToTri> {
    tri_incidence_at(t, j, v, VertexLabel::V0) + tri_incidence_at(t, j, v, VertexLabel::V1)
        + tri_incidence_at(t, j, v, VertexLabel::V2)
}

/// Incident edges of vertex `v`: the records of all edges, in the order of the edges.
pub open spec fn incident_edges(edges: Seq<Edge>, v: int) -> Seq<VertexToEdge>
    decreases edges.len(),
{
    if edges.len() == 0 {
        Seq::empty()
    } else {
        incident_edges(edges.drop_last(), v) + edge_incidences(edges.last(), edges.len() - 1, v)
    }
}

/// Incident triangles of vertex `v`: the records of all triangles, in the order of the
/// triangles.
pub open spec fn incident_tris(tris: Seq<Tri>, v: int) -> Seq<VertexToTri>
    decreases tris.len(),
{
    if tris.len() == 0 {
        Seq::empty()
    } else {
        incident_tris(tris.drop_last(), v) + tri_incidences(tris.last(), tris.len() - 1, v)
    }
}

/// What slot `other` of edge number `i1`, `e1`, adds to the edge connections of another
/// edge `e0` at its slot `own`: the record of the two slots if they hold the same vertex,
/// and nothing otherwise.
pub open spec fn shared_end_point(
    e0: Edge,
    e1: Edge,
    i1: int,
    own: VertexLabel,
    other: VertexLabel,
) -> Seq<EdgeToEdge> {
    if e1.vertex(other) == e0.vertex(own) {
        seq![
            EdgeToEdge {
                connecting_vertex: own,
                neighbour: VertexToEdge { edge_index: i1 as usize, connecting_vertex: other },
            },
        ]
    } else {
        Seq::empty()
    }
}

/// What edge number `i1`, `e1`, adds to the edge connections of another edge `e0`: one
/// record for each pair of an end point of `e0` and an end point of `e1` that coincide.
/// The pairs come in the order (first, first), (first, second), (second, first),
/// (second, second).
pub open spec fn shared_end_points(e0: Edge, e1: Edge, i1: int) -> Seq<EdgeToEdge> {
    shared_end_point(e0, e1, i1, VertexLabel::V0, VertexLabel::V0) + shared_end_point(
        e0,
        e1,
        i1,
        VertexLabel::V0,
        VertexLabel::V1,
    ) + shared_end_point(e0, e1, i1, VertexLabel::V1, VertexLabel::V0) + shared_end_point(
        e0,
        e1,
        i1,
        VertexLabel::V1,
        VertexLabel::V1,
    )
}

/// Connections of edge number `i0`, `e0`, with the edges `others`, each under its index in
/// `others`; the edge of index `i0` is passed over.
pub open spec fn edge_to_edges(e0: Edge, i0: int, others: Seq<Edge>) -> Seq<EdgeToEdge>
    decreases others.len(),
{
    if others.len() == 0 {
        Seq::empty()
    } else {
        edge_to_edges(e0, i0, others.drop_last()) + if others.len() - 1 != i0 {
            shared_end_points(e0, others.last(), others.len() - 1)
        } else {
            Seq::empty()
        }
    }
}

/// Connections of edge `e` with the triangles `tris`: one record for each triangle in which
/// the edge has a position, in the order of the triangles.
pub open spec fn edge_to_tris(e: Edge, tris: Seq<Tri>) -> Seq<EdgeToTri>
    decreases tris.len(),
{
    if tris.len() == 0 {
        Seq::empty()
    } else {
        edge_to_tris(e, tris.drop_last()) + match edge_position(e, tris.last()) {
            Some(position) => seq![
                EdgeToTri { tri_index: (tris.len() - 1) as usize, connecting_edge: position },
            ],
            None => Seq::empty(),
        }
    }
}

/// Connections of triangle number `i0`, `t0`, with the triangles `others`, each under its
/// index in `others`: one record for each triangle that has an edge in common with `t0`, in
/// the order of the triangles; the triangle of index `i0` is passed over.
pub open spec fn tri_to_tris(t0: Tri, i0: int, others: Seq<Tri>) -> Seq<TriToTri>
    decreases others.len(),
{
    if others.len() == 0 {
        Seq::empty()
    } else {
        tri_to_tris(t0, i0, others.drop_last()) + if others.len() - 1 != i0 {
            match common_edge(t0, others.last()) {
                Some((label, position)) => seq![
                    TriToTri {
                        connecting_edge: label,
                        neighbour: EdgeToTri {
                            tri_index: (others.len() - 1) as usize,
                            connecting_edge: position,
                        },
                    },
                ],
                None => Seq::empty(),
            }
        } else {
            Seq::empty()
        }
    }
}

/// Whether `c` records a reference to vertex `v` by one of `edges`: the edge that it
/// names holds `v` at the slot that it names.
pub open spec fn is_edge_incidence(edges: Seq<Edge>, v: int, c: VertexToEdge) -> bool {
    &&& c.edge_index < edges.len()
    &&& c.connecting_vertex.in_edge()
    &&& edges[c.edge_index as int].vertex(c.connecting_vertex) == v
}

/// Whether `c` records a reference to vertex `v` by one of `tris`: the triangle that it
/// names holds `v` at the slot that it names.
pub open spec fn is_tri_incidence(tris: Seq<Tri>, v: int, c: VertexToTri) -> bool {
    &&& c.tri_index < tris.len()
    &&& tris[c.tri_index as int].vertex(c.connecting_vertex) == v
}

/// Whether `c` records an end point that edge number `i0` of `edges` has in common with
/// another of them: the two edges differ, and the two slots that `c` names hold the same
/// vertex.
pub open spec fn is_edge_adjacency(edges: Seq<Edge>, i0: int, c: EdgeToEdge) -> bool {
    &&& c.neighbour.edge_index != i0
    &&& c.neighbour.edge_index < edges.len()
    &&& c.connecting_vertex.in_edge()
    &&& c.neighbour.connecting_vertex.in_edge()
    &&& edges[i0].vertex(c.connecting_vertex) == edges[c.neighbour.edge_index as int].vertex(
        c.neighbour.connecting_vertex,
    )
}

/// Whether `c` records the position of edge `e` in one of `tris`.
pub open spec fn is_edge_in_tri(e: Edge, tris: Seq<Tri>, c: EdgeToTri) -> bool {
    &&& c.tri_index < tris.len()
    &&& edge_position(e, tris[c.tri_index as int]) == Some(c.connecting_edge)
}

/// Whether `c` records the edge that triangle number `i0` of `tris` has in common with
/// another of them.
pub open spec fn is_tri_adjacency(tris: Seq<Tri>, i0: int, c: TriToTri) -> bool {
    &&& c.neighbour.tri_index != i0
    &&& c.neighbour.tri_index < tris.len()
    &&& common_edge(tris[i0], tris[c.neighbour.tri_index as int]) == Some(
        (c.connecting_edge, c.neighbour.connecting_edge),
    )
}

/// The record of edge number `i0` that answers record `c` of one of its neighbours: the
/// same shared end point, seen from the other edge.
pub open spec fn mirrored(c: EdgeToEdge, i0: int) -> EdgeToEdge {
    EdgeToEdge {
        connecting_vertex: c.neighbour.connecting_vertex,
        neighbour: VertexToEdge { edge_index: i0 as usize, connecting_vertex: c.connecting_vertex },
    }
}

/// Place of a vertex to edge record in the order of the incident edges: by edge, then by
/// slot.
pub open spec fn edge_incidence_rank(c: VertexToEdge) -> int {
    2 * c.edge_index + c.connecting_vertex.index()
}

/// Place of a vertex to triangle record in the order of the incident triangles: by
/// triangle, then by slot.
pub open spec fn tri_incidence_rank(c: VertexToTri) -> int {
    3 * c.tri_index + c.connecting_vertex.index()
}

/// Place of an edge to edge record in the order of the edge connections: by neighbour, then
/// by the slot of the edge itself, then by the slot of the neighbour.
pub open spec fn edge_adjacency_rank(c: EdgeToEdge) -> int {
    4 * c.neighbour.edge_index + 2 * c.connecting_vertex.index()
        + c.neighbour.connecting_vertex.index()
}

/// Whether the elements of `s` come in strictly increasing order of `rank`, with all ranks
/// from `low` up to, and not including, `high`.
pub open spec fn is_increasing<T>(s: Seq<T>, rank: spec_fn(T) -> int, low: int, high: int) -> bool {
    &&& forall|k: int| 0 <= k < s.len() ==> low <= #[trigger] rank(s[k]) < high
    &&& forall|k: int, l: int|
        0 <= k < l < s.len() ==> #[trigger] rank(s[k]) < #[trigger] rank(s[l])
}

/// A concatenation holds what either part holds.
proof fn lemma_concat_contains<T>(a: Seq<T>, b: Seq<T>, x: T)
    ensures
        (a + b).contains(x) <==> a.contains(x) || b.contains(x),
{
    if a.contains(x) {
        let i = choose|i: int| 0 <= i < a.len() && a[i] == x;
        assert((a + b)[i] == x);
    }
    if b.contains(x) {
        let i = choose|i: int| 0 <= i < b.len() && b[i] == x;
        assert((a + b)[a.len() + i] == x);
    }
    if (a + b).contains(x) {
        let i = choose|i: int| 0 <= i < (a + b).len() && (a + b)[i] == x;
        if i < a.len() {
            assert(a[i] == x);
        } else {
            assert(b[i - a.len()] == x);
        }
    }
}

/// A sequence of one element holds that element only.
proof fn lemma_single_contains<T>(x: T, y: T)
    ensures
        seq![x].contains(y) <==> y == x,
{
    assert(seq![x][0] == x);
}

/// A run of increasing elements followed by a run of increasing elements of higher rank is
/// increasing.
proof fn lemma_concat_increasing<T>(
    a: Seq<T>,
    b: Seq<T>,
    rank: spec_fn(T) -> int,
    low: int,
    middle: int,
    high: int,
)
    requires
        is_increasing(a, rank, low, middle),
        is_increasing(b, rank, middle, high),
        low <= middle <= high,
    ensures
        is_increasing(a + b, rank, low, high),
{
    let all = a + b;
    assert forall|k: int| 0 <= k < all.len() implies low <= #[trigger] rank(all[k]) < high by {
        if k < a.len() {
            assert(all[k] == a[k]);
        } else {
            assert(all[k] == b[k - a.len()]);
        }
    }
    assert forall|k: int, l: int| 0 <= k < l < all.len() implies #[trigger] rank(all[k])
        < #[trigger] rank(all[l]) by {
        if k < a.len() {
            assert(all[k] == a[k]);
        } else {
            assert(all[k] == b[k - a.len()]);
        }
        if l < a.len() {
            assert(all[l] == a[l]);
        } else {
            assert(all[l] == b[l - a.len()]);
        }
    }
}

/// Elements in strictly increasing order are all different.
proof fn lemma_increasing_no_duplicates<T>(s: Seq<T>, rank: spec_fn(T) -> int, low: int, high: int)
    requires
        is_increasing(s, rank, low, high),
    ensures
        s.no_duplicates(),
{
    assert forall|k: int, l: int| 0 <= k < s.len() && 0 <= l < s.len() && k != l implies s[k]
        != s[l] by {
        if k < l {
            assert(rank(s[k]) < rank(s[l]));
        } else {
            assert(rank(s[l]) < rank(s[k]));
        }
    }
}

/// The records that one edge adds to a vertex are its references to that vertex.
proof fn lemma_edge_incidences_members(e: Edge, i: int, v: int, c: VertexToEdge)
    requires
        0 <= i <= usize::MAX,
    ensures
        edge_incidences(e, i, v).contains(c) <==> c.edge_index == i && c.connecting_vertex.in_edge()
            && e.vertex(c.connecting_vertex) == v,
{
    lemma_concat_contains(
        edge_incidence_at(e, i, v, VertexLabel::V0),
        edge_incidence_at(e, i, v, VertexLabel::V1),
        c,
    );
    let record = |slot: VertexLabel|
        VertexToEdge { edge_index: i as usize, connecting_vertex: slot };
    lemma_single_contains(record(VertexLabel::V0), c);
    lemma_single_contains(record(VertexLabel::V1), c);
}

/// One edge adds a record for each of its end points that is the vertex, by slot.
proof fn lemma_edge_incidences_ordered(e: Edge, i: int, v: int)
    requires
        0 <= i <= usize::MAX,
    ensures
        edge_incidences(e, i, v).len() == e.occurrences(v),
        is_increasing(
            edge_incidences(e, i, v),
            |c: VertexToEdge| edge_incidence_rank(c),
            2 * i,
            2 * i + 2,
        ),
{
}

/// The records that one triangle adds to a vertex are its references to that vertex.
proof fn lemma_tri_incidences_members(t: Tri, j: int, v: int, c: VertexToTri)
    requires
        0 <= j <= usize::MAX,
    ensures
        tri_incidences(t, j, v).contains(c) <==> c.tri_index == j && t.vertex(c.connecting_vertex)
            == v,
{
    let at = |slot: VertexLabel| tri_incidence_at(t, j, v, slot);
    lemma_concat_contains(at(VertexLabel::V0), at(VertexLabel::V1), c);
    lemma_concat_contains(at(VertexLabel::V0) + at(VertexLabel::V1), at(VertexLabel::V2), c);
    let record = |slot: VertexLabel| VertexToTri { tri_index: j as usize, connecting_vertex: slot };
    lemma_single_contains(record(VertexLabel::V0), c);
    lemma_single_contains(record(VertexLabel::V1), c);
    lemma_single_contains(record(VertexLabel::V2), c);
}

/// One triangle adds a record for each of its corners that is the vertex, by slot.
proof fn lemma_tri_incidences_ordered(t: Tri, j: int, v: int)
    requires
        0 <= j <= usize::MAX,
    ensures
        tri_incidences(t, j, v).len() == t.occurrences(v),
        is_increasing(
            tri_incidences(t, j, v),
            |c: VertexToTri| tri_incidence_rank(c),
            3 * j,
            3 * j + 3,
        ),
{
}

/// The incident edges of a vertex are the references that the edges make to it: every
/// record is such a reference, and every such reference is recorded.
pub proof fn lemma_incident_edges_members(edges: Seq<Edge>, v: int, c: VertexToEdge)
    requires
        edges.len() <= usize::MAX,
    ensures
        incident_edges(edges, v).contains(c) <==> is_edge_incidence(edges, v, c),
    decreases edges.len(),
{
    if edges.len() > 0 {
        let i = edges.len() - 1;
        lemma_incident_edges_members(edges.drop_last(), v, c);
        lemma_edge_incidences_members(edges.last(), i, v, c);
        lemma_concat_contains(
            incident_edges(edges.drop_last(), v),
            edge_incidences(edges.last(), i, v),
            c,
        );
    }
}

/// The incident triangles of a vertex are the references that the triangles make to it:
/// every record is such a reference, and every such reference is recorded.
pub proof fn lemma_incident_tris_members(tris: Seq<Tri>, v: int, c: VertexToTri)
    requires
        tris.len() <= usize::MAX,
    ensures
        incident_tris(tris, v).contains(c) <==> is_tri_incidence(tris, v, c),
    decreases tris.len(),
{
    if tris.len() > 0 {
        let j = tris.len() - 1;
        lemma_incident_tris_members(tris.drop_last(), v, c);
        lemma_tri_incidences_members(tris.last(), j, v, c);
        lemma_concat_contains(
            incident_tris(tris.drop_last(), v),
            tri_incidences(tris.last(), j, v),
            c,
        );
    }
}

/// The incident edges of a vertex come by edge and then by slot, each reference once.
pub proof fn lemma_incident_edges_ordered(edges: Seq<Edge>, v: int)
    requires
        edges.len() <= usize::MAX,
    ensures
        is_increasing(
            incident_edges(edges, v),
            |c: VertexToEdge| edge_incidence_rank(c),
            0,
            2 * (edges.len() as int),
        ),
        incident_edges(edges, v).no_duplicates(),
    decreases edges.len(),
{
    let rank = |c: VertexToEdge| edge_incidence_rank(c);
    if edges.len() > 0 {
        let i = edges.len() - 1;
        lemma_incident_edges_ordered(edges.drop_last(), v);
        lemma_edge_incidences_ordered(edges.last(), i, v);
        lemma_concat_increasing(
            incident_edges(edges.drop_last(), v),
            edge_incidences(edges.last(), i, v),
            rank,
            0,
            2 * i,
            2 * i + 2,
        );
    }
    lemma_increasing_no_duplicates(incident_edges(edges, v), rank, 0, 2 * (edges.len() as int));
}

/// The incident triangles of a vertex come by triangle and then by slot, each reference
/// once.
pub proof fn lemma_incident_tris_ordered(tris: Seq<Tri>, v: int)
    requires
        tris.len() <= usize::MAX,
    ensures
        is_increasing(
            incident_tris(tris, v),
            |c: VertexToTri| tri_incidence_rank(c),
            0,
            3 * (tris.len() as int),
        ),
        incident_tris(tris, v).no_duplicates(),
    decreases tris.len(),
{
    let rank = |c: VertexToTri| tri_incidence_rank(c);
    if tris.len() > 0 {
        let j = tris.len() - 1;
        lemma_incident_tris_ordered(tris.drop_last(), v);
        lemma_tri_incidences_ordered(tris.last(), j, v);
        lemma_concat_increasing(
            incident_tris(tris.drop_last(), v),
            tri_incidences(tris.last(), j, v),
            rank,
            0,
            3 * j,
            3 * j + 3,
        );
    }
    lemma_increasing_no_duplicates(incident_tris(tris, v), rank, 0, 3 * (tris.len() as int));
}

/// A vertex has exactly one incident-edge record for each reference that an edge makes to
/// it and exactly one incident-triangle record for each reference that a triangle makes to
/// it, and each record names the slot at which the element holds the vertex.
pub proof fn lemma_vertex_incidence_exact(edges: Seq<Edge>, tris: Seq<Tri>, v: int)
    requires
        edges.len() <= usize::MAX,
        tris.len() <= usize::MAX,
    ensures
        incident_edges(edges, v).no_duplicates(),
        incident_tris(tris, v).no_duplicates(),
        incident_edges(edges, v).to_set() == Set::new(
            |c: VertexToEdge| is_edge_incidence(edges, v, c),
        ),
        incident_tris(tris, v).to_set() == Set::new(|c: VertexToTri| is_tri_incidence(tris, v, c)),
        incident_edges(edges, v).len() == Set::new(
            |c: VertexToEdge| is_edge_incidence(edges, v, c),
        ).len(),
        incident_tris(tris, v).len() == Set::new(
            |c: VertexToTri| is_tri_incidence(tris, v, c),
        ).len(),
{
    lemma_incident_edges_ordered(edges, v);
    lemma_incident_tris_ordered(tris, v);
    assert forall|c: VertexToEdge|
        incident_edges(edges, v).to_set().contains(c) <==> is_edge_incidence(edges, v, c) by {
        lemma_incident_edges_members(edges, v, c);
    }
    assert forall|c: VertexToTri|
        incident_tris(tris, v).to_set().contains(c) <==> is_tri_incidence(tris, v, c) by {
        lemma_incident_tris_members(tris, v, c);
    }
    assert(incident_edges(edges, v).to_set() =~= Set::new(
        |c: VertexToEdge| is_edge_incidence(edges, v, c),
    ));
    assert(incident_tris(tris, v).to_set() =~= Set::new(
        |c: VertexToTri| is_tri_incidence(tris, v, c),
    ));
    incident_edges(edges, v).unique_seq_to_set();
    incident_tris(tris, v).unique_seq_to_set();
}

/// A vertex that `k` of the edges and `m` of the triangles refer to, none of them more
/// than once, has `k` incident edges and `m` incident triangles.
pub proof fn lemma_vertex_incidence_count(edges: Seq<Edge>, tris: Seq<Tri>, v: int)
    requires
        edges.len() <= usize::MAX,
        tris.len() <= usize::MAX,
        forall|i: int| 0 <= i < edges.len() ==> (#[trigger] edges[i]).occurrences(v) <= 1,
        forall|j: int| 0 <= j < tris.len() ==> (#[trigger] tris[j]).occurrences(v) <= 1,
    ensures
        incident_edges(edges, v).len() == edges.filter(|e: Edge| e.occurrences(v) > 0).len(),
        incident_tris(tris, v).len() == tris.filter(|t: Tri| t.occurrences(v) > 0).len(),
    decreases edges.len() + tris.len(),
{
    reveal(Seq::filter);
    if edges.len() > 0 {
        let i = edges.len() - 1;
        assert(edges.last() == edges[i]);
        assert forall|k: int| 0 <= k < edges.drop_last().len() implies (
        #[trigger] edges.drop_last()[k]).occurrences(v) <= 1 by {
            assert(edges.drop_last()[k] == edges[k]);
        }
        lemma_vertex_incidence_count(edges.drop_last(), tris, v);
        lemma_edge_incidences_ordered(edges.last(), i, v);
    } else if tris.len() > 0 {
        let j = tris.len() - 1;
        assert(tris.last() == tris[j]);
        assert forall|k: int| 0 <= k < tris.drop_last().len() implies (
        #[trigger] tris.drop_last()[k]).occurrences(v) <= 1 by {
            assert(tris.drop_last()[k] == tris[k]);
        }
        lemma_vertex_incidence_count(edges, tris.drop_last(), v);
        lemma_tri_incidences_ordered(tris.last(), j, v);
    }
}

/// The records that one edge adds to the connections of another are the end points that
/// the two have in common.
proof fn lemma_shared_end_points(e0: Edge, e1: Edge, i1: int, c: EdgeToEdge)
    requires
        0 <= i1 <= usize::MAX,
    ensures
        shared_end_points(e0, e1, i1).contains(c) <==> {
            &&& c.neighbour.edge_index == i1
            &&& c.connecting_vertex.in_edge()
            &&& c.neighbour.connecting_vertex.in_edge()
            &&& e0.vertex(c.connecting_vertex) == e1.vertex(c.neighbour.connecting_vertex)
        },
{
    let record = |own: VertexLabel, other: VertexLabel|
        EdgeToEdge {
            connecting_vertex: own,
            neighbour: VertexToEdge { edge_index: i1 as usize, connecting_vertex: other },
        };
    let link = |own: VertexLabel, other: VertexLabel| shared_end_point(e0, e1, i1, own, other);
    let l00 = link(VertexLabel::V0, VertexLabel::V0);
    let l01 = link(VertexLabel::V0, VertexLabel::V1);
    let l10 = link(VertexLabel::V1, VertexLabel::V0);
    let l11 = link(VertexLabel::V1, VertexLabel::V1);
    lemma_concat_contains(l00, l01, c);
    lemma_concat_contains(l00 + l01, l10, c);
    lemma_concat_contains(l00 + l01 + l10, l11, c);
    lemma_single_contains(record(VertexLabel::V0, VertexLabel::V0), c);
    lemma_single_contains(record(VertexLabel::V0, VertexLabel::V1), c);
    lemma_single_contains(record(VertexLabel::V1, VertexLabel::V0), c);
    lemma_single_contains(record(VertexLabel::V1, VertexLabel::V1), c);
}

/// The connections of an edge with a run of edges are the end points that it has in common
/// with those of them that stand at another index.
proof fn lemma_edge_to_edges_members(e0: Edge, i0: int, others: Seq<Edge>, c: EdgeToEdge)
    requires
        others.len() <= usize::MAX,
    ensures
        edge_to_edges(e0, i0, others).contains(c) <==> {
            &&& c.neighbour.edge_index != i0
            &&& c.neighbour.edge_index < others.len()
            &&& c.connecting_vertex.in_edge()
            &&& c.neighbour.connecting_vertex.in_edge()
            &&& e0.vertex(c.connecting_vertex) == others[c.neighbour.edge_index as int].vertex(
                c.neighbour.connecting_vertex,
            )
        },
    decreases others.len(),
{
    if others.len() > 0 {
        let i1 = others.len() - 1;
        let added = if i1 != i0 {
            shared_end_points(e0, others.last(), i1)
        } else {
            Seq::empty()
        };
        lemma_edge_to_edges_members(e0, i0, others.drop_last(), c);
        lemma_shared_end_points(e0, others.last(), i1, c);
        lemma_concat_contains(edge_to_edges(e0, i0, others.drop_last()), added, c);
    }
}

/// The edge connections of an edge are the end points that it has in common with the other
/// edges: every record is such an end point, and every such end point is recorded.
pub proof fn lemma_edge_connections_members(edges: Seq<Edge>, i0: int, c: EdgeToEdge)
    requires
        edges.len() <= usize::MAX,
        0 <= i0 < edges.len(),
    ensures
        edge_to_edges(edges[i0], i0, edges).contains(c) <==> is_edge_adjacency(edges, i0, c),
{
    lemma_edge_to_edges_members(edges[i0], i0, edges, c);
}

/// The triangle connections of an edge are its positions in the triangles: every record
/// is the position of the edge in the triangle that it names, and every triangle in which
/// the edge has a position is recorded with it.
pub proof fn lemma_edge_to_tris_members(e: Edge, tris: Seq<Tri>, c: EdgeToTri)
    requires
        tris.len() <= usize::MAX,
    ensures
        edge_to_tris(e, tris).contains(c) <==> is_edge_in_tri(e, tris, c),
    decreases tris.len(),
{
    if tris.len() > 0 {
        let j = tris.len() - 1;
        let added = match edge_position(e, tris.last()) {
            Some(position) => seq![EdgeToTri { tri_index: j as usize, connecting_edge: position }],
            None => Seq::empty(),
        };
        lemma_edge_to_tris_members(e, tris.drop_last(), c);
        lemma_concat_contains(edge_to_tris(e, tris.drop_last()), added, c);
        if let Some(position) = edge_position(e, tris.last()) {
            lemma_single_contains(
                EdgeToTri { tri_index: j as usize, connecting_edge: position },
                c,
            );
        }
    }
}

/// The connections of a triangle with a run of triangles are the edges that it has in
/// common with those of them that stand at another index.
proof fn lemma_tri_to_tris_members(t0: Tri, i0: int, others: Seq<Tri>, c: TriToTri)
    requires
        others.len() <= usize::MAX,
    ensures
        tri_to_tris(t0, i0, others).contains(c) <==> {
            &&& c.neighbour.tri_index != i0
            &&& c.neighbour.tri_index < others.len()
            &&& common_edge(t0, others[c.neighbour.tri_index as int]) == Some(
                (c.connecting_edge, c.neighbour.connecting_edge),
            )
        },
    decreases others.len(),
{
    if others.len() > 0 {
        let i1 = others.len() - 1;
        let found = common_edge(t0, others.last());
        let added = if i1 != i0 {
            match found {
                Some((label, position)) => seq![
                    TriToTri {
                        connecting_edge: label,
                        neighbour: EdgeToTri { tri_index: i1 as usize, connecting_edge: position },
                    },
                ],
                None => Seq::empty(),
            }
        } else {
            Seq::empty()
        };
        lemma_tri_to_tris_members(t0, i0, others.drop_last(), c);
        lemma_concat_contains(tri_to_tris(t0, i0, others.drop_last()), added, c);
        if let Some((label, position)) = found {
            lemma_single_contains(
                TriToTri {
                    connecting_edge: label,
                    neighbour: EdgeToTri { tri_index: i1 as usize, connecting_edge: position },
                },
                c,
            );
        }
    }
}

/// The connections of a triangle are the edges that it has in common with the other
/// triangles: every record is such an edge, and every triangle that has an edge in common
/// with it is recorded.
pub proof fn lemma_tri_connections_members(tris: Seq<Tri>, i0: int, c: TriToTri)
    requires
        tris.len() <= usize::MAX,
        0 <= i0 < tris.len(),
    ensures
        tri_to_tris(tris[i0], i0, tris).contains(c) <==> is_tri_adjacency(tris, i0, c),
{
    lemma_tri_to_tris_members(tris[i0], i0, tris, c);
}

/// The edge connections of an edge come by neighbour, then by the slot of the edge itself,
/// then by the slot of the neighbour, each common end point once.
pub proof fn lemma_edge_connections_ordered(edges: Seq<Edge>, i0: int)
    requires
        edges.len() <= usize::MAX,
        0 <= i0 < edges.len(),
    ensures
        is_increasing(
            edge_to_edges(edges[i0], i0, edges),
            |c: EdgeToEdge| edge_adjacency_rank(c),
            0,
            4 * (edges.len() as int),
        ),
        edge_to_edges(edges[i0], i0, edges).no_duplicates(),
{
    lemma_edge_to_edges_ordered(edges[i0], i0, edges);
    lemma_increasing_no_duplicates(
        edge_to_edges(edges[i0], i0, edges),
        |c: EdgeToEdge| edge_adjacency_rank(c),
        0,
        4 * (edges.len() as int),
    );
}

/// The connections of an edge with a run of edges come by neighbour and then by slots.
proof fn lemma_edge_to_edges_ordered(e0: Edge, i0: int, others: Seq<Edge>)
    requires
        others.len() <= usize::MAX,
    ensures
        is_increasing(
            edge_to_edges(e0, i0, others),
            |c: EdgeToEdge| edge_adjacency_rank(c),
            0,
            4 * (others.len() as int),
        ),
    decreases others.len(),
{
    let rank = |c: EdgeToEdge| edge_adjacency_rank(c);
    if others.len() > 0 {
        let i1 = others.len() - 1;
        let added = if i1 != i0 {
            shared_end_points(e0, others.last(), i1)
        } else {
            Seq::empty()
        };
        lemma_edge_to_edges_ordered(e0, i0, others.drop_last());
        assert(is_increasing(added, rank, 4 * i1, 4 * i1 + 4));
        lemma_concat_increasing(
            edge_to_edges(e0, i0, others.drop_last()),
            added,
            rank,
            0,
            4 * i1,
            4 * i1 + 4,
        );
    }
}

/// The triangle connections of an edge come in the order of the triangles, each triangle
/// once at most.
pub proof fn lemma_edge_to_tris_ordered(e: Edge, tris: Seq<Tri>)
    requires
        tris.len() <= usize::MAX,
    ensures
        is_increasing(
            edge_to_tris(e, tris),
            |c: EdgeToTri| c.tri_index as int,
            0,
            tris.len() as int,
        ),
        edge_to_tris(e, tris).no_duplicates(),
    decreases tris.len(),
{
    let rank = |c: EdgeToTri| c.tri_index as int;
    if tris.len() > 0 {
        let j = tris.len() - 1;
        let added = match edge_position(e, tris.last()) {
            Some(position) => seq![EdgeToTri { tri_index: j as usize, connecting_edge: position }],
            None => Seq::empty(),
        };
        lemma_edge_to_tris_ordered(e, tris.drop_last());
        assert(is_increasing(added, rank, j, j + 1));
        lemma_concat_increasing(edge_to_tris(e, tris.drop_last()), added, rank, 0, j, j + 1);
    }
    lemma_increasing_no_duplicates(edge_to_tris(e, tris), rank, 0, tris.len() as int);
}

/// The connections of a triangle come in the order of the triangles, each triangle once at
/// most.
pub proof fn lemma_tri_connections_ordered(tris: Seq<Tri>, i0: int)
    requires
        tris.len() <= usize::MAX,
        0 <= i0 < tris.len(),
    ensures
        is_increasing(
            tri_to_tris(tris[i0], i0, tris),
            |c: TriToTri| c.neighbour.tri_index as int,
            0,
            tris.len() as int,
        ),
        tri_to_tris(tris[i0], i0, tris).no_duplicates(),
{
    lemma_tri_to_tris_ordered(tris[i0], i0, tris);
    lemma_increasing_no_duplicates(
        tri_to_tris(tris[i0], i0, tris),
        |c: TriToTri| c.neighbour.tri_index as int,
        0,
        tris.len() as int,
    );
}

/// The connections of a triangle with a run of triangles come in the order of the run.
proof fn lemma_tri_to_tris_ordered(t0: Tri, i0: int, others: Seq<Tri>)
    requires
        others.len() <= usize::MAX,
    ensures
        is_increasing(
            tri_to_tris(t0, i0, others),
            |c: TriToTri| c.neighbour.tri_index as int,
            0,
            others.len() as int,
        ),
    decreases others.len(),
{
    let rank = |c: TriToTri| c.neighbour.tri_index as int;
    if others.len() > 0 {
        let i1 = others.len() - 1;
        let added = if i1 != i0 {
            match common_edge(t0, others.last()) {
                Some((label, position)) => seq![
                    TriToTri {
                        connecting_edge: label,
                        neighbour: EdgeToTri { tri_index: i1 as usize, connecting_edge: position },
                    },
                ],
                None => Seq::empty(),
            }
        } else {
            Seq::empty()
        };
        lemma_tri_to_tris_ordered(t0, i0, others.drop_last());
        assert(is_increasing(added, rank, i1, i1 + 1));
        lemma_concat_increasing(
            tri_to_tris(t0, i0, others.drop_last()),
            added,
            rank,
            0,
            i1,
            i1 + 1,
        );
    }
}

/// Two edges that are incident to one vertex are connected there: where the incident edges
/// of a vertex hold records of two different edges, the edge connections of the first edge
/// hold the record of the two slots.
pub proof fn lemma_edges_of_a_vertex_are_connected(
    edges: Seq<Edge>,
    v: int,
    c0: VertexToEdge,
    c1: VertexToEdge,
)
    requires
        edges.len() <= usize::MAX,
        incident_edges(edges, v).contains(c0),
        incident_edges(edges, v).contains(c1),
        c0.edge_index != c1.edge_index,
    ensures
        c0.edge_index < edges.len(),
        edge_to_edges(edges[c0.edge_index as int], c0.edge_index as int, edges).contains(
            EdgeToEdge { connecting_vertex: c0.connecting_vertex, neighbour: c1 },
        ),
{
    lemma_incident_edges_members(edges, v, c0);
    lemma_incident_edges_members(edges, v, c1);
    lemma_edge_connections_members(
        edges,
        c0.edge_index as int,
        EdgeToEdge { connecting_vertex: c0.connecting_vertex, neighbour: c1 },
    );
}

/// Every edge connection is at a vertex to which both edges are incident: where the edge
/// connections of edge `i0` hold a record, the incident edges of the vertex at the slot
/// that it names hold the record of that slot and the record of the neighbour.
pub proof fn lemma_connected_edges_share_a_vertex(edges: Seq<Edge>, i0: int, c: EdgeToEdge)
    requires
        edges.len() <= usize::MAX,
        0 <= i0 < edges.len(),
        edge_to_edges(edges[i0], i0, edges).contains(c),
    ensures
        incident_edges(edges, edges[i0].vertex(c.connecting_vertex) as int).contains(
            VertexToEdge { edge_index: i0 as usize, connecting_vertex: c.connecting_vertex },
        ),
        incident_edges(edges, edges[i0].vertex(c.connecting_vertex) as int).contains(c.neighbour),
{
    let v = edges[i0].vertex(c.connecting_vertex) as int;
    lemma_edge_connections_members(edges, i0, c);
    lemma_incident_edges_members(
        edges,
        v,
        VertexToEdge { edge_index: i0 as usize, connecting_vertex: c.connecting_vertex },
    );
    lemma_incident_edges_members(edges, v, c.neighbour);
}

/// The triangles of an edge border one another: where the triangle connections of an edge
/// hold records of two different triangles, the second stands in the connections of the
/// first.
pub proof fn lemma_triangles_of_an_edge_are_connected(
    e: Edge,
    tris: Seq<Tri>,
    c0: EdgeToTri,
    c1: EdgeToTri,
)
    requires
        tris.len() <= usize::MAX,
        edge_to_tris(e, tris).contains(c0),
        edge_to_tris(e, tris).contains(c1),
        c0.tri_index != c1.tri_index,
    ensures
        c0.tri_index < tris.len(),
        exists|c: TriToTri|
            tri_to_tris(tris[c0.tri_index as int], c0.tri_index as int, tris).contains(c)
                && c.neighbour.tri_index == c1.tri_index,
{
    let t0 = tris[c0.tri_index as int];
    let t1 = tris[c1.tri_index as int];
    lemma_edge_to_tris_members(e, tris, c0);
    lemma_edge_to_tris_members(e, tris, c1);
    lemma_edge_position_first_match(e, t0);
    lemma_edge_position_first_match(e, t1);
    assert(same_ends(
        t0.canonical_ends(c0.connecting_edge.label),
        t1.canonical_ends(c1.connecting_edge.label),
    ));
    lemma_common_edge_exists(t0, t1);
    lemma_tri_listed(tris, c0.tri_index as int, c1.tri_index as int);
}

/// An edge of a triangle joins two of its corners: where the triangle connections of an edge
/// hold a record, the triangle that it names is incident to both end points of the edge, at
/// the two corners that the canonical edge of that label joins.
pub proof fn lemma_triangle_of_an_edge_holds_its_end_points(e: Edge, tris: Seq<Tri>, c: EdgeToTri)
    requires
        tris.len() <= usize::MAX,
        edge_to_tris(e, tris).contains(c),
    ensures
        exists|slot: VertexLabel|
            incident_tris(tris, e.indexes[0] as int).contains(
                VertexToTri { tri_index: c.tri_index, connecting_vertex: slot },
            ),
        exists|slot: VertexLabel|
            incident_tris(tris, e.indexes[1] as int).contains(
                VertexToTri { tri_index: c.tri_index, connecting_vertex: slot },
            ),
{
    let t = tris[c.tri_index as int];
    lemma_edge_to_tris_members(e, tris, c);
    lemma_edge_position_first_match(e, t);
    let (tail, head) = match c.connecting_edge.label {
        EdgeLabel::E0 => (VertexLabel::V0, VertexLabel::V1),
        EdgeLabel::E1 => (VertexLabel::V1, VertexLabel::V2),
        EdgeLabel::E2 => (VertexLabel::V2, VertexLabel::V0),
    };
    let (first, second) = if c.connecting_edge.is_reversed {
        (head, tail)
    } else {
        (tail, head)
    };
    let at_first = VertexToTri { tri_index: c.tri_index, connecting_vertex: first };
    let at_second = VertexToTri { tri_index: c.tri_index, connecting_vertex: second };
    lemma_incident_tris_members(tris, e.indexes[0] as int, at_first);
    lemma_incident_tris_members(tris, e.indexes[1] as int, at_second);
}

/// Adjacency of edges is symmetric. Where slot `own` of edge `i0` and slot `other` of
/// another edge `i1` hold the same vertex, the connections of `i0` hold the record of that
/// end point with `i1`, and the connections of `i1` hold the mirrored record with `i0`.
pub proof fn lemma_edge_adjacency_symmetric(
    edges: Seq<Edge>,
    i0: int,
    i1: int,
    own: VertexLabel,
    other: VertexLabel,
)
    requires
        edges.len() <= usize::MAX,
        0 <= i0 < edges.len(),
        0 <= i1 < edges.len(),
        i0 != i1,
        own.in_edge(),
        other.in_edge(),
        edges[i0].vertex(own) == edges[i1].vertex(other),
    ensures
        edge_to_edges(edges[i0], i0, edges).contains(
            EdgeToEdge {
                connecting_vertex: own,
                neighbour: VertexToEdge { edge_index: i1 as usize, connecting_vertex: other },
            },
        ),
        edge_to_edges(edges[i1], i1, edges).contains(
            EdgeToEdge {
                connecting_vertex: other,
                neighbour: VertexToEdge { edge_index: i0 as usize, connecting_vertex: own },
            },
        ),
{
    let c = EdgeToEdge {
        connecting_vertex: own,
        neighbour: VertexToEdge { edge_index: i1 as usize, connecting_vertex: other },
    };
    lemma_edge_connections_members(edges, i0, c);
    lemma_edge_connections_members(edges, i1, mirrored(c, i0));
}

/// Every edge connection is answered: where the connections of edge `i0` hold a record
/// with a neighbour, the connections of that neighbour hold the mirrored record with `i0`.
pub proof fn lemma_edge_connection_mirrored(edges: Seq<Edge>, i0: int, c: EdgeToEdge)
    requires
        edges.len() <= usize::MAX,
        0 <= i0 < edges.len(),
        edge_to_edges(edges[i0], i0, edges).contains(c),
    ensures
        c.neighbour.edge_index < edges.len(),
        edge_to_edges(
            edges[c.neighbour.edge_index as int],
            c.neighbour.edge_index as int,
            edges,
        ).contains(mirrored(c, i0)),
{
    lemma_edge_connections_members(edges, i0, c);
    lemma_edge_connections_members(edges, c.neighbour.edge_index as int, mirrored(c, i0));
}

/// Adjacency of triangles is mutual: a triangle stands in the connections of another
/// exactly if that other stands in its own.
pub proof fn lemma_tri_adjacency_mutual(tris: Seq<Tri>, i0: int, i1: int)
    requires
        tris.len() <= usize::MAX,
        0 <= i0 < tris.len(),
        0 <= i1 < tris.len(),
    ensures
        (exists|c: TriToTri|
            tri_to_tris(tris[i0], i0, tris).contains(c) && c.neighbour.tri_index == i1) <==> (
        exists|c: TriToTri|
            tri_to_tris(tris[i1], i1, tris).contains(c) && c.neighbour.tri_index == i0),
{
    lemma_tri_listed(tris, i0, i1);
    lemma_tri_listed(tris, i1, i0);
    lemma_common_edge_mutual(tris[i0], tris[i1]);
}

/// Every connection between two different triangles is answered. Where the connections of
/// triangle `i0` hold a record with a neighbour, and the two have three different corners
/// each, which are not the same three corners, the connections of the neighbour hold the
/// mirrored record with `i0`: the labels change places, and the edge is reversed in the one
/// exactly if it is reversed in the other.
pub proof fn lemma_tri_connection_mirrored(tris: Seq<Tri>, i0: int, c: TriToTri)
    requires
        tris.len() <= usize::MAX,
        0 <= i0 < tris.len(),
        tri_to_tris(tris[i0], i0, tris).contains(c),
        tris[i0].is_proper(),
        tris[c.neighbour.tri_index as int].is_proper(),
        !tris[i0].same_corners(tris[c.neighbour.tri_index as int]),
    ensures
        c.neighbour.tri_index < tris.len(),
        tri_to_tris(
            tris[c.neighbour.tri_index as int],
            c.neighbour.tri_index as int,
            tris,
        ).contains(
            TriToTri {
                connecting_edge: c.neighbour.connecting_edge.label,
                neighbour: EdgeToTri {
                    tri_index: i0 as usize,
                    connecting_edge: EdgePosition {
                        label: c.connecting_edge,
                        is_reversed: c.neighbour.connecting_edge.is_reversed,
                    },
                },
            },
        ),
{
    let i1 = c.neighbour.tri_index as int;
    let back = TriToTri {
        connecting_edge: c.neighbour.connecting_edge.label,
        neighbour: EdgeToTri {
            tri_index: i0 as usize,
            connecting_edge: EdgePosition {
                label: c.connecting_edge,
                is_reversed: c.neighbour.connecting_edge.is_reversed,
            },
        },
    };
    lemma_tri_connections_members(tris, i0, c);
    lemma_common_edge_mirrored(tris[i0], tris[i1]);
    lemma_tri_connections_members(tris, i1, back);
}

/// A triangle stands in the connections of another exactly if the two differ and have an
/// edge in common.
proof fn lemma_tri_listed(tris: Seq<Tri>, i0: int, i1: int)
    requires
        tris.len() <= usize::MAX,
        0 <= i0 < tris.len(),
        0 <= i1 < tris.len(),
    ensures
        (exists|c: TriToTri|
            tri_to_tris(tris[i0], i0, tris).contains(c) && c.neighbour.tri_index == i1) <==> i0
            != i1 && common_edge(tris[i0], tris[i1]) is Some,
{
    let list = tri_to_tris(tris[i0], i0, tris);
    if exists|c: TriToTri| list.contains(c) && c.neighbour.tri_index == i1 {
        let c = choose|c: TriToTri| list.contains(c) && c.neighbour.tri_index == i1;
        lemma_tri_connections_members(tris, i0, c);
    }
    if i0 != i1 && common_edge(tris[i0], tris[i1]) is Some {
        let (label, position) = common_edge(tris[i0], tris[i1])->0;
        let c = TriToTri {
            connecting_edge: label,
            neighbour: EdgeToTri { tri_index: i1 as usize, connecting_edge: position },
        };
        lemma_tri_connections_members(tris, i0, c);
        assert(list.contains(c) && c.neighbour.tri_index == i1);
    }
}

/// No element is its own neighbour: the edge connections of an edge name other edges only,
/// and the connections of a triangle name other triangles only.
pub proof fn lemma_no_self_adjacency(edges: Seq<Edge>, tris: Seq<Tri>)
    requires
        edges.len() <= usize::MAX,
        tris.len() <= usize::MAX,
    ensures
        forall|i0: int, k: int|
            0 <= i0 < edges.len() && 0 <= k < edge_to_edges(edges[i0], i0, edges).len() ==> (
            #[trigger] edge_to_edges(edges[i0], i0, edges)[k]).neighbour.edge_index != i0,
        forall|i0: int, k: int|
            0 <= i0 < tris.len() && 0 <= k < tri_to_tris(tris[i0], i0, tris).len() ==> (
            #[trigger] tri_to_tris(tris[i0], i0, tris)[k]).neighbour.tri_index != i0,
{
    assert forall|i0: int, k: int|
        0 <= i0 < edges.len() && 0 <= k < edge_to_edges(edges[i0], i0, edges).len() implies (
    #[trigger] edge_to_edges(edges[i0], i0, edges)[k]).neighbour.edge_index != i0 by {
        let list = edge_to_edges(edges[i0], i0, edges);
        assert(list.contains(list[k]));
        lemma_edge_connections_members(edges, i0, list[k]);
    }
    assert forall|i0: int, k: int|
        0 <= i0 < tris.len() && 0 <= k < tri_to_tris(tris[i0], i0, tris).len() implies (
    #[trigger] tri_to_tris(tris[i0], i0, tris)[k]).neighbour.tri_index != i0 by {
        let list = tri_to_tris(tris[i0], i0, tris);
        assert(list.contains(list[k]));
        lemma_tri_connections_members(tris, i0, list[k]);
    }
}

} // verus!
