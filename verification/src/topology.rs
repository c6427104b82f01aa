//! Topology of a mesh: incidence and adjacency lists derived from its elements.
//!
//! The lists are rebuilt from scratch by three independent passes, one per kind of
//! element. Each pass leaves an array that is aligned, index by index, with the array of
//! the mesh it was built from.

use vstd::prelude::*;
use crate::adjacency::{
    edge_to_edges, edge_to_tris, incident_edges, incident_tris, is_edge_incidence,
    is_tri_incidence, lemma_edge_connection_mirrored, lemma_no_self_adjacency,
    lemma_vertex_incidence_exact, mirrored, shared_end_point, shared_end_points, tri_to_tris,
};
use crate::connections::{EdgeToEdge, EdgeToTri, TriToTri, VertexLabel, VertexToEdge, VertexToTri};
use crate::elements::{Edge, MeshElements};
use crate::mesh::Mesh2d;

verus! {

/// Topology of a vertex in a mesh.
#[derive(Clone)]
pub struct VertexTopology {
    /// Incident edges.
    pub incident_edges: Vec<VertexToEdge>,
    /// Incident triangles.
    pub incident_tris: Vec<VertexToTri>,
}

/// Topology information of an edge in a mesh.
#[derive(Clone)]
pub struct EdgeTopology {
    /// Connections with other edges.
    pub edge_connections: Vec<EdgeToEdge>,
    /// Connections with triangles.
    pub tri_connections: Vec<EdgeToTri>,
}

/// Topology information of a triangle in a mesh.
#[derive(Clone)]
pub struct TriTopology {
    /// Connections with other triangles.
    pub tri_connections: Vec<TriToTri>,
}

/// Topology information associated to a mesh.
pub struct Topology<'a> {
    /// Number of vertices in the topology.
    pub nvertices: usize,
    /// Borrowed mesh elements the topology is based upon.
    pub elements: &'a MeshElements,
    /// Set of vertices topology informations.
    pub vertices: Vec<VertexTopology>,
    /// Set of edges topology informations.
    pub edges: Vec<EdgeTopology>,
    /// Set of triangles topology informations.
    pub tris: Vec<TriTopology>,
}

/// The lists of a [`VertexTopology`] as sequences.
pub struct VertexTopologyView {
    /// Incident edges.
    pub incident_edges: Seq<VertexToEdge>,
    /// Incident triangles.
    pub incident_tris: Seq<VertexToTri>,
}

/// The lists of an [`EdgeTopology`] as sequences.
pub struct EdgeTopologyView {
    /// Connections with other edges.
    pub edge_connections: Seq<EdgeToEdge>,
    /// Connections with triangles.
    pub tri_connections: Seq<EdgeToTri>,
}

impl View for VertexTopology {
    type V = VertexTopologyView;

    open spec fn view(&self) -> VertexTopologyView {
        VertexTopologyView {
            incident_edges: self.incident_edges@,
            incident_tris: self.incident_tris@,
        }
    }
}

impl View for EdgeTopology {
    type V = EdgeTopologyView;

    open spec fn view(&self) -> EdgeTopologyView {
        EdgeTopologyView {
            edge_connections: self.edge_connections@,
            tri_connections: self.tri_connections@,
        }
    }
}

impl View for TriTopology {
    type V = Seq<TriToTri>;

    open spec fn view(&self) -> Seq<TriToTri> {
        self.tri_connections@
    }
}

/// Topology of vertex `v` in a mesh with the given elements.
pub open spec fn vertex_topology(elements: MeshElements, v: int) -> VertexTopologyView {
    VertexTopologyView {
        incident_edges: incident_edges(elements.edges@, v),
        incident_tris: incident_tris(elements.tris@, v),
    }
}

/// Topology of edge number `i` in a mesh with the given elements.
pub open spec fn edge_topology(elements: MeshElements, i: int) -> EdgeTopologyView {
    EdgeTopologyView {
        edge_connections: edge_to_edges(elements.edges@[i], i, elements.edges@),
        tri_connections: edge_to_tris(elements.edges@[i], elements.tris@),
    }
}

/// Topology of triangle number `i` in a mesh with the given elements.
pub open spec fn tri_topology(elements: MeshElements, i: int) -> Seq<TriToTri> {
    tri_to_tris(elements.tris@[i], i, elements.tris@)
}

impl VertexTopology {
    /// Creates a new, empty, vertex topology.
    pub fn new() -> (topology: VertexTopology)
        ensures
            topology@.incident_edges == Seq::<VertexToEdge>::empty(),
            topology@.incident_tris == Seq::<VertexToTri>::empty(),
    {
        VertexTopology { incident_edges: Vec::new(), incident_tris: Vec::new() }
    }
}

impl EdgeTopology {
    /// Creates a new, empty, edge topology.
    pub fn new() -> (topology: EdgeTopology)
        ensures
            topology@.edge_connections == Seq::<EdgeToEdge>::empty(),
            topology@.tri_connections == Seq::<EdgeToTri>::empty(),
    {
        EdgeTopology { edge_connections: Vec::new(), tri_connections: Vec::new() }
    }
}

impl TriTopology {
    /// Creates a new, empty, triangle topology.
    pub fn new() -> (topology: TriTopology)
        ensures
            topology@ == Seq::<TriToTri>::empty(),
    {
        TriTopology { tri_connections: Vec::new() }
    }
}

impl<'a> Topology<'a> {
    /// Whether `vertices` holds the topology of each vertex of the mesh.
    pub open spec fn vertices_built(&self) -> bool {
        &&& self.vertices@.len() == self.nvertices
        &&& forall|v: int|
            0 <= v < self.nvertices ==> (#[trigger] self.vertices@[v])@ == vertex_topology(
                *self.elements,
                v,
            )
    }

    /// Whether `edges` holds the topology of each edge of the mesh.
    pub open spec fn edges_built(&self) -> bool {
        &&& self.edges@.len() == self.elements.edges@.len()
        &&& forall|i: int|
            0 <= i < self.elements.edges@.len() ==> (#[trigger] self.edges@[i])@ == edge_topology(
                *self.elements,
                i,
            )
    }

    /// Whether `tris` holds the topology of each triangle of the mesh.
    pub open spec fn tris_built(&self) -> bool {
        &&& self.tris@.len() == self.elements.tris@.len()
        &&& forall|i: int|
            0 <= i < self.elements.tris@.len() ==> (#[trigger] self.tris@[i])@ == tri_topology(
                *self.elements,
                i,
            )
    }

    /// The lists of all vertices, as sequences.
    pub open spec fn vertices_view(&self) -> Seq<VertexTopologyView> {
        self.vertices@.map_values(|t: VertexTopology| t@)
    }

    /// The lists of all edges, as sequences.
    pub open spec fn edges_view(&self) -> Seq<EdgeTopologyView> {
        self.edges@.map_values(|t: EdgeTopology| t@)
    }

    /// The lists of all triangles, as sequences.
    pub open spec fn tris_view(&self) -> Seq<Seq<TriToTri>> {
        self.tris@.map_values(|t: TriTopology| t@)
    }

    /// Whether no edge is recorded as a neighbour of itself.
    pub open spec fn no_edge_is_its_neighbour(&self) -> bool {
        forall|i: int, k: int|
            0 <= i < self.edges@.len() && 0 <= k < self.edges@[i].edge_connections@.len() ==> (
            #[trigger] self.edges@[i].edge_connections@[k]).neighbour.edge_index != i
    }

    /// Whether no triangle is recorded as a neighbour of itself.
    pub open spec fn no_tri_is_its_neighbour(&self) -> bool {
        forall|i: int, k: int|
            0 <= i < self.tris@.len() && 0 <= k < self.tris@[i].tri_connections@.len() ==> (
            #[trigger] self.tris@[i].tri_connections@[k]).neighbour.tri_index != i
    }

    /// Creates a new topology from a 2d mesh, with nothing built yet.
    ///
    /// * `mesh` - Input 2d mesh the topology is based upon.
    pub fn new<P>(mesh: &'a Mesh2d<P>) -> (topology: Topology<'a>)
        ensures
            topology.nvertices == mesh.vertices@.len(),
            *topology.elements == mesh.elements,
            topology.vertices@.len() == 0,
            topology.edges@.len() == 0,
            topology.tris@.len() == 0,
    {
        Topology {
            nvertices: mesh.vertices.len(),
            elements: &mesh.elements,
            vertices: Vec::new(),
            edges: Vec::new(),
            tris: Vec::new(),
        }
    }

    /// Builds the vertices topology informations.
    /// If they have been built before, the previous results are cleared.
    ///
    /// Every vertex index held by an element has to be below `nvertices`.
    pub fn build_vertices(&mut self) -> (built: &mut Self)
        requires
            old(self).elements.within(old(self).nvertices as nat),
        ensures
            built.vertices_built(),
            built.nvertices == old(self).nvertices,
            built.elements == old(self).elements,
            built.edges == old(self).edges,
            built.tris == old(self).tris,
            *final(self) == *final(built),
    {
        // Clearing previous topology infos.
        self.vertices.clear();
        // Allocating vertices topology infos.
        let mut k: usize = 0;
        while k < self.nvertices
            invariant
                k <= self.nvertices,
                self.nvertices == old(self).nvertices,
                self.elements == old(self).elements,
                self.edges == old(self).edges,
                self.tris == old(self).tris,
                self.vertices@.len() == k,
                forall|v: int|
                    0 <= v < k ==> {
                        &&& (#[trigger] self.vertices@[v]).incident_edges@ == Seq::<
                            VertexToEdge,
                        >::empty()
                        &&& self.vertices@[v].incident_tris@ == Seq::<VertexToTri>::empty()
                    },
            decreases self.nvertices - k,
        {
            self.vertices.push(VertexTopology::new());
            k += 1;
        }
        // Loop on edges.
        let mut i: usize = 0;
        while i < self.elements.edges.len()
            invariant
                i <= self.elements.edges@.len(),
                self.nvertices == old(self).nvertices,
                self.elements == old(self).elements,
                self.edges == old(self).edges,
                self.tris == old(self).tris,
                self.elements.within(self.nvertices as nat),
                self.vertices@.len() == self.nvertices,
                forall|v: int|
                    0 <= v < self.nvertices ==> {
                        &&& (#[trigger] self.vertices@[v]).incident_edges@ == incident_edges(
                            self.elements.edges@.take(i as int),
                            v,
                        )
                        &&& self.vertices@[v].incident_tris@ == Seq::<VertexToTri>::empty()
                    },
            decreases self.elements.edges@.len() - i,
        {
            let e = &self.elements.edges[i];
            let v0 = e.indexes[0];
            let v1 = e.indexes[1];
            assert(self.elements.edges@[i as int].within(self.nvertices as nat));
            self.vertices[v0].incident_edges.push(VertexToEdge::new(i, 0));
            self.vertices[v1].incident_edges.push(VertexToEdge::new(i, 1));
            proof {
                assert(self.elements.edges@.take(i + 1).drop_last() =~= self.elements.edges@.take(
                    i as int,
                ));
            }
            i += 1;
        }
        proof {
            assert(self.elements.edges@.take(i as int) =~= self.elements.edges@);
        }
        // Loop on triangles.
        let mut j: usize = 0;
        while j < self.elements.tris.len()
            invariant
                j <= self.elements.tris@.len(),
                self.nvertices == old(self).nvertices,
                self.elements == old(self).elements,
                self.edges == old(self).edges,
                self.tris == old(self).tris,
                self.elements.within(self.nvertices as nat),
                self.vertices@.len() == self.nvertices,
                forall|v: int|
                    0 <= v < self.nvertices ==> {
                        &&& (#[trigger] self.vertices@[v]).incident_edges@ == incident_edges(
                            self.elements.edges@,
                            v,
                        )
                        &&& self.vertices@[v].incident_tris@ == incident_tris(
                            self.elements.tris@.take(j as int),
                            v,
                        )
                    },
            decreases self.elements.tris@.len() - j,
        {
            let t = &self.elements.tris[j];
            let v0 = t.indexes[0];
            let v1 = t.indexes[1];
            let v2 = t.indexes[2];
            assert(self.elements.tris@[j as int].within(self.nvertices as nat));
            self.vertices[v0].incident_tris.push(VertexToTri::new(j, 0));
            self.vertices[v1].incident_tris.push(VertexToTri::new(j, 1));
            self.vertices[v2].incident_tris.push(VertexToTri::new(j, 2));
            proof {
                assert(self.elements.tris@.take(j + 1).drop_last() =~= self.elements.tris@.take(
                    j as int,
                ));
            }
            j += 1;
        }
        proof {
            assert(self.elements.tris@.take(j as int) =~= self.elements.tris@);
        }
        // Returning reference to topology instance.
        self
    }

    /// Builds the edges topology informations.
    /// If they have been built before, the previous results are cleared.
    pub fn build_edges(&mut self) -> (built: &mut Self)
        ensures
            built.edges_built(),
            built.no_edge_is_its_neighbour(),
            built.nvertices == old(self).nvertices,
            built.elements == old(self).elements,
            built.vertices == old(self).vertices,
            built.tris == old(self).tris,
            *final(self) == *final(built),
    {
        // Clearing previous topology infos.
        self.edges.clear();
        // Allocating edges topology infos.
        let nedges = self.elements.edges.len();
        let ntris = self.elements.tris.len();
        let mut k: usize = 0;
        while k < nedges
            invariant
                k <= nedges,
                self.nvertices == old(self).nvertices,
                self.elements == old(self).elements,
                self.vertices == old(self).vertices,
                self.tris == old(self).tris,
                self.edges@.len() == k,
                forall|i: int|
                    0 <= i < k ==> {
                        &&& (#[trigger] self.edges@[i]).edge_connections@ == Seq::<
                            EdgeToEdge,
                        >::empty()
                        &&& self.edges@[i].tri_connections@ == Seq::<EdgeToTri>::empty()
                    },
            decreases nedges - k,
        {
            self.edges.push(EdgeTopology::new());
            k += 1;
        }
        // Building incident edge indices.
        let mut i0: usize = 0;
        while i0 < nedges
            invariant
                i0 <= nedges,
                nedges == self.elements.edges@.len(),
                self.nvertices == old(self).nvertices,
                self.elements == old(self).elements,
                self.vertices == old(self).vertices,
                self.tris == old(self).tris,
                self.edges_built_up_to(i0 as int, 0, 0, 0),
            decreases nedges - i0,
        {
            let mut i1: usize = 0;
            while i1 < nedges
                invariant
                    i0 < nedges,
                    i1 <= nedges,
                    nedges == self.elements.edges@.len(),
                    self.nvertices == old(self).nvertices,
                    self.elements == old(self).elements,
                    self.vertices == old(self).vertices,
                    self.tris == old(self).tris,
                    self.edges_built_up_to(i0 as int, i1 as int, 0, 0),
                decreases nedges - i1,
            {
                if i1 != i0 {
                    let elements = self.elements;
                    push_shared_end_points(
                        &mut self.edges[i0].edge_connections,
                        &elements.edges[i0],
                        &elements.edges[i1],
                        i1,
                    );
                }
                proof {
                    let edges = self.elements.edges@;
                    assert(edges.take(i1 + 1).drop_last() =~= edges.take(i1 as int));
                    assert(self.edges@[i0 as int].edge_connections@ =~= edge_to_edges(
                        edges[i0 as int],
                        i0 as int,
                        edges.take(i1 + 1),
                    ));
                }
                i1 += 1;
            }
            i0 += 1;
        }
        // Building incident triangles indices.
        let mut i: usize = 0;
        while i < nedges
            invariant
                i <= nedges,
                nedges == self.elements.edges@.len(),
                ntris == self.elements.tris@.len(),
                self.nvertices == old(self).nvertices,
                self.elements == old(self).elements,
                self.vertices == old(self).vertices,
                self.tris == old(self).tris,
                self.edges_built_up_to(nedges as int, 0, i as int, 0),
            decreases nedges - i,
        {
            let mut j: usize = 0;
            while j < ntris
                invariant
                    i < nedges,
                    j <= ntris,
                    nedges == self.elements.edges@.len(),
                    ntris == self.elements.tris@.len(),
                    self.nvertices == old(self).nvertices,
                    self.elements == old(self).elements,
                    self.vertices == old(self).vertices,
                    self.tris == old(self).tris,
                    self.edges_built_up_to(nedges as int, 0, i as int, j as int),
                decreases ntris - j,
            {
                // Extracting edge position.
                let result = EdgeToTri::get_edge_position(
                    &self.elements.edges[i],
                    &self.elements.tris[j],
                );
                // Adding triangle to edge neighbour list.
                if let Some(position) = result {
                    self.edges[i].tri_connections.push(
                        EdgeToTri::new(j, position.label.to_index(), position.is_reversed),
                    );
                }
                proof {
                    let tris = self.elements.tris@;
                    assert(tris.take(j + 1).drop_last() =~= tris.take(j as int));
                    assert(self.edges@[i as int].tri_connections@ =~= edge_to_tris(
                        self.elements.edges@[i as int],
                        tris.take(j + 1),
                    ));
                }
                j += 1;
            }
            i += 1;
        }
        proof {
            assert(self.elements.edges@.take(nedges as int) =~= self.elements.edges@);
            assert(self.elements.tris@.take(ntris as int) =~= self.elements.tris@);
            assert(self.elements.edges@.len() == self.elements.edges.len());
            assert(self.elements.tris@.len() == self.elements.tris.len());
            lemma_no_self_adjacency(self.elements.edges@, self.elements.tris@);
        }
        // Returning reference to topology instance.
        self
    }

    /// Builds the triangles topology informations.
    /// If they have been built before, the previous results are cleared.
    pub fn build_triangles(&mut self) -> (built: &mut Self)
        ensures
            built.tris_built(),
            built.no_tri_is_its_neighbour(),
            built.nvertices == old(self).nvertices,
            built.elements == old(self).elements,
            built.vertices == old(self).vertices,
            built.edges == old(self).edges,
            *final(self) == *final(built),
    {
        // Clearing previous topology infos.
        self.tris.clear();
        // Allocating triangles topology infos.
        let ntris = self.elements.tris.len();
        let mut k: usize = 0;
        while k < ntris
            invariant
                k <= ntris,
                self.nvertices == old(self).nvertices,
                self.elements == old(self).elements,
                self.vertices == old(self).vertices,
                self.edges == old(self).edges,
                self.tris@.len() == k,
                forall|i: int|
                    0 <= i < k ==> (#[trigger] self.tris@[i]).tri_connections@ == Seq::<
                        TriToTri,
                    >::empty(),
            decreases ntris - k,
        {
            self.tris.push(TriTopology::new());
            k += 1;
        }
        // Building incident triangles indices.
        let mut i0: usize = 0;
        while i0 < ntris
            invariant
                i0 <= ntris,
                ntris == self.elements.tris@.len(),
                self.nvertices == old(self).nvertices,
                self.elements == old(self).elements,
                self.vertices == old(self).vertices,
                self.edges == old(self).edges,
                self.tris_built_up_to(i0 as int, 0),
            decreases ntris - i0,
        {
            let mut i1: usize = 0;
            while i1 < ntris
                invariant
                    i0 < ntris,
                    i1 <= ntris,
                    ntris == self.elements.tris@.len(),
                    self.nvertices == old(self).nvertices,
                    self.elements == old(self).elements,
                    self.vertices == old(self).vertices,
                    self.edges == old(self).edges,
                    self.tris_built_up_to(i0 as int, i1 as int),
                decreases ntris - i1,
            {
                if i0 != i1 {
                    // Testing if an edge of the first triangle belongs to the second.
                    let result = TriToTri::get_common_edge(
                        &self.elements.tris[i0],
                        &self.elements.tris[i1],
                    );
                    if let Some((label, position)) = result {
                        // Creating edge to triangle connection.
                        let edge_to_tri = EdgeToTri::new(
                            i1,
                            position.label.to_index(),
                            position.is_reversed,
                        );
                        self.tris[i0].tri_connections.push(
                            TriToTri::new(label.to_index(), edge_to_tri),
                        );
                    }
                }
                proof {
                    let tris = self.elements.tris@;
                    assert(tris.take(i1 + 1).drop_last() =~= tris.take(i1 as int));
                    assert(self.tris@[i0 as int].tri_connections@ =~= tri_to_tris(
                        tris[i0 as int],
                        i0 as int,
                        tris.take(i1 + 1),
                    ));
                }
                i1 += 1;
            }
            i0 += 1;
        }
        proof {
            assert(self.elements.tris@.take(ntris as int) =~= self.elements.tris@);
            assert(self.elements.edges@.len() == self.elements.edges.len());
            assert(self.elements.tris@.len() == self.elements.tris.len());
            lemma_no_self_adjacency(self.elements.edges@, self.elements.tris@);
        }
        // Returning reference to topology instance.
        self
    }

    /// State of `edges` in the course of a build: the list of edge connections of edge `k`
    /// is complete if `k < i0`, covers the edges below `i1` if `k == i0`, and is empty
    /// otherwise; likewise the list of triangle connections, with `i` and `j`.
    spec fn edges_built_up_to(&self, i0: int, i1: int, i: int, j: int) -> bool {
        let edges = self.elements.edges@;
        let tris = self.elements.tris@;
        &&& self.edges@.len() == edges.len()
        &&& forall|k: int|
            0 <= k < edges.len() ==> {
                &&& (#[trigger] self.edges@[k]).edge_connections@ == edge_to_edges(
                    edges[k],
                    k,
                    edges.take(handled(k, i0, i1, edges.len() as int)),
                )
                &&& self.edges@[k].tri_connections@ == edge_to_tris(
                    edges[k],
                    tris.take(handled(k, i, j, tris.len() as int)),
                )
            }
    }

    /// State of `tris` in the course of a build: the list of triangle `k` is complete if
    /// `k < i0`, covers the triangles below `i1` if `k == i0`, and is empty otherwise.
    spec fn tris_built_up_to(&self, i0: int, i1: int) -> bool {
        let tris = self.elements.tris@;
        &&& self.tris@.len() == tris.len()
        &&& forall|k: int|
            0 <= k < tris.len() ==> (#[trigger] self.tris@[k]).tri_connections@ == tri_to_tris(
                tris[k],
                k,
                tris.take(handled(k, i0, i1, tris.len() as int)),
            )
    }
}

/// Building again over an unchanged mesh changes nothing: what a build leaves is given by
/// the number of vertices and the elements alone. So of two topologies over the same mesh,
/// such as the states after a first and after a second call of
/// [`Topology::build_vertices`], those arrays that are built in both are the same.
pub proof fn lemma_rebuild_is_idempotent(first: Topology, second: Topology)
    requires
        second.nvertices == first.nvertices,
        second.elements == first.elements,
    ensures
        first.vertices_built() && second.vertices_built() ==> second.vertices_view()
            == first.vertices_view(),
        first.edges_built() && second.edges_built() ==> second.edges_view() == first.edges_view(),
        first.tris_built() && second.tris_built() ==> second.tris_view() == first.tris_view(),
{
    if first.vertices_built() && second.vertices_built() {
        assert(second.vertices_view() =~= first.vertices_view());
    }
    if first.edges_built() && second.edges_built() {
        assert(second.edges_view() =~= first.edges_view());
    }
    if first.tris_built() && second.tris_built() {
        assert(second.tris_view() =~= first.tris_view());
    }
}

/// In a topology whose vertices are built, the lists of a vertex hold the references that
/// the elements make to it, each of them once: a record stands in the list exactly if the
/// element that it names holds the vertex at the slot that it names.
pub proof fn lemma_built_vertices_hold_the_references(topology: Topology, v: int)
    requires
        topology.vertices_built(),
        0 <= v < topology.nvertices,
    ensures
        forall|c: VertexToEdge|
            topology.vertices@[v].incident_edges@.contains(c) <==> is_edge_incidence(
                topology.elements.edges@,
                v,
                c,
            ),
        forall|c: VertexToTri|
            topology.vertices@[v].incident_tris@.contains(c) <==> is_tri_incidence(
                topology.elements.tris@,
                v,
                c,
            ),
        topology.vertices@[v].incident_edges@.no_duplicates(),
        topology.vertices@[v].incident_tris@.no_duplicates(),
{
    let edges = topology.elements.edges@;
    let tris = topology.elements.tris@;
    assert(edges.len() == topology.elements.edges.len());
    assert(tris.len() == topology.elements.tris.len());
    assert(topology.vertices@[v]@ == vertex_topology(*topology.elements, v));
    lemma_vertex_incidence_exact(edges, tris, v);
    assert forall|c: VertexToEdge|
        incident_edges(edges, v).contains(c) <==> is_edge_incidence(edges, v, c) by {
        assert(incident_edges(edges, v).to_set().contains(c) <==> incident_edges(
            edges,
            v,
        ).contains(c));
    }
    assert forall|c: VertexToTri|
        incident_tris(tris, v).contains(c) <==> is_tri_incidence(tris, v, c) by {
        assert(incident_tris(tris, v).to_set().contains(c) <==> incident_tris(tris, v).contains(
            c,
        ));
    }
}

/// In a topology whose edges are built, every edge connection is answered: where the list
/// of an edge holds a record with a neighbour, the list of that neighbour holds the mirrored
/// record with the edge.
pub proof fn lemma_built_edges_are_symmetric(topology: Topology, i0: int, k: int)
    requires
        topology.edges_built(),
        0 <= i0 < topology.edges@.len(),
        0 <= k < topology.edges@[i0].edge_connections@.len(),
    ensures
        ({
            let c = topology.edges@[i0].edge_connections@[k];
            let i1 = c.neighbour.edge_index as int;
            &&& i1 < topology.edges@.len()
            &&& topology.edges@[i1].edge_connections@.contains(mirrored(c, i0))
        }),
{
    let edges = topology.elements.edges@;
    let c = topology.edges@[i0].edge_connections@[k];
    let i1 = c.neighbour.edge_index as int;
    assert(edges.len() == topology.elements.edges.len());
    assert(topology.edges@[i0]@ == edge_topology(*topology.elements, i0));
    assert(edge_to_edges(edges[i0], i0, edges).contains(c));
    lemma_edge_connection_mirrored(edges, i0, c);
    assert(topology.edges@[i1]@ == edge_topology(*topology.elements, i1));
}

/// Appends to `connections`, the edge connections of `e0`, what edge number `i1`, `e1`,
/// adds to them.
fn push_shared_end_points(connections: &mut Vec<EdgeToEdge>, e0: &Edge, e1: &Edge, i1: usize)
    ensures
        final(connections)@ == old(connections)@ + shared_end_points(*e0, *e1, i1 as int),
{
    if e1.indexes[0] == e0.indexes[0] {
        connections.push(EdgeToEdge::new(0, VertexToEdge::new(i1, 0)));
    }
    let ghost first = connections@;
    if e1.indexes[1] == e0.indexes[0] {
        connections.push(EdgeToEdge::new(0, VertexToEdge::new(i1, 1)));
    }
    let ghost second = connections@;
    if e1.indexes[0] == e0.indexes[1] {
        connections.push(EdgeToEdge::new(1, VertexToEdge::new(i1, 0)));
    }
    let ghost third = connections@;
    if e1.indexes[1] == e0.indexes[1] {
        connections.push(EdgeToEdge::new(1, VertexToEdge::new(i1, 1)));
    }
    proof {
        let link = |own: VertexLabel, other: VertexLabel|
            shared_end_point(*e0, *e1, i1 as int, own, other);
        assert(first =~= old(connections)@ + link(VertexLabel::V0, VertexLabel::V0));
        assert(second =~= first + link(VertexLabel::V0, VertexLabel::V1));
        assert(third =~= second + link(VertexLabel::V1, VertexLabel::V0));
        assert(connections@ =~= third + link(VertexLabel::V1, VertexLabel::V1));
        assert(connections@ =~= old(connections)@ + shared_end_points(*e0, *e1, i1 as int));
    }
}

/// How many elements the inner loop of a build has handled for the element of index `k`,
/// when the outer loop stands at `outer` and the inner loop at `inner`, of `total`.
spec fn handled(k: int, outer: int, inner: int, total: int) -> int {
    if k < outer {
        total
    } else if k == outer {
        inner
    } else {
        0
    }
}

} // verus!
