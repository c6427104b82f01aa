use mersh::connections::{
    EdgeLabel, EdgePosition, EdgeToEdge, EdgeToTri, TriToTri, VertexLabel, VertexToEdge,
    VertexToTri,
};
use mersh::elements::{Edge, MeshElements, Tri};
use mersh::mesh::Mesh2d;
use mersh::topology::{EdgeTopology, Topology, TriTopology, VertexTopology};
use mersh::vertices::Vertex2d;

// A mesh with the given points, edges and triangles.
fn mesh_of(points: &[[f64; 2]], edges: &[[usize; 2]], tris: &[[usize; 3]]) -> Mesh2d<[f64; 2]> {
    Mesh2d {
        vertices: points.iter().map(|p| Vertex2d { point: *p, tag: 0 }).collect(),
        elements: MeshElements {
            edges: edges.iter().map(|e| Edge::new(*e)).collect(),
            tris: tris.iter().map(|t| Tri::new(*t)).collect(),
        },
    }
}

// The unit square, cut along the diagonal from vertex 0 to vertex 2, with its four sides.
fn unit_square() -> Mesh2d<[f64; 2]> {
    mesh_of(
        &[[0., 0.], [1., 0.], [1., 1.], [0., 1.]],
        &[[0, 1], [1, 2], [2, 3], [3, 0]],
        &[[0, 1, 2], [2, 3, 0]],
    )
}

fn edge_to_edge(own: VertexLabel, edge_index: usize, other: VertexLabel) -> EdgeToEdge {
    EdgeToEdge {
        connecting_vertex: own,
        neighbour: VertexToEdge { edge_index, connecting_vertex: other },
    }
}

fn tri_to_tri(own: EdgeLabel, tri_index: usize, label: EdgeLabel, is_reversed: bool) -> TriToTri {
    TriToTri {
        connecting_edge: own,
        neighbour: EdgeToTri { tri_index, connecting_edge: EdgePosition { label, is_reversed } },
    }
}

#[test]
fn vertex_topology_new() {
    let vertex_topo = VertexTopology::new();
    assert!(vertex_topo.incident_edges.is_empty());
    assert!(vertex_topo.incident_tris.is_empty());
}

#[test]
fn edge_topology_new() {
    let edge_topo = EdgeTopology::new();
    assert!(edge_topo.edge_connections.is_empty());
    assert!(edge_topo.tri_connections.is_empty());
}

#[test]
fn tri_topology_new() {
    let tri_topo = TriTopology::new();
    assert!(tri_topo.tri_connections.is_empty());
}

#[test]
fn topology_new() {
    let mesh = unit_square();
    let topo = Topology::new(&mesh);
    assert_eq!(topo.nvertices, 4);
    assert_eq!(topo.elements.edges.len(), 4);
    assert_eq!(topo.elements.tris.len(), 2);
    assert!(topo.vertices.is_empty());
    assert!(topo.edges.is_empty());
    assert!(topo.tris.is_empty());

    let empty = mesh_of(&[], &[], &[]);
    let topo = Topology::new(&empty);
    assert_eq!(topo.nvertices, 0);
}

#[test]
fn build_vertices() {
    let mesh = mesh_of(&[[0., 0.], [1., 0.], [0., 1.]], &[[0, 1]], &[[2, 0, 1]]);

    let mut topo = Topology::new(&mesh);
    topo.build_vertices();

    assert!(topo.vertices.len() == 3);

    assert!(topo.vertices[0].incident_edges.len() == 1);
    assert!(topo.vertices[0].incident_tris.len() == 1);

    // Edge is connected to first vertex through its first vertex.
    assert!(topo.vertices[0].incident_edges[0].edge_index == 0);
    assert!(topo.vertices[0].incident_edges[0].connecting_vertex as usize == 0);

    // Tri is connected to first vertex through its second vertex.
    assert!(topo.vertices[0].incident_tris[0].tri_index == 0);
    assert!(topo.vertices[0].incident_tris[0].connecting_vertex as usize == 1);

    assert!(topo.vertices[1].incident_edges.len() == 1);
    assert!(topo.vertices[1].incident_tris.len() == 1);

    // Edge is connected to second vertex through its second vertex.
    assert!(topo.vertices[1].incident_edges[0].edge_index == 0);
    assert!(topo.vertices[1].incident_edges[0].connecting_vertex as usize == 1);

    // Tri is connected to second vertex through its third vertex.
    assert!(topo.vertices[1].incident_tris[0].tri_index == 0);
    assert!(topo.vertices[1].incident_tris[0].connecting_vertex as usize == 2);

    assert!(topo.vertices[2].incident_edges.len() == 0);
    assert!(topo.vertices[2].incident_tris.len() == 1);

    // Tri is connected to third vertex through its first vertex.
    assert!(topo.vertices[2].incident_tris[0].tri_index == 0);
    assert!(topo.vertices[2].incident_tris[0].connecting_vertex as usize == 0);
}

#[test]
fn build_edges() {
    let mesh = mesh_of(
        &[[0., 0.], [1., 0.], [1., -1.], [1., 1.]],
        &[[0, 1], [1, 2], [1, 3]],
        &[[1, 0, 3]],
    );

    let mut topo = Topology::new(&mesh);
    topo.build_edges();

    assert!(topo.edges.len() == 3);

    assert!(topo.edges[0].edge_connections.len() == 2);
    assert!(topo.edges[0].tri_connections.len() == 1);

    // First vertex of second edge connects to second vertex of first edge.
    assert!(topo.edges[0].edge_connections[0].connecting_vertex as usize == 1);
    assert!(topo.edges[0].edge_connections[0].neighbour.connecting_vertex as usize == 0);
    assert!(topo.edges[0].edge_connections[0].neighbour.edge_index == 1);

    // First vertex of third edge connects to second vertex of first edge.
    assert!(topo.edges[0].edge_connections[1].connecting_vertex as usize == 1);
    assert!(topo.edges[0].edge_connections[1].neighbour.connecting_vertex as usize == 0);
    assert!(topo.edges[0].edge_connections[1].neighbour.edge_index == 2);

    // First edge of first triangle is the (reversed) first edge.
    assert!(topo.edges[0].tri_connections[0].tri_index == 0);
    assert!(topo.edges[0].tri_connections[0].connecting_edge.label as usize == 0);
    assert!(topo.edges[0].tri_connections[0].connecting_edge.is_reversed == true);

    // The second edge touches both others at its first vertex, and no triangle.
    assert_eq!(
        topo.edges[1].edge_connections,
        vec![
            edge_to_edge(VertexLabel::V0, 0, VertexLabel::V1),
            edge_to_edge(VertexLabel::V0, 2, VertexLabel::V0),
        ]
    );
    assert!(topo.edges[1].tri_connections.is_empty());

    // The third edge, (1, 3), has no place in the triangle (1, 0, 3), whose third edge is
    // (3, 1): it is that edge reversed.
    assert_eq!(
        topo.edges[2].tri_connections,
        vec![EdgeToTri {
            tri_index: 0,
            connecting_edge: EdgePosition { label: EdgeLabel::E2, is_reversed: true },
        }]
    );
}

#[test]
fn build_triangles() {
    let mesh = mesh_of(&[[0., 0.], [1., 0.], [1., 1.], [0., 1.]], &[], &[[0, 1, 3], [1, 2, 3]]);

    let mut topo = Topology::new(&mesh);
    topo.build_triangles();

    assert!(topo.tris.len() == 2);

    // Second edge of first triangle is neighbouring the third (reversed) edge of second triangle.
    assert!(topo.tris[0].tri_connections[0].connecting_edge as usize == 1);
    assert!(topo.tris[0].tri_connections[0].neighbour.tri_index == 1);
    assert!(topo.tris[0].tri_connections[0].neighbour.connecting_edge.label as usize == 2);
    assert!(topo.tris[0].tri_connections[0].neighbour.connecting_edge.is_reversed == true);
}

#[test]
fn square_triangles_point_at_each_other() {
    let mesh = unit_square();
    let mut topo = Topology::new(&mesh);
    topo.build_triangles();

    assert_eq!(topo.tris.len(), 2);
    // Each triangle has the other as its single neighbour, across the diagonal, which each
    // of them runs along against the direction of the other.
    assert_eq!(
        topo.tris[0].tri_connections,
        vec![tri_to_tri(EdgeLabel::E2, 1, EdgeLabel::E2, true)]
    );
    assert_eq!(
        topo.tris[1].tri_connections,
        vec![tri_to_tri(EdgeLabel::E2, 0, EdgeLabel::E2, true)]
    );
}

#[test]
fn square_vertices() {
    let mesh = unit_square();
    let mut topo = Topology::new(&mesh);
    topo.build_vertices();

    assert_eq!(topo.vertices.len(), 4);
    // Vertex 0 ends the last side and starts the first; it is a corner of both triangles.
    assert_eq!(
        topo.vertices[0].incident_edges,
        vec![
            VertexToEdge { edge_index: 0, connecting_vertex: VertexLabel::V0 },
            VertexToEdge { edge_index: 3, connecting_vertex: VertexLabel::V1 },
        ]
    );
    assert_eq!(
        topo.vertices[0].incident_tris,
        vec![
            VertexToTri { tri_index: 0, connecting_vertex: VertexLabel::V0 },
            VertexToTri { tri_index: 1, connecting_vertex: VertexLabel::V2 },
        ]
    );
    // Vertex 1 is a corner of the first triangle only.
    assert_eq!(
        topo.vertices[1].incident_tris,
        vec![VertexToTri { tri_index: 0, connecting_vertex: VertexLabel::V1 }]
    );
    assert_eq!(
        topo.vertices[3].incident_tris,
        vec![VertexToTri { tri_index: 1, connecting_vertex: VertexLabel::V1 }]
    );
}

#[test]
fn square_edges() {
    let mesh = unit_square();
    let mut topo = Topology::new(&mesh);
    topo.build_edges();

    assert_eq!(topo.edges.len(), 4);
    // The first side, (0, 1), meets the last side at vertex 0 and the second at vertex 1.
    // Neighbours come in the order of their indexes.
    assert_eq!(
        topo.edges[0].edge_connections,
        vec![
            edge_to_edge(VertexLabel::V1, 1, VertexLabel::V0),
            edge_to_edge(VertexLabel::V0, 3, VertexLabel::V1),
        ]
    );
    // Each side is an edge of one triangle, in its direction.
    let forward = |tri_index: usize, label: EdgeLabel| EdgeToTri {
        tri_index,
        connecting_edge: EdgePosition { label, is_reversed: false },
    };
    assert_eq!(topo.edges[0].tri_connections, vec![forward(0, EdgeLabel::E0)]);
    assert_eq!(topo.edges[1].tri_connections, vec![forward(0, EdgeLabel::E1)]);
    assert_eq!(topo.edges[2].tri_connections, vec![forward(1, EdgeLabel::E0)]);
    assert_eq!(topo.edges[3].tri_connections, vec![forward(1, EdgeLabel::E1)]);
}

#[test]
fn an_edge_of_two_triangles_is_connected_to_both() {
    let mesh =
        mesh_of(&[[0., 0.], [1., 0.], [1., 1.], [0., 1.]], &[[2, 0]], &[[0, 1, 2], [2, 3, 0]]);
    let mut topo = Topology::new(&mesh);
    topo.build_edges();
    assert_eq!(
        topo.edges[0].tri_connections,
        vec![
            EdgeToTri {
                tri_index: 0,
                connecting_edge: EdgePosition { label: EdgeLabel::E2, is_reversed: false },
            },
            EdgeToTri {
                tri_index: 1,
                connecting_edge: EdgePosition { label: EdgeLabel::E2, is_reversed: true },
            },
        ]
    );
}

#[test]
fn building_twice_gives_the_same_arrays() {
    let mesh = unit_square();
    let mut topo = Topology::new(&mesh);

    topo.build_vertices();
    let first: Vec<VertexTopology> = topo.vertices.clone();
    topo.build_vertices();
    assert_eq!(topo.vertices.len(), first.len());
    for (again, before) in topo.vertices.iter().zip(first.iter()) {
        assert_eq!(again.incident_edges, before.incident_edges);
        assert_eq!(again.incident_tris, before.incident_tris);
    }

    topo.build_edges();
    let first: Vec<EdgeTopology> = topo.edges.clone();
    topo.build_edges();
    assert_eq!(topo.edges.len(), first.len());
    for (again, before) in topo.edges.iter().zip(first.iter()) {
        assert_eq!(again.edge_connections, before.edge_connections);
        assert_eq!(again.tri_connections, before.tri_connections);
    }

    topo.build_triangles();
    let first: Vec<TriTopology> = topo.tris.clone();
    topo.build_triangles();
    assert_eq!(topo.tris.len(), first.len());
    for (again, before) in topo.tris.iter().zip(first.iter()) {
        assert_eq!(again.tri_connections, before.tri_connections);
    }
}

#[test]
fn builds_in_any_order_leave_each_other_alone() {
    let mesh = unit_square();
    let mut topo = Topology::new(&mesh);
    topo.build_triangles().build_edges().build_vertices();
    assert_eq!(topo.vertices.len(), 4);
    assert_eq!(topo.edges.len(), 4);
    assert_eq!(topo.tris.len(), 2);

    let mut other = Topology::new(&mesh);
    other.build_vertices().build_edges().build_triangles();
    for (a, b) in topo.vertices.iter().zip(other.vertices.iter()) {
        assert_eq!(a.incident_edges, b.incident_edges);
        assert_eq!(a.incident_tris, b.incident_tris);
    }
    for (a, b) in topo.edges.iter().zip(other.edges.iter()) {
        assert_eq!(a.edge_connections, b.edge_connections);
        assert_eq!(a.tri_connections, b.tri_connections);
    }
    for (a, b) in topo.tris.iter().zip(other.tris.iter()) {
        assert_eq!(a.tri_connections, b.tri_connections);
    }
}

#[test]
fn edge_connections_are_mirrored() {
    // A star of three edges round vertex 1, and a chain that leaves it.
    let mesh = mesh_of(
        &[[0., 0.], [1., 0.], [1., -1.], [1., 1.], [2., 2.]],
        &[[0, 1], [1, 2], [3, 1], [3, 4]],
        &[],
    );
    let mut topo = Topology::new(&mesh);
    topo.build_edges();

    let mut records = 0;
    for (i0, topology) in topo.edges.iter().enumerate() {
        for c in topology.edge_connections.iter() {
            let i1 = c.neighbour.edge_index;
            let mirrored = edge_to_edge(c.neighbour.connecting_vertex, i0, c.connecting_vertex);
            assert!(topo.edges[i1].edge_connections.contains(&mirrored));
            // The two slots hold the same vertex.
            assert_eq!(
                mesh.elements.edges[i0].indexes[c.connecting_vertex as usize],
                mesh.elements.edges[i1].indexes[c.neighbour.connecting_vertex as usize]
            );
            records += 1;
        }
    }
    // Three pairs of edges meet at vertex 1, one pair at vertex 3; each is recorded twice.
    assert_eq!(records, 8);
    let met = edge_to_edge(VertexLabel::V1, 2, VertexLabel::V1);
    assert!(topo.edges[0].edge_connections.contains(&met));
    let met = edge_to_edge(VertexLabel::V1, 0, VertexLabel::V1);
    assert!(topo.edges[2].edge_connections.contains(&met));
}

#[test]
fn edges_with_both_end_points_in_common() {
    // Edge adjacency is by end point: two edges between the same vertices are connected
    // twice, once for each end point.
    let mesh = mesh_of(&[[0., 0.], [1., 0.]], &[[0, 1], [1, 0]], &[]);
    let mut topo = Topology::new(&mesh);
    topo.build_edges();
    assert_eq!(
        topo.edges[0].edge_connections,
        vec![
            edge_to_edge(VertexLabel::V0, 1, VertexLabel::V1),
            edge_to_edge(VertexLabel::V1, 1, VertexLabel::V0),
        ]
    );
    assert_eq!(
        topo.edges[1].edge_connections,
        vec![
            edge_to_edge(VertexLabel::V0, 0, VertexLabel::V1),
            edge_to_edge(VertexLabel::V1, 0, VertexLabel::V0),
        ]
    );
}

#[test]
fn no_element_is_its_own_neighbour() {
    // Repeated and degenerate elements: equal to one another, yet never their own neighbour.
    let mesh = mesh_of(
        &[[0., 0.], [1., 0.], [1., 1.]],
        &[[0, 1], [0, 1], [1, 1], [2, 0]],
        &[[0, 1, 2], [0, 1, 2], [2, 1, 0]],
    );
    let mut topo = Topology::new(&mesh);
    topo.build_edges().build_triangles();

    for (i, topology) in topo.edges.iter().enumerate() {
        assert!(topology.edge_connections.iter().all(|c| c.neighbour.edge_index != i));
    }
    for (i, topology) in topo.tris.iter().enumerate() {
        assert!(topology.tri_connections.iter().all(|c| c.neighbour.tri_index != i));
        // Both other triangles have an edge in common with this one.
        assert_eq!(topology.tri_connections.len(), 2);
    }
    // The first edge meets its copy at both end points and the loop at vertex 1 twice.
    assert_eq!(topo.edges[0].edge_connections.len(), 5);
}

#[test]
fn vertex_incidence_counts_the_references() {
    let mesh = mesh_of(
        &[[0., 0.], [1., 0.], [1., 1.], [0., 1.], [5., 5.]],
        &[[0, 1], [1, 2], [2, 0], [0, 3]],
        &[[0, 1, 2], [2, 3, 0], [3, 2, 1]],
    );
    let mut topo = Topology::new(&mesh);
    topo.build_vertices();

    for v in 0..5 {
        let k = mesh.elements.edges.iter().filter(|e| e.indexes.contains(&v)).count();
        let m = mesh.elements.tris.iter().filter(|t| t.indexes.contains(&v)).count();
        assert_eq!(topo.vertices[v].incident_edges.len(), k);
        assert_eq!(topo.vertices[v].incident_tris.len(), m);
        for c in topo.vertices[v].incident_edges.iter() {
            assert_eq!(mesh.elements.edges[c.edge_index].indexes[c.connecting_vertex as usize], v);
        }
        for c in topo.vertices[v].incident_tris.iter() {
            assert_eq!(mesh.elements.tris[c.tri_index].indexes[c.connecting_vertex as usize], v);
        }
    }
    // Vertex 0 is named by three edges and two triangles, vertex 4 by nothing.
    assert_eq!(topo.vertices[0].incident_edges.len(), 3);
    assert_eq!(topo.vertices[0].incident_tris.len(), 2);
    assert!(topo.vertices[4].incident_edges.is_empty());
    assert!(topo.vertices[4].incident_tris.is_empty());
}

#[test]
fn an_element_that_names_a_vertex_twice_is_recorded_twice() {
    let mesh = mesh_of(&[[0., 0.], [1., 0.]], &[[1, 1]], &[[0, 1, 0]]);
    let mut topo = Topology::new(&mesh);
    topo.build_vertices();
    assert_eq!(
        topo.vertices[1].incident_edges,
        vec![
            VertexToEdge { edge_index: 0, connecting_vertex: VertexLabel::V0 },
            VertexToEdge { edge_index: 0, connecting_vertex: VertexLabel::V1 },
        ]
    );
    assert_eq!(
        topo.vertices[0].incident_tris,
        vec![
            VertexToTri { tri_index: 0, connecting_vertex: VertexLabel::V0 },
            VertexToTri { tri_index: 0, connecting_vertex: VertexLabel::V2 },
        ]
    );
}

#[test]
fn empty_mesh_builds_empty_arrays() {
    let mesh = mesh_of(&[], &[], &[]);
    let mut topo = Topology::new(&mesh);
    topo.build_vertices().build_edges().build_triangles();
    assert!(topo.vertices.is_empty());
    assert!(topo.edges.is_empty());
    assert!(topo.tris.is_empty());
}

#[test]
fn rebuilding_clears_what_was_there() {
    let mesh = unit_square();
    let mut topo = Topology::new(&mesh);
    topo.vertices.push(VertexTopology::new());
    topo.edges.push(EdgeTopology::new());
    topo.tris.push(TriTopology::new());
    topo.tris[0].tri_connections.push(tri_to_tri(EdgeLabel::E0, 9, EdgeLabel::E0, false));
    topo.build_vertices().build_edges().build_triangles();
    assert_eq!(topo.vertices.len(), 4);
    assert_eq!(topo.edges.len(), 4);
    assert_eq!(topo.tris.len(), 2);
    assert_eq!(topo.tris[0].tri_connections.len(), 1);
}
