use mersh::connections::{
    EdgeLabel, EdgePosition, EdgeToEdge, EdgeToTri, TriToTri, VertexLabel, VertexToEdge,
    VertexToTri,
};
use mersh::elements::{Edge, Tri};

fn position(label: EdgeLabel, is_reversed: bool) -> EdgePosition {
    EdgePosition { label, is_reversed }
}

#[test]
fn vertex_label_to_index_and_back() {
    assert_eq!(VertexLabel::V0.to_index(), 0);
    assert_eq!(VertexLabel::V1.to_index(), 1);
    assert_eq!(VertexLabel::V2.to_index(), 2);
    assert_eq!(VertexLabel::try_from_index(0), Some(VertexLabel::V0));
    assert_eq!(VertexLabel::try_from_index(1), Some(VertexLabel::V1));
    assert_eq!(VertexLabel::try_from_index(2), Some(VertexLabel::V2));
    assert_eq!(VertexLabel::try_from_index(3), None);
    assert_eq!(VertexLabel::try_from_index(usize::MAX), None);
    // The labels are numbered as they are declared.
    assert_eq!(VertexLabel::V0 as usize, 0);
    assert_eq!(VertexLabel::V1 as usize, 1);
    assert_eq!(VertexLabel::V2 as usize, 2);
}

#[test]
fn edge_label_to_index_and_back() {
    assert_eq!(EdgeLabel::E0.to_index(), 0);
    assert_eq!(EdgeLabel::E1.to_index(), 1);
    assert_eq!(EdgeLabel::E2.to_index(), 2);
    assert_eq!(EdgeLabel::try_from_index(0), Some(EdgeLabel::E0));
    assert_eq!(EdgeLabel::try_from_index(1), Some(EdgeLabel::E1));
    assert_eq!(EdgeLabel::try_from_index(2), Some(EdgeLabel::E2));
    assert_eq!(EdgeLabel::try_from_index(3), None);
    assert_eq!(EdgeLabel::E0 as usize, 0);
    assert_eq!(EdgeLabel::E1 as usize, 1);
    assert_eq!(EdgeLabel::E2 as usize, 2);
}

#[test]
fn vertex_to_edge_new() {
    let c = VertexToEdge::new(12, 0);
    assert!(c.edge_index == 12);
    assert!(matches!(c.connecting_vertex, VertexLabel::V0));
    assert!(c.connecting_vertex as usize == 0);

    let c = VertexToEdge::new(7, 1);
    assert_eq!(c, VertexToEdge { edge_index: 7, connecting_vertex: VertexLabel::V1 });
}

#[test]
fn vertex_to_tri_new() {
    let c = VertexToTri::new(6, 1);
    assert!(c.tri_index == 6);
    assert!(matches!(c.connecting_vertex, VertexLabel::V1));
    assert!(c.connecting_vertex as usize == 1);

    assert_eq!(VertexToTri::new(6, 0).connecting_vertex, VertexLabel::V0);
    assert_eq!(VertexToTri::new(6, 2).connecting_vertex, VertexLabel::V2);
}

#[test]
fn edge_to_edge_new() {
    // The last vertex in edge is connected by the 6th edge at its first vertex.
    let c = EdgeToEdge::new(1, VertexToEdge::new(6, 0));
    assert!(matches!(c.connecting_vertex, VertexLabel::V1));
    assert!(c.neighbour.edge_index == 6);
    assert!(c.neighbour.connecting_vertex as usize == 0);

    assert_eq!(EdgeToEdge::new(0, VertexToEdge::new(6, 1)).connecting_vertex, VertexLabel::V0);
}

#[test]
fn edge_to_tri_new() {
    let c = EdgeToTri::new(6, 1, false);
    assert!(c.tri_index == 6);
    assert!(matches!(c.connecting_edge.label, EdgeLabel::E1));
    assert!(c.connecting_edge.label as usize == 1);
    assert!(c.connecting_edge.is_reversed == false);

    assert_eq!(EdgeToTri::new(3, 0, true).connecting_edge, position(EdgeLabel::E0, true));
    assert_eq!(EdgeToTri::new(3, 2, true).connecting_edge, position(EdgeLabel::E2, true));
}

#[test]
fn tri_to_tri_new() {
    // The last edge in triangle is connected by the 19th triangle at its second edge.
    let c = TriToTri::new(2, EdgeToTri::new(19, 1, true));
    assert!(matches!(c.connecting_edge, EdgeLabel::E2));
    assert!(c.neighbour.tri_index == 19);
    assert!(c.neighbour.connecting_edge.label as usize == 1);
    assert!(c.neighbour.connecting_edge.is_reversed == true);

    assert_eq!(TriToTri::new(0, EdgeToTri::new(19, 1, true)).connecting_edge, EdgeLabel::E0);
    assert_eq!(TriToTri::new(1, EdgeToTri::new(19, 1, true)).connecting_edge, EdgeLabel::E1);
}

#[test]
fn edge_position_of_reversed_first_edge() {
    let edge = Edge { indexes: [1, 0] };
    let tri = Tri { indexes: [0, 1, 2] };
    let edge_position = EdgeToTri::get_edge_position(&edge, &tri);

    assert!(edge_position.is_some());
    assert!(edge_position.unwrap().label as usize == 0);
    assert!(edge_position.unwrap().is_reversed == true);
}

#[test]
fn edge_position_of_each_edge_in_both_directions() {
    let tri = Tri::new([7, 4, 9]);
    let found = |a: usize, b: usize| EdgeToTri::get_edge_position(&Edge::new([a, b]), &tri);
    assert_eq!(found(7, 4), Some(position(EdgeLabel::E0, false)));
    assert_eq!(found(4, 7), Some(position(EdgeLabel::E0, true)));
    assert_eq!(found(4, 9), Some(position(EdgeLabel::E1, false)));
    assert_eq!(found(9, 4), Some(position(EdgeLabel::E1, true)));
    assert_eq!(found(9, 7), Some(position(EdgeLabel::E2, false)));
    // The third edge of the triangle runs from its last corner to its first.
    assert_eq!(found(7, 9), Some(position(EdgeLabel::E2, true)));
}

#[test]
fn edge_position_needs_both_end_points() {
    let tri = Tri::new([0, 1, 2]);
    // One vertex in common is not enough.
    assert_eq!(EdgeToTri::get_edge_position(&Edge::new([0, 3]), &tri), None);
    assert_eq!(EdgeToTri::get_edge_position(&Edge::new([3, 2]), &tri), None);
    // Neither is none at all, nor twice the same corner.
    assert_eq!(EdgeToTri::get_edge_position(&Edge::new([5, 6]), &tri), None);
    assert_eq!(EdgeToTri::get_edge_position(&Edge::new([1, 1]), &tri), None);
}

#[test]
fn edge_position_is_the_first_that_fits() {
    // In a triangle with a repeated corner an edge may fit several slots; the first wins,
    // and the forward orientation comes before the reversed one.
    let tri = Tri::new([3, 3, 5]);
    assert_eq!(
        EdgeToTri::get_edge_position(&Edge::new([3, 3]), &tri),
        Some(position(EdgeLabel::E0, false))
    );
    assert_eq!(
        EdgeToTri::get_edge_position(&Edge::new([3, 5]), &tri),
        Some(position(EdgeLabel::E1, false))
    );
    assert_eq!(
        EdgeToTri::get_edge_position(&Edge::new([5, 3]), &tri),
        Some(position(EdgeLabel::E1, true))
    );
}

#[test]
fn common_edge_of_two_triangles() {
    let tri0 = Tri { indexes: [0, 1, 2] };
    let tri1 = Tri { indexes: [3, 2, 1] };
    let common_edge = TriToTri::get_common_edge(&tri0, &tri1);

    assert!(common_edge.is_some());
    assert!(common_edge.unwrap().0 as usize == 1);
    assert!(common_edge.unwrap().1.label as usize == 1);
    assert!(common_edge.unwrap().1.is_reversed == true);
    assert_eq!(common_edge, Some((EdgeLabel::E1, position(EdgeLabel::E1, true))));
}

#[test]
fn common_edge_seen_from_either_triangle() {
    let tri0 = Tri::new([0, 1, 2]);
    let tri1 = Tri::new([2, 3, 0]);
    // The diagonal is the third edge of the first triangle, (2, 0), and the third edge of
    // the second, (0, 2), which runs the other way.
    assert_eq!(
        TriToTri::get_common_edge(&tri0, &tri1),
        Some((EdgeLabel::E2, position(EdgeLabel::E2, true)))
    );
    assert_eq!(
        TriToTri::get_common_edge(&tri1, &tri0),
        Some((EdgeLabel::E2, position(EdgeLabel::E2, true)))
    );
}

#[test]
fn common_edge_with_the_same_direction() {
    // Two triangles that run along their common edge in the same direction.
    let tri0 = Tri::new([0, 1, 2]);
    let tri1 = Tri::new([5, 0, 1]);
    assert_eq!(
        TriToTri::get_common_edge(&tri0, &tri1),
        Some((EdgeLabel::E0, position(EdgeLabel::E1, false)))
    );
}

#[test]
fn common_edge_is_the_first_of_the_first_triangle() {
    // The same triangle turned over has all three edges in common.
    let tri0 = Tri::new([0, 1, 2]);
    let tri1 = Tri::new([2, 1, 0]);
    assert_eq!(
        TriToTri::get_common_edge(&tri0, &tri1),
        Some((EdgeLabel::E0, position(EdgeLabel::E1, true)))
    );
}

#[test]
fn no_common_edge() {
    let tri0 = Tri::new([0, 1, 2]);
    // A single corner in common.
    assert_eq!(TriToTri::get_common_edge(&tri0, &Tri::new([2, 3, 4])), None);
    // Nothing in common.
    assert_eq!(TriToTri::get_common_edge(&tri0, &Tri::new([5, 3, 4])), None);
}
