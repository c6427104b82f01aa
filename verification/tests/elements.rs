use mersh::elements::{Edge, Hexa, MeshElements, Quad, Tet, Tri};

#[test]
fn elements_new() {
    let idx = [0, 13];
    let edge = Edge::new(idx);
    assert_eq!(edge.indexes, idx);

    let idx = [0, 13, 24];
    let tri = Tri::new(idx);
    assert_eq!(tri.indexes, idx);

    let idx = [0, 13, 53, 21];
    let quad = Quad::new(idx);
    assert_eq!(quad.indexes, idx);

    let idx = [0, 13, 34, 98];
    let tet = Tet::new(idx);
    assert_eq!(tet.indexes, idx);

    let idx = [0, 13, 34, 98, 35, 69, 90, 43];
    let hexa = Hexa::new(idx);
    assert_eq!(hexa.indexes, idx);
}

#[test]
fn elements_fit_a_mesh_with_enough_vertices() {
    let elements = MeshElements {
        edges: vec![Edge::new([0, 1]), Edge::new([1, 3])],
        tris: vec![Tri::new([1, 0, 3])],
    };
    assert!(elements.is_within(4));
    assert!(elements.is_within(usize::MAX));
}

#[test]
fn elements_do_not_fit_a_mesh_with_too_few_vertices() {
    let elements = MeshElements {
        edges: vec![Edge::new([0, 1]), Edge::new([1, 3])],
        tris: vec![Tri::new([1, 0, 2])],
    };
    // Vertex 3 is named by the second edge only.
    assert!(!elements.is_within(3));
    assert!(!elements.is_within(0));

    let elements = MeshElements { edges: vec![Edge::new([0, 1])], tris: vec![Tri::new([1, 0, 5])] };
    // Vertex 5 is named by the triangle only.
    assert!(elements.is_within(6));
    assert!(!elements.is_within(5));
}

#[test]
fn no_elements_fit_any_mesh() {
    let elements = MeshElements { edges: Vec::new(), tris: Vec::new() };
    assert!(elements.is_within(0));
}
