//! Meshes: a pool of vertices and the elements that refer to it.
//!
//! A mesh is generic over the type `P` of its points, which it stores and hands back
//! without looking into them.

use vstd::prelude::*;
use crate::elements::{Edge, Hexa, MeshElements, Quad, Tet, Tri};
use crate::tag::{registered, TagSet};
use crate::vertices::Vertex2d;
use crate::views::{
    EdgeView2d, EdgeView3d, HexaView3d, QuadView3d, TetView3d, TriView2d, TriView3d,
};

verus! {

/// A 2d mesh over points of type `P`.
pub struct Mesh2d<P> {
    /// Associated set of vertices.
    pub vertices: Vec<Vertex2d<P>>,
    /// Set of mesh elements.
    pub elements: MeshElements,
}

/// Structure defining a 3d tagged mesh over points of type `P`.
pub struct Mesh3d<P> {
    /// Vertices of the mesh.
    pub vertices: Vec<P>,
    /// Edges of the mesh.
    pub edges: Vec<Edge>,
    /// Triangles of the mesh.
    pub triangles: Vec<Tri>,
    /// Quadrangles of the mesh.
    pub quadrangles: Vec<Quad>,
    /// Tetrahedra of the mesh.
    pub tetrahedra: Vec<Tet>,
    /// Hexahedra of the mesh.
    pub hexahedra: Vec<Hexa>,
    /// Tags of the vertices.
    pub vertices_tags: TagSet,
    /// Tags of the edges.
    pub edges_tags: TagSet,
    /// Tags of the triangles.
    pub triangles_tags: TagSet,
    /// Tags of the quadrangles.
    pub quadrangles_tags: TagSet,
    /// Tags of the tetrahedra.
    pub tetrahedra_tags: TagSet,
    /// Tags of the hexahedra.
    pub hexahedra_tags: TagSet,
}

impl<P> Mesh2d<P> {
    /// Creates the view of edge number `i`: its two end points.
    pub fn view_edge(&self, i: usize) -> (view: EdgeView2d<'_, P>)
        requires
            i < self.elements.edges@.len(),
            self.elements.edges@[i as int].within(self.vertices@.len()),
        ensures
            *view.p0 == self.vertices@[self.elements.edges@[i as int].indexes[0] as int].point,
            *view.p1 == self.vertices@[self.elements.edges@[i as int].indexes[1] as int].point,
    {
        EdgeView2d {
            p0: &self.vertices[self.elements.edges[i].indexes[0]].point,
            p1: &self.vertices[self.elements.edges[i].indexes[1]].point,
        }
    }

    /// Creates the view of triangle number `i`: its three corners.
    pub fn view_tri(&self, i: usize) -> (view: TriView2d<'_, P>)
        requires
            i < self.elements.tris@.len(),
            self.elements.tris@[i as int].within(self.vertices@.len()),
        ensures
            *view.p0 == self.vertices@[self.elements.tris@[i as int].indexes[0] as int].point,
            *view.p1 == self.vertices@[self.elements.tris@[i as int].indexes[1] as int].point,
            *view.p2 == self.vertices@[self.elements.tris@[i as int].indexes[2] as int].point,
    {
        TriView2d {
            p0: &self.vertices[self.elements.tris[i].indexes[0]].point,
            p1: &self.vertices[self.elements.tris[i].indexes[1]].point,
            p2: &self.vertices[self.elements.tris[i].indexes[2]].point,
        }
    }
}

impl<P> Mesh3d<P> {
    /// Creates a tagged vertex from a point and a tag name.
    ///
    /// * `point` - Point to add in the mesh.
    /// * `name` - Tag name.
    pub fn push_tagged_vertex(&mut self, point: P, name: &str)
        ensures
            final(self).vertices@ == old(self).vertices@.push(point),
            final(self).vertices_tags@ == registered(
                old(self).vertices_tags@,
                name@,
                old(self).vertices@.len() as usize,
            ),
            *final(self) == (Mesh3d {
                vertices: final(self).vertices,
                vertices_tags: final(self).vertices_tags,
                ..*old(self)
            }),
    {
        push_tagged_element(&mut self.vertices, &mut self.vertices_tags, point, name);
    }

    /// Creates a tagged edge in the mesh.
    ///
    /// * `edge` - Edge to add in the mesh.
    /// * `name` - Tag name.
    pub fn push_tagged_edge(&mut self, edge: Edge, name: &str)
        ensures
            final(self).edges@ == old(self).edges@.push(edge),
            final(self).edges_tags@ == registered(
                old(self).edges_tags@,
                name@,
                old(self).edges@.len() as usize,
            ),
            *final(self) == (Mesh3d {
                edges: final(self).edges,
                edges_tags: final(self).edges_tags,
                ..*old(self)
            }),
    {
        push_tagged_element(&mut self.edges, &mut self.edges_tags, edge, name);
    }

    /// Creates a view to an edge in the mesh from the edge itself.
    ///
    /// * `edge` - Edge in the mesh.
    pub fn get_edge_view<'a>(&'a self, edge: &Edge) -> (view: EdgeView3d<'a, P>)
        requires
            edge.within(self.vertices@.len()),
        ensures
            forall|k: int|
                0 <= k < 2 ==> *#[trigger] view.points[k] == self.vertices@[edge.indexes[k] as int],
    {
        EdgeView3d { points: get_two_vertices_view(self.vertices.as_slice(), &edge.indexes) }
    }

    /// Creates a tagged triangle in the mesh.
    ///
    /// * `tri` - Triangle to add in the mesh.
    /// * `name` - Tag name.
    pub fn push_tagged_triangle(&mut self, tri: Tri, name: &str)
        ensures
            final(self).triangles@ == old(self).triangles@.push(tri),
            final(self).triangles_tags@ == registered(
                old(self).triangles_tags@,
                name@,
                old(self).triangles@.len() as usize,
            ),
            *final(self) == (Mesh3d {
                triangles: final(self).triangles,
                triangles_tags: final(self).triangles_tags,
                ..*old(self)
            }),
    {
        push_tagged_element(&mut self.triangles, &mut self.triangles_tags, tri, name);
    }

    /// Makes a view to a triangle in the mesh from the element itself.
    ///
    /// * `tri` - Triangle in the mesh.
    pub fn get_tri_view<'a>(&'a self, tri: &Tri) -> (view: TriView3d<'a, P>)
        requires
            tri.within(self.vertices@.len()),
        ensures
            forall|k: int|
                0 <= k < 3 ==> *#[trigger] view.points[k] == self.vertices@[tri.indexes[k] as int],
    {
        TriView3d { points: get_three_vertices_view(self.vertices.as_slice(), &tri.indexes) }
    }

    /// Creates a tagged quadrangle in the mesh.
    ///
    /// * `quad` - Quadrangle to add in the mesh.
    /// * `name` - Tag name.
    pub fn push_tagged_quadrangle(&mut self, quad: Quad, name: &str)
        ensures
            final(self).quadrangles@ == old(self).quadrangles@.push(quad),
            final(self).quadrangles_tags@ == registered(
                old(self).quadrangles_tags@,
                name@,
                old(self).quadrangles@.len() as usize,
            ),
            *final(self) == (Mesh3d {
                quadrangles: final(self).quadrangles,
                quadrangles_tags: final(self).quadrangles_tags,
                ..*old(self)
            }),
    {
        push_tagged_element(&mut self.quadrangles, &mut self.quadrangles_tags, quad, name);
    }

    /// Makes a view to a quadrangle in the mesh from the element itself.
    ///
    /// * `quad` - Quadrangle in the mesh.
    pub fn get_quad_view<'a>(&'a self, quad: &Quad) -> (view: QuadView3d<'a, P>)
        requires
            quad.within(self.vertices@.len()),
        ensures
            forall|k: int|
                0 <= k < 4 ==> *#[trigger] view.points[k] == self.vertices@[quad.indexes[k] as int],
    {
        QuadView3d { points: get_four_vertices_view(self.vertices.as_slice(), &quad.indexes) }
    }

    /// Creates a tagged tetrahedron in the mesh.
    ///
    /// * `tet` - Tetrahedron to add in the mesh.
    /// * `name` - Tag name.
    pub fn push_tagged_tetrahedron(&mut self, tet: Tet, name: &str)
        ensures
            final(self).tetrahedra@ == old(self).tetrahedra@.push(tet),
            final(self).tetrahedra_tags@ == registered(
                old(self).tetrahedra_tags@,
                name@,
                old(self).tetrahedra@.len() as usize,
            ),
            *final(self) == (Mesh3d {
                tetrahedra: final(self).tetrahedra,
                tetrahedra_tags: final(self).tetrahedra_tags,
                ..*old(self)
            }),
    {
        push_tagged_element(&mut self.tetrahedra, &mut self.tetrahedra_tags, tet, name);
    }

    /// Makes a view to a tetrahedron in the mesh from the element itself.
    ///
    /// * `tet` - Tetrahedron in the mesh.
    pub fn get_tet_view<'a>(&'a self, tet: &Tet) -> (view: TetView3d<'a, P>)
        requires
            tet.within(self.vertices@.len()),
        ensures
            forall|k: int|
                0 <= k < 4 ==> *#[trigger] view.points[k] == self.vertices@[tet.indexes[k] as int],
    {
        TetView3d { points: get_four_vertices_view(self.vertices.as_slice(), &tet.indexes) }
    }

    /// Creates a tagged hexahedron in the mesh.
    ///
    /// * `hexa` - Hexahedron to add in the mesh.
    /// * `name` - Tag name.
    pub fn push_tagged_hexahedron(&mut self, hexa: Hexa, name: &str)
        ensures
            final(self).hexahedra@ == old(self).hexahedra@.push(hexa),
            final(self).hexahedra_tags@ == registered(
                old(self).hexahedra_tags@,
                name@,
                old(self).hexahedra@.len() as usize,
            ),
            *final(self) == (Mesh3d {
                hexahedra: final(self).hexahedra,
                hexahedra_tags: final(self).hexahedra_tags,
                ..*old(self)
            }),
    {
        push_tagged_element(&mut self.hexahedra, &mut self.hexahedra_tags, hexa, name);
    }

    /// Makes a view to a hexahedron in the mesh from the element itself.
    ///
    /// * `hexa` - Hexahedron in the mesh.
    pub fn get_hexa_view<'a>(&'a self, hexa: &Hexa) -> (view: HexaView3d<'a, P>)
        requires
            hexa.within(self.vertices@.len()),
        ensures
            forall|k: int|
                0 <= k < 8 ==> *#[trigger] view.points[k] == self.vertices@[hexa.indexes[k] as int],
    {
        HexaView3d { points: get_eight_vertices_view(self.vertices.as_slice(), &hexa.indexes) }
    }
}

impl<P> Default for Mesh3d<P> {
    /// Creates a mesh without vertices, elements or tags.
    fn default() -> (mesh: Mesh3d<P>)
        ensures
            mesh.vertices@.len() == 0,
            mesh.edges@.len() == 0,
            mesh.triangles@.len() == 0,
            mesh.quadrangles@.len() == 0,
            mesh.tetrahedra@.len() == 0,
            mesh.hexahedra@.len() == 0,
            mesh.vertices_tags@ == Map::<Seq<char>, Seq<usize>>::empty(),
            mesh.edges_tags@ == Map::<Seq<char>, Seq<usize>>::empty(),
            mesh.triangles_tags@ == Map::<Seq<char>, Seq<usize>>::empty(),
            mesh.quadrangles_tags@ == Map::<Seq<char>, Seq<usize>>::empty(),
            mesh.tetrahedra_tags@ == Map::<Seq<char>, Seq<usize>>::empty(),
            mesh.hexahedra_tags@ == Map::<Seq<char>, Seq<usize>>::empty(),
    {
        Mesh3d {
            vertices: Vec::new(),
            edges: Vec::new(),
            triangles: Vec::new(),
            quadrangles: Vec::new(),
            tetrahedra: Vec::new(),
            hexahedra: Vec::new(),
            vertices_tags: TagSet::default(),
            edges_tags: TagSet::default(),
            triangles_tags: TagSet::default(),
            quadrangles_tags: TagSet::default(),
            tetrahedra_tags: TagSet::default(),
            hexahedra_tags: TagSet::default(),
        }
    }
}

/// Pushes an element into a vector of elements and registers its index under a tag name.
fn push_tagged_element<T>(elements: &mut Vec<T>, tags: &mut TagSet, element: T, name: &str)
    ensures
        final(elements)@ == old(elements)@.push(element),
        final(tags)@ == registered(old(tags)@, name@, old(elements)@.len() as usize),
{
    let idx = elements.len();
    elements.push(element);
    tags.register(name, idx);
}

/// Extracts references to the vertices of a two vertices element.
fn get_two_vertices_view<'a, T>(vertices: &'a [T], indexes: &[usize; 2]) -> (view: [&'a T; 2])
    requires
        forall|k: int| 0 <= k < 2 ==> (#[trigger] indexes[k]) < vertices@.len(),
    ensures
        forall|k: int| 0 <= k < 2 ==> *#[trigger] view[k] == vertices@[indexes[k] as int],
{
    [&vertices[indexes[0]], &vertices[indexes[1]]]
}

/// Extracts references to the vertices of a three vertices element.
fn get_three_vertices_view<'a, T>(vertices: &'a [T], indexes: &[usize; 3]) -> (view: [&'a T; 3])
    requires
        forall|k: int| 0 <= k < 3 ==> (#[trigger] indexes[k]) < vertices@.len(),
    ensures
        forall|k: int| 0 <= k < 3 ==> *#[trigger] view[k] == vertices@[indexes[k] as int],
{
    [&vertices[indexes[0]], &vertices[indexes[1]], &vertices[indexes[2]]]
}

/// Extracts references to the vertices of a four vertices element.
fn get_four_vertices_view<'a, T>(vertices: &'a [T], indexes: &[usize; 4]) -> (view: [&'a T; 4])
    requires
        forall|k: int| 0 <= k < 4 ==> (#[trigger] indexes[k]) < vertices@.len(),
    ensures
        forall|k: int| 0 <= k < 4 ==> *#[trigger] view[k] == vertices@[indexes[k] as int],
{
    [
        &vertices[indexes[0]],
        &vertices[indexes[1]],
        &vertices[indexes[2]],
        &vertices[indexes[3]],
    ]
}

/// Extracts references to the vertices of an eight vertices element.
fn get_eight_vertices_view<'a, T>(vertices: &'a [T], indexes: &[usize; 8]) -> (view: [&'a T; 8])
    requires
        forall|k: int| 0 <= k < 8 ==> (#[trigger] indexes[k]) < vertices@.len(),
    ensures
        forall|k: int| 0 <= k < 8 ==> *#[trigger] view[k] == vertices@[indexes[k] as int],
{
    [
        &vertices[indexes[0]],
        &vertices[indexes[1]],
        &vertices[indexes[2]],
        &vertices[indexes[3]],
        &vertices[indexes[4]],
        &vertices[indexes[5]],
        &vertices[indexes[6]],
        &vertices[indexes[7]],
    ]
}

} // verus!
