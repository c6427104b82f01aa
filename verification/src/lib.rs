//! Connectivity of unstructured simplicial meshes.
//!
//! A mesh is a pool of vertices and flat arrays of elements, each element a tuple of vertex
//! indices. From the edges and triangles of a mesh, [`topology::Topology`] derives which
//! edges and triangles touch a vertex, which edges meet an edge at an end point, which
//! triangles an edge belongs to, and which triangles border a triangle across a common edge,
//! each with the local slot at which the neighbour is attached.
//!
//! The library is purely combinatorial. It stores the points of a mesh and hands them back,
//! but never looks at their coordinates, so meshes and views are generic over the type of
//! their points.
//!
//! * [`elements`]: edges, triangles and the other elements, as tuples of vertex indices.
//! * [`connections`]: labels of slots, connection records, the position of an edge in a
//!   triangle and the common edge of two triangles.
//! * [`adjacency`]: the incidence and adjacency lists as sequences, and what holds of them.
//! * [`topology`]: the builder of those lists for a mesh.
//! * [`tag`]: names under which indexes of elements are registered.
//! * [`mesh`], [`vertices`], [`views`]: meshes, their vertices, and elements seen as the
//!   points that they join.

pub mod adjacency;
pub mod connections;
pub mod elements;
pub mod mesh;
pub mod tag;
pub mod topology;
pub mod vertices;
pub mod views;
