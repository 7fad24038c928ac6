//! Surface topology for sphere lattices: Delaunay mesh connectivity, Voronoi face
//! adjacency and routing graphs.

pub mod delaunay;
pub mod dual;
pub mod graph;
pub mod route;
pub mod spherical;
pub mod voronoi;

pub use graph::SurfaceGraph;
pub use spherical::{SphericalMesh, WireframeEdge};
