//! Fibonacci sphere lattices: distribution metadata, surface topology and terrain rules.
//!
//! Coordinates are Y-up and right-handed. This crate holds the combinatorial core of the
//! library, each part with a machine-checked contract:
//!
//! - [`methods`]: the distribution methods, their metadata, ε tables and ring layouts;
//! - [`topology`]: Delaunay mesh connectivity, Bowyer–Watson cavity steps, Voronoi face
//!   adjacency and dual edges, the routing graph and route planning;
//! - [`terrain`]: terrain types and bands, area classification, border kinds, coastline
//!   edges, random and cluster assignment, reassignment rules and polar caps;
//! - [`render`]: index layouts of cell fans, combined meshes and line ribbons;
//! - [`error`]: the errors the library reports.

pub mod error;
pub mod methods;
pub mod render;
pub mod terrain;
pub mod topology;

pub use error::SphereError;
pub use methods::{DistributionMethod, MethodInfo, OptimizationGoal};
