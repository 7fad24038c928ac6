//! Terrain classification for lattice vertices.

pub mod areas;
pub mod assign;
pub mod indices;
pub mod borders;
pub mod polar;
pub mod polygons;
pub mod reassign;
pub mod rng;
pub mod types;

pub use areas::{area_border_edges, build_voronoi_areas, classify_site, AreaKind, TerrainArea, TerrainAreaMap};
pub use borders::{classify_area_border, is_coastline_border, AreaBorderKind};
pub use types::{ElevationBand, TerrainMap, TerrainType};
pub use rng::{terrain_rng_from_godot_seed, terrain_rng_from_seed};
pub use reassign::{AdjacentTypeReassigner, BandPreservingReassigner, TerrainReassigner};
pub use assign::{ClusterAssigner, RandomAssigner};
