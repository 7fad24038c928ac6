//! Errors reported by lattice generation, vertex queries and routing.

use vstd::prelude::*;

verus! {

/// Errors returned by lattice generation, vertex queries and routing.
#[derive(Debug, Clone, Copy, PartialEq, Eq, Structural)]
pub enum SphereError {
    /// Point count must be at least 1.
    InvalidPointCount {
        /// The invalid point count supplied.
        n: usize,
    },
    /// Radius must be strictly positive.
    InvalidRadius {
        /// IEEE-754 bit pattern of the invalid `f64` radius supplied.
        radius_bits: u64,
    },
    /// Vertex index is outside the lattice point range.
    InvalidVertexIndex {
        /// The invalid vertex index supplied.
        index: usize,
        /// Number of vertices in the lattice.
        count: usize,
    },
    /// No path exists between the two vertices on the Delaunay mesh graph.
    NoSurfacePath {
        /// Start vertex index.
        from: usize,
        /// End vertex index.
        to: usize,
    },
    /// Terrain-filtered routing requires a generated terrain map.
    TerrainNotGenerated,
}

/// Accept a point count of at least one.
pub fn validate_point_count(n: usize) -> (result: Result<(), SphereError>)
    ensures
        result is Ok <==> n >= 1,
        result is Err ==> result == Err::<(), SphereError>(SphereError::InvalidPointCount { n }),
{
    if n == 0 {
        return Err(SphereError::InvalidPointCount { n });
    }
    Ok(())
}

/// Accept a vertex index below `count`.
pub fn validate_vertex_index(index: usize, count: usize) -> (result: Result<(), SphereError>)
    ensures
        result is Ok <==> index < count,
        result is Err ==> result == Err::<(), SphereError>(SphereError::InvalidVertexIndex { index, count }),
{
    if index >= count {
        return Err(SphereError::InvalidVertexIndex { index, count });
    }
    Ok(())
}

} // verus!
