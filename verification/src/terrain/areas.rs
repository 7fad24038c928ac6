//! Voronoi-cell terrain areas.
//!
//! Each lattice vertex generates one Voronoi cell centered on that site. Cell
//! classification follows the terrain type at the site. Delaunay edges provide
//! connectivity and routing; Voronoi dual edges form area boundaries.

use vstd::prelude::*;

use crate::topology::graph::SurfaceGraph;
use crate::topology::spherical::{first_occurrences, normalized_pair, ordered_pair, SphericalMesh};

use super::types::{TerrainMap, TerrainType};

verus! {

/// Terrain classification for a Voronoi cell area.
#[derive(Debug, Clone, Copy, PartialEq, Eq, Hash, Structural)]
pub enum AreaKind {
    /// Shallow below-sea cell region.
    Water,
    /// Deep below-sea cell region.
    DeepWater,
    /// Dry lowland cell region.
    Land,
    /// Dry highland cell region.
    Mountain,
    /// Polar lowland ice.
    Ice,
    /// Polar highland ice.
    IceMountain,
}

/// Area kind of a Voronoi cell whose site has terrain type `t`.
pub open spec fn kind_of_terrain(t: TerrainType) -> AreaKind {
    match t {
        TerrainType::Water => AreaKind::Water,
        TerrainType::DeepWater => AreaKind::DeepWater,
        TerrainType::Land => AreaKind::Land,
        TerrainType::Mountain => AreaKind::Mountain,
        TerrainType::Ice => AreaKind::Ice,
        TerrainType::IceMountain => AreaKind::IceMountain,
    }
}

/// Terrain type that an area kind stands for.
pub open spec fn terrain_of_kind(k: AreaKind) -> TerrainType {
    match k {
        AreaKind::Water => TerrainType::Water,
        AreaKind::DeepWater => TerrainType::DeepWater,
        AreaKind::Land => TerrainType::Land,
        AreaKind::Mountain => TerrainType::Mountain,
        AreaKind::Ice => TerrainType::Ice,
        AreaKind::IceMountain => TerrainType::IceMountain,
    }
}

impl AreaKind {
    /// Map to the terrain type for this area kind.
    pub fn terrain_type(self) -> (t: TerrainType)
        ensures
            t == terrain_of_kind(self),
    {
        match self {
            AreaKind::Water => TerrainType::Water,
            AreaKind::DeepWater => TerrainType::DeepWater,
            AreaKind::Land => TerrainType::Land,
            AreaKind::Mountain => TerrainType::Mountain,
            AreaKind::Ice => TerrainType::Ice,
            AreaKind::IceMountain => TerrainType::IceMountain,
        }
    }
}

/// One Voronoi cell area centered on a lattice site.
#[derive(Debug, Clone, Copy, PartialEq, Eq, Structural)]
pub struct TerrainArea {
    /// Stable area identifier (equal to [`Self::site_index`]).
    pub id: usize,
    /// Generator vertex / cell center.
    pub site_index: usize,
    /// Classification at the generator site.
    pub kind: AreaKind,
}

/// Voronoi partition of the sphere into one cell per lattice site.
#[derive(Debug, Clone, PartialEq, Eq)]
pub struct TerrainAreaMap {
    /// All areas in site-index order.
    pub areas: Vec<TerrainArea>,
    /// Site index → area id.
    pub site_to_area: Vec<usize>,
}

/// Area kind assigned to site `v` by an area map.
pub open spec fn site_kind(map: TerrainAreaMap, v: usize) -> AreaKind {
    map.areas@[map.site_to_area@[v as int] as int].kind
}

/// The map can be looked up for every endpoint of every mesh edge.
pub open spec fn covers_edges(map: TerrainAreaMap, edges: Seq<[usize; 2]>) -> bool {
    &&& forall|i: int| 0 <= i < map.site_to_area@.len() ==> #[trigger] map.site_to_area@[i] < map.areas@.len()
    &&& forall|i: int| 0 <= i < edges.len() ==> (#[trigger] edges[i])[0] < map.site_to_area@.len() && edges[i][1] < map.site_to_area@.len()
}

/// Edge `e` joins two sites whose areas differ in kind.
pub open spec fn crosses_area_border(map: TerrainAreaMap, e: [usize; 2]) -> bool {
    site_kind(map, e[0]) != site_kind(map, e[1])
}

/// The ordered pair of an edge, as an array.
pub open spec fn ordered_edge(e: [usize; 2]) -> [usize; 2] {
    [ordered_pair(e[0], e[1]).0, ordered_pair(e[0], e[1]).1]
}

/// `e` is the ordered form of one of the first `bound` edges, and that edge crosses a
/// border between area kinds.
pub open spec fn is_border_among(map: TerrainAreaMap, edges: Seq<[usize; 2]>, e: [usize; 2], bound: int) -> bool {
    exists|i: int| 0 <= i < bound && crosses_area_border(map, #[trigger] edges[i]) && e == ordered_edge(edges[i])
}

/// Classify a Voronoi cell from its generator site's terrain type.
pub fn classify_site(terrain_type: TerrainType) -> (kind: AreaKind)
    ensures
        kind == kind_of_terrain(terrain_type),
{
    match terrain_type {
        TerrainType::Water => AreaKind::Water,
        TerrainType::DeepWater => AreaKind::DeepWater,
        TerrainType::Land => AreaKind::Land,
        TerrainType::Mountain => AreaKind::Mountain,
        TerrainType::Ice => AreaKind::Ice,
        TerrainType::IceMountain => AreaKind::IceMountain,
    }
}

/// Build one Voronoi cell area per lattice site.
pub fn build_voronoi_areas(terrain: &TerrainMap, _mesh: &SphericalMesh, _graph: &SurfaceGraph) -> (map: TerrainAreaMap)
    ensures
        map.areas@.len() == terrain@.len(),
        map.site_to_area@.len() == terrain@.len(),
        forall|i: int| 0 <= i < terrain@.len() ==> (#[trigger] map.areas@[i]) == (TerrainArea {
            id: i as usize,
            site_index: i as usize,
            kind: kind_of_terrain(terrain@[i]),
        }),
        forall|i: int| 0 <= i < terrain@.len() ==> #[trigger] map.site_to_area@[i] == i,
{
    let site_count = terrain.len();
    let slice = terrain.as_slice();
    let mut areas: Vec<TerrainArea> = Vec::new();
    let mut site_to_area: Vec<usize> = Vec::new();
    let mut site_index: usize = 0;
    while site_index < site_count
        invariant
            site_count == terrain@.len(),
            slice@ == terrain@,
            site_index <= site_count,
            areas@.len() == site_index,
            site_to_area@.len() == site_index,
            forall|i: int| 0 <= i < site_index ==> (#[trigger] areas@[i]) == (TerrainArea {
                id: i as usize,
                site_index: i as usize,
                kind: kind_of_terrain(terrain@[i]),
            }),
            forall|i: int| 0 <= i < site_index ==> #[trigger] site_to_area@[i] == i,
        decreases site_count - site_index,
    {
        let kind = classify_site(slice[site_index]);
        areas.push(TerrainArea { id: site_index, site_index, kind });
        site_to_area.push(site_index);
        site_index = site_index + 1;
    }
    TerrainAreaMap { areas, site_to_area }
}

/// Whether `edges` already holds the pair `[a, b]`.
fn holds_edge(edges: &Vec<[usize; 2]>, a: usize, b: usize) -> (found: bool)
    ensures
        found <==> edges@.contains([a, b]),
{
    let mut i: usize = 0;
    while i < edges.len()
        invariant
            i <= edges@.len(),
            forall|k: int| 0 <= k < i ==> edges@[k] != [a, b],
        decreases edges@.len() - i,
    {
        if edges[i][0] == a && edges[i][1] == b {
            assert(edges@[i as int] =~= [a, b]);
            return true;
        }
        i = i + 1;
    }
    false
}

/// The crossing edges among `edges`, each with its smaller index first, in mesh order
/// (repeats kept).
pub open spec fn crossing_keys(map: TerrainAreaMap, edges: Seq<[usize; 2]>) -> Seq<[usize; 2]>
    decreases edges.len(),
{
    if edges.len() == 0 {
        Seq::empty()
    } else if crosses_area_border(map, edges.last()) {
        crossing_keys(map, edges.drop_last()).push(ordered_edge(edges.last()))
    } else {
        crossing_keys(map, edges.drop_last())
    }
}

/// Delaunay edges separating sites with different area classifications.
///
/// Each such edge is reported once, with its smaller index first; edges are reported in
/// the order in which the mesh first lists them.
pub fn area_border_edges(mesh: &SphericalMesh, area_map: &TerrainAreaMap) -> (borders: Vec<[usize; 2]>)
    requires
        covers_edges(*area_map, mesh.edges@),
    ensures
        borders@ == first_occurrences(crossing_keys(*area_map, mesh.edges@)),
        borders@.no_duplicates(),
        forall|k: int| 0 <= k < borders@.len() ==> is_border_among(*area_map, mesh.edges@, #[trigger] borders@[k], mesh.edges@.len() as int),
        forall|j: int| 0 <= j < mesh.edges@.len() && crosses_area_border(*area_map, #[trigger] mesh.edges@[j])
            ==> borders@.contains(ordered_edge(mesh.edges@[j])),
{
    let mut borders: Vec<[usize; 2]> = Vec::new();
    let mut j: usize = 0;
    while j < mesh.edges.len()
        invariant
            j <= mesh.edges@.len(),
            covers_edges(*area_map, mesh.edges@),
            borders@ == first_occurrences(crossing_keys(*area_map, mesh.edges@.take(j as int))),
            borders@.no_duplicates(),
            forall|k: int| 0 <= k < borders@.len() ==> is_border_among(*area_map, mesh.edges@, #[trigger] borders@[k], j as int),
            forall|i: int| 0 <= i < j && crosses_area_border(*area_map, #[trigger] mesh.edges@[i])
                ==> borders@.contains(ordered_edge(mesh.edges@[i])),
        decreases mesh.edges@.len() - j,
    {
        proof {
            let prefix = mesh.edges@.take(j + 1);
            assert(prefix.drop_last() =~= mesh.edges@.take(j as int));
            assert(prefix.last() == mesh.edges@[j as int]);
            if crosses_area_border(*area_map, mesh.edges@[j as int]) {
                assert(crossing_keys(*area_map, prefix).drop_last() =~= crossing_keys(*area_map, mesh.edges@.take(j as int)));
            }
        }
        let left = mesh.edges[j][0];
        let right = mesh.edges[j][1];
        let left_kind = area_map.areas[area_map.site_to_area[left]].kind;
        let right_kind = area_map.areas[area_map.site_to_area[right]].kind;
        if left_kind != right_kind {
            let (a, b) = normalized_pair(left, right);
            assert([a, b] =~= ordered_edge(mesh.edges@[j as int]));
            if !holds_edge(&borders, a, b) {
                let ghost old_borders = borders@;
                borders.push([a, b]);
                proof {
                    assert forall|x: int, y: int| 0 <= x < y < borders@.len() implies borders@[x] != borders@[y] by {
                        if y == borders@.len() - 1 {
                            assert(old_borders.contains(borders@[x]));
                        }
                    }
                    assert forall|k: int| 0 <= k < borders@.len() implies is_border_among(*area_map, mesh.edges@, #[trigger] borders@[k], j + 1) by {
                        if k < old_borders.len() {
                            assert(old_borders[k] == borders@[k]);
                            assert(is_border_among(*area_map, mesh.edges@, old_borders[k], j as int));
                        } else {
                            assert(crosses_area_border(*area_map, mesh.edges@[j as int]));
                        }
                    }
                    assert forall|i: int| 0 <= i < j + 1 && crosses_area_border(*area_map, #[trigger] mesh.edges@[i])
                        implies borders@.contains(ordered_edge(mesh.edges@[i])) by {
                        if i < j {
                            let t = choose|t: int| 0 <= t < old_borders.len() && old_borders[t] == ordered_edge(mesh.edges@[i]);
                            assert(borders@[t] == old_borders[t]);
                        } else {
                            assert(borders@[borders@.len() - 1] == [a, b]);
                        }
                    }
                }
            }
        }
        assert forall|k: int| 0 <= k < borders@.len() implies is_border_among(*area_map, mesh.edges@, #[trigger] borders@[k], j + 1) by {
            if is_border_among(*area_map, mesh.edges@, borders@[k], j as int) {
                let i = choose|i: int| 0 <= i < j && crosses_area_border(*area_map, #[trigger] mesh.edges@[i]) && borders@[k] == ordered_edge(mesh.edges@[i]);
                assert(crosses_area_border(*area_map, mesh.edges@[i]));
            }
        }
        j = j + 1;
    }
    proof {
        assert(mesh.edges@.take(mesh.edges@.len() as int) =~= mesh.edges@);
    }
    borders
}

/// Area kinds and terrain types correspond one to one: classifying a site and mapping the
/// kind back gives the site's terrain type, and the other way round.
pub proof fn area_kinds_match_terrain_types(t: TerrainType, k: AreaKind)
    ensures
        terrain_of_kind(kind_of_terrain(t)) == t,
        kind_of_terrain(terrain_of_kind(k)) == k,
{
}

} // verus!
