//! Border data of terrain area polygons: the category of each boundary edge and the
//! coastline edges, each shared border drawn once.

use vstd::prelude::*;

use crate::topology::spherical::ordered_pair;

use super::areas::TerrainAreaMap;
use super::borders::{border_kind, classify_area_border, AreaBorderKind};

verus! {

/// What the border rules read of one terrain area polygon: its site, the number of its
/// boundary edges, and for each edge the neighbor site across it and the border category.
#[derive(Debug, Clone, PartialEq, Eq)]
pub struct PolygonBorders {
    /// Generator site of the polygon.
    pub site_index: usize,
    /// Number of boundary vertices, which is also the number of boundary edges.
    pub edge_count: usize,
    /// Neighbor site across boundary edge `i` (from vertex `i` to `(i + 1) % n`).
    pub boundary_neighbors: Vec<usize>,
    /// Border category of boundary edge `i`.
    pub edge_border_kinds: Vec<AreaBorderKind>,
}

/// Border category of each boundary edge of the cell of `site`, against the neighbor
/// site across that edge.
pub fn edge_border_kinds(area_map: &TerrainAreaMap, site: usize, neighbors: &[usize]) -> (kinds: Vec<AreaBorderKind>)
    requires
        site < area_map.areas@.len(),
        forall|i: int| 0 <= i < neighbors@.len() ==> #[trigger] neighbors@[i] < area_map.areas@.len(),
    ensures
        kinds@.len() == neighbors@.len(),
        forall|i: int| 0 <= i < neighbors@.len() ==> #[trigger] kinds@[i] == border_kind(
            area_map.areas@[site as int].kind,
            area_map.areas@[neighbors@[i] as int].kind,
        ),
{
    let site_kind = area_map.areas[site].kind;
    let mut kinds: Vec<AreaBorderKind> = Vec::new();
    let mut i: usize = 0;
    while i < neighbors.len()
        invariant
            i <= neighbors@.len(),
            site < area_map.areas@.len(),
            site_kind == area_map.areas@[site as int].kind,
            forall|j: int| 0 <= j < neighbors@.len() ==> #[trigger] neighbors@[j] < area_map.areas@.len(),
            kinds@.len() == i,
            forall|j: int| 0 <= j < i ==> #[trigger] kinds@[j] == border_kind(
                area_map.areas@[site as int].kind,
                area_map.areas@[neighbors@[j] as int].kind,
            ),
        decreases neighbors@.len() - i,
    {
        let neighbor_kind = area_map.areas[neighbors[i]].kind;
        kinds.push(classify_area_border(site_kind, neighbor_kind));
        i = i + 1;
    }
    kinds
}

/// Every polygon with at least three edges lists a neighbor and a category per edge.
pub open spec fn polygons_well_formed(polygons: Seq<PolygonBorders>) -> bool {
    forall|p: int| 0 <= p < polygons.len() && (#[trigger] polygons[p]).edge_count >= 3 ==> {
        &&& polygons[p].boundary_neighbors@.len() >= polygons[p].edge_count
        &&& polygons[p].edge_border_kinds@.len() >= polygons[p].edge_count
    }
}

/// Coastline edges `(polygon, edge)` among the first `k` edges of polygon `pi`, in order.
pub open spec fn coastline_edges_upto(polygon: PolygonBorders, pi: int, k: int) -> Seq<(usize, usize)>
    decreases k,
{
    if k <= 0 {
        Seq::empty()
    } else if polygon.edge_border_kinds@[k - 1] == AreaBorderKind::Coastline {
        coastline_edges_upto(polygon, pi, k - 1).push((pi as usize, (k - 1) as usize))
    } else {
        coastline_edges_upto(polygon, pi, k - 1)
    }
}

/// Coastline edges of polygon `pi`; none for a polygon with fewer than three edges.
pub open spec fn polygon_coastline_edges(polygon: PolygonBorders, pi: int) -> Seq<(usize, usize)> {
    if polygon.edge_count < 3 {
        Seq::empty()
    } else {
        coastline_edges_upto(polygon, pi, polygon.edge_count as int)
    }
}

/// Coastline edges of all polygons, polygon by polygon.
pub open spec fn coastline_candidates(polygons: Seq<PolygonBorders>) -> Seq<(usize, usize)>
    decreases polygons.len(),
{
    if polygons.len() == 0 {
        Seq::empty()
    } else {
        coastline_candidates(polygons.drop_last()) + polygon_coastline_edges(
            polygons.last(),
            polygons.len() - 1,
        )
    }
}

/// The site pair, smaller index first, that the edge `c` of a polygon separates.
pub open spec fn border_site_pair(polygons: Seq<PolygonBorders>, c: (usize, usize)) -> (usize, usize) {
    ordered_pair(polygons[c.0 as int].site_index, polygons[c.0 as int].boundary_neighbors@[c.1 as int])
}

/// The edges of `candidates` whose site pair has not occurred on an earlier edge.
pub open spec fn first_per_site_pair(polygons: Seq<PolygonBorders>, candidates: Seq<(usize, usize)>) -> Seq<(usize, usize)>
    decreases candidates.len(),
{
    if candidates.len() == 0 {
        Seq::empty()
    } else {
        let kept = first_per_site_pair(polygons, candidates.drop_last());
        if exists|j: int|
            0 <= j < candidates.len() - 1 && border_site_pair(polygons, #[trigger] candidates[j])
                == border_site_pair(polygons, candidates.last()) {
            kept
        } else {
            kept.push(candidates.last())
        }
    }
}

/// Whether some pair of `seen` equals `key`.
fn seen_holds(seen: &Vec<(usize, usize)>, key: (usize, usize)) -> (found: bool)
    ensures
        found <==> seen@.contains(key),
{
    let mut i: usize = 0;
    while i < seen.len()
        invariant
            i <= seen@.len(),
            forall|j: int| 0 <= j < i ==> #[trigger] seen@[j] != key,
        decreases seen@.len() - i,
    {
        if seen[i].0 == key.0 && seen[i].1 == key.1 {
            assert(seen@[i as int] == key);
            return true;
        }
        i = i + 1;
    }
    false
}

/// Coastline edges `(polygon, edge)` of the polygons with at least three edges, in
/// order, keeping only the first edge for each pair of sites: the border between two
/// cells is drawn once although both cells list it.
pub fn coastline_edges(polygons: &[PolygonBorders]) -> (picks: Vec<(usize, usize)>)
    requires
        polygons_well_formed(polygons@),
    ensures
        picks@ == first_per_site_pair(polygons@, coastline_candidates(polygons@)),
{
    let mut picks: Vec<(usize, usize)> = Vec::new();
    let mut seen: Vec<(usize, usize)> = Vec::new();
    let ghost mut candidates: Seq<(usize, usize)> = Seq::empty();
    let mut p: usize = 0;
    while p < polygons.len()
        invariant
            p <= polygons@.len(),
            polygons_well_formed(polygons@),
            candidates == coastline_candidates(polygons@.take(p as int)),
            forall|j: int| 0 <= j < candidates.len() ==> (#[trigger] candidates[j]).0 < p,
            picks@ == first_per_site_pair(polygons@, candidates),
            forall|key: (usize, usize)|
                seen@.contains(key) <==> exists|j: int|
                    0 <= j < candidates.len() && border_site_pair(polygons@, #[trigger] candidates[j]) == key,
        decreases polygons@.len() - p,
    {
        proof {
            assert(polygons@.take(p as int + 1).drop_last() =~= polygons@.take(p as int));
        }
        let polygon = &polygons[p];
        let ghost before = candidates;
        if polygon.edge_count >= 3 {
            let mut e: usize = 0;
            while e < polygon.edge_count
                invariant
                    p < polygons@.len(),
                    *polygon == polygons@[p as int],
                    polygon.edge_count >= 3,
                    polygon.boundary_neighbors@.len() >= polygon.edge_count,
                    polygon.edge_border_kinds@.len() >= polygon.edge_count,
                    e <= polygon.edge_count,
                    candidates == before + coastline_edges_upto(*polygon, p as int, e as int),
                    forall|j: int| 0 <= j < before.len() ==> (#[trigger] before[j]).0 < p,
                    forall|j: int| 0 <= j < candidates.len() ==> (#[trigger] candidates[j]).0 <= p && candidates[j].0 < polygons@.len(),
                    forall|j: int| before.len() <= j < candidates.len() ==> (#[trigger] candidates[j]).0 == p && candidates[j].1 < e,
                    picks@ == first_per_site_pair(polygons@, candidates),
                    forall|key: (usize, usize)|
                        seen@.contains(key) <==> exists|j: int|
                            0 <= j < candidates.len() && border_site_pair(polygons@, #[trigger] candidates[j]) == key,
                decreases polygon.edge_count - e,
            {
                let ghost prev = candidates;
                if polygon.edge_border_kinds[e] == AreaBorderKind::Coastline {
                    let neighbor = polygon.boundary_neighbors[e];
                    let key = if polygon.site_index < neighbor {
                        (polygon.site_index, neighbor)
                    } else {
                        (neighbor, polygon.site_index)
                    };
                    proof {
                        candidates = candidates.push((p, e));
                        assert(candidates.drop_last() == prev);
                        assert(border_site_pair(polygons@, (p, e)) == key);
                        assert(candidates == before + coastline_edges_upto(*polygon, p as int, e as int + 1));
                    }
                    if !seen_holds(&seen, key) {
                        let ghost old_seen = seen@;
                        proof {
                            assert(!exists|j: int|
                                0 <= j < prev.len() && border_site_pair(polygons@, #[trigger] prev[j]) == key);
                        }
                        seen.push(key);
                        picks.push((p, e));
                        proof {
                            assert(seen@ == old_seen.push(key));
                            assert forall|k: (usize, usize)| seen@.contains(k) <==> exists|j: int|
                                0 <= j < candidates.len() && border_site_pair(polygons@, #[trigger] candidates[j]) == k by {
                                if seen@.contains(k) {
                                    if k == key {
                                        assert(border_site_pair(polygons@, candidates[prev.len() as int]) == k);
                                    } else {
                                        let i = choose|i: int| 0 <= i < seen@.len() && seen@[i] == k;
                                        assert(old_seen[i] == k);
                                        assert(old_seen.contains(k));
                                        let j = choose|j: int| 0 <= j < prev.len() && border_site_pair(polygons@, #[trigger] prev[j]) == k;
                                        assert(candidates[j] == prev[j]);
                                    }
                                }
                                if exists|j: int| 0 <= j < candidates.len() && border_site_pair(polygons@, #[trigger] candidates[j]) == k {
                                    let j = choose|j: int| 0 <= j < candidates.len() && border_site_pair(polygons@, #[trigger] candidates[j]) == k;
                                    if j < prev.len() {
                                        assert(prev[j] == candidates[j]);
                                        assert(old_seen.contains(k));
                                        let i = choose|i: int| 0 <= i < old_seen.len() && old_seen[i] == k;
                                        assert(seen@[i] == k);
                                    } else {
                                        assert(seen@[seen@.len() - 1] == key);
                                    }
                                }
                            }
                        }
                    } else {
                        proof {
                            let j = choose|j: int| 0 <= j < prev.len() && border_site_pair(polygons@, #[trigger] prev[j]) == key;
                            assert(candidates[j] == prev[j]);
                            assert forall|k: (usize, usize)| seen@.contains(k) <==> exists|j: int|
                                0 <= j < candidates.len() && border_site_pair(polygons@, #[trigger] candidates[j]) == k by {
                                if exists|j: int| 0 <= j < candidates.len() && border_site_pair(polygons@, #[trigger] candidates[j]) == k {
                                    let i = choose|i: int| 0 <= i < candidates.len() && border_site_pair(polygons@, #[trigger] candidates[i]) == k;
                                    if i < prev.len() {
                                        assert(prev[i] == candidates[i]);
                                    }
                                }
                            }
                        }
                    }
                }
                e = e + 1;
            }
            proof {
                assert(candidates == before + polygon_coastline_edges(polygons@[p as int], p as int));
            }
        } else {
            proof {
                assert(before + polygon_coastline_edges(polygons@[p as int], p as int) =~= before);
            }
        }
        proof {
            assert(coastline_candidates(polygons@.take(p as int + 1)) == coastline_candidates(polygons@.take(p as int))
                + polygon_coastline_edges(polygons@[p as int], p as int));
        }
        p = p + 1;
    }
    proof {
        assert(polygons@.take(polygons@.len() as int) =~= polygons@);
    }
    picks
}

/// Keeping the first edge per site pair leaves edges of the input, no two of them on
/// the same pair of sites, and every site pair of the input is still represented.
pub proof fn first_per_site_pair_is_exact(polygons: Seq<PolygonBorders>, candidates: Seq<(usize, usize)>)
    ensures
        ({
            let kept = first_per_site_pair(polygons, candidates);
            &&& forall|i: int| 0 <= i < kept.len() ==> candidates.contains(#[trigger] kept[i])
            &&& forall|i: int, j: int|
                0 <= i < j < kept.len() ==> border_site_pair(polygons, #[trigger] kept[i]) != border_site_pair(
                    polygons,
                    #[trigger] kept[j],
                )
            &&& forall|j: int|
                0 <= j < candidates.len() ==> exists|i: int|
                    0 <= i < kept.len() && border_site_pair(polygons, #[trigger] kept[i]) == border_site_pair(
                        polygons,
                        #[trigger] candidates[j],
                    )
        }),
    decreases candidates.len(),
{
    if candidates.len() > 0 {
        let rest = candidates.drop_last();
        let last = candidates.last();
        first_per_site_pair_is_exact(polygons, rest);
        let prev = first_per_site_pair(polygons, rest);
        let kept = first_per_site_pair(polygons, candidates);
        assert forall|i: int| 0 <= i < prev.len() implies candidates.contains(#[trigger] prev[i]) by {
            assert(rest.contains(prev[i]));
            let j = choose|j: int| 0 <= j < rest.len() && rest[j] == prev[i];
            assert(candidates[j] == rest[j]);
        }
        if exists|j: int| 0 <= j < candidates.len() - 1 && border_site_pair(polygons, #[trigger] candidates[j])
            == border_site_pair(polygons, last) {
            assert(kept == prev);
            assert forall|j: int| 0 <= j < candidates.len() implies exists|i: int|
                0 <= i < kept.len() && border_site_pair(polygons, #[trigger] kept[i]) == border_site_pair(
                    polygons,
                    #[trigger] candidates[j],
                ) by {
                if j < rest.len() {
                    assert(candidates[j] == rest[j]);
                } else {
                    let w = choose|w: int| 0 <= w < candidates.len() - 1 && border_site_pair(polygons, #[trigger] candidates[w])
                        == border_site_pair(polygons, last);
                    assert(candidates[w] == rest[w]);
                }
            }
        } else {
            assert(kept == prev.push(last));
            assert forall|i: int| 0 <= i < kept.len() implies candidates.contains(#[trigger] kept[i]) by {
                if i < prev.len() {
                    assert(kept[i] == prev[i]);
                } else {
                    assert(candidates[candidates.len() - 1] == kept[i]);
                }
            }
            assert forall|i: int, j: int|
                0 <= i < j < kept.len() implies border_site_pair(polygons, #[trigger] kept[i]) != border_site_pair(
                    polygons,
                    #[trigger] kept[j],
                ) by {
                if j == prev.len() {
                    assert(kept[i] == prev[i]);
                    assert(rest.contains(prev[i]));
                    let w = choose|w: int| 0 <= w < rest.len() && rest[w] == prev[i];
                    assert(candidates[w] == rest[w]);
                } else {
                    assert(kept[i] == prev[i]);
                    assert(kept[j] == prev[j]);
                }
            }
            assert forall|j: int| 0 <= j < candidates.len() implies exists|i: int|
                0 <= i < kept.len() && border_site_pair(polygons, #[trigger] kept[i]) == border_site_pair(
                    polygons,
                    #[trigger] candidates[j],
                ) by {
                if j < rest.len() {
                    assert(candidates[j] == rest[j]);
                    let i = choose|i: int| 0 <= i < prev.len() && border_site_pair(polygons, #[trigger] prev[i])
                        == border_site_pair(polygons, rest[j]);
                    assert(kept[i] == prev[i]);
                } else {
                    assert(kept[prev.len() as int] == last);
                }
            }
        }
    }
}

} // verus!
