//! Strategies for changing terrain on invalid vertices.

use vstd::prelude::*;

use rand::rngs::StdRng;

use crate::topology::graph::SurfaceGraph;
use crate::topology::spherical::{first_occurrences, first_occurrences_keep_each_once};

use super::rng::choose_item;
use super::types::{all_terrain_types, band_of, ElevationBand, TerrainType};

verus! {

/// Chooses a replacement terrain type when a vertex fails a post-processing rule.
pub trait TerrainReassigner {
    /// Whether this reassigner can be asked about `node` of `graph` with `terrain`.
    spec fn accepts(&self, node: usize, terrain: Seq<TerrainType>, graph: Seq<Seq<(usize, u64)>>) -> bool;

    /// Pick a new terrain type for `node` that currently has `current`.
    fn reassign(&self, node: usize, current: TerrainType, terrain: &[TerrainType], graph: &SurfaceGraph, rng: &mut StdRng) -> TerrainType
        requires
            self.accepts(node, terrain@, graph@),
    ;
}

/// The neighbors of a vertex index into `terrain` (and into `bands` when given).
pub open spec fn row_indexes_into(row: Seq<(usize, u64)>, len: int) -> bool {
    forall|j: int| 0 <= j < row.len() ==> ((#[trigger] row[j]).0 as int) < len
}

/// Terrain types of the first `k` neighbors in `row` that differ from `current` and, when
/// `band` is given, lie in that elevation band, in neighbor order.
pub open spec fn neighbor_types(
    row: Seq<(usize, u64)>,
    terrain: Seq<TerrainType>,
    bands: Seq<ElevationBand>,
    band: Option<ElevationBand>,
    current: TerrainType,
    k: nat,
) -> Seq<TerrainType>
    decreases k,
{
    if k == 0 {
        Seq::empty()
    } else {
        let prev = neighbor_types(row, terrain, bands, band, current, (k - 1) as nat);
        let nb = row[k - 1].0 as int;
        let in_band = match band {
            Some(b) => bands[nb] == b,
            None => true,
        };
        if in_band && terrain[nb] != current { prev.push(terrain[nb]) } else { prev }
    }
}

/// The terrain types of `types` other than `current`, in order.
pub open spec fn other_types(types: Seq<TerrainType>, current: TerrainType) -> Seq<TerrainType>
    decreases types.len(),
{
    if types.len() == 0 {
        Seq::empty()
    } else {
        let prev = other_types(types.drop_last(), current);
        if types.last() != current { prev.push(types.last()) } else { prev }
    }
}

/// Neighbor `j` of `row` qualifies: its type differs from `current` and, when `band` is
/// given, it lies in that band.
pub open spec fn qualifies(
    row: Seq<(usize, u64)>,
    terrain: Seq<TerrainType>,
    bands: Seq<ElevationBand>,
    band: Option<ElevationBand>,
    current: TerrainType,
    j: int,
) -> bool {
    let nb = row[j].0 as int;
    &&& match band {
        Some(b) => bands[nb] == b,
        None => true,
    }
    &&& terrain[nb] != current
}

/// The collected neighbor types are exactly the types of the qualifying neighbors.
pub proof fn neighbor_types_are_qualifying(
    row: Seq<(usize, u64)>,
    terrain: Seq<TerrainType>,
    bands: Seq<ElevationBand>,
    band: Option<ElevationBand>,
    current: TerrainType,
    k: nat,
)
    requires
        k <= row.len(),
    ensures
        forall|x: TerrainType| neighbor_types(row, terrain, bands, band, current, k).contains(x) <==>
            exists|j: int| 0 <= j < k && qualifies(row, terrain, bands, band, current, j) && #[trigger] terrain[row[j].0 as int] == x,
    decreases k,
{
    if k > 0 {
        neighbor_types_are_qualifying(row, terrain, bands, band, current, (k - 1) as nat);
        let prev = neighbor_types(row, terrain, bands, band, current, (k - 1) as nat);
        let cur = neighbor_types(row, terrain, bands, band, current, k);
        let j0 = k - 1;
        assert forall|x: TerrainType| cur.contains(x) <==>
            exists|j: int| 0 <= j < k && qualifies(row, terrain, bands, band, current, j) && #[trigger] terrain[row[j].0 as int] == x by {
            if cur.contains(x) && !prev.contains(x) {
                let i = choose|i: int| 0 <= i < cur.len() && cur[i] == x;
                assert(qualifies(row, terrain, bands, band, current, j0) && terrain[row[j0].0 as int] == x);
            }
            if exists|j: int| 0 <= j < k && qualifies(row, terrain, bands, band, current, j) && #[trigger] terrain[row[j].0 as int] == x {
                let j = choose|j: int| 0 <= j < k && qualifies(row, terrain, bands, band, current, j) && #[trigger] terrain[row[j].0 as int] == x;
                if j < j0 {
                    assert(prev.contains(x));
                    let i = choose|i: int| 0 <= i < prev.len() && prev[i] == x;
                    assert(cur[i] == x);
                } else {
                    assert(cur[cur.len() - 1] == x);
                }
            }
            if prev.contains(x) {
                let i = choose|i: int| 0 <= i < prev.len() && prev[i] == x;
                assert(cur[i] == x);
            }
        }
    }
}

/// The other types are the members of `types` different from `current`.
pub proof fn other_types_are_the_rest(types: Seq<TerrainType>, current: TerrainType)
    ensures
        forall|x: TerrainType| #[trigger] other_types(types, current).contains(x) <==> (types.contains(x) && x != current),
    decreases types.len(),
{
    if types.len() > 0 {
        let prev_types = types.drop_last();
        other_types_are_the_rest(prev_types, current);
        let prev = other_types(prev_types, current);
        let cur = other_types(types, current);
        let last = types.last();
        assert(types[types.len() - 1] == last);
        assert forall|x: TerrainType| prev_types.contains(x) implies types.contains(x) by {
            let j = choose|j: int| 0 <= j < prev_types.len() && prev_types[j] == x;
            assert(types[j] == x);
        }
        assert forall|x: TerrainType| types.contains(x) implies prev_types.contains(x) || x == last by {
            let j = choose|j: int| 0 <= j < types.len() && types[j] == x;
            if j < types.len() - 1 {
                assert(prev_types[j] == x);
            }
        }
        assert forall|x: TerrainType| prev.contains(x) implies cur.contains(x) by {
            let i = choose|i: int| 0 <= i < prev.len() && prev[i] == x;
            assert(cur[i] == x);
        }
        if last != current {
            assert(cur == prev.push(last));
            assert(cur[cur.len() - 1] == last);
            assert forall|x: TerrainType| cur.contains(x) implies prev.contains(x) || x == last by {
                let i = choose|i: int| 0 <= i < cur.len() && cur[i] == x;
                if i < prev.len() {
                    assert(prev[i] == x);
                }
            }
        } else {
            assert(cur == prev);
        }
        assert forall|x: TerrainType| cur.contains(x) <==> (types.contains(x) && x != current) by {
            if types.contains(x) && x != current {
                if prev_types.contains(x) {
                    assert(prev.contains(x));
                }
            }
            if cur.contains(x) {
                if prev.contains(x) {
                    assert(prev_types.contains(x));
                }
            }
        }
    }
}

/// Distinct terrain types of the neighbors that qualify, in order of first appearance.
fn distinct_neighbor_types(
    row: &[(usize, u64)],
    terrain: &[TerrainType],
    bands: &[ElevationBand],
    band: Option<ElevationBand>,
    current: TerrainType,
) -> (types: Vec<TerrainType>)
    requires
        row_indexes_into(row@, terrain@.len() as int),
        band is Some ==> row_indexes_into(row@, bands@.len() as int),
    ensures
        types@ == first_occurrences(neighbor_types(row@, terrain@, bands@, band, current, row@.len())),
{
    let mut types: Vec<TerrainType> = Vec::new();
    let mut j: usize = 0;
    while j < row.len()
        invariant
            j <= row@.len(),
            row_indexes_into(row@, terrain@.len() as int),
            band is Some ==> row_indexes_into(row@, bands@.len() as int),
            types@ == first_occurrences(neighbor_types(row@, terrain@, bands@, band, current, j as nat)),
        decreases row@.len() - j,
    {
        let nb = row[j].0;
        assert(row@[j as int].0 == nb);
        let in_band = match band {
            Some(b) => bands[nb] == b,
            None => true,
        };
        let t = terrain[nb];
        let ghost prev = neighbor_types(row@, terrain@, bands@, band, current, j as nat);
        if in_band && t != current {
            assert(prev.push(t).drop_last() =~= prev);
            let mut seen = false;
            let mut i: usize = 0;
            while i < types.len()
                invariant
                    i <= types@.len(),
                    seen <==> exists|k: int| 0 <= k < i && types@[k] == t,
                decreases types@.len() - i,
            {
                if types[i] == t {
                    seen = true;
                }
                i = i + 1;
            }
            if !seen {
                types.push(t);
            }
        }
        j = j + 1;
    }
    types
}

/// Terrain types other than `current` among `pool`, in pool order.
fn others_in(pool: &[TerrainType], current: TerrainType) -> (types: Vec<TerrainType>)
    ensures
        types@ == other_types(pool@, current),
{
    let mut types: Vec<TerrainType> = Vec::new();
    let mut i: usize = 0;
    while i < pool.len()
        invariant
            i <= pool@.len(),
            types@ == other_types(pool@.take(i as int), current),
        decreases pool@.len() - i,
    {
        proof {
            assert(pool@.take(i + 1).drop_last() =~= pool@.take(i as int));
            assert(pool@.take(i + 1).last() == pool@[i as int]);
        }
        if pool[i] != current {
            types.push(pool[i]);
        }
        i = i + 1;
    }
    assert(pool@.take(pool@.len() as int) =~= pool@);
    types
}

/// Randomly picks one of the adjacent neighbor terrain types that differs from `current`.
///
/// If every neighbor shares `current`, falls back to any other terrain variant.
#[derive(Debug, Clone, Copy, Default)]
pub struct AdjacentTypeReassigner;

impl AdjacentTypeReassigner {
    /// Replacement candidates for `node`: the distinct neighbor types other than
    /// `current`, or every other terrain type when there is none.
    pub fn candidates(&self, node: usize, current: TerrainType, terrain: &[TerrainType], graph: &SurfaceGraph) -> (types: Vec<TerrainType>)
        requires
            node < graph@.len(),
            row_indexes_into(graph@[node as int], terrain@.len() as int),
        ensures
            ({
                let from_neighbors = first_occurrences(neighbor_types(graph@[node as int], terrain@, Seq::empty(), None, current, graph@[node as int].len()));
                types@ == if from_neighbors.len() > 0 { from_neighbors } else { other_types(all_terrain_types(), current) }
            }),
    {
        let row = graph.neighbors(node);
        let no_bands: [ElevationBand; 0] = [];
        assert(no_bands@ =~= Seq::<ElevationBand>::empty());
        let types = distinct_neighbor_types(row, terrain, &no_bands, None, current);
        if types.len() > 0 {
            return types;
        }
        let all = TerrainType::ALL;
        assert(all@ =~= all_terrain_types());
        others_in(&all, current)
    }
}

impl TerrainReassigner for AdjacentTypeReassigner {
    open spec fn accepts(&self, node: usize, terrain: Seq<TerrainType>, graph: Seq<Seq<(usize, u64)>>) -> bool {
        node < graph.len() && row_indexes_into(graph[node as int], terrain.len() as int)
    }

    fn reassign(&self, node: usize, current: TerrainType, terrain: &[TerrainType], graph: &SurfaceGraph, rng: &mut StdRng) -> (t: TerrainType)
        ensures
            t != current,
            (exists|j: int| 0 <= j < graph@[node as int].len() && terrain@[(#[trigger] graph@[node as int][j]).0 as int] != current)
                ==> exists|j: int| 0 <= j < graph@[node as int].len() && t == terrain@[(#[trigger] graph@[node as int][j]).0 as int],
    {
        let candidates = self.candidates(node, current, terrain, graph);
        proof {
            let row = graph@[node as int];
            let found = neighbor_types(row, terrain@, Seq::empty(), None, current, row.len());
            neighbor_types_are_qualifying(row, terrain@, Seq::empty(), None, current, row.len());
            first_occurrences_keep_each_once(found);
            other_types_are_the_rest(all_terrain_types(), current);
            let other = if current == TerrainType::Land { TerrainType::Water } else { TerrainType::Land };
            assert(all_terrain_types().contains(other)) by {
                assert(all_terrain_types()[0] == TerrainType::Land);
                assert(all_terrain_types()[1] == TerrainType::Water);
            }
            if first_occurrences(found).len() == 0 {
                assert(other_types(all_terrain_types(), current).contains(other));
            }
            if exists|j: int| 0 <= j < row.len() && terrain@[(#[trigger] row[j]).0 as int] != current {
                let j = choose|j: int| 0 <= j < row.len() && terrain@[(#[trigger] row[j]).0 as int] != current;
                assert(qualifies(row, terrain@, Seq::empty(), None, current, j));
                assert(found.contains(terrain@[row[j].0 as int]));
                assert(first_occurrences(found).contains(terrain@[row[j].0 as int]));
            }
        }
        let t = choose_item(candidates.as_slice(), rng);
        proof {
            let row = graph@[node as int];
            let found = neighbor_types(row, terrain@, Seq::empty(), None, current, row.len());
            neighbor_types_are_qualifying(row, terrain@, Seq::empty(), None, current, row.len());
            first_occurrences_keep_each_once(found);
            other_types_are_the_rest(all_terrain_types(), current);
            assert(candidates@.contains(t));
            if first_occurrences(found).len() > 0 {
                assert(candidates@ == first_occurrences(found));
                assert(first_occurrences(found).contains(t));
                assert(found.contains(t));
                let j = choose|j: int| 0 <= j < row.len() && qualifies(row, terrain@, Seq::empty(), None, current, j) && #[trigger] terrain@[row[j].0 as int] == t;
                assert(t != current);
            } else {
                assert(candidates@ == other_types(all_terrain_types(), current));
                assert(other_types(all_terrain_types(), current).contains(t));
                assert(t != current);
            }
        }
        t
    }
}

/// Reassigns invalid vertices without crossing elevation bands.
///
/// Vertices keep their intrinsic band (noise sample sign for noise terrain). A vertex
/// takes the type of a neighbor in its own band when one differs from its current type.
/// Otherwise an above-sea vertex picks land or mountain and a below-sea vertex water or
/// deep water, other than its current type.
#[derive(Debug, Clone)]
pub struct BandPreservingReassigner {
    bands: Vec<ElevationBand>,
}

impl View for BandPreservingReassigner {
    type V = Seq<ElevationBand>;

    closed spec fn view(&self) -> Seq<ElevationBand> {
        self.bands@
    }
}

/// The types a vertex falls back to when no neighbor in its band offers one: land or
/// mountain above sea level, water or deep water below it.
pub open spec fn band_fallback_types(band: ElevationBand) -> Seq<TerrainType> {
    match band {
        ElevationBand::BelowSeaLevel => seq![TerrainType::Water, TerrainType::DeepWater],
        ElevationBand::AboveSeaLevel => seq![TerrainType::Land, TerrainType::Mountain],
    }
}

/// The fallback types of `band`, as a slice.
fn band_fallback_pool(band: ElevationBand) -> (pool: &'static [TerrainType])
    ensures
        pool@ == band_fallback_types(band),
{
    match band {
        ElevationBand::BelowSeaLevel => &[TerrainType::Water, TerrainType::DeepWater],
        ElevationBand::AboveSeaLevel => &[TerrainType::Land, TerrainType::Mountain],
    }
}

impl BandPreservingReassigner {
    /// Build a reassigner from per-vertex elevation bands frozen at assignment time.
    pub fn new(bands: Vec<ElevationBand>) -> (reassigner: BandPreservingReassigner)
        ensures
            reassigner@ == bands@,
    {
        BandPreservingReassigner { bands }
    }

    /// Elevation band of `node`.
    pub fn band_at(&self, node: usize) -> (band: ElevationBand)
        requires
            node < self@.len(),
        ensures
            band == self@[node as int],
    {
        self.bands[node]
    }

    /// Replacement candidates for `node`: the distinct types of same-band neighbors other
    /// than `current`, or else the band's fallback types other than `current`.
    pub fn candidates(&self, node: usize, current: TerrainType, terrain: &[TerrainType], graph: &SurfaceGraph) -> (types: Vec<TerrainType>)
        requires
            node < graph@.len(),
            node < self@.len(),
            row_indexes_into(graph@[node as int], terrain@.len() as int),
            row_indexes_into(graph@[node as int], self@.len() as int),
        ensures
            ({
                let band = self@[node as int];
                let from_neighbors = first_occurrences(neighbor_types(graph@[node as int], terrain@, self@, Some(band), current, graph@[node as int].len()));
                types@ == if from_neighbors.len() > 0 { from_neighbors } else { other_types(band_fallback_types(band), current) }
            }),
    {
        let node_band = self.band_at(node);
        let row = graph.neighbors(node);
        let types = distinct_neighbor_types(row, terrain, self.bands.as_slice(), Some(node_band), current);
        if types.len() > 0 {
            return types;
        }
        others_in(band_fallback_pool(node_band), current)
    }
}

impl TerrainReassigner for BandPreservingReassigner {
    open spec fn accepts(&self, node: usize, terrain: Seq<TerrainType>, graph: Seq<Seq<(usize, u64)>>) -> bool {
        &&& node < graph.len()
        &&& node < self@.len()
        &&& row_indexes_into(graph[node as int], terrain.len() as int)
        &&& row_indexes_into(graph[node as int], self@.len() as int)
    }

    fn reassign(&self, node: usize, current: TerrainType, terrain: &[TerrainType], graph: &SurfaceGraph, rng: &mut StdRng) -> (t: TerrainType)
        ensures
            t != current,
            (exists|j: int| 0 <= j < graph@[node as int].len()
                && qualifies(graph@[node as int], terrain@, self@, Some(self@[node as int]), current, j))
                ==> exists|j: int| 0 <= j < graph@[node as int].len()
                    && qualifies(graph@[node as int], terrain@, self@, Some(self@[node as int]), current, j)
                    && t == terrain@[(#[trigger] graph@[node as int][j]).0 as int],
            !(exists|j: int| 0 <= j < graph@[node as int].len()
                && qualifies(graph@[node as int], terrain@, self@, Some(self@[node as int]), current, j))
                ==> band_fallback_types(self@[node as int]).contains(t),
    {
        let candidates = self.candidates(node, current, terrain, graph);
        let ghost row = graph@[node as int];
        let ghost band = self@[node as int];
        let ghost found = neighbor_types(row, terrain@, self@, Some(band), current, row.len());
        proof {
            neighbor_types_are_qualifying(row, terrain@, self@, Some(band), current, row.len());
            first_occurrences_keep_each_once(found);
            other_types_are_the_rest(band_fallback_types(band), current);
            let alternative = if current == band_fallback_types(band)[0] { band_fallback_types(band)[1] } else { band_fallback_types(band)[0] };
            assert(band_fallback_types(band).contains(alternative)) by {
                assert(band_fallback_types(band)[0] == band_fallback_types(band)[0]);
            }
            if first_occurrences(found).len() == 0 {
                assert(other_types(band_fallback_types(band), current).contains(alternative));
            }
            if exists|j: int| 0 <= j < row.len() && qualifies(row, terrain@, self@, Some(band), current, j) {
                let j = choose|j: int| 0 <= j < row.len() && qualifies(row, terrain@, self@, Some(band), current, j);
                assert(found.contains(terrain@[row[j].0 as int]));
                assert(first_occurrences(found).contains(terrain@[row[j].0 as int]));
            }
        }
        if candidates.len() == 0 {
            return current;
        }
        let t = choose_item(candidates.as_slice(), rng);
        proof {
            assert(candidates@.contains(t));
            if first_occurrences(found).len() > 0 {
                assert(candidates@ == first_occurrences(found));
                assert(found.contains(t));
                let j = choose|j: int| 0 <= j < row.len() && qualifies(row, terrain@, self@, Some(band), current, j) && #[trigger] terrain@[row[j].0 as int] == t;
                assert(t != current);
            } else {
                assert(candidates@ == other_types(band_fallback_types(band), current));
                assert(other_types(band_fallback_types(band), current).contains(t));
            }
        }
        t
    }
}

} // verus!
