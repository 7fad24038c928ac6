//! Initial terrain assignment strategies driven by random draws.

use vstd::prelude::*;

use std::collections::VecDeque;

use rand::rngs::StdRng;

use crate::topology::graph::{neighbors_in_range, SurfaceGraph};

use super::rng::{choose_item, index_from_draw, next_draw, random_terrain, terrain_from_draw};
use super::types::{all_terrain_types, TerrainType};

verus! {

/// Picks a random terrain type independently for each vertex.
#[derive(Debug, Clone, Copy, Default)]
pub struct RandomAssigner;

/// Grows one random continent per terrain type via multi-source breadth-first search.
#[derive(Debug, Clone, Copy, Default)]
pub struct ClusterAssigner;

/// Sum of a sequence of distances.
pub open spec fn distance_total(s: Seq<usize>) -> int
    decreases s.len(),
{
    if s.len() == 0 {
        0
    } else {
        distance_total(s.drop_last()) + s.last()
    }
}

/// Changing one distance changes the total by the difference.
pub proof fn distance_total_update(s: Seq<usize>, i: int, v: usize)
    requires
        0 <= i < s.len(),
    ensures
        distance_total(s.update(i, v)) == distance_total(s) - s[i] + v,
    decreases s.len(),
{
    let u = s.update(i, v);
    if i < s.len() - 1 {
        distance_total_update(s.drop_last(), i, v);
        assert(u.drop_last() =~= s.drop_last().update(i, v));
    } else {
        assert(u.drop_last() =~= s.drop_last());
    }
}

/// Distances are never negative, so neither is their total.
pub proof fn distance_total_nonnegative(s: Seq<usize>)
    ensures
        distance_total(s) >= 0,
    decreases s.len(),
{
    if s.len() > 0 {
        distance_total_nonnegative(s.drop_last());
    }
}

/// Some walk of exactly `k` edges of `g` leads from `s` to `v`.
pub open spec fn walk_reaches(g: Seq<Seq<(usize, u64)>>, s: usize, v: usize, k: nat) -> bool
    decreases k,
{
    if k == 0 {
        s == v
    } else {
        exists|u: int, j: int|
            0 <= u < g.len() && 0 <= j < g[u].len() && (#[trigger] g[u][j]).0 == v && walk_reaches(
                g,
                s,
                u as usize,
                (k - 1) as nat,
            )
    }
}

/// Every neighbor of `u` is at most one step farther than `u`.
pub open spec fn relaxed(g: Seq<Seq<(usize, u64)>>, d: Seq<usize>, u: int) -> bool {
    forall|j: int| 0 <= j < g[u].len() ==> d[(#[trigger] g[u][j]).0 as int] <= d[u] + 1
}

/// `t` is the type of a seed that reaches `v` in `k` steps.
pub open spec fn typed_by_seed(g: Seq<Seq<(usize, u64)>>, seeds: Seq<usize>, t: TerrainType, v: usize, k: nat) -> bool {
    exists|i: int| 0 <= i < seeds.len() && t == all_terrain_types()[i] && #[trigger] walk_reaches(g, seeds[i], v, k)
}

/// Some seed reaches `v` (in fewer than `usize::MAX` steps).
pub open spec fn seed_reaches(g: Seq<Seq<(usize, u64)>>, seeds: Seq<usize>, v: usize) -> bool {
    exists|i: int, k: nat| 0 <= i < seeds.len() && k < usize::MAX && #[trigger] walk_reaches(g, seeds[i], v, k)
}

/// `t` is the type of a seed nearest to `v`: that seed reaches `v` in `k` steps and no
/// seed reaches `v` in fewer.
pub open spec fn nearest_seed_type(g: Seq<Seq<(usize, u64)>>, seeds: Seq<usize>, v: usize, t: TerrainType) -> bool {
    exists|i: int, k: nat|
        #![trigger walk_reaches(g, seeds[i], v, k)]
        0 <= i < seeds.len() && t == all_terrain_types()[i] && walk_reaches(g, seeds[i], v, k) && forall|i2: int, k2: nat|
            0 <= i2 < seeds.len() && #[trigger] walk_reaches(g, seeds[i2], v, k2) ==> k <= k2
}

/// A walk of `k` steps to `u` followed by an edge of `u` is a walk of `k + 1` steps.
proof fn walk_extends(g: Seq<Seq<(usize, u64)>>, s: usize, u: usize, j: int, k: nat)
    requires
        (u as int) < g.len(),
        0 <= j < g[u as int].len(),
        walk_reaches(g, s, u, k),
    ensures
        walk_reaches(g, s, g[u as int][j].0, k + 1),
{
    let v = g[u as int][j].0;
    assert(((k + 1) - 1) as nat == k);
    assert(g[u as int][j].0 == v && walk_reaches(g, s, (u as int) as usize, k));
}

/// The last step of a walk of `k > 0` steps leaves some vertex reached in `k - 1` steps.
proof fn walk_last_step(g: Seq<Seq<(usize, u64)>>, s: usize, v: usize, k: nat) -> (step: (usize, int))
    requires
        k > 0,
        g.len() <= usize::MAX,
        walk_reaches(g, s, v, k),
    ensures
        (step.0 as int) < g.len(),
        0 <= step.1 < g[step.0 as int].len(),
        g[step.0 as int][step.1].0 == v,
        walk_reaches(g, s, step.0, (k - 1) as nat),
{
    let (u, j) = choose|u: int, j: int|
        0 <= u < g.len() && 0 <= j < g[u].len() && (#[trigger] g[u][j]).0 == v && walk_reaches(
            g,
            s,
            u as usize,
            (k - 1) as nat,
        );
    (u as usize, j)
}

/// When every vertex at a finite distance is relaxed and seeds sit at distance zero, no
/// walk from a seed is shorter than the distance it reaches.
proof fn walk_length_bounds_distance(g: Seq<Seq<(usize, u64)>>, seeds: Seq<usize>, d: Seq<usize>, i: int, v: usize, k: nat)
    requires
        neighbors_in_range(g),
        g.len() <= usize::MAX,
        d.len() == g.len(),
        0 <= i < seeds.len(),
        forall|s: int| 0 <= s < seeds.len() ==> (#[trigger] seeds[s] as int) < g.len() && d[seeds[s] as int] == 0,
        forall|u: int| 0 <= u < g.len() && #[trigger] d[u] < usize::MAX ==> relaxed(g, d, u),
        walk_reaches(g, seeds[i], v, k),
        k < usize::MAX,
    ensures
        (v as int) < g.len(),
        d[v as int] <= k,
    decreases k,
{
    if k > 0 {
        let (u, j) = walk_last_step(g, seeds[i], v, k);
        walk_length_bounds_distance(g, seeds, d, i, u, (k - 1) as nat);
        assert(d[u as int] < usize::MAX);
        assert(relaxed(g, d, u as int));
        assert(d[g[u as int][j].0 as int] <= d[u as int] + 1);
    } else {
        assert(d[seeds[i] as int] == 0);
    }
}

impl RandomAssigner {
    /// Terrain for one draw per vertex: vertex `i` gets entry `draws[i] % 6` of
    /// [`TerrainType::ALL`].
    pub fn assign_from_draws(&self, graph: &SurfaceGraph, draws: &[u32]) -> (terrain: Vec<TerrainType>)
        requires
            draws@.len() >= graph@.len(),
        ensures
            terrain@.len() == graph@.len(),
            forall|i: int| 0 <= i < terrain@.len() ==> #[trigger] terrain@[i] == all_terrain_types()[(draws@[i] as int) % 6],
    {
        let count = graph.len();
        let mut terrain: Vec<TerrainType> = Vec::new();
        let mut i: usize = 0;
        while i < count
            invariant
                i <= count,
                count == graph@.len(),
                draws@.len() >= count,
                terrain@.len() == i,
                forall|k: int| 0 <= k < terrain@.len() ==> #[trigger] terrain@[k] == all_terrain_types()[(draws@[k] as int) % 6],
            decreases count - i,
        {
            terrain.push(terrain_from_draw(draws[i]));
            i = i + 1;
        }
        terrain
    }

    /// One independently drawn terrain type per vertex: one draw per vertex in vertex
    /// order, then [`RandomAssigner::assign_from_draws`].
    pub fn assign(&self, graph: &SurfaceGraph, rng: &mut StdRng) -> (terrain: Vec<TerrainType>)
        ensures
            terrain@.len() == graph@.len(),
            forall|i: int| 0 <= i < terrain@.len() ==> all_terrain_types().contains(#[trigger] terrain@[i]),
            exists|draws: Seq<u32>| draws.len() == graph@.len() && #[trigger] drawn_terrain(draws, terrain@),
    {
        let count = graph.len();
        let mut draws: Vec<u32> = Vec::new();
        let mut i: usize = 0;
        while i < count
            invariant
                i <= count,
                draws@.len() == i,
            decreases count - i,
        {
            draws.push(next_draw(rng));
            i = i + 1;
        }
        let terrain = self.assign_from_draws(graph, draws.as_slice());
        proof {
            assert(drawn_terrain(draws@, terrain@));
            assert forall|i: int| 0 <= i < terrain@.len() implies all_terrain_types().contains(#[trigger] terrain@[i]) by {
                let k = (draws@[i] as int) % 6;
                assert(0 <= k < 6);
                assert(all_terrain_types()[k] == terrain@[i]);
            }
        }
        terrain
    }
}

/// `terrain` takes one terrain type per draw: entry `i` is entry `draws[i] % 6` of the
/// six types.
pub open spec fn drawn_terrain(draws: Seq<u32>, terrain: Seq<TerrainType>) -> bool {
    forall|i: int| 0 <= i < terrain.len() ==> #[trigger] terrain[i] == all_terrain_types()[(draws[i] as int) % 6]
}

/// `terrain` is what growing continents from `seeds` gives on `g`: there is one seed per
/// terrain type (at most one per vertex), the seeds are distinct vertices, seed `i` has
/// the `i`-th type, and every vertex a seed reaches has the type of a nearest seed.
pub open spec fn grown_from_seeds(g: Seq<Seq<(usize, u64)>>, seeds: Seq<usize>, terrain: Seq<TerrainType>) -> bool {
    &&& seeds.len() == if g.len() < 6 { g.len() } else { 6 }
    &&& seeds.no_duplicates()
    &&& forall|i: int| 0 <= i < seeds.len() ==> (#[trigger] seeds[i] as int) < g.len()
    &&& forall|i: int| 0 <= i < seeds.len() ==> terrain[#[trigger] seeds[i] as int] == all_terrain_types()[i]
    &&& forall|v: int| 0 <= v < g.len() && #[trigger] seed_reaches(g, seeds, v as usize)
        ==> nearest_seed_type(g, seeds, v as usize, terrain[v])
}

/// Seeds kept from `draws` in order: each draw proposes vertex `draw % node_count`, which
/// is kept when no earlier draw proposed it.
pub open spec fn kept_seeds(node_count: int, draws: Seq<u32>) -> Seq<usize>
    decreases draws.len(),
{
    if draws.len() == 0 {
        Seq::empty()
    } else {
        let prev = kept_seeds(node_count, draws.drop_last());
        let candidate = ((draws.last() as int) % node_count) as usize;
        if prev.contains(candidate) { prev } else { prev.push(candidate) }
    }
}

/// The kept seeds are the distinct remainders of the draws: no vertex is kept twice,
/// every kept vertex is below `node_count` and is the remainder of some draw, and the
/// remainder of every draw is kept.
pub proof fn kept_seeds_are_the_distinct_remainders(node_count: int, draws: Seq<u32>)
    requires
        node_count > 0,
        node_count <= usize::MAX,
    ensures
        kept_seeds(node_count, draws).no_duplicates(),
        kept_seeds(node_count, draws).len() <= draws.len(),
        forall|i: int| 0 <= i < kept_seeds(node_count, draws).len()
            ==> (#[trigger] kept_seeds(node_count, draws)[i] as int) < node_count,
        forall|i: int| 0 <= i < kept_seeds(node_count, draws).len()
            ==> exists|k: int| 0 <= k < draws.len()
                && #[trigger] kept_seeds(node_count, draws)[i] as int == (draws[k] as int) % node_count,
        forall|k: int| 0 <= k < draws.len()
            ==> kept_seeds(node_count, draws).contains(((#[trigger] draws[k] as int) % node_count) as usize),
    decreases draws.len(),
{
    if draws.len() > 0 {
        let prev_draws = draws.drop_last();
        kept_seeds_are_the_distinct_remainders(node_count, prev_draws);
        let prev = kept_seeds(node_count, prev_draws);
        let last = draws.last();
        let candidate = ((last as int) % node_count) as usize;
        let kept = kept_seeds(node_count, draws);
        assert(candidate as int == (last as int) % node_count);
        assert forall|i: int| 0 <= i < kept.len() implies exists|k: int| 0 <= k < draws.len()
            && #[trigger] kept[i] as int == (draws[k] as int) % node_count by {
            if i < prev.len() {
                assert(kept[i] == prev[i]);
                let k = choose|k: int| 0 <= k < prev_draws.len() && #[trigger] prev[i] as int == (prev_draws[k] as int) % node_count;
                assert(draws[k] == prev_draws[k]);
            } else {
                assert(kept[i] == candidate);
                assert(draws[draws.len() - 1] == last);
            }
        }
        assert forall|k: int| 0 <= k < draws.len() implies kept.contains(((#[trigger] draws[k] as int) % node_count) as usize) by {
            if k < prev_draws.len() {
                assert(draws[k] == prev_draws[k]);
                let c = ((prev_draws[k] as int) % node_count) as usize;
                assert(prev.contains(c));
                let j = choose|j: int| 0 <= j < prev.len() && prev[j] == c;
                assert(kept[j] == c);
            } else {
                assert(draws[k] == last);
                if !prev.contains(candidate) {
                    assert(kept[prev.len() as int] == candidate);
                }
            }
        }
    }
}

/// Keeping seeds from the draws `0, 1, ..., count - 1` keeps the first `count` vertices.
proof fn kept_seeds_of_first_vertices(node_count: int, count: nat)
    requires
        count <= node_count,
        count <= u32::MAX,
    ensures
        kept_seeds(node_count, Seq::new(count, |i: int| i as u32)) == Seq::new(count, |i: int| i as usize),
    decreases count,
{
    if count > 0 {
        let draws = Seq::new(count, |i: int| i as u32);
        let c = (count - 1) as nat;
        assert(draws.drop_last() =~= Seq::new(c, |i: int| i as u32));
        kept_seeds_of_first_vertices(node_count, c);
        let prev = Seq::new(c, |i: int| i as usize);
        assert(draws.last() as int == c);
        vstd::arithmetic::div_mod::lemma_small_mod(c, node_count as nat);
        assert((c as int) % node_count == c);
        assert(!prev.contains(c as usize));
        assert(prev.push(c as usize) =~= Seq::new(count, |i: int| i as usize));
    }
}

impl ClusterAssigner {
    /// Seeds kept from given draws: each draw proposes vertex `draw % node_count`, kept
    /// when it is not a seed yet.
    pub fn seeds_from_draws(node_count: usize, draws: &[u32]) -> (seeds: Vec<usize>)
        requires
            node_count > 0,
        ensures
            seeds@ == kept_seeds(node_count as int, draws@),
    {
        let mut seeds: Vec<usize> = Vec::new();
        let mut i: usize = 0;
        while i < draws.len()
            invariant
                node_count > 0,
                i <= draws@.len(),
                seeds@ == kept_seeds(node_count as int, draws@.take(i as int)),
            decreases draws@.len() - i,
        {
            let candidate = index_from_draw(draws[i], node_count);
            proof {
                assert(draws@.take(i as int + 1).drop_last() =~= draws@.take(i as int));
                assert(draws@.take(i as int + 1).last() == draws@[i as int]);
            }
            Self::keep_new_seed(&mut seeds, candidate);
            i = i + 1;
        }
        proof {
            assert(draws@.take(draws@.len() as int) =~= draws@);
        }
        seeds
    }

    /// Draw the continent seeds: one per terrain type, at most one per vertex. Each draw
    /// proposes vertex `draw % node_count`, which is kept when it is not a seed yet, and
    /// drawing goes on until there are enough seeds, so the seeds are [`kept_seeds`] of the
    /// draws made. So that the loop provably ends, the first `count` vertices are taken
    /// instead once `u64::MAX` draws have not sufficed, a number of draws no run reaches.
    pub fn draw_seeds(node_count: usize, rng: &mut StdRng) -> (seeds: Vec<usize>)
        ensures
            seeds@.len() == if node_count < 6 { node_count } else { 6 },
            seeds@.no_duplicates(),
            forall|i: int| 0 <= i < seeds@.len() ==> (#[trigger] seeds@[i] as int) < node_count,
            exists|draws: Seq<u32>| seeds@ == #[trigger] kept_seeds(node_count as int, draws),
    {
        let count = Self::seed_count(node_count);
        let mut seeds: Vec<usize> = Vec::new();
        let mut draws_left: u64 = u64::MAX;
        let ghost mut drawn: Seq<u32> = Seq::empty();
        while seeds.len() < count && draws_left > 0
            invariant
                count == if node_count < 6 { node_count } else { 6 },
                seeds@.len() <= count,
                seeds@.no_duplicates(),
                forall|i: int| 0 <= i < seeds@.len() ==> (#[trigger] seeds@[i] as int) < node_count,
                seeds@ == kept_seeds(node_count as int, drawn),
            decreases draws_left,
        {
            let draw = next_draw(rng);
            let candidate = index_from_draw(draw, node_count);
            proof {
                assert(drawn.push(draw).drop_last() =~= drawn);
            }
            Self::keep_new_seed(&mut seeds, candidate);
            proof {
                drawn = drawn.push(draw);
            }
            draws_left = draws_left - 1;
        }
        if seeds.len() < count {
            seeds = Vec::new();
            let mut v: usize = 0;
            while v < count
                invariant
                    count == if node_count < 6 { node_count } else { 6 },
                    v <= count,
                    seeds@.len() == v,
                    forall|i: int| 0 <= i < v ==> #[trigger] seeds@[i] == i,
                decreases count - v,
            {
                seeds.push(v);
                v = v + 1;
            }
            proof {
                kept_seeds_of_first_vertices(node_count as int, count as nat);
                assert(seeds@ =~= Seq::new(count as nat, |i: int| i as usize));
                assert(seeds@ == kept_seeds(node_count as int, Seq::new(count as nat, |i: int| i as u32)));
            }
        }
        seeds
    }

    /// Grow continents from drawn seeds: [`ClusterAssigner::draw_seeds`], then
    /// [`ClusterAssigner::grow_from_seeds`] with the same generator.
    pub fn assign(&self, graph: &SurfaceGraph, rng: &mut StdRng) -> (terrain: Vec<TerrainType>)
        requires
            neighbors_in_range(graph@),
        ensures
            terrain@.len() == graph@.len(),
            forall|v: int| 0 <= v < graph@.len() ==> all_terrain_types().contains(#[trigger] terrain@[v]),
            exists|seeds: Seq<usize>| #[trigger] grown_from_seeds(graph@, seeds, terrain@),
    {
        let node_count = graph.len();
        let seeds = Self::draw_seeds(node_count, rng);
        let terrain = self.grow_from_seeds(graph, seeds.as_slice(), rng);
        proof {
            assert(grown_from_seeds(graph@, seeds@, terrain@));
        }
        terrain
    }

    /// Number of continent seeds for `node_count` vertices: one per terrain type, at most
    /// one per vertex.
    pub fn seed_count(node_count: usize) -> (count: usize)
        ensures
            count == if node_count < 6 { node_count } else { 6 },
    {
        if node_count < 6 { node_count } else { 6 }
    }

    /// One seed draw: keep `candidate` when it is not a seed yet. Returns whether it was
    /// kept. Repeating this with drawn candidates gives distinct seeds.
    pub fn keep_new_seed(seeds: &mut Vec<usize>, candidate: usize) -> (kept: bool)
        ensures
            kept <==> !old(seeds)@.contains(candidate),
            final(seeds)@ == if kept { old(seeds)@.push(candidate) } else { old(seeds)@ },
            old(seeds)@.no_duplicates() ==> final(seeds)@.no_duplicates(),
    {
        let mut i: usize = 0;
        while i < seeds.len()
            invariant
                i <= seeds@.len(),
                seeds@ == old(seeds)@,
                forall|k: int| 0 <= k < i ==> seeds@[k] != candidate,
            decreases seeds@.len() - i,
        {
            if seeds[i] == candidate {
                assert(seeds@[i as int] == candidate);
                return false;
            }
            i = i + 1;
        }
        let ghost before = seeds@;
        seeds.push(candidate);
        proof {
            assert forall|x: int, y: int| 0 <= x < y < seeds@.len() && before.no_duplicates() implies seeds@[x] != seeds@[y] by {
                if y == seeds@.len() - 1 {
                    assert(seeds@[x] == before[x]);
                }
            }
        }
        true
    }

    /// Grow continents from distinct seed vertices: seed `i` starts a region of the `i`-th
    /// terrain type, every vertex that a seed reaches takes the type of a nearest seed
    /// (ties between two regions are broken by a random draw), and vertices no seed
    /// reaches get a random type.
    pub fn grow_from_seeds(&self, graph: &SurfaceGraph, seeds: &[usize], rng: &mut StdRng) -> (terrain: Vec<TerrainType>)
        requires
            neighbors_in_range(graph@),
            seeds@.len() <= 6,
            seeds@.no_duplicates(),
            forall|i: int| 0 <= i < seeds@.len() ==> (#[trigger] seeds@[i] as int) < graph@.len(),
        ensures
            terrain@.len() == graph@.len(),
            forall|i: int| 0 <= i < seeds@.len() ==> terrain@[#[trigger] seeds@[i] as int] == all_terrain_types()[i],
            forall|v: int| 0 <= v < graph@.len() ==> all_terrain_types().contains(#[trigger] terrain@[v]),
            forall|v: int| 0 <= v < graph@.len() && #[trigger] seed_reaches(graph@, seeds@, v as usize)
                ==> nearest_seed_type(graph@, seeds@, v as usize, terrain@[v]),
    {
        let node_count = graph.len();
        let mut terrain: Vec<TerrainType> = vec![TerrainType::Land; node_count];
        let mut distances: Vec<usize> = vec![usize::MAX; node_count];
        let mut queue: VecDeque<usize> = VecDeque::new();
        let all = TerrainType::ALL;
        assert(all@ =~= all_terrain_types());
        assert(all_terrain_types()[0] == TerrainType::Land);

        let mut k: usize = 0;
        while k < seeds.len()
            invariant
                k <= seeds@.len(),
                seeds@.len() <= 6,
                seeds@.no_duplicates(),
                forall|i: int| 0 <= i < seeds@.len() ==> (#[trigger] seeds@[i] as int) < graph@.len(),
                all@ == all_terrain_types(),
                node_count == graph@.len(),
                terrain@.len() == node_count,
                distances@.len() == node_count,
                forall|i: int| 0 <= i < k ==> terrain@[#[trigger] seeds@[i] as int] == all_terrain_types()[i] && distances@[seeds@[i] as int] == 0,
                forall|q: int| 0 <= q < queue@.len() ==> (#[trigger] queue@[q] as int) < node_count && distances@[queue@[q] as int] < usize::MAX,
                forall|v: int| 0 <= v < node_count ==> all_terrain_types().contains(#[trigger] terrain@[v]),
                forall|v: int| 0 <= v < node_count && #[trigger] distances@[v] < usize::MAX
                    ==> typed_by_seed(graph@, seeds@, terrain@[v], v as usize, distances@[v] as nat),
                forall|v: int| 0 <= v < node_count && #[trigger] distances@[v] < usize::MAX ==> queue@.contains(v as usize),
            decreases seeds@.len() - k,
        {
            let seed_node = seeds[k];
            let ghost before_terrain = terrain@;
            let ghost before_distances = distances@;
            let ghost before_queue = queue@;
            terrain.set(seed_node, all[k]);
            distances.set(seed_node, 0);
            queue.push_back(seed_node);
            proof {
                assert(walk_reaches(graph@, seeds@[k as int], seed_node, 0));
                assert(all_terrain_types().contains(all[k as int])) by {
                    assert(all_terrain_types()[k as int] == all[k as int]);
                }
                assert forall|i: int| 0 <= i < k + 1 implies terrain@[#[trigger] seeds@[i] as int] == all_terrain_types()[i] && distances@[seeds@[i] as int] == 0 by {
                    if i < k {
                        assert(seeds@[i] != seeds@[k as int]);
                    }
                }
                assert forall|v: int| 0 <= v < node_count implies all_terrain_types().contains(#[trigger] terrain@[v]) by {
                    if v != seed_node as int {
                        assert(terrain@[v] == before_terrain[v]);
                    }
                }
                assert forall|v: int| 0 <= v < node_count && #[trigger] distances@[v] < usize::MAX
                    implies typed_by_seed(graph@, seeds@, terrain@[v], v as usize, distances@[v] as nat) by {
                    if v == seed_node as int {
                        assert(walk_reaches(graph@, seeds@[k as int], v as usize, 0));
                    } else {
                        assert(distances@[v] == before_distances[v]);
                        assert(terrain@[v] == before_terrain[v]);
                    }
                }
                assert forall|v: int| 0 <= v < node_count && #[trigger] distances@[v] < usize::MAX implies queue@.contains(v as usize) by {
                    if v == seed_node as int {
                        assert(queue@[queue@.len() - 1] == seed_node);
                    } else {
                        assert(distances@[v] == before_distances[v]);
                        let q = choose|q: int| 0 <= q < before_queue.len() && before_queue[q] == v as usize;
                        assert(queue@[q] == before_queue[q]);
                    }
                }
            }
            k = k + 1;
        }

        loop
            invariant
                seeds@.len() <= 6,
                neighbors_in_range(graph@),
                forall|i: int| 0 <= i < seeds@.len() ==> (#[trigger] seeds@[i] as int) < graph@.len(),
                node_count == graph@.len(),
                terrain@.len() == node_count,
                distances@.len() == node_count,
                forall|i: int| 0 <= i < seeds@.len() ==> terrain@[#[trigger] seeds@[i] as int] == all_terrain_types()[i] && distances@[seeds@[i] as int] == 0,
                forall|q: int| 0 <= q < queue@.len() ==> (#[trigger] queue@[q] as int) < node_count && distances@[queue@[q] as int] < usize::MAX,
                forall|v: int| 0 <= v < node_count ==> all_terrain_types().contains(#[trigger] terrain@[v]),
                forall|v: int| 0 <= v < node_count && #[trigger] distances@[v] < usize::MAX
                    ==> typed_by_seed(graph@, seeds@, terrain@[v], v as usize, distances@[v] as nat),
                forall|v: int| 0 <= v < node_count && #[trigger] distances@[v] < usize::MAX
                    ==> queue@.contains(v as usize) || relaxed(graph@, distances@, v),
            ensures
                queue@.len() == 0,
            decreases 2 * distance_total(distances@) + queue@.len(),
        {
            let ghost start_measure = 2 * distance_total(distances@) + queue@.len();
            let ghost queue_before_pop = queue@;
            proof {
                distance_total_nonnegative(distances@);
            }
            let node = match queue.pop_front() {
                Some(n) => n,
                None => break,
            };
            assert((node as int) < node_count && distances@[node as int] < usize::MAX);
            proof {
                assert forall|v: int| 0 <= v < node_count && v != node as int && #[trigger] distances@[v] < usize::MAX
                    implies queue@.contains(v as usize) || relaxed(graph@, distances@, v) by {
                    if queue_before_pop.contains(v as usize) {
                        let q = choose|q: int| 0 <= q < queue_before_pop.len() && queue_before_pop[q] == v as usize;
                        assert(q != 0);
                        assert(queue@[q - 1] == queue_before_pop[q]);
                    }
                }
            }
            let next_distance = distances[node] + 1;
            let row = graph.neighbors(node);
            let mut j: usize = 0;
            while j < row.len()
                invariant
                    neighbors_in_range(graph@),
                    forall|i: int| 0 <= i < seeds@.len() ==> (#[trigger] seeds@[i] as int) < graph@.len(),
                    (node as int) < node_count,
                    row@ == graph@[node as int],
                    j <= row@.len(),
                    next_distance == distances@[node as int] + 1,
                    node_count == graph@.len(),
                    terrain@.len() == node_count,
                    distances@.len() == node_count,
                    forall|i: int| 0 <= i < seeds@.len() ==> terrain@[#[trigger] seeds@[i] as int] == all_terrain_types()[i] && distances@[seeds@[i] as int] == 0,
                    forall|q: int| 0 <= q < queue@.len() ==> (#[trigger] queue@[q] as int) < node_count && distances@[queue@[q] as int] < usize::MAX,
                    forall|v: int| 0 <= v < node_count ==> all_terrain_types().contains(#[trigger] terrain@[v]),
                    forall|v: int| 0 <= v < node_count && #[trigger] distances@[v] < usize::MAX
                        ==> typed_by_seed(graph@, seeds@, terrain@[v], v as usize, distances@[v] as nat),
                    forall|v: int| 0 <= v < node_count && v != node as int && #[trigger] distances@[v] < usize::MAX
                        ==> queue@.contains(v as usize) || relaxed(graph@, distances@, v),
                    forall|jj: int| 0 <= jj < j ==> distances@[(#[trigger] row@[jj]).0 as int] <= distances@[node as int] + 1,
                    2 * distance_total(distances@) + queue@.len() < start_measure,
                decreases row@.len() - j,
            {
                let neighbor = row[j].0;
                assert((neighbor as int) < node_count) by {
                    assert(graph@[node as int][j as int] == row@[j as int]);
                }
                let ghost before = distances@;
                let ghost before_terrain = terrain@;
                let ghost before_queue = queue@;
                proof {
                    let i = choose|i: int| 0 <= i < seeds@.len() && terrain@[node as int] == all_terrain_types()[i]
                        && #[trigger] walk_reaches(graph@, seeds@[i], node, distances@[node as int] as nat);
                    assert(graph@[node as int][j as int].0 == neighbor);
                    walk_extends(graph@, seeds@[i], node, j as int, distances@[node as int] as nat);
                    assert(walk_reaches(graph@, seeds@[i], neighbor, next_distance as nat));
                    assert(typed_by_seed(graph@, seeds@, terrain@[node as int], neighbor, next_distance as nat));
                }
                if next_distance < distances[neighbor] {
                    proof {
                        distance_total_update(before, neighbor as int, next_distance);
                    }
                    distances.set(neighbor, next_distance);
                    let inherited = terrain[node];
                    terrain.set(neighbor, inherited);
                    queue.push_back(neighbor);
                    proof {
                        assert(neighbor != node);
                        assert forall|i: int| 0 <= i < seeds@.len() implies terrain@[#[trigger] seeds@[i] as int] == all_terrain_types()[i] && distances@[seeds@[i] as int] == 0 by {
                            assert(before[seeds@[i] as int] == 0);
                            assert(before_terrain[seeds@[i] as int] == all_terrain_types()[i]);
                            assert(seeds@[i] != neighbor);
                        }
                        assert forall|v: int| 0 <= v < node_count implies all_terrain_types().contains(#[trigger] terrain@[v]) by {
                            if v != neighbor as int {
                                assert(terrain@[v] == before_terrain[v]);
                            } else {
                                assert(terrain@[v] == before_terrain[node as int]);
                            }
                        }
                        assert forall|v: int| 0 <= v < node_count && #[trigger] distances@[v] < usize::MAX
                            implies typed_by_seed(graph@, seeds@, terrain@[v], v as usize, distances@[v] as nat) by {
                            if v != neighbor as int {
                                assert(distances@[v] == before[v]);
                                assert(terrain@[v] == before_terrain[v]);
                            }
                        }
                        assert forall|v: int| 0 <= v < node_count && v != node as int && #[trigger] distances@[v] < usize::MAX
                            implies queue@.contains(v as usize) || relaxed(graph@, distances@, v) by {
                            if v == neighbor as int {
                                assert(queue@[queue@.len() - 1] == neighbor);
                            } else {
                                assert(distances@[v] == before[v]);
                                if before_queue.contains(v as usize) {
                                    let q = choose|q: int| 0 <= q < before_queue.len() && before_queue[q] == v as usize;
                                    assert(queue@[q] == before_queue[q]);
                                } else {
                                    assert forall|jj: int| 0 <= jj < graph@[v].len() implies distances@[(#[trigger] graph@[v][jj]).0 as int] <= distances@[v] + 1 by {
                                        assert(before[graph@[v][jj].0 as int] <= before[v] + 1);
                                    }
                                }
                            }
                        }
                        assert forall|jj: int| 0 <= jj < j + 1 implies distances@[(#[trigger] row@[jj]).0 as int] <= distances@[node as int] + 1 by {
                            if jj < j {
                                assert(before[row@[jj].0 as int] <= before[node as int] + 1);
                            }
                        }
                    }
                } else if next_distance == distances[neighbor] && terrain[neighbor] != terrain[node] {
                    let pair = [terrain[neighbor], terrain[node]];
                    let picked = choose_item(&pair, rng);
                    terrain.set(neighbor, picked);
                    proof {
                        assert(picked == before_terrain[neighbor as int] || picked == before_terrain[node as int]) by {
                            let w = choose|w: int| 0 <= w < pair@.len() && pair@[w] == picked;
                        }
                        assert forall|i: int| 0 <= i < seeds@.len() implies terrain@[#[trigger] seeds@[i] as int] == all_terrain_types()[i] && distances@[seeds@[i] as int] == 0 by {
                            assert(before_terrain[seeds@[i] as int] == all_terrain_types()[i]);
                            assert(distances@[seeds@[i] as int] == 0);
                            assert(seeds@[i] != neighbor);
                        }
                        assert forall|v: int| 0 <= v < node_count implies all_terrain_types().contains(#[trigger] terrain@[v]) by {
                            if v != neighbor as int {
                                assert(terrain@[v] == before_terrain[v]);
                            } else if picked == before_terrain[neighbor as int] {
                                assert(all_terrain_types().contains(before_terrain[neighbor as int]));
                            } else {
                                assert(all_terrain_types().contains(before_terrain[node as int]));
                            }
                        }
                        assert forall|v: int| 0 <= v < node_count && #[trigger] distances@[v] < usize::MAX
                            implies typed_by_seed(graph@, seeds@, terrain@[v], v as usize, distances@[v] as nat) by {
                            if v != neighbor as int {
                                assert(terrain@[v] == before_terrain[v]);
                            } else if picked == before_terrain[neighbor as int] {
                                assert(typed_by_seed(graph@, seeds@, before_terrain[v], v as usize, distances@[v] as nat));
                            }
                        }
                        assert forall|jj: int| 0 <= jj < j + 1 implies distances@[(#[trigger] row@[jj]).0 as int] <= distances@[node as int] + 1 by {
                            if jj < j {
                                assert(before[row@[jj].0 as int] <= before[node as int] + 1);
                            }
                        }
                    }
                } else {
                    proof {
                        assert forall|jj: int| 0 <= jj < j + 1 implies distances@[(#[trigger] row@[jj]).0 as int] <= distances@[node as int] + 1 by {
                            if jj == j {
                                assert(row@[jj].0 == neighbor);
                            }
                        }
                    }
                }
                j = j + 1;
            }
            proof {
                distance_total_nonnegative(distances@);
                assert forall|v: int| 0 <= v < node_count && #[trigger] distances@[v] < usize::MAX
                    implies queue@.contains(v as usize) || relaxed(graph@, distances@, v) by {
                    if v == node as int {
                        assert forall|jj: int| 0 <= jj < graph@[v].len() implies distances@[(#[trigger] graph@[v][jj]).0 as int] <= distances@[v] + 1 by {
                            assert(row@[jj] == graph@[v][jj]);
                        }
                    }
                }
            }
        }

        let ghost settled = distances@;
        let mut node: usize = 0;
        while node < node_count
            invariant
                node <= node_count,
                forall|i: int| 0 <= i < seeds@.len() ==> (#[trigger] seeds@[i] as int) < graph@.len(),
                node_count == graph@.len(),
                terrain@.len() == node_count,
                distances@ == settled,
                distances@.len() == node_count,
                forall|i: int| 0 <= i < seeds@.len() ==> terrain@[#[trigger] seeds@[i] as int] == all_terrain_types()[i] && distances@[seeds@[i] as int] == 0,
                forall|v: int| 0 <= v < node_count ==> all_terrain_types().contains(#[trigger] terrain@[v]),
                forall|v: int| 0 <= v < node_count && #[trigger] distances@[v] < usize::MAX
                    ==> typed_by_seed(graph@, seeds@, terrain@[v], v as usize, distances@[v] as nat),
                forall|v: int| 0 <= v < node_count && #[trigger] distances@[v] < usize::MAX ==> relaxed(graph@, distances@, v),
            decreases node_count - node,
        {
            if distances[node] == usize::MAX {
                let ghost before_terrain = terrain@;
                let drawn = random_terrain(rng);
                terrain.set(node, drawn);
                proof {
                    assert forall|i: int| 0 <= i < seeds@.len() implies terrain@[#[trigger] seeds@[i] as int] == all_terrain_types()[i] && distances@[seeds@[i] as int] == 0 by {
                        assert(before_terrain[seeds@[i] as int] == all_terrain_types()[i]);
                        assert(seeds@[i] != node);
                    }
                    assert forall|v: int| 0 <= v < node_count implies all_terrain_types().contains(#[trigger] terrain@[v]) by {
                        if v != node as int {
                            assert(terrain@[v] == before_terrain[v]);
                        }
                    }
                    assert forall|v: int| 0 <= v < node_count && #[trigger] distances@[v] < usize::MAX
                        implies typed_by_seed(graph@, seeds@, terrain@[v], v as usize, distances@[v] as nat) by {
                        assert(v != node as int);
                        assert(terrain@[v] == before_terrain[v]);
                    }
                }
            }
            node = node + 1;
        }
        proof {
            assert forall|v: int| 0 <= v < graph@.len() && #[trigger] seed_reaches(graph@, seeds@, v as usize)
                implies nearest_seed_type(graph@, seeds@, v as usize, terrain@[v]) by {
                let (i, k) = choose|i: int, k: nat| 0 <= i < seeds@.len() && k < usize::MAX
                    && #[trigger] walk_reaches(graph@, seeds@[i], v as usize, k);
                walk_length_bounds_distance(graph@, seeds@, distances@, i, v as usize, k);
                let d = distances@[v] as nat;
                let i0 = choose|i0: int| 0 <= i0 < seeds@.len() && terrain@[v] == all_terrain_types()[i0]
                    && #[trigger] walk_reaches(graph@, seeds@[i0], v as usize, d);
                assert forall|i2: int, k2: nat| 0 <= i2 < seeds@.len() && #[trigger] walk_reaches(graph@, seeds@[i2], v as usize, k2)
                    implies d <= k2 by {
                    if k2 < usize::MAX {
                        walk_length_bounds_distance(graph@, seeds@, distances@, i2, v as usize, k2);
                    }
                }
                assert(walk_reaches(graph@, seeds@[i0], v as usize, d));
            }
        }
        terrain
    }
}

} // verus!
