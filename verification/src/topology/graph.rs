//! Adjacency graph over the spherical Delaunay wireframe.
//!
//! Edge weights are geodesic arc lengths. They are stored as the IEEE-754 bit patterns of
//! the non-negative `f64` lengths: for non-negative finite values the bit patterns order
//! exactly as the lengths do, and the graph logic here only carries them.

use vstd::prelude::*;

verus! {

/// Adjacency graph built from the spherical Delaunay wireframe.
#[derive(Debug, Clone)]
pub struct SurfaceGraph {
    adjacency: Vec<Vec<(usize, u64)>>,
}

impl View for SurfaceGraph {
    type V = Seq<Seq<(usize, u64)>>;

    closed spec fn view(&self) -> Seq<Seq<(usize, u64)>> {
        Seq::new(self.adjacency@.len(), |i: int| self.adjacency@[i]@)
    }
}

/// Adjacency entries of vertex `v` contributed by the first `k` weighted edges, in order:
/// edge `[a, b]` adds `(b, w)` to `a` and then `(a, w)` to `b`.
pub open spec fn incident_entries(edges: Seq<[usize; 2]>, weights: Seq<u64>, v: usize, k: nat) -> Seq<(usize, u64)>
    decreases k,
{
    if k == 0 {
        Seq::empty()
    } else {
        let prev = incident_entries(edges, weights, v, (k - 1) as nat);
        let e = edges[k - 1];
        let w = weights[k - 1];
        let first = if e[0] == v { prev.push((e[1], w)) } else { prev };
        if e[1] == v { first.push((e[0], w)) } else { first }
    }
}

/// Every entry `(u, w)` of vertex `v` is matched by an entry `(v, w)` of vertex `u`.
pub open spec fn is_symmetric(adj: Seq<Seq<(usize, u64)>>) -> bool {
    forall|v: int, j: int|
        0 <= v < adj.len() && 0 <= j < adj[v].len() ==> {
            let (u, w) = #[trigger] adj[v][j];
            &&& u < adj.len()
            &&& adj[u as int].contains((v as usize, w))
        }
}

/// Every neighbor index names a vertex of the graph.
pub open spec fn neighbors_in_range(adj: Seq<Seq<(usize, u64)>>) -> bool {
    forall|v: int, j: int| 0 <= v < adj.len() && 0 <= j < adj[v].len() ==> ((#[trigger] adj[v][j]).0 as int) < adj.len()
}

impl SurfaceGraph {
    /// Build a surface graph from a precomputed adjacency list.
    pub fn from_adjacency(adjacency: Vec<Vec<(usize, u64)>>) -> (graph: SurfaceGraph)
        ensures
            graph@.len() == adjacency@.len(),
            forall|i: int| 0 <= i < adjacency@.len() ==> graph@[i] == #[trigger] adjacency@[i]@,
    {
        SurfaceGraph { adjacency }
    }

    /// Build a surface graph over `vertex_count` vertices from undirected edges and the bit
    /// patterns of their weights.
    pub fn from_edge_weights(vertex_count: usize, edges: &[[usize; 2]], weight_bits: &[u64]) -> (graph: SurfaceGraph)
        requires
            weight_bits@.len() == edges@.len(),
            forall|i: int| 0 <= i < edges@.len() ==> (#[trigger] edges@[i])[0] < vertex_count && edges@[i][1] < vertex_count,
        ensures
            graph@.len() == vertex_count,
            forall|v: int| 0 <= v < vertex_count ==> #[trigger] graph@[v] == incident_entries(edges@, weight_bits@, v as usize, edges@.len()),
    {
        let mut adjacency: Vec<Vec<(usize, u64)>> = Vec::new();
        let mut v: usize = 0;
        while v < vertex_count
            invariant
                v <= vertex_count,
                adjacency@.len() == v,
                forall|u: int| 0 <= u < v ==> (#[trigger] adjacency@[u])@.len() == 0,
            decreases vertex_count - v,
        {
            adjacency.push(Vec::new());
            v = v + 1;
        }
        let mut i: usize = 0;
        while i < edges.len()
            invariant
                i <= edges@.len(),
                weight_bits@.len() == edges@.len(),
                adjacency@.len() == vertex_count,
                forall|k: int| 0 <= k < edges@.len() ==> (#[trigger] edges@[k])[0] < vertex_count && edges@[k][1] < vertex_count,
                forall|u: int| 0 <= u < vertex_count ==> (#[trigger] adjacency@[u])@ == incident_entries(edges@, weight_bits@, u as usize, i as nat),
            decreases edges@.len() - i,
        {
            let a = edges[i][0];
            let b = edges[i][1];
            let w = weight_bits[i];
            let ghost before = adjacency@;
            adjacency[a].push((b, w));
            adjacency[b].push((a, w));
            proof {
                assert forall|u: int| 0 <= u < vertex_count implies (#[trigger] adjacency@[u])@ == incident_entries(edges@, weight_bits@, u as usize, (i + 1) as nat) by {
                    assert(edges@[i as int] == [a, b]);
                    if u != a as int && u != b as int {
                        assert(adjacency@[u] == before[u]);
                    }
                }
            }
            i = i + 1;
        }
        SurfaceGraph { adjacency }
    }

    /// Neighbors of `index` as `(neighbor_index, weight_bits)` pairs.
    pub fn neighbors(&self, index: usize) -> (row: &[(usize, u64)])
        requires
            index < self@.len(),
        ensures
            row@ == self@[index as int],
    {
        self.adjacency[index].as_slice()
    }

    /// Number of vertices in the graph.
    pub fn len(&self) -> (count: usize)
        ensures
            count == self@.len(),
    {
        self.adjacency.len()
    }

    /// Returns true when the graph has no vertices.
    pub fn is_empty(&self) -> (empty: bool)
        ensures
            empty <==> self@.len() == 0,
    {
        self.adjacency.len() == 0
    }
}

/// Entries grow as more edges are taken into account.
pub proof fn incident_entries_grow(edges: Seq<[usize; 2]>, weights: Seq<u64>, v: usize, k: nat, later: nat)
    requires
        k <= later,
    ensures
        forall|x: (usize, u64)| incident_entries(edges, weights, v, k).contains(x) ==> #[trigger] incident_entries(edges, weights, v, later).contains(x),
    decreases later - k,
{
    if k < later {
        incident_entries_grow(edges, weights, v, k, (later - 1) as nat);
        let prev = incident_entries(edges, weights, v, (later - 1) as nat);
        let cur = incident_entries(edges, weights, v, later);
        assert forall|x: (usize, u64)| prev.contains(x) implies cur.contains(x) by {
            let i = choose|i: int| 0 <= i < prev.len() && prev[i] == x;
            assert(cur[i] == x);
        }
    }
}

/// Each entry `(u, w)` of `v` after `k` edges is matched by an entry `(v, w)` of `u`.
pub proof fn incident_entries_are_mutual(edges: Seq<[usize; 2]>, weights: Seq<u64>, v: usize, u: usize, w: u64, k: nat)
    requires
        k <= edges.len(),
        incident_entries(edges, weights, v, k).contains((u, w)),
    ensures
        incident_entries(edges, weights, u, k).contains((v, w)),
        exists|i: int| 0 <= i < k && (edges[i] == [v, u] || edges[i] == [u, v]),
    decreases k,
{
    let prev_v = incident_entries(edges, weights, v, (k - 1) as nat);
    let e = edges[k - 1];
    let ew = weights[k - 1];
    if prev_v.contains((u, w)) {
        incident_entries_are_mutual(edges, weights, v, u, w, (k - 1) as nat);
        incident_entries_grow(edges, weights, u, (k - 1) as nat, k);
    } else {
        let cur_v = incident_entries(edges, weights, v, k);
        let i = choose|i: int| 0 <= i < cur_v.len() && cur_v[i] == (u, w);
        let prev_u = incident_entries(edges, weights, u, (k - 1) as nat);
        let cur_u = incident_entries(edges, weights, u, k);
        let first_v = if e[0] == v { prev_v.push((e[1], ew)) } else { prev_v };
        if i >= first_v.len() {
            assert(e[1] == v && u == e[0] && w == ew);
            let first_u = if e[0] == u { prev_u.push((e[1], ew)) } else { prev_u };
            assert(first_u[first_u.len() - 1] == (v, w));
            assert(cur_u.contains((v, w))) by {
                let first_u = if e[0] == u { prev_u.push((e[1], ew)) } else { prev_u };
                assert(cur_u[first_u.len() - 1] == (v, w));
            }
            assert(edges[k - 1] == [u, v]);
        } else {
            assert(i == prev_v.len());
            assert(e[0] == v && u == e[1] && w == ew);
            let first_u = if e[0] == u { prev_u.push((e[1], ew)) } else { prev_u };
            assert(cur_u[cur_u.len() - 1] == (v, w));
            assert(edges[k - 1] == [v, u]);
        }
    }
}

/// A graph built from undirected weighted edges is symmetric: every edge can be crossed
/// in both directions at the same weight.
pub proof fn edge_built_graph_is_symmetric(vertex_count: usize, edges: Seq<[usize; 2]>, weights: Seq<u64>, graph: Seq<Seq<(usize, u64)>>)
    requires
        forall|i: int| 0 <= i < edges.len() ==> (#[trigger] edges[i])[0] < vertex_count && edges[i][1] < vertex_count,
        graph.len() == vertex_count,
        forall|v: int| 0 <= v < vertex_count ==> #[trigger] graph[v] == incident_entries(edges, weights, v as usize, edges.len()),
    ensures
        is_symmetric(graph),
{
    assert forall|v: int, j: int| 0 <= v < graph.len() && 0 <= j < graph[v].len() implies {
        let (u, w) = #[trigger] graph[v][j];
        &&& u < graph.len()
        &&& graph[u as int].contains((v as usize, w))
    } by {
        let (u, w) = graph[v][j];
        assert(graph[v].contains((u, w)));
        incident_entries_are_mutual(edges, weights, v as usize, u, w, edges.len());
        let i = choose|i: int| 0 <= i < edges.len() && (edges[i] == [v as usize, u] || edges[i] == [u, v as usize]);
        assert(edges[i][0] < vertex_count && edges[i][1] < vertex_count);
    }
}

} // verus!
