//! Routing decisions for shortest paths on the surface graph.
//!
//! The geodesic search itself adds floating-point lengths; this module decides what a
//! request asks for before the search runs, which vertices a terrain filter admits, and
//! how a path is read back from the predecessors the search recorded.

use vstd::prelude::*;

use crate::error::SphereError;
use crate::terrain::types::TerrainType;

verus! {

/// What a shortest-path request needs once its endpoints have been checked.
#[derive(Debug, Clone, Copy, PartialEq, Eq, Structural)]
pub enum RoutePlan {
    /// The endpoints coincide: the path is that one vertex, of length zero.
    SingleVertex,
    /// Search the whole graph.
    Unfiltered,
    /// Search only through vertices whose terrain type is allowed.
    Filtered,
}

/// The terrain at `index` is one of the allowed types.
pub open spec fn terrain_allowed(index: usize, terrain: Seq<TerrainType>, allowed: Seq<TerrainType>) -> bool {
    allowed.contains(terrain[index as int])
}

/// Whether vertex `index` may be traversed under the allowed terrain types.
pub fn vertex_terrain_allowed(index: usize, terrain: &[TerrainType], allowed: &[TerrainType]) -> (ok: bool)
    requires
        index < terrain@.len(),
    ensures
        ok == terrain_allowed(index, terrain@, allowed@),
{
    let t = terrain[index];
    let mut i: usize = 0;
    while i < allowed.len()
        invariant
            i <= allowed@.len(),
            t == terrain@[index as int],
            forall|k: int| 0 <= k < i ==> allowed@[k] != t,
        decreases allowed@.len() - i,
    {
        if allowed[i] == t {
            return true;
        }
        i = i + 1;
    }
    false
}

/// The plan for a request from `from` to `to` on a graph of `vertex_count` vertices.
pub open spec fn route_plan(from: usize, to: usize, vertex_count: usize, terrain: Seq<TerrainType>, allowed: Seq<TerrainType>) -> Result<RoutePlan, SphereError> {
    if from >= vertex_count {
        Err(SphereError::InvalidVertexIndex { index: from, count: vertex_count })
    } else if to >= vertex_count {
        Err(SphereError::InvalidVertexIndex { index: to, count: vertex_count })
    } else if from == to {
        if allowed.len() > 0 && terrain.len() > 0 && !terrain_allowed(from, terrain, allowed) {
            Err(SphereError::NoSurfacePath { from, to })
        } else {
            Ok(RoutePlan::SingleVertex)
        }
    } else if allowed.len() > 0 && terrain.len() > 0 {
        if !terrain_allowed(from, terrain, allowed) || !terrain_allowed(to, terrain, allowed) {
            Err(SphereError::NoSurfacePath { from, to })
        } else {
            Ok(RoutePlan::Filtered)
        }
    } else {
        Ok(RoutePlan::Unfiltered)
    }
}

/// Check a shortest-path request and decide how to search.
///
/// Both endpoints must be vertices of the graph. A filter applies only when both the
/// allowed list and the terrain are non-empty; a filtered path visits only allowed
/// vertices, so an endpoint whose terrain is not allowed means there is no path, also
/// when both endpoints are the same vertex.
pub fn plan_surface_route(from: usize, to: usize, vertex_count: usize, terrain: &[TerrainType], allowed: &[TerrainType]) -> (plan: Result<RoutePlan, SphereError>)
    requires
        allowed@.len() > 0 && terrain@.len() > 0 && from < vertex_count && to < vertex_count
            ==> from < terrain@.len() && to < terrain@.len(),
    ensures
        plan == route_plan(from, to, vertex_count, terrain@, allowed@),
{
    if from >= vertex_count {
        return Err(SphereError::InvalidVertexIndex { index: from, count: vertex_count });
    }
    if to >= vertex_count {
        return Err(SphereError::InvalidVertexIndex { index: to, count: vertex_count });
    }
    if from == to {
        if allowed.len() > 0 && terrain.len() > 0 && !vertex_terrain_allowed(from, terrain, allowed) {
            return Err(SphereError::NoSurfacePath { from, to });
        }
        return Ok(RoutePlan::SingleVertex);
    }
    if allowed.len() > 0 && terrain.len() > 0 {
        if !vertex_terrain_allowed(from, terrain, allowed) || !vertex_terrain_allowed(to, terrain, allowed) {
            return Err(SphereError::NoSurfacePath { from, to });
        }
        return Ok(RoutePlan::Filtered);
    }
    Ok(RoutePlan::Unfiltered)
}

/// The vertex reached from `v` after following `steps` predecessor links, if every link
/// on the way exists and names a recorded vertex.
pub open spec fn predecessor_walk(came_from: Seq<Option<usize>>, v: usize, steps: nat) -> Option<usize>
    decreases steps,
{
    if steps == 0 {
        if (v as int) < came_from.len() { Some(v) } else { None }
    } else {
        match predecessor_walk(came_from, v, (steps - 1) as nat) {
            Some(u) => match came_from[u as int] {
                Some(p) => if (p as int) < came_from.len() { Some(p) } else { None },
                None => None,
            },
            None => None,
        }
    }
}

/// A walk that breaks off stays broken off.
pub proof fn predecessor_walk_stays_broken(came_from: Seq<Option<usize>>, v: usize, k: nat, later: nat)
    requires
        k <= later,
        predecessor_walk(came_from, v, k) is None,
    ensures
        predecessor_walk(came_from, v, later) is None,
    decreases later - k,
{
    if k < later {
        predecessor_walk_stays_broken(came_from, v, k, (later - 1) as nat);
    }
}

/// Read the path from `start` to `goal` back from the predecessor links.
///
/// The result starts at `start`, ends at `goal`, each vertex is the recorded predecessor
/// of the next one, and `start` occurs only at the front.
pub fn reconstruct_path(start: usize, goal: usize, came_from: &[Option<usize>]) -> (path: Vec<usize>)
    requires
        exists|k: nat| predecessor_walk(came_from@, goal, k) == Some(start),
    ensures
        path@.len() >= 1,
        path@[0] == start,
        path@.last() == goal,
        forall|j: int| 0 <= j < path@.len() - 1 ==> came_from@[#[trigger] path@[j + 1] as int] == Some(path@[j]),
        forall|j: int| 0 < j < path@.len() ==> #[trigger] path@[j] != start,
{
    let ghost bound = choose|k: nat| predecessor_walk(came_from@, goal, k) == Some(start);
    let mut backwards: Vec<usize> = Vec::new();
    let mut current = goal;
    let ghost mut steps: nat = 0;
    proof {
        if predecessor_walk(came_from@, goal, 0) is None {
            predecessor_walk_stays_broken(came_from@, goal, 0, bound);
        }
    }
    loop
        invariant_except_break
            predecessor_walk(came_from@, goal, steps) == Some(current),
            steps <= bound,
            backwards@.len() == steps,
            forall|j: int| 0 <= j < backwards@.len() ==> predecessor_walk(came_from@, goal, j as nat) == Some(#[trigger] backwards@[j]),
            forall|j: int| 0 <= j < backwards@.len() ==> #[trigger] backwards@[j] != start,
        invariant
            predecessor_walk(came_from@, goal, bound) == Some(start),
        ensures
            backwards@.len() >= 1,
            backwards@.last() == start,
            backwards@[0] == goal,
            forall|j: int| 0 <= j < backwards@.len() - 1 ==> came_from@[#[trigger] backwards@[j] as int] == Some(backwards@[j + 1]),
            forall|j: int| 0 <= j < backwards@.len() - 1 ==> #[trigger] backwards@[j] != start,
        decreases bound - steps,
    {
        let ghost before = backwards@;
        backwards.push(current);
        proof {
            assert forall|j: int| 0 <= j < backwards@.len() - 1 implies came_from@[#[trigger] backwards@[j] as int] == Some(backwards@[j + 1]) by {
                assert(backwards@[j] == before[j]);
                assert(predecessor_walk(came_from@, goal, (j + 1) as nat) == Some(backwards@[j + 1]));
                assert(predecessor_walk(came_from@, goal, j as nat) == Some(backwards@[j]));
            }
            if steps == 0 {
                assert(current == goal);
            }
            assert(backwards@[0] == goal) by {
                assert(predecessor_walk(came_from@, goal, 0) == Some(backwards@[0]));
            }
        }
        if current == start {
            break;
        }
        proof {
            if steps == bound {
                assert(current == start);
            }
            if predecessor_walk(came_from@, goal, steps + 1) is None {
                predecessor_walk_stays_broken(came_from@, goal, steps + 1, bound);
            }
        }
        let next = match came_from[current] {
            Some(p) => p,
            None => current,
        };
        current = next;
        proof {
            steps = steps + 1;
        }
    }
    let mut path: Vec<usize> = Vec::new();
    let mut i = backwards.len();
    while i > 0
        invariant
            i <= backwards@.len(),
            path@.len() == backwards@.len() - i,
            forall|j: int| 0 <= j < path@.len() ==> #[trigger] path@[j] == backwards@[backwards@.len() - 1 - j],
        decreases i,
    {
        i = i - 1;
        path.push(backwards[i]);
    }
    proof {
        let n = backwards@.len();
        assert forall|j: int| 0 <= j < path@.len() - 1 implies came_from@[#[trigger] path@[j + 1] as int] == Some(path@[j]) by {
            let b = n - 2 - j;
            assert(path@[j + 1] == backwards@[b]);
            assert(path@[j] == backwards@[b + 1]);
        }
        assert forall|j: int| 0 < j < path@.len() implies #[trigger] path@[j] != start by {
            assert(path@[j] == backwards@[n - 1 - j]);
        }
    }
    path
}

/// Whether following predecessor links from `goal` reaches `start` within
/// `came_from.len()` links; when it does, [`reconstruct_path`] may be called.
pub fn predecessors_reach(start: usize, goal: usize, came_from: &[Option<usize>]) -> (reached: bool)
    ensures
        reached <==> exists|k: nat| k <= came_from@.len() && predecessor_walk(came_from@, goal, k) == Some(start),
{
    if goal >= came_from.len() {
        proof {
            assert forall|k: nat| k <= came_from@.len() implies predecessor_walk(came_from@, goal, k) != Some(start) by {
                predecessor_walk_stays_broken(came_from@, goal, 0, k);
            }
        }
        return false;
    }
    let mut current = goal;
    let mut steps: usize = 0;
    while steps <= came_from.len()
        invariant
            steps <= came_from@.len() + 1,
            steps <= came_from@.len() ==> predecessor_walk(came_from@, goal, steps as nat) == Some(current),
            forall|k: nat| k < steps ==> predecessor_walk(came_from@, goal, k) != Some(start),
            forall|k: nat| steps <= k <= came_from@.len() && predecessor_walk(came_from@, goal, steps as nat) is None
                ==> predecessor_walk(came_from@, goal, k) is None,
        decreases came_from@.len() + 1 - steps,
    {
        if current == start {
            return true;
        }
        if steps == came_from.len() {
            return false;
        }
        match came_from[current] {
            Some(p) => {
                if p >= came_from.len() {
                    proof {
                        assert(predecessor_walk(came_from@, goal, (steps + 1) as nat) is None);
                        assert forall|k: nat| steps < k <= came_from@.len() implies predecessor_walk(came_from@, goal, k) != Some(start) by {
                            predecessor_walk_stays_broken(came_from@, goal, (steps + 1) as nat, k);
                        }
                    }
                    return false;
                }
                current = p;
            },
            None => {
                proof {
                    assert(predecessor_walk(came_from@, goal, (steps + 1) as nat) is None);
                    assert forall|k: nat| steps < k <= came_from@.len() implies predecessor_walk(came_from@, goal, k) != Some(start) by {
                        predecessor_walk_stays_broken(came_from@, goal, (steps + 1) as nat, k);
                    }
                }
                return false;
            },
        }
        steps = steps + 1;
    }
    false
}

/// A filtered route starts and ends on allowed terrain: whenever a filter is active and a
/// plan is returned, the terrain of both endpoints is allowed.
pub proof fn filtered_routes_use_allowed_endpoints(from: usize, to: usize, vertex_count: usize, terrain: Seq<TerrainType>, allowed: Seq<TerrainType>)
    requires
        allowed.len() > 0,
        terrain.len() > 0,
        route_plan(from, to, vertex_count, terrain, allowed) is Ok,
    ensures
        terrain_allowed(from, terrain, allowed),
        terrain_allowed(to, terrain, allowed),
{
}

} // verus!
