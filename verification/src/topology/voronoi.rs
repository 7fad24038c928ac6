//! Face adjacency behind the spherical Voronoi cells.
//!
//! Each lattice vertex is the generator of one cell. The cell boundary runs through the
//! circumcenters of the Delaunay faces around the vertex, so the cell is built from those
//! faces in cyclic order and from the neighbor site across each boundary edge.

use vstd::prelude::*;

use super::spherical::{ordered_pair, SphericalMesh};

verus! {

/// Face indices that list vertex `v`, among the first `k` faces: a face is listed once for
/// each corner equal to `v`.
pub open spec fn incident_prefix(faces: Seq<[usize; 3]>, v: usize, k: nat) -> Seq<usize>
    decreases k,
{
    if k == 0 {
        Seq::empty()
    } else {
        let prev = incident_prefix(faces, v, (k - 1) as nat);
        let f = faces[k - 1];
        let idx = (k - 1) as usize;
        let s0 = if f[0] == v { prev.push(idx) } else { prev };
        let s1 = if f[1] == v { s0.push(idx) } else { s0 };
        if f[2] == v { s1.push(idx) } else { s1 }
    }
}

/// Faces around every vertex, in increasing face order.
pub open spec fn incident_faces_of(faces: Seq<[usize; 3]>, v: usize) -> Seq<usize> {
    incident_prefix(faces, v, faces.len())
}

/// The two other corners of `face` seen from `site`, in the face's winding order.
pub open spec fn other_corners(face: [usize; 3], site: usize) -> Option<(usize, usize)> {
    if face[0] == site {
        Some((face[1], face[2]))
    } else if face[1] == site {
        Some((face[2], face[0]))
    } else if face[2] == site {
        Some((face[0], face[1]))
    } else {
        None
    }
}

/// `face` has the undirected edge `edge` (given smaller index first) among its sides.
pub open spec fn face_has_edge(face: [usize; 3], edge: (usize, usize)) -> bool {
    ordered_pair(face[0], face[1]) == edge || ordered_pair(face[1], face[2]) == edge
        || ordered_pair(face[2], face[0]) == edge
}

/// Position in `candidates` of the first face other than `current` that has `edge`,
/// searching from position `from`.
pub open spec fn first_other_face(faces: Seq<[usize; 3]>, candidates: Seq<usize>, edge: (usize, usize), current: usize, from: int) -> Option<usize>
    decreases candidates.len() - from,
{
    if from >= candidates.len() || from < 0 {
        None
    } else {
        let f = candidates[from];
        if f != current && (f as int) < faces.len() && face_has_edge(faces[f as int], edge) {
            Some(f)
        } else {
            first_other_face(faces, candidates, edge, current, from + 1)
        }
    }
}

/// The neighbor shared by two faces around `site`: the first corner of `face_a` (seen from
/// `site`) that is also a corner of `face_b`.
pub open spec fn shared_neighbor(face_a: [usize; 3], face_b: [usize; 3], site: usize) -> Option<usize> {
    match (other_corners(face_a, site), other_corners(face_b, site)) {
        (Some((a0, a1)), Some((b0, b1))) => if a0 == b0 || a0 == b1 {
            Some(a0)
        } else if a1 == b0 || a1 == b1 {
            Some(a1)
        } else {
            None
        },
        _ => None,
    }
}

/// Faces visited by walking around `site` for `steps` steps from `current`, having
/// arrived through `previous`: each step crosses the edge from `site` to the corner of the
/// current face that is not `previous`.
pub open spec fn walk_around(faces: Seq<[usize; 3]>, candidates: Seq<usize>, site: usize, current: usize, previous: usize, steps: nat) -> Seq<usize>
    decreases steps,
{
    if steps == 0 {
        Seq::empty()
    } else {
        seq![current] + match other_corners(faces[current as int], site) {
            None => Seq::empty(),
            Some((na, nb)) => {
                let next_neighbor = if previous == na { nb } else { na };
                match first_other_face(faces, candidates, ordered_pair(site, next_neighbor), current, 0) {
                    None => Seq::empty(),
                    Some(next_face) => walk_around(faces, candidates, site, next_face, next_neighbor, (steps - 1) as nat),
                }
            },
        }
    }
}

/// All candidate faces index into the mesh.
pub open spec fn valid_face_indices(faces: Seq<[usize; 3]>, candidates: Seq<usize>) -> bool {
    forall|i: int| 0 <= i < candidates.len() ==> (#[trigger] candidates[i] as int) < faces.len()
}

/// Faces of the mesh listed per vertex: entry `v` lists, in increasing order, every face
/// with a corner at `v` (once per such corner).
pub fn vertex_face_incidence(mesh: &SphericalMesh, vertex_count: usize) -> (incident: Vec<Vec<usize>>)
    requires
        forall|t: int, c: int| 0 <= t < mesh.triangles@.len() && 0 <= c < 3 ==> (#[trigger] mesh.triangles@[t][c]) < vertex_count,
    ensures
        incident@.len() == vertex_count,
        forall|v: int| 0 <= v < vertex_count ==> (#[trigger] incident@[v])@ == incident_faces_of(mesh.triangles@, v as usize),
{
    let mut incident: Vec<Vec<usize>> = Vec::new();
    let mut v: usize = 0;
    while v < vertex_count
        invariant
            v <= vertex_count,
            incident@.len() == v,
            forall|u: int| 0 <= u < v ==> (#[trigger] incident@[u])@.len() == 0,
        decreases vertex_count - v,
    {
        incident.push(Vec::new());
        v = v + 1;
    }
    let mut face_index: usize = 0;
    while face_index < mesh.triangles.len()
        invariant
            face_index <= mesh.triangles@.len(),
            incident@.len() == vertex_count,
            forall|t: int, c: int| 0 <= t < mesh.triangles@.len() && 0 <= c < 3 ==> (#[trigger] mesh.triangles@[t][c]) < vertex_count,
            forall|u: int| 0 <= u < vertex_count ==> (#[trigger] incident@[u])@ == incident_prefix(mesh.triangles@, u as usize, face_index as nat),
        decreases mesh.triangles@.len() - face_index,
    {
        let face = mesh.triangles[face_index];
        assert(face[0] < vertex_count && face[1] < vertex_count && face[2] < vertex_count) by {
            assert(mesh.triangles@[face_index as int][0] < vertex_count);
            assert(mesh.triangles@[face_index as int][1] < vertex_count);
            assert(mesh.triangles@[face_index as int][2] < vertex_count);
        }
        let ghost before = incident@;
        incident[face[0]].push(face_index);
        let ghost after0 = incident@;
        incident[face[1]].push(face_index);
        let ghost after1 = incident@;
        incident[face[2]].push(face_index);
        proof {
            assert forall|u: int| 0 <= u < vertex_count implies (#[trigger] incident@[u])@ == incident_prefix(mesh.triangles@, u as usize, (face_index + 1) as nat) by {
                assert(mesh.triangles@[face_index as int] == face);
                let p = before[u]@;
                let s0 = if face[0] == u as usize { p.push(face_index) } else { p };
                let s1 = if face[1] == u as usize { s0.push(face_index) } else { s0 };
                assert(after0[u]@ == s0);
                assert(after1[u]@ == s1);
            }
        }
        face_index = face_index + 1;
    }
    incident
}

/// The two other corners of face `face_index` seen from `site`, in winding order.
pub fn neighbors_of_vertex_in_face(face_index: usize, site: usize, mesh: &SphericalMesh) -> (corners: Option<(usize, usize)>)
    requires
        face_index < mesh.triangles@.len(),
    ensures
        corners == other_corners(mesh.triangles@[face_index as int], site),
{
    let face = mesh.triangles[face_index];
    if face[0] == site {
        Some((face[1], face[2]))
    } else if face[1] == site {
        Some((face[2], face[0]))
    } else if face[2] == site {
        Some((face[0], face[1]))
    } else {
        None
    }
}

/// Whether the face has the undirected edge `edge`.
fn has_edge(face: [usize; 3], edge: (usize, usize)) -> (found: bool)
    ensures
        found == face_has_edge(face, edge),
{
    let (a, b) = if face[0] < face[1] { (face[0], face[1]) } else { (face[1], face[0]) };
    let (c, d) = if face[1] < face[2] { (face[1], face[2]) } else { (face[2], face[1]) };
    let (e, f) = if face[2] < face[0] { (face[2], face[0]) } else { (face[0], face[2]) };
    (a == edge.0 && b == edge.1) || (c == edge.0 && d == edge.1) || (e == edge.0 && f == edge.1)
}

/// The first face among `candidates`, other than `current_face`, that has `edge`.
pub fn opposite_face_across_edge(candidates: &[usize], edge: (usize, usize), current_face: usize, mesh: &SphericalMesh) -> (face: Option<usize>)
    ensures
        face == first_other_face(mesh.triangles@, candidates@, edge, current_face, 0),
{
    let mut i: usize = 0;
    while i < candidates.len()
        invariant
            i <= candidates@.len(),
            first_other_face(mesh.triangles@, candidates@, edge, current_face, 0)
                == first_other_face(mesh.triangles@, candidates@, edge, current_face, i as int),
        decreases candidates@.len() - i,
    {
        let f = candidates[i];
        if f != current_face && f < mesh.triangles.len() && has_edge(mesh.triangles[f], edge) {
            return Some(f);
        }
        i = i + 1;
    }
    None
}

/// The neighbor site shared by two faces around `site`.
pub fn neighbor_across_faces(site: usize, face_a: usize, face_b: usize, mesh: &SphericalMesh) -> (neighbor: Option<usize>)
    requires
        face_a < mesh.triangles@.len(),
        face_b < mesh.triangles@.len(),
    ensures
        neighbor == shared_neighbor(mesh.triangles@[face_a as int], mesh.triangles@[face_b as int], site),
{
    let (a0, a1) = match neighbors_of_vertex_in_face(face_a, site, mesh) {
        Some(pair) => pair,
        None => return None,
    };
    let (b0, b1) = match neighbors_of_vertex_in_face(face_b, site, mesh) {
        Some(pair) => pair,
        None => return None,
    };
    if a0 == b0 || a0 == b1 {
        Some(a0)
    } else if a1 == b0 || a1 == b1 {
        Some(a1)
    } else {
        None
    }
}

/// Neighbor sites across the boundary edges of a cell whose faces come in the order
/// `ordered`: for each face, the neighbor shared with the next face (cyclically), skipping
/// pairs that share none. Only the first `k` faces are considered.
pub open spec fn neighbors_along(faces: Seq<[usize; 3]>, site: usize, ordered: Seq<usize>, k: nat) -> Seq<usize>
    decreases k,
{
    if k == 0 {
        Seq::empty()
    } else {
        let prev = neighbors_along(faces, site, ordered, (k - 1) as nat);
        let i = k - 1;
        let next = (i + 1) % (ordered.len() as int);
        match shared_neighbor(faces[ordered[i] as int], faces[ordered[next] as int], site) {
            Some(n) => prev.push(n),
            None => prev,
        }
    }
}

/// Neighbor site across each boundary edge of the cell around `site`, whose faces are
/// given in cyclic order.
pub fn boundary_neighbors_for_faces(site: usize, ordered_faces: &[usize], mesh: &SphericalMesh) -> (neighbors: Vec<usize>)
    requires
        valid_face_indices(mesh.triangles@, ordered_faces@),
    ensures
        ordered_faces@.len() < 2 ==> neighbors@.len() == 0,
        ordered_faces@.len() >= 2 ==> neighbors@ == neighbors_along(mesh.triangles@, site, ordered_faces@, ordered_faces@.len()),
{
    let mut neighbors: Vec<usize> = Vec::new();
    let count = ordered_faces.len();
    if count < 2 {
        return neighbors;
    }
    let mut i: usize = 0;
    while i < count
        invariant
            count == ordered_faces@.len(),
            count >= 2,
            i <= count,
            valid_face_indices(mesh.triangles@, ordered_faces@),
            neighbors@ == neighbors_along(mesh.triangles@, site, ordered_faces@, i as nat),
        decreases count - i,
    {
        let next = (i + 1) % count;
        let face = ordered_faces[i];
        let next_face = ordered_faces[next];
        assert((face as int) < mesh.triangles@.len() && (next_face as int) < mesh.triangles@.len()) by {
            assert(ordered_faces@[i as int] == face);
            assert(ordered_faces@[next as int] == next_face);
        }
        match neighbor_across_faces(site, face, next_face, mesh) {
            Some(n) => neighbors.push(n),
            None => {},
        }
        i = i + 1;
    }
    neighbors
}

/// Faces around `site` in cyclic order, found by walking across shared edges.
///
/// The walk starts at the first candidate and leaves each face across the edge from
/// `site` to the corner it did not enter through. It succeeds when it visits as many faces
/// as there are candidates; otherwise the result is `None` and the caller orders the faces
/// another way. With at most one candidate the candidates are already in order.
pub fn order_faces_by_adjacency(site: usize, incident_faces: &[usize], mesh: &SphericalMesh) -> (ordered: Option<Vec<usize>>)
    requires
        valid_face_indices(mesh.triangles@, incident_faces@),
    ensures
        incident_faces@.len() <= 1 ==> (ordered matches Some(v) && v@ == incident_faces@),
        incident_faces@.len() >= 2 ==> match other_corners(mesh.triangles@[incident_faces@[0] as int], site) {
            None => ordered is None,
            Some((first_neighbor, _)) => {
                let walk = walk_around(mesh.triangles@, incident_faces@, site, incident_faces@[0], first_neighbor, incident_faces@.len());
                if walk.len() == incident_faces@.len() {
                    (ordered matches Some(v) && v@ == walk)
                } else {
                    ordered is None
                }
            },
        },
{
    let count = incident_faces.len();
    if count <= 1 {
        let mut copy: Vec<usize> = Vec::new();
        let mut i: usize = 0;
        while i < count
            invariant
                count == incident_faces@.len(),
                i <= count,
                copy@ == incident_faces@.take(i as int),
            decreases count - i,
        {
            copy.push(incident_faces[i]);
            assert(copy@ =~= incident_faces@.take(i + 1));
            i = i + 1;
        }
        assert(copy@ =~= incident_faces@);
        return Some(copy);
    }
    let start_face = incident_faces[0];
    assert((start_face as int) < mesh.triangles@.len()) by {
        assert(incident_faces@[0] == start_face);
    }
    let first_neighbor = match neighbors_of_vertex_in_face(start_face, site, mesh) {
        Some((a, _)) => a,
        None => return None,
    };
    let ghost full = walk_around(mesh.triangles@, incident_faces@, site, start_face, first_neighbor, count as nat);
    let mut ordered: Vec<usize> = Vec::new();
    let mut current_face = start_face;
    let mut previous_neighbor = first_neighbor;
    let mut step: usize = 0;
    loop
        invariant_except_break
            full == ordered@ + walk_around(mesh.triangles@, incident_faces@, site, current_face, previous_neighbor, (count - step) as nat),
            ordered@.len() == step,
        invariant
            count == incident_faces@.len(),
            count >= 2,
            step <= count,
            (current_face as int) < mesh.triangles@.len(),
            valid_face_indices(mesh.triangles@, incident_faces@),
        ensures
            full == ordered@,
        decreases count - step,
    {
        if step >= count {
            assert(walk_around(mesh.triangles@, incident_faces@, site, current_face, previous_neighbor, 0) =~= Seq::<usize>::empty());
            assert(full =~= ordered@);
            break;
        }
        ordered.push(current_face);
        let ghost rest = walk_around(mesh.triangles@, incident_faces@, site, current_face, previous_neighbor, (count - step) as nat);
        let (neighbor_a, neighbor_b) = match neighbors_of_vertex_in_face(current_face, site, mesh) {
            Some(pair) => pair,
            None => {
                assert(rest =~= seq![current_face]);
                assert(full =~= ordered@);
                break;
            },
        };
        let next_neighbor = if previous_neighbor == neighbor_a { neighbor_b } else { neighbor_a };
        let (lo, hi) = if site < next_neighbor { (site, next_neighbor) } else { (next_neighbor, site) };
        assert((lo, hi) == ordered_pair(site, next_neighbor));
        let next_face = match opposite_face_across_edge(incident_faces, (lo, hi), current_face, mesh) {
            Some(f) => f,
            None => {
                assert(rest =~= seq![current_face]);
                assert(full =~= ordered@);
                break;
            },
        };
        proof {
            first_other_face_is_candidate(mesh.triangles@, incident_faces@, (lo, hi), current_face, 0);
            assert(rest =~= seq![current_face] + walk_around(mesh.triangles@, incident_faces@, site, next_face, next_neighbor, (count - step - 1) as nat));
        }
        current_face = next_face;
        previous_neighbor = next_neighbor;
        step = step + 1;
    }
    if ordered.len() == count {
        Some(ordered)
    } else {
        None
    }
}

/// A face found by the search is a valid face index.
pub proof fn first_other_face_is_candidate(faces: Seq<[usize; 3]>, candidates: Seq<usize>, edge: (usize, usize), current: usize, from: int)
    ensures
        first_other_face(faces, candidates, edge, current, from) matches Some(f) ==> (f as int) < faces.len() && f != current,
    decreases candidates.len() - from,
{
    if 0 <= from < candidates.len() {
        first_other_face_is_candidate(faces, candidates, edge, current, from + 1);
    }
}

} // verus!
