//! Connectivity of the spherical Delaunay triangulation.
//!
//! The triangulation itself is computed in the plane after a stereographic projection
//! from the south pole; this module turns the planar faces back into sphere faces, derives
//! the undirected wireframe, and stitches the fan of faces around the projection hub.

use vstd::prelude::*;

verus! {

/// Undirected edge index pair.
pub type WireframeEdge = [usize; 2];

/// Spherical Delaunay mesh: triangle faces and undirected wireframe edges.
#[derive(Debug, Clone, PartialEq, Eq)]
pub struct SphericalMesh {
    /// Triangle faces as triples of vertex indices.
    pub triangles: Vec<[usize; 3]>,
    /// Undirected edges derived from the triangulation.
    pub edges: Vec<[usize; 2]>,
}

impl SphericalMesh {
    /// Build a mesh from precomputed triangles and edges.
    pub fn new(triangles: Vec<[usize; 3]>, edges: Vec<[usize; 2]>) -> (mesh: SphericalMesh)
        ensures
            mesh.triangles@ == triangles@,
            mesh.edges@ == edges@,
    {
        SphericalMesh { triangles, edges }
    }
}

/// The pair `(a, b)` ordered so that the smaller index comes first.
pub open spec fn ordered_pair(a: usize, b: usize) -> (usize, usize) {
    if a < b { (a, b) } else { (b, a) }
}

/// The edge `{a, b}` with its smaller index first.
pub open spec fn edge_key(a: usize, b: usize) -> [usize; 2] {
    if a < b { [a, b] } else { [b, a] }
}

/// Order an index pair so that the smaller index comes first.
pub fn normalized_pair(a: usize, b: usize) -> (pair: (usize, usize))
    ensures
        pair == ordered_pair(a, b),
{
    if a < b { (a, b) } else { (b, a) }
}

/// Side `j` (`0`, `1` or `2`) of a face: `(t0, t1)`, `(t1, t2)` or `(t2, t0)`.
pub open spec fn side(face: [usize; 3], j: int) -> [usize; 2] {
    if j == 0 {
        edge_key(face[0], face[1])
    } else if j == 1 {
        edge_key(face[1], face[2])
    } else {
        edge_key(face[2], face[0])
    }
}

/// `e` is one of the three sides of `face`.
pub open spec fn is_side_of(e: [usize; 2], face: [usize; 3]) -> bool {
    e == side(face, 0) || e == side(face, 1) || e == side(face, 2)
}

/// The vertex triple of a face in ascending order.
pub open spec fn sorted3(f: [usize; 3]) -> [usize; 3] {
    let (a, b, c) = (f[0], f[1], f[2]);
    if a <= b {
        if b <= c { [a, b, c] } else if a <= c { [a, c, b] } else { [c, a, b] }
    } else {
        if a <= c { [b, a, c] } else if b <= c { [b, c, a] } else { [c, b, a] }
    }
}

/// Two faces use the same vertices (in any order).
pub open spec fn same_face(x: [usize; 3], y: [usize; 3]) -> bool {
    sorted3(x) == sorted3(y)
}

/// A face through the map from local to global vertex indices.
pub open spec fn mapped_face(face: [usize; 3], index_map: Seq<usize>) -> [usize; 3] {
    [index_map[face[0] as int], index_map[face[1] as int], index_map[face[2] as int]]
}

/// Every vertex of every face indexes into a map of the given length.
pub open spec fn faces_index_into(faces: Seq<[usize; 3]>, len: int) -> bool {
    forall|t: int, c: int| 0 <= t < faces.len() && 0 <= c < 3 ==> (#[trigger] faces[t][c]) < len
}

/// `faces` with `face` appended unless a face with the same vertices is already present.
pub open spec fn with_face(faces: Seq<[usize; 3]>, face: [usize; 3]) -> Seq<[usize; 3]> {
    if exists|i: int| 0 <= i < faces.len() && same_face(#[trigger] faces[i], face) {
        faces
    } else {
        faces.push(face)
    }
}

/// `edges` with the undirected edge `{a, b}` appended (smaller index first) unless it is
/// a loop or already present in either orientation.
pub open spec fn with_edge(edges: Seq<[usize; 2]>, a: usize, b: usize) -> Seq<[usize; 2]> {
    if a == b {
        edges
    } else if exists|i: int| 0 <= i < edges.len() && edge_key((#[trigger] edges[i])[0], edges[i][1]) == edge_key(a, b) {
        edges
    } else {
        edges.push(edge_key(a, b))
    }
}

/// The elements of `s` in order of first occurrence, each kept once.
pub open spec fn first_occurrences<T>(s: Seq<T>) -> Seq<T>
    decreases s.len(),
{
    if s.len() == 0 {
        Seq::empty()
    } else {
        let kept = first_occurrences(s.drop_last());
        if kept.contains(s.last()) { kept } else { kept.push(s.last()) }
    }
}

/// The three side keys of every mapped face, face by face.
pub open spec fn side_keys(faces: Seq<[usize; 3]>, index_map: Seq<usize>) -> Seq<[usize; 2]>
    decreases faces.len(),
{
    if faces.len() == 0 {
        Seq::empty()
    } else {
        let f = mapped_face(faces.last(), index_map);
        side_keys(faces.drop_last(), index_map) + seq![side(f, 0), side(f, 1), side(f, 2)]
    }
}

/// Faces after fanning the hub around the first `k` consecutive hull pairs.
pub open spec fn hub_faces(faces: Seq<[usize; 3]>, hub: usize, ring: Seq<usize>, k: nat) -> Seq<[usize; 3]>
    decreases k,
{
    if k == 0 {
        faces
    } else {
        let prev = hub_faces(faces, hub, ring, (k - 1) as nat);
        with_face(prev, [hub, ring[k - 1], ring[(k as int)]])
    }
}

/// Edges after joining the hub to both vertices of the first `k` consecutive hull pairs.
pub open spec fn hub_edges(edges: Seq<[usize; 2]>, hub: usize, ring: Seq<usize>, k: nat) -> Seq<[usize; 2]>
    decreases k,
{
    if k == 0 {
        edges
    } else {
        let prev = hub_edges(edges, hub, ring, (k - 1) as nat);
        with_edge(with_edge(prev, hub, ring[k - 1]), hub, ring[(k as int)])
    }
}

/// Faces of the hub fan, closed by the face through the last and first hull vertices.
pub open spec fn closed_hub_faces(faces: Seq<[usize; 3]>, hub: usize, ring: Seq<usize>) -> Seq<[usize; 3]> {
    if ring.len() >= 2 {
        with_face(hub_faces(faces, hub, ring, (ring.len() - 1) as nat), [hub, ring.last(), ring[0]])
    } else {
        faces
    }
}

/// Edges of the hub fan.
pub open spec fn closed_hub_edges(edges: Seq<[usize; 2]>, hub: usize, ring: Seq<usize>) -> Seq<[usize; 2]> {
    if ring.len() >= 2 {
        hub_edges(edges, hub, ring, (ring.len() - 1) as nat)
    } else {
        edges
    }
}

/// `e` is a side of one of the faces.
pub open spec fn is_face_side(e: [usize; 2], faces: Seq<[usize; 3]>) -> bool {
    exists|t: int| 0 <= t < faces.len() && is_side_of(e, #[trigger] faces[t])
}

/// Every edge is a side of some face.
pub open spec fn edges_are_face_sides(edges: Seq<[usize; 2]>, faces: Seq<[usize; 3]>) -> bool {
    forall|i: int| 0 <= i < edges.len() ==> is_face_side(#[trigger] edges[i], faces)
}

/// Every edge lists its smaller index first.
pub open spec fn edges_are_ordered(edges: Seq<[usize; 2]>) -> bool {
    forall|i: int| 0 <= i < edges.len() ==> (#[trigger] edges[i])[0] <= edges[i][1]
}

/// Sort a vertex triple ascending.
fn sort3(f: [usize; 3]) -> (s: [usize; 3])
    ensures
        s == sorted3(f),
{
    let (a, b, c) = (f[0], f[1], f[2]);
    if a <= b {
        if b <= c { [a, b, c] } else if a <= c { [a, c, b] } else { [c, a, b] }
    } else {
        if a <= c { [b, a, c] } else if b <= c { [b, c, a] } else { [c, b, a] }
    }
}

/// Chain edges `[i, i + 1]` used when there are too few points to triangulate.
pub fn fallback_edges(n: usize) -> (edges: Vec<[usize; 2]>)
    ensures
        edges@.len() == if n == 0 { 0 } else { n - 1 },
        forall|i: int| 0 <= i < edges@.len() ==> #[trigger] edges@[i] == [i as usize, (i + 1) as usize],
{
    let mut edges: Vec<[usize; 2]> = Vec::new();
    if n == 0 {
        return edges;
    }
    let mut index: usize = 0;
    while index < n - 1
        invariant
            n >= 1,
            index <= n - 1,
            edges@.len() == index,
            forall|i: int| 0 <= i < index ==> #[trigger] edges@[i] == [i as usize, (i + 1) as usize],
        decreases n - 1 - index,
    {
        edges.push([index, index + 1]);
        index = index + 1;
    }
    edges
}

/// Map planar faces to sphere vertex indices.
pub fn map_triangles(triangles: &[[usize; 3]], index_map: &[usize]) -> (mapped: Vec<[usize; 3]>)
    requires
        faces_index_into(triangles@, index_map@.len() as int),
    ensures
        mapped@.len() == triangles@.len(),
        forall|t: int| 0 <= t < triangles@.len() ==> #[trigger] mapped@[t] == mapped_face(triangles@[t], index_map@),
{
    let mut mapped: Vec<[usize; 3]> = Vec::new();
    let mut t: usize = 0;
    while t < triangles.len()
        invariant
            t <= triangles@.len(),
            faces_index_into(triangles@, index_map@.len() as int),
            mapped@.len() == t,
            forall|k: int| 0 <= k < t ==> #[trigger] mapped@[k] == mapped_face(triangles@[k], index_map@),
        decreases triangles@.len() - t,
    {
        let face = triangles[t];
        assert(face[0] < index_map@.len() && face[1] < index_map@.len() && face[2] < index_map@.len()) by {
            assert(triangles@[t as int][0] < index_map@.len());
            assert(triangles@[t as int][1] < index_map@.len());
            assert(triangles@[t as int][2] < index_map@.len());
        }
        mapped.push([index_map[face[0]], index_map[face[1]], index_map[face[2]]]);
        t = t + 1;
    }
    mapped
}

/// Append `face` unless a face with the same vertices is already present.
pub fn push_triangle(triangles: &mut Vec<[usize; 3]>, face: [usize; 3])
    ensures
        final(triangles)@ == with_face(old(triangles)@, face),
{
    let sorted = sort3(face);
    let mut i: usize = 0;
    while i < triangles.len()
        invariant
            i <= triangles@.len(),
            sorted == sorted3(face),
            forall|k: int| 0 <= k < i ==> !same_face(#[trigger] triangles@[k], face),
        decreases triangles@.len() - i,
    {
        let other = sort3(triangles[i]);
        if other[0] == sorted[0] && other[1] == sorted[1] && other[2] == sorted[2] {
            assert(same_face(triangles@[i as int], face));
            return;
        }
        i = i + 1;
    }
    triangles.push(face);
}

/// Whether some edge of `edges` is `{a, b}` in either orientation.
fn holds_undirected(edges: &Vec<[usize; 2]>, a: usize, b: usize) -> (found: bool)
    ensures
        found <==> exists|i: int| 0 <= i < edges@.len() && edge_key((#[trigger] edges@[i])[0], edges@[i][1]) == edge_key(a, b),
{
    let (lo, hi) = normalized_pair(a, b);
    let mut i: usize = 0;
    while i < edges.len()
        invariant
            i <= edges@.len(),
            (lo, hi) == ordered_pair(a, b),
            forall|k: int| 0 <= k < i ==> edge_key((#[trigger] edges@[k])[0], edges@[k][1]) != edge_key(a, b),
        decreases edges@.len() - i,
    {
        let (x, y) = normalized_pair(edges[i][0], edges[i][1]);
        if x == lo && y == hi {
            assert(edge_key(edges@[i as int][0], edges@[i as int][1]) =~= edge_key(a, b));
            return true;
        }
        assert(edge_key(edges@[i as int][0], edges@[i as int][1]) != edge_key(a, b));
        i = i + 1;
    }
    false
}

/// Append the undirected edge `{a, b}` (smaller index first) unless it is a loop or
/// already present.
pub fn insert_edge(edges: &mut Vec<[usize; 2]>, a: usize, b: usize)
    ensures
        final(edges)@ == with_edge(old(edges)@, a, b),
{
    if a == b {
        return;
    }
    if !holds_undirected(edges, a, b) {
        let (lo, hi) = normalized_pair(a, b);
        assert([lo, hi] =~= edge_key(a, b));
        edges.push([lo, hi]);
    }
}

/// Append `key` unless it is already present.
fn push_new_key(edges: &mut Vec<[usize; 2]>, key: [usize; 2])
    ensures
        final(edges)@ == if old(edges)@.contains(key) { old(edges)@ } else { old(edges)@.push(key) },
{
    let mut i: usize = 0;
    while i < edges.len()
        invariant
            i <= edges@.len(),
            forall|k: int| 0 <= k < i ==> edges@[k] != key,
        decreases edges@.len() - i,
    {
        if edges[i][0] == key[0] && edges[i][1] == key[1] {
            assert(edges@[i as int] =~= key);
            return;
        }
        i = i + 1;
    }
    edges.push(key);
}

/// The key of `{a, b}` with its smaller index first.
fn key_of(a: usize, b: usize) -> (key: [usize; 2])
    ensures
        key == edge_key(a, b),
{
    if a < b { [a, b] } else { [b, a] }
}

/// Undirected edges of mapped planar faces, each kept once, in order of first appearance
/// (sides of a face taken as `(t0, t1)`, `(t1, t2)`, `(t2, t0)`).
pub fn undirected_edges_from_triangles(triangles: &[[usize; 3]], index_map: &[usize]) -> (edges: Vec<[usize; 2]>)
    requires
        faces_index_into(triangles@, index_map@.len() as int),
    ensures
        edges@ == first_occurrences(side_keys(triangles@, index_map@)),
{
    let mut edges: Vec<[usize; 2]> = Vec::new();
    let mut t: usize = 0;
    while t < triangles.len()
        invariant
            t <= triangles@.len(),
            faces_index_into(triangles@, index_map@.len() as int),
            edges@ == first_occurrences(side_keys(triangles@.take(t as int), index_map@)),
        decreases triangles@.len() - t,
    {
        let face = triangles[t];
        assert(face[0] < index_map@.len() && face[1] < index_map@.len() && face[2] < index_map@.len()) by {
            assert(triangles@[t as int][0] < index_map@.len());
            assert(triangles@[t as int][1] < index_map@.len());
            assert(triangles@[t as int][2] < index_map@.len());
        }
        let a = index_map[face[0]];
        let b = index_map[face[1]];
        let c = index_map[face[2]];
        let ghost f = mapped_face(face, index_map@);
        let ghost before = side_keys(triangles@.take(t as int), index_map@);
        proof {
            let next = triangles@.take(t + 1);
            assert(next.drop_last() =~= triangles@.take(t as int));
            assert(next.last() == face);
            assert(side_keys(next, index_map@) =~= before + seq![side(f, 0), side(f, 1), side(f, 2)]);
        }
        let k0 = key_of(a, b);
        let k1 = key_of(b, c);
        let k2 = key_of(c, a);
        let ghost s1 = before + seq![k0];
        let ghost s2 = before + seq![k0, k1];
        let ghost s3 = before + seq![k0, k1, k2];
        proof {
            assert(s1.drop_last() =~= before);
            assert(s2.drop_last() =~= s1);
            assert(s3.drop_last() =~= s2);
            assert(s1.last() == k0);
            assert(s2.last() == k1);
            assert(s3.last() == k2);
        }
        push_new_key(&mut edges, k0);
        assert(edges@ == first_occurrences(s1));
        push_new_key(&mut edges, k1);
        assert(edges@ == first_occurrences(s2));
        push_new_key(&mut edges, k2);
        assert(edges@ == first_occurrences(s3));
        proof {
            assert(before + seq![k0, k1, k2] =~= before + seq![side(f, 0), side(f, 1), side(f, 2)]);
        }
        t = t + 1;
    }
    assert(triangles@.take(triangles@.len() as int) =~= triangles@);
    edges
}

/// Mapped planar faces, in order.
pub open spec fn mapped_faces(faces: Seq<[usize; 3]>, index_map: Seq<usize>) -> Seq<[usize; 3]> {
    Seq::new(faces.len(), |t: int| mapped_face(faces[t], index_map))
}

/// Hull vertices mapped to sphere vertex indices.
pub open spec fn mapped_ring(hull: Seq<usize>, index_map: Seq<usize>) -> Seq<usize> {
    Seq::new(hull.len(), |i: int| index_map[hull[i] as int])
}

/// The kept elements occur in `s`, every element of `s` is kept, and none is kept twice.
pub proof fn first_occurrences_keep_each_once<T>(s: Seq<T>)
    ensures
        first_occurrences(s).no_duplicates(),
        forall|x: T| first_occurrences(s).contains(x) <==> s.contains(x),
    decreases s.len(),
{
    if s.len() > 0 {
        let prev = s.drop_last();
        first_occurrences_keep_each_once(prev);
        let kept = first_occurrences(prev);
        let all = first_occurrences(s);
        assert(s.last() == s[s.len() - 1]);
        assert(all.contains(s.last())) by {
            if !kept.contains(s.last()) {
                assert(all[kept.len() as int] == s.last());
            }
        }
        assert forall|x: T| kept.contains(x) implies all.contains(x) by {
            let i = choose|i: int| 0 <= i < kept.len() && kept[i] == x;
            assert(all[i] == x);
        }
        assert forall|x: T| prev.contains(x) implies s.contains(x) by {
            let i = choose|i: int| 0 <= i < prev.len() && prev[i] == x;
            assert(s[i] == x);
        }
        assert forall|x: T| s.contains(x) implies prev.contains(x) || x == s.last() by {
            let i = choose|i: int| 0 <= i < s.len() && s[i] == x;
            if i < s.len() - 1 {
                assert(prev[i] == x);
            }
        }
        assert forall|x: T| all.contains(x) implies kept.contains(x) || x == s.last() by {
            if !kept.contains(s.last()) {
                let i = choose|i: int| 0 <= i < all.len() && all[i] == x;
                if i < kept.len() {
                    assert(kept[i] == x);
                }
            }
        }
        if !kept.contains(s.last()) {
            assert forall|a: int, b: int| 0 <= a < b < kept.push(s.last()).len() implies kept.push(s.last())[a] != kept.push(s.last())[b] by {
                if b == kept.len() {
                    assert(kept.contains(kept[a]));
                }
            }
        }
    }
}

/// Every side key is ordered and is a side of one of the mapped faces.
pub proof fn side_keys_are_face_sides(faces: Seq<[usize; 3]>, index_map: Seq<usize>)
    ensures
        forall|i: int| 0 <= i < side_keys(faces, index_map).len() ==> {
            &&& (#[trigger] side_keys(faces, index_map)[i])[0] <= side_keys(faces, index_map)[i][1]
            &&& exists|t: int| 0 <= t < faces.len() && is_side_of(side_keys(faces, index_map)[i], mapped_face(#[trigger] faces[t], index_map))
        },
        side_keys(faces, index_map).len() == 3 * faces.len(),
    decreases faces.len(),
{
    if faces.len() > 0 {
        let prev = faces.drop_last();
        side_keys_are_face_sides(prev, index_map);
        let keys = side_keys(faces, index_map);
        let f = mapped_face(faces.last(), index_map);
        assert forall|i: int| 0 <= i < keys.len() implies {
            &&& (#[trigger] keys[i])[0] <= keys[i][1]
            &&& exists|t: int| 0 <= t < faces.len() && is_side_of(keys[i], mapped_face(#[trigger] faces[t], index_map))
        } by {
            if i < 3 * prev.len() {
                let t = choose|t: int| 0 <= t < prev.len() && is_side_of(side_keys(prev, index_map)[i], mapped_face(#[trigger] prev[t], index_map));
                assert(faces[t] == prev[t]);
            } else {
                assert(faces[faces.len() - 1] == faces.last());
            }
        }
    }
}

/// A face with the same vertices as `y` has every side of `y` among its sides.
pub proof fn same_face_shares_sides(x: [usize; 3], y: [usize; 3])
    requires
        same_face(x, y),
    ensures
        is_side_of(side(y, 0), x),
        is_side_of(side(y, 1), x),
        is_side_of(side(y, 2), x),
{
}

/// Sphere mesh from the planar Delaunay faces of the projected points.
///
/// `index_map[i]` is the sphere vertex of projected point `i`. When the projection hub
/// (the vertex sent to the south pole) was left out of the plane, `hub` names it and
/// `hull` lists the projected convex hull in order: the hub is then joined to every hull
/// vertex and fanned around the hull, closing with the face through the last and first
/// hull vertices.
pub fn assemble_projected_mesh(
    planar_triangles: &[[usize; 3]],
    index_map: &[usize],
    hub: Option<usize>,
    hull: &[usize],
) -> (mesh: SphericalMesh)
    requires
        faces_index_into(planar_triangles@, index_map@.len() as int),
        forall|i: int| 0 <= i < hull@.len() ==> #[trigger] hull@[i] < index_map@.len(),
    ensures
        hub is None ==> mesh.triangles@ == mapped_faces(planar_triangles@, index_map@),
        hub is None ==> mesh.edges@ == first_occurrences(side_keys(planar_triangles@, index_map@)),
        hub matches Some(h) ==> mesh.triangles@ == closed_hub_faces(
            mapped_faces(planar_triangles@, index_map@), h, mapped_ring(hull@, index_map@)),
        hub matches Some(h) ==> mesh.edges@ == closed_hub_edges(
            first_occurrences(side_keys(planar_triangles@, index_map@)), h, mapped_ring(hull@, index_map@)),
        edges_are_ordered(mesh.edges@),
        mesh.edges@.no_duplicates(),
        edges_are_face_sides(mesh.edges@, mesh.triangles@),
{
    let mut triangles = map_triangles(planar_triangles, index_map);
    let mut edges = undirected_edges_from_triangles(planar_triangles, index_map);
    let ghost base_faces = mapped_faces(planar_triangles@, index_map@);
    let ghost base_edges = first_occurrences(side_keys(planar_triangles@, index_map@));
    let ghost ring = mapped_ring(hull@, index_map@);
    proof {
        assert(triangles@ =~= base_faces);
        first_occurrences_keep_each_once(side_keys(planar_triangles@, index_map@));
        side_keys_are_face_sides(planar_triangles@, index_map@);
        assert forall|i: int| 0 <= i < edges@.len() implies is_face_side(#[trigger] edges@[i], triangles@) by {
            let keys = side_keys(planar_triangles@, index_map@);
            assert(keys.contains(edges@[i]));
            let j = choose|j: int| 0 <= j < keys.len() && keys[j] == edges@[i];
            let t = choose|t: int| 0 <= t < planar_triangles@.len() && is_side_of(keys[j], mapped_face(#[trigger] planar_triangles@[t], index_map@));
            assert(triangles@[t] == mapped_face(planar_triangles@[t], index_map@));
        }
        assert(edges_are_face_sides(edges@, triangles@));
        assert forall|i: int| 0 <= i < edges@.len() implies (#[trigger] edges@[i])[0] <= edges@[i][1] by {
            let keys = side_keys(planar_triangles@, index_map@);
            assert(keys.contains(edges@[i]));
            let j = choose|j: int| 0 <= j < keys.len() && keys[j] == edges@[i];
            assert(keys[j][0] <= keys[j][1]);
        }
    }
    if let Some(h) = hub {
        if hull.len() >= 2 {
            let mut w: usize = 0;
            while w < hull.len() - 1
                invariant
                    hull@.len() >= 2,
                    w + 1 <= hull@.len(),
                    hub == Some(h),
                    ring == mapped_ring(hull@, index_map@),
                    forall|i: int| 0 <= i < hull@.len() ==> #[trigger] hull@[i] < index_map@.len(),
                    triangles@ == hub_faces(base_faces, h, ring, w as nat),
                    edges@ == hub_edges(base_edges, h, ring, w as nat),
                    edges_are_ordered(edges@),
                    edges@.no_duplicates(),
                    edges_are_face_sides(edges@, triangles@),
                decreases hull@.len() - w,
            {
                let a = index_map[hull[w]];
                let b = index_map[hull[w + 1]];
                assert(a == ring[w as int] && b == ring[w + 1]);
                let ghost old_triangles = triangles@;
                insert_edge(&mut edges, h, a);
                insert_edge(&mut edges, h, b);
                push_triangle(&mut triangles, [h, a, b]);
                proof {
                    let face = [h, a, b];
                    let t_face: int = if exists|i: int| 0 <= i < old_triangles.len() && same_face(#[trigger] old_triangles[i], face) {
                        let i = choose|i: int| 0 <= i < old_triangles.len() && same_face(#[trigger] old_triangles[i], face);
                        same_face_shares_sides(old_triangles[i], face);
                        i
                    } else {
                        old_triangles.len() as int
                    };
                    assert(is_side_of(edge_key(h, a), triangles@[t_face]) && is_side_of(edge_key(h, b), triangles@[t_face])) by {
                        if t_face < old_triangles.len() {
                            assert(side(face, 0) == edge_key(h, a));
                            assert(side(face, 2) == edge_key(h, b));
                        }
                    }
                    assert forall|i: int| 0 <= i < edges@.len() implies is_face_side(#[trigger] edges@[i], triangles@) by {
                        if exists|t: int| 0 <= t < old_triangles.len() && is_side_of(edges@[i], #[trigger] old_triangles[t]) {
                            let t = choose|t: int| 0 <= t < old_triangles.len() && is_side_of(edges@[i], #[trigger] old_triangles[t]);
                            assert(triangles@[t] == old_triangles[t]);
                        } else {
                            assert(is_side_of(edges@[i], triangles@[t_face]));
                        }
                    }
                }
                w = w + 1;
            }
            let first = index_map[hull[0]];
            let last = index_map[hull[hull.len() - 1]];
            assert(first == ring[0] && last == ring.last());
            let ghost old_triangles = triangles@;
            push_triangle(&mut triangles, [h, last, first]);
            assert forall|i: int| 0 <= i < edges@.len() implies is_face_side(#[trigger] edges@[i], triangles@) by {
                let t = choose|t: int| 0 <= t < old_triangles.len() && is_side_of(edges@[i], #[trigger] old_triangles[t]);
                assert(triangles@[t] == old_triangles[t]);
            }
            assert(edges_are_face_sides(edges@, triangles@));
        }
    }
    SphericalMesh { triangles, edges }
}

} // verus!
