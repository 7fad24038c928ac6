//! Edges of the Voronoi diagram as pairs of Delaunay faces.
//!
//! Every Delaunay edge shared by exactly two faces is one Voronoi edge: the segment
//! between the circumcenters of those two faces. Edges are listed by increasing vertex
//! pair, as an ordered map from edge to faces would list them.

use vstd::prelude::*;

use super::spherical::{ordered_pair, SphericalMesh};
use super::voronoi::face_has_edge;

verus! {

/// `a` comes before `b` in lexicographic order.
pub open spec fn pair_before(a: (usize, usize), b: (usize, usize)) -> bool {
    a.0 < b.0 || (a.0 == b.0 && a.1 < b.1)
}

/// `f` once for every side of `face` whose vertex pair (smaller first) is `key`.
pub open spec fn face_owners(face: [usize; 3], f: usize, key: (usize, usize)) -> Seq<usize> {
    let s0 = if ordered_pair(face[0], face[1]) == key { seq![f] } else { Seq::empty() };
    let s1 = if ordered_pair(face[1], face[2]) == key { seq![f] } else { Seq::empty() };
    let s2 = if ordered_pair(face[2], face[0]) == key { seq![f] } else { Seq::empty() };
    s0 + s1 + s2
}

/// Faces that have the edge `key` (smaller index first) as a side, in face order, a face
/// listed once per such side.
pub open spec fn side_owners(faces: Seq<[usize; 3]>, key: (usize, usize)) -> Seq<usize>
    decreases faces.len(),
{
    if faces.len() == 0 {
        Seq::empty()
    } else {
        side_owners(faces.drop_last(), key) + face_owners(faces.last(), (faces.len() - 1) as usize, key)
    }
}

/// `(hi, f)` for every side of `face` whose vertex pair (smaller first) is `(lo, hi)`.
pub open spec fn face_bucket(face: [usize; 3], f: usize, lo: usize) -> Seq<(usize, usize)> {
    let k0 = ordered_pair(face[0], face[1]);
    let k1 = ordered_pair(face[1], face[2]);
    let k2 = ordered_pair(face[2], face[0]);
    let s0 = if k0.0 == lo { seq![(k0.1, f)] } else { Seq::empty() };
    let s1 = if k1.0 == lo { seq![(k1.1, f)] } else { Seq::empty() };
    let s2 = if k2.0 == lo { seq![(k2.1, f)] } else { Seq::empty() };
    s0 + s1 + s2
}

/// The sides whose smaller vertex is `lo`, as `(other vertex, face)`, in face order.
pub open spec fn bucket_entries(faces: Seq<[usize; 3]>, lo: usize) -> Seq<(usize, usize)>
    decreases faces.len(),
{
    if faces.len() == 0 {
        Seq::empty()
    } else {
        bucket_entries(faces.drop_last(), lo) + face_bucket(faces.last(), (faces.len() - 1) as usize, lo)
    }
}

/// The faces of the entries of `bucket` whose other vertex is `hi`, in order.
pub open spec fn owners_in_bucket(bucket: Seq<(usize, usize)>, hi: usize) -> Seq<usize>
    decreases bucket.len(),
{
    if bucket.len() == 0 {
        Seq::empty()
    } else {
        owners_in_bucket(bucket.drop_last(), hi) + if bucket.last().0 == hi {
            seq![bucket.last().1]
        } else {
            Seq::empty()
        }
    }
}

/// Every corner of every face is below `n`.
pub open spec fn corners_below(faces: Seq<[usize; 3]>, n: int) -> bool {
    forall|t: int, c: int| 0 <= t < faces.len() && 0 <= c < 3 ==> (#[trigger] faces[t][c]) < n
}

proof fn owners_in_bucket_concat(a: Seq<(usize, usize)>, b: Seq<(usize, usize)>, hi: usize)
    ensures
        owners_in_bucket(a + b, hi) == owners_in_bucket(a, hi) + owners_in_bucket(b, hi),
    decreases b.len(),
{
    if b.len() == 0 {
        assert(a + b =~= a);
        assert(owners_in_bucket(a, hi) + owners_in_bucket(b, hi) =~= owners_in_bucket(a, hi));
    } else {
        owners_in_bucket_concat(a, b.drop_last(), hi);
        assert((a + b).drop_last() =~= a + b.drop_last());
        assert((a + b).last() == b.last());
        let tail = if b.last().0 == hi { seq![b.last().1] } else { Seq::<usize>::empty() };
        assert(owners_in_bucket(a + b, hi) == owners_in_bucket(a + b.drop_last(), hi) + tail);
        assert(owners_in_bucket(a, hi) + owners_in_bucket(b.drop_last(), hi) + tail =~= owners_in_bucket(a, hi)
            + (owners_in_bucket(b.drop_last(), hi) + tail));
    }
}

proof fn owners_of_one_entry(e: (usize, usize), hi: usize)
    ensures
        owners_in_bucket(seq![e], hi) == if e.0 == hi { seq![e.1] } else { Seq::<usize>::empty() },
{
    assert(seq![e].drop_last() =~= Seq::<(usize, usize)>::empty());
    assert(owners_in_bucket(Seq::<(usize, usize)>::empty(), hi) =~= Seq::<usize>::empty());
    if e.0 == hi {
        assert(Seq::<usize>::empty() + seq![e.1] =~= seq![e.1]);
    } else {
        assert(Seq::<usize>::empty() + Seq::<usize>::empty() =~= Seq::<usize>::empty());
    }
}

proof fn owners_of_part(k: (usize, usize), f: usize, lo: usize, hi: usize)
    ensures
        owners_in_bucket(if k.0 == lo { seq![(k.1, f)] } else { Seq::empty() }, hi) == if k == (lo, hi) {
            seq![f]
        } else {
            Seq::<usize>::empty()
        },
{
    if k.0 == lo {
        owners_of_one_entry((k.1, f), hi);
    } else {
        assert(owners_in_bucket(Seq::<(usize, usize)>::empty(), hi) =~= Seq::<usize>::empty());
    }
}

proof fn bucket_of_face_gives_owners(face: [usize; 3], f: usize, lo: usize, hi: usize)
    ensures
        owners_in_bucket(face_bucket(face, f, lo), hi) == face_owners(face, f, (lo, hi)),
{
    let k0 = ordered_pair(face[0], face[1]);
    let k1 = ordered_pair(face[1], face[2]);
    let k2 = ordered_pair(face[2], face[0]);
    let s0 = if k0.0 == lo { seq![(k0.1, f)] } else { Seq::empty() };
    let s1 = if k1.0 == lo { seq![(k1.1, f)] } else { Seq::empty() };
    let s2 = if k2.0 == lo { seq![(k2.1, f)] } else { Seq::empty() };
    owners_in_bucket_concat(s0 + s1, s2, hi);
    owners_in_bucket_concat(s0, s1, hi);
    owners_of_part(k0, f, lo, hi);
    owners_of_part(k1, f, lo, hi);
    owners_of_part(k2, f, lo, hi);
}

/// Reading the faces of `hi` out of the bucket of `lo` gives the owners of the edge
/// `(lo, hi)`.
proof fn bucket_gives_owners(faces: Seq<[usize; 3]>, lo: usize, hi: usize)
    ensures
        owners_in_bucket(bucket_entries(faces, lo), hi) == side_owners(faces, (lo, hi)),
    decreases faces.len(),
{
    if faces.len() > 0 {
        let f = (faces.len() - 1) as usize;
        bucket_gives_owners(faces.drop_last(), lo, hi);
        owners_in_bucket_concat(bucket_entries(faces.drop_last(), lo), face_bucket(faces.last(), f, lo), hi);
        bucket_of_face_gives_owners(faces.last(), f, lo, hi);
    }
}

proof fn owners_come_from_entries(bucket: Seq<(usize, usize)>, hi: usize)
    ensures
        owners_in_bucket(bucket, hi).len() > 0 ==> exists|j: int| 0 <= j < bucket.len() && (#[trigger] bucket[j]).0 == hi,
    decreases bucket.len(),
{
    if bucket.len() > 0 {
        owners_come_from_entries(bucket.drop_last(), hi);
        if owners_in_bucket(bucket.drop_last(), hi).len() > 0 {
            let j = choose|j: int| 0 <= j < bucket.drop_last().len() && (#[trigger] bucket.drop_last()[j]).0 == hi;
            assert(bucket[j] == bucket.drop_last()[j]);
        } else if bucket.last().0 == hi {
            assert(bucket[bucket.len() - 1].0 == hi);
        }
    }
}

proof fn owned_edges_are_within(faces: Seq<[usize; 3]>, key: (usize, usize), n: int)
    requires
        corners_below(faces, n),
    ensures
        side_owners(faces, key).len() > 0 ==> key.0 < n && key.1 < n,
    decreases faces.len(),
{
    if faces.len() > 0 {
        let rest = faces.drop_last();
        assert(corners_below(rest, n)) by {
            assert forall|t: int, c: int| 0 <= t < rest.len() && 0 <= c < 3 implies (#[trigger] rest[t][c]) < n by {
                assert(rest[t] == faces[t]);
            }
        }
        owned_edges_are_within(rest, key, n);
        let face = faces.last();
        assert(face[0] < n && face[1] < n && face[2] < n) by {
            assert(faces[faces.len() - 1][0] < n);
            assert(faces[faces.len() - 1][1] < n);
            assert(faces[faces.len() - 1][2] < n);
        }
    }
}

/// Entries `(hi, f)` of the sides whose smaller vertex is `lo`, for every `lo` below
/// `vertex_count`, in face order.
fn side_buckets(mesh: &SphericalMesh, vertex_count: usize) -> (buckets: Vec<Vec<(usize, usize)>>)
    requires
        corners_below(mesh.triangles@, vertex_count as int),
    ensures
        buckets@.len() == vertex_count,
        forall|lo: int| 0 <= lo < vertex_count ==> (#[trigger] buckets@[lo])@ == bucket_entries(mesh.triangles@, lo as usize),
{
    let mut buckets: Vec<Vec<(usize, usize)>> = Vec::new();
    let mut v: usize = 0;
    while v < vertex_count
        invariant
            v <= vertex_count,
            buckets@.len() == v,
            forall|u: int| 0 <= u < v ==> (#[trigger] buckets@[u])@.len() == 0,
        decreases vertex_count - v,
    {
        buckets.push(Vec::new());
        v = v + 1;
    }
    let mut f: usize = 0;
    while f < mesh.triangles.len()
        invariant
            f <= mesh.triangles@.len(),
            buckets@.len() == vertex_count,
            corners_below(mesh.triangles@, vertex_count as int),
            forall|u: int| 0 <= u < vertex_count ==> (#[trigger] buckets@[u])@ == bucket_entries(mesh.triangles@.take(f as int), u as usize),
        decreases mesh.triangles@.len() - f,
    {
        let face = mesh.triangles[f];
        assert(face[0] < vertex_count && face[1] < vertex_count && face[2] < vertex_count) by {
            assert(mesh.triangles@[f as int][0] < vertex_count);
            assert(mesh.triangles@[f as int][1] < vertex_count);
            assert(mesh.triangles@[f as int][2] < vertex_count);
        }
        let k0 = if face[0] < face[1] { (face[0], face[1]) } else { (face[1], face[0]) };
        let k1 = if face[1] < face[2] { (face[1], face[2]) } else { (face[2], face[1]) };
        let k2 = if face[2] < face[0] { (face[2], face[0]) } else { (face[0], face[2]) };
        let ghost before = buckets@;
        buckets[k0.0].push((k0.1, f));
        let ghost after0 = buckets@;
        buckets[k1.0].push((k1.1, f));
        let ghost after1 = buckets@;
        buckets[k2.0].push((k2.1, f));
        proof {
            let prefix = mesh.triangles@.take(f as int + 1);
            assert(prefix.drop_last() =~= mesh.triangles@.take(f as int));
            assert(prefix.last() == face);
            assert forall|u: int| 0 <= u < vertex_count implies (#[trigger] buckets@[u])@ == bucket_entries(prefix, u as usize) by {
                let p = before[u]@;
                let s0 = if k0.0 == u as usize { seq![(k0.1, f)] } else { Seq::empty() };
                let s1 = if k1.0 == u as usize { seq![(k1.1, f)] } else { Seq::empty() };
                let s2 = if k2.0 == u as usize { seq![(k2.1, f)] } else { Seq::empty() };
                assert(after0[u]@ =~= p + s0);
                assert(after1[u]@ =~= p + s0 + s1);
                assert(buckets@[u]@ =~= p + s0 + s1 + s2);
                assert(face_bucket(face, f, u as usize) == s0 + s1 + s2);
                assert(p + (s0 + s1 + s2) =~= p + s0 + s1 + s2);
            }
        }
        f = f + 1;
    }
    proof {
        assert(mesh.triangles@.take(mesh.triangles@.len() as int) =~= mesh.triangles@);
    }
    buckets
}

/// The smallest other vertex of an entry of `bucket` that is at least `floor`.
fn smallest_other_vertex_from(bucket: &Vec<(usize, usize)>, floor: usize) -> (found: Option<usize>)
    ensures
        match found {
            Some(h) => floor <= h && (exists|j: int| 0 <= j < bucket@.len() && (#[trigger] bucket@[j]).0 == h)
                && forall|j: int| 0 <= j < bucket@.len() && floor <= (#[trigger] bucket@[j]).0 ==> h <= bucket@[j].0,
            None => forall|j: int| 0 <= j < bucket@.len() ==> (#[trigger] bucket@[j]).0 < floor,
        },
{
    let mut best: Option<usize> = None;
    let mut i: usize = 0;
    while i < bucket.len()
        invariant
            i <= bucket@.len(),
            match best {
                Some(h) => floor <= h && (exists|j: int| 0 <= j < i && (#[trigger] bucket@[j]).0 == h)
                    && forall|j: int| 0 <= j < i && floor <= (#[trigger] bucket@[j]).0 ==> h <= bucket@[j].0,
                None => forall|j: int| 0 <= j < i ==> (#[trigger] bucket@[j]).0 < floor,
            },
        decreases bucket@.len() - i,
    {
        let hi = bucket[i].0;
        if floor <= hi {
            match best {
                Some(h) => {
                    if hi < h {
                        best = Some(hi);
                    }
                },
                None => {
                    best = Some(hi);
                },
            }
        }
        i = i + 1;
    }
    best
}

/// The faces of the entries of `bucket` whose other vertex is `hi`.
fn owners_of(bucket: &Vec<(usize, usize)>, hi: usize) -> (owners: Vec<usize>)
    ensures
        owners@ == owners_in_bucket(bucket@, hi),
{
    let mut owners: Vec<usize> = Vec::new();
    let mut i: usize = 0;
    while i < bucket.len()
        invariant
            i <= bucket@.len(),
            owners@ == owners_in_bucket(bucket@.take(i as int), hi),
        decreases bucket@.len() - i,
    {
        proof {
            assert(bucket@.take(i as int + 1).drop_last() =~= bucket@.take(i as int));
        }
        if bucket[i].0 == hi {
            owners.push(bucket[i].1);
        }
        i = i + 1;
    }
    proof {
        assert(bucket@.take(bucket@.len() as int) =~= bucket@);
    }
    owners
}

/// The Voronoi edges of a Delaunay mesh: every edge `(lo, hi)` (smaller vertex first)
/// that is a side of exactly two faces, with those two faces in face order, listed by
/// increasing vertex pair.
pub fn interior_edge_faces(mesh: &SphericalMesh, vertex_count: usize) -> (edges: Vec<((usize, usize), (usize, usize))>)
    requires
        corners_below(mesh.triangles@, vertex_count as int),
    ensures
        forall|i: int, j: int| 0 <= i < j < edges@.len() ==> pair_before((#[trigger] edges@[i]).0, (#[trigger] edges@[j]).0),
        forall|i: int| 0 <= i < edges@.len() ==> side_owners(mesh.triangles@, (#[trigger] edges@[i]).0) == seq![
            edges@[i].1.0,
            edges@[i].1.1,
        ],
        forall|key: (usize, usize)| #[trigger] side_owners(mesh.triangles@, key).len() == 2 ==> exists|i: int|
            0 <= i < edges@.len() && (#[trigger] edges@[i]).0 == key,
{
    let buckets = side_buckets(mesh, vertex_count);
    let ghost faces = mesh.triangles@;
    let mut edges: Vec<((usize, usize), (usize, usize))> = Vec::new();
    let mut lo: usize = 0;
    while lo < vertex_count
        invariant
            lo <= vertex_count,
            faces == mesh.triangles@,
            corners_below(faces, vertex_count as int),
            buckets@.len() == vertex_count,
            forall|u: int| 0 <= u < vertex_count ==> (#[trigger] buckets@[u])@ == bucket_entries(faces, u as usize),
            forall|i: int, j: int| 0 <= i < j < edges@.len() ==> pair_before((#[trigger] edges@[i]).0, (#[trigger] edges@[j]).0),
            forall|i: int| 0 <= i < edges@.len() ==> (#[trigger] edges@[i]).0.0 < lo,
            forall|i: int| 0 <= i < edges@.len() ==> side_owners(faces, (#[trigger] edges@[i]).0) == seq![edges@[i].1.0, edges@[i].1.1],
            forall|key: (usize, usize)| key.0 < lo && #[trigger] side_owners(faces, key).len() == 2 ==> exists|i: int|
                0 <= i < edges@.len() && (#[trigger] edges@[i]).0 == key,
        decreases vertex_count - lo,
    {
        let bucket = &buckets[lo];
        let mut floor: usize = 0;
        loop
            invariant_except_break
                floor <= vertex_count,
            invariant
                lo < vertex_count,
                faces == mesh.triangles@,
                corners_below(faces, vertex_count as int),
                bucket@ == bucket_entries(faces, lo),
                forall|i: int, j: int| 0 <= i < j < edges@.len() ==> pair_before((#[trigger] edges@[i]).0, (#[trigger] edges@[j]).0),
                forall|i: int| 0 <= i < edges@.len() ==> pair_before((#[trigger] edges@[i]).0, (lo, floor)),
                forall|i: int| 0 <= i < edges@.len() ==> side_owners(faces, (#[trigger] edges@[i]).0) == seq![edges@[i].1.0, edges@[i].1.1],
                forall|key: (usize, usize)| pair_before(key, (lo, floor)) && #[trigger] side_owners(faces, key).len() == 2 ==> exists|i: int|
                    0 <= i < edges@.len() && (#[trigger] edges@[i]).0 == key,
            ensures
                forall|i: int| 0 <= i < edges@.len() ==> (#[trigger] edges@[i]).0.0 <= lo,
                forall|key: (usize, usize)| key.0 <= lo && #[trigger] side_owners(faces, key).len() == 2 ==> exists|i: int|
                    0 <= i < edges@.len() && (#[trigger] edges@[i]).0 == key,
            decreases vertex_count - floor,
        {
            match smallest_other_vertex_from(bucket, floor) {
                None => {
                    proof {
                        assert forall|key: (usize, usize)| key.0 <= lo && #[trigger] side_owners(faces, key).len() == 2 implies exists|i: int|
                            0 <= i < edges@.len() && (#[trigger] edges@[i]).0 == key by {
                            if key.0 == lo && key.1 >= floor {
                                bucket_gives_owners(faces, lo, key.1);
                                owners_come_from_entries(bucket@, key.1);
                                let j = choose|j: int| 0 <= j < bucket@.len() && (#[trigger] bucket@[j]).0 == key.1;
                                assert(bucket@[j].0 < floor);
                            } else {
                                assert(pair_before(key, (lo, floor)));
                            }
                        }
                    }
                    break;
                },
                Some(h) => {
                    let owners = owners_of(bucket, h);
                    proof {
                        bucket_gives_owners(faces, lo, h);
                    }
                    let ghost before = edges@;
                    if owners.len() == 2 {
                        edges.push(((lo, h), (owners[0], owners[1])));
                        proof {
                            assert(owners@ =~= seq![owners@[0], owners@[1]]);
                        }
                    }
                    proof {
                        assert(h < vertex_count) by {
                            let j = choose|j: int| 0 <= j < bucket@.len() && (#[trigger] bucket@[j]).0 == h;
                            bucket_gives_owners(faces, lo, h);
                            assert(bucket@[j].0 == h);
                            owners_hold_entry(bucket@, j, h);
                            owned_edges_are_within(faces, (lo, h), vertex_count as int);
                        }
                        assert forall|key: (usize, usize)| pair_before(key, (lo, (h + 1) as usize)) && #[trigger] side_owners(faces, key).len() == 2 implies exists|i: int|
                            0 <= i < edges@.len() && (#[trigger] edges@[i]).0 == key by {
                            if pair_before(key, (lo, floor)) {
                                let i = choose|i: int| 0 <= i < before.len() && (#[trigger] before[i]).0 == key;
                                assert(edges@[i] == before[i]);
                            } else if key.1 < h {
                                bucket_gives_owners(faces, lo, key.1);
                                owners_come_from_entries(bucket@, key.1);
                                let j = choose|j: int| 0 <= j < bucket@.len() && (#[trigger] bucket@[j]).0 == key.1;
                                assert(h <= bucket@[j].0);
                            } else {
                                assert(key == (lo, h));
                                assert(edges@[edges@.len() - 1].0 == key);
                            }
                        }
                    }
                    floor = h + 1;
                },
            }
        }
        lo = lo + 1;
    }
    proof {
        assert forall|key: (usize, usize)| #[trigger] side_owners(faces, key).len() == 2 implies exists|i: int|
            0 <= i < edges@.len() && (#[trigger] edges@[i]).0 == key by {
            owned_edges_are_within(faces, key, vertex_count as int);
        }
    }
    edges
}

proof fn owners_hold_entry(bucket: Seq<(usize, usize)>, j: int, hi: usize)
    requires
        0 <= j < bucket.len(),
        bucket[j].0 == hi,
    ensures
        owners_in_bucket(bucket, hi).len() > 0,
    decreases bucket.len(),
{
    if j < bucket.len() - 1 {
        assert(bucket.drop_last()[j] == bucket[j]);
        owners_hold_entry(bucket.drop_last(), j, hi);
    }
}

/// Every face listed for an edge has that edge as a side, and the faces are listed in
/// increasing face order: a Voronoi edge joins the circumcenters of two faces that share
/// the Delaunay edge it crosses.
pub proof fn side_owners_hold_the_edge(faces: Seq<[usize; 3]>, key: (usize, usize))
    requires
        faces.len() <= usize::MAX,
    ensures
        forall|i: int| 0 <= i < side_owners(faces, key).len() ==> {
            let f = #[trigger] side_owners(faces, key)[i];
            &&& (f as int) < faces.len()
            &&& face_has_edge(faces[f as int], key)
        },
        forall|i: int, j: int| 0 <= i < j < side_owners(faces, key).len() ==> #[trigger] side_owners(faces, key)[i]
            <= #[trigger] side_owners(faces, key)[j],
    decreases faces.len(),
{
    if faces.len() > 0 {
        let rest = faces.drop_last();
        let f = (faces.len() - 1) as usize;
        side_owners_hold_the_edge(rest, key);
        let prev = side_owners(rest, key);
        let here = face_owners(faces.last(), f, key);
        let all = side_owners(faces, key);
        assert(all == prev + here);
        assert forall|i: int| 0 <= i < here.len() implies #[trigger] here[i] == f && face_has_edge(faces[f as int], key) by {
            assert(faces[f as int] == faces.last());
        }
        assert forall|i: int| 0 <= i < all.len() implies {
            let g = #[trigger] all[i];
            &&& (g as int) < faces.len()
            &&& face_has_edge(faces[g as int], key)
        } by {
            if i < prev.len() {
                assert(all[i] == prev[i]);
                assert(faces[prev[i] as int] == rest[prev[i] as int]);
            } else {
                assert(all[i] == here[i - prev.len()]);
            }
        }
        assert forall|i: int, j: int| 0 <= i < j < all.len() implies #[trigger] all[i] <= #[trigger] all[j] by {
            if j < prev.len() {
                assert(all[i] == prev[i] && all[j] == prev[j]);
            } else if i < prev.len() {
                assert(all[i] == prev[i]);
                assert(all[j] == here[j - prev.len()]);
            } else {
                assert(all[i] == here[i - prev.len()]);
                assert(all[j] == here[j - prev.len()]);
            }
        }
    }
}

} // verus!
