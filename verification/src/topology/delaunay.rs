//! Combinatorial steps of the planar Bowyer–Watson triangulation.
//!
//! Whether a point falls inside the circumcircle of a face is decided on coordinates by
//! the caller. Given those answers for the current faces, this module carves out the
//! cavity of the faces that fail, keeps its boundary, and fans the boundary around the
//! new point. Faces are triples of vertex indices; sides are directed vertex pairs.

use vstd::prelude::*;

use super::spherical::ordered_pair;

verus! {

/// The three directed sides of `face`: `(a, b)`, `(b, c)` and `(c, a)`.
pub open spec fn face_sides(face: [usize; 3]) -> Seq<(usize, usize)> {
    seq![(face[0], face[1]), (face[1], face[2]), (face[2], face[0])]
}

/// Whether two directed sides join the same two vertices.
pub open spec fn same_undirected(x: (usize, usize), y: (usize, usize)) -> bool {
    ordered_pair(x.0, x.1) == ordered_pair(y.0, y.1)
}

/// `i` is the first position of `s` whose side joins the endpoints of `e`.
pub open spec fn is_first_match(s: Seq<(usize, usize)>, e: (usize, usize), i: int) -> bool {
    &&& 0 <= i < s.len()
    &&& same_undirected(s[i], e)
    &&& forall|j: int| 0 <= j < i ==> !same_undirected(#[trigger] s[j], e)
}

/// Toggle the side `e` in `s`: drop the first side joining the same two vertices, or
/// append `e` when there is none.
pub open spec fn toggle_side(s: Seq<(usize, usize)>, e: (usize, usize)) -> Seq<(usize, usize)> {
    if exists|i: int| is_first_match(s, e, i) {
        s.remove(choose|i: int| is_first_match(s, e, i))
    } else {
        s.push(e)
    }
}

/// What is left after toggling the sides of `sides` one after the other, starting empty.
pub open spec fn toggled_sides(sides: Seq<(usize, usize)>) -> Seq<(usize, usize)>
    decreases sides.len(),
{
    if sides.len() == 0 {
        Seq::empty()
    } else {
        toggle_side(toggled_sides(sides.drop_last()), sides.last())
    }
}

/// The sides of `faces[bad[0]]`, `faces[bad[1]]`, ... in that order.
pub open spec fn cavity_sides(faces: Seq<[usize; 3]>, bad: Seq<usize>) -> Seq<(usize, usize)>
    decreases bad.len(),
{
    if bad.len() == 0 {
        Seq::empty()
    } else {
        cavity_sides(faces, bad.drop_last()) + face_sides(faces[bad.last() as int])
    }
}

/// Number of sides of `sides` that join the endpoints of `e`.
pub open spec fn undirected_count(sides: Seq<(usize, usize)>, e: (usize, usize)) -> nat
    decreases sides.len(),
{
    if sides.len() == 0 {
        0
    } else {
        undirected_count(sides.drop_last(), e) + if same_undirected(sides.last(), e) { 1nat } else { 0nat }
    }
}

/// No two sides of `s` join the same two vertices.
pub open spec fn distinct_undirected(s: Seq<(usize, usize)>) -> bool {
    forall|i: int, j: int| 0 <= i < j < s.len() ==> !same_undirected(#[trigger] s[i], #[trigger] s[j])
}

/// Some side of `s` joins the endpoints of `e`.
pub open spec fn holds_undirected_side(s: Seq<(usize, usize)>, e: (usize, usize)) -> bool {
    exists|i: int| 0 <= i < s.len() && same_undirected(#[trigger] s[i], e)
}

proof fn first_match_is_unique(s: Seq<(usize, usize)>, e: (usize, usize), i: int, k: int)
    requires
        is_first_match(s, e, i),
        is_first_match(s, e, k),
    ensures
        i == k,
{
    if i < k {
        assert(!same_undirected(s[i], e));
    } else if k < i {
        assert(!same_undirected(s[k], e));
    }
}

proof fn toggle_at_first_match(s: Seq<(usize, usize)>, e: (usize, usize), i: int)
    requires
        is_first_match(s, e, i),
    ensures
        toggle_side(s, e) == s.remove(i),
{
    let k = choose|k: int| is_first_match(s, e, k);
    first_match_is_unique(s, e, i, k);
}

/// Position of the first side of `boundary` joining the endpoints of `e`.
fn first_match_position(boundary: &Vec<(usize, usize)>, e: (usize, usize)) -> (pos: Option<usize>)
    ensures
        match pos {
            Some(i) => is_first_match(boundary@, e, i as int),
            None => forall|j: int| 0 <= j < boundary@.len() ==> !same_undirected(#[trigger] boundary@[j], e),
        },
{
    let key = if e.0 < e.1 { (e.0, e.1) } else { (e.1, e.0) };
    let mut i: usize = 0;
    while i < boundary.len()
        invariant
            i <= boundary@.len(),
            key == ordered_pair(e.0, e.1),
            forall|j: int| 0 <= j < i ==> !same_undirected(#[trigger] boundary@[j], e),
        decreases boundary@.len() - i,
    {
        let (left, right) = boundary[i];
        let other = if left < right { (left, right) } else { (right, left) };
        if other.0 == key.0 && other.1 == key.1 {
            return Some(i);
        }
        i = i + 1;
    }
    None
}

/// Toggle the side `e` in `boundary` (see [`toggle_side`]).
fn toggle_boundary_side(boundary: &mut Vec<(usize, usize)>, e: (usize, usize))
    ensures
        final(boundary)@ == toggle_side(old(boundary)@, e),
{
    match first_match_position(boundary, e) {
        Some(i) => {
            proof {
                toggle_at_first_match(boundary@, e, i as int);
            }
            boundary.remove(i);
        },
        None => {
            assert(!exists|i: int| is_first_match(boundary@, e, i));
            boundary.push(e);
        },
    }
}

proof fn toggled_sides_after_face(prefix: Seq<(usize, usize)>, face: [usize; 3])
    ensures
        toggled_sides(prefix + face_sides(face)) == toggle_side(
            toggle_side(toggle_side(toggled_sides(prefix), (face[0], face[1])), (face[1], face[2])),
            (face[2], face[0]),
        ),
{
    let s1 = prefix.push((face[0], face[1]));
    let s2 = s1.push((face[1], face[2]));
    let s3 = s2.push((face[2], face[0]));
    assert(prefix + face_sides(face) =~= s3);
    assert(s3.drop_last() =~= s2);
    assert(s2.drop_last() =~= s1);
    assert(s1.drop_last() =~= prefix);
    assert(toggled_sides(s1) == toggle_side(toggled_sides(prefix), (face[0], face[1])));
    assert(toggled_sides(s2) == toggle_side(toggled_sides(s1), (face[1], face[2])));
    assert(toggled_sides(s3) == toggle_side(toggled_sides(s2), (face[2], face[0])));
}

proof fn cavity_sides_step(faces: Seq<[usize; 3]>, bad: Seq<usize>, k: int)
    requires
        0 <= k < bad.len(),
    ensures
        cavity_sides(faces, bad.take(k + 1)) == cavity_sides(faces, bad.take(k)) + face_sides(faces[bad[k] as int]),
{
    assert(bad.take(k + 1).drop_last() =~= bad.take(k));
}

/// Boundary of the cavity left by the faces `triangles[bad[0]]`, `triangles[bad[1]]`, ...:
/// their sides toggled in order, so that a side shared by two of them cancels out.
pub fn cavity_boundary(triangles: &[[usize; 3]], bad: &[usize]) -> (boundary: Vec<(usize, usize)>)
    requires
        forall|k: int| 0 <= k < bad@.len() ==> #[trigger] bad@[k] < triangles@.len(),
    ensures
        boundary@ == toggled_sides(cavity_sides(triangles@, bad@)),
{
    let mut boundary: Vec<(usize, usize)> = Vec::new();
    let mut k: usize = 0;
    proof {
        assert(bad@.take(0) =~= Seq::<usize>::empty());
    }
    while k < bad.len()
        invariant
            k <= bad@.len(),
            forall|j: int| 0 <= j < bad@.len() ==> #[trigger] bad@[j] < triangles@.len(),
            boundary@ == toggled_sides(cavity_sides(triangles@, bad@.take(k as int))),
        decreases bad@.len() - k,
    {
        let face = triangles[bad[k]];
        proof {
            cavity_sides_step(triangles@, bad@, k as int);
            toggled_sides_after_face(cavity_sides(triangles@, bad@.take(k as int)), face);
        }
        toggle_boundary_side(&mut boundary, (face[0], face[1]));
        toggle_boundary_side(&mut boundary, (face[1], face[2]));
        toggle_boundary_side(&mut boundary, (face[2], face[0]));
        k = k + 1;
    }
    proof {
        assert(bad@.take(bad@.len() as int) =~= bad@);
    }
    boundary
}

proof fn some_match_has_first(s: Seq<(usize, usize)>, e: (usize, usize), i: int)
    requires
        0 <= i < s.len(),
        same_undirected(s[i], e),
    ensures
        exists|k: int| is_first_match(s, e, k),
    decreases i,
{
    if exists|j: int| 0 <= j < i && same_undirected(#[trigger] s[j], e) {
        let j = choose|j: int| 0 <= j < i && same_undirected(#[trigger] s[j], e);
        some_match_has_first(s, e, j);
    } else {
        assert(is_first_match(s, e, i));
    }
}

proof fn removal_keeps_others(s: Seq<(usize, usize)>, i: int)
    requires
        0 <= i < s.len(),
    ensures
        s.remove(i).len() == s.len() - 1,
        forall|a: int| 0 <= a < i ==> #[trigger] s.remove(i)[a] == s[a],
        forall|a: int| i <= a < s.len() - 1 ==> #[trigger] s.remove(i)[a] == s[a + 1],
{
}

proof fn toggle_keeps_distinct(s: Seq<(usize, usize)>, e: (usize, usize))
    requires
        distinct_undirected(s),
    ensures
        distinct_undirected(toggle_side(s, e)),
{
    if exists|i: int| is_first_match(s, e, i) {
        let i = choose|i: int| is_first_match(s, e, i);
        let r = s.remove(i);
        removal_keeps_others(s, i);
        assert forall|a: int, b: int| 0 <= a < b < r.len() implies !same_undirected(#[trigger] r[a], #[trigger] r[b]) by {
            let a0 = if a < i { a } else { a + 1 };
            let b0 = if b < i { b } else { b + 1 };
            assert(r[a] == s[a0]);
            assert(r[b] == s[b0]);
            assert(!same_undirected(s[a0], s[b0]));
        }
    } else {
        let r = s.push(e);
        assert forall|a: int, b: int| 0 <= a < b < r.len() implies !same_undirected(#[trigger] r[a], #[trigger] r[b]) by {
            if b == s.len() {
                if same_undirected(s[a], e) {
                    some_match_has_first(s, e, a);
                }
            }
        }
    }
}

/// No two sides left by toggling join the same two vertices.
pub proof fn toggled_sides_are_distinct(sides: Seq<(usize, usize)>)
    ensures
        distinct_undirected(toggled_sides(sides)),
    decreases sides.len(),
{
    if sides.len() > 0 {
        toggled_sides_are_distinct(sides.drop_last());
        toggle_keeps_distinct(toggled_sides(sides.drop_last()), sides.last());
    }
}

/// Toggling keeps exactly the vertex pairs that occur an odd number of times: a side
/// shared by two faces of a cavity cancels out, and an unshared side stays on the
/// boundary.
pub proof fn toggled_sides_keep_odd_pairs(sides: Seq<(usize, usize)>, e: (usize, usize))
    ensures
        holds_undirected_side(toggled_sides(sides), e) <==> undirected_count(sides, e) % 2 == 1,
    decreases sides.len(),
{
    if sides.len() > 0 {
        let rest = sides.drop_last();
        let x = sides.last();
        let t = toggled_sides(rest);
        toggled_sides_keep_odd_pairs(rest, e);
        toggled_sides_are_distinct(rest);
        let r = toggle_side(t, x);
        if exists|i: int| is_first_match(t, x, i) {
            let i = choose|i: int| is_first_match(t, x, i);
            removal_keeps_others(t, i);
            assert(r == t.remove(i));
            if same_undirected(x, e) {
                assert(holds_undirected_side(t, e));
                assert forall|a: int| 0 <= a < r.len() implies !same_undirected(#[trigger] r[a], e) by {
                    let a0 = if a < i { a } else { a + 1 };
                    assert(r[a] == t[a0]);
                    if a0 < i {
                        assert(!same_undirected(t[a0], t[i]));
                    } else {
                        assert(!same_undirected(t[i], t[a0]));
                    }
                }
            } else {
                assert(!same_undirected(t[i], e));
                if holds_undirected_side(t, e) {
                    let a0 = choose|a0: int| 0 <= a0 < t.len() && same_undirected(#[trigger] t[a0], e);
                    let a = if a0 < i { a0 } else { a0 - 1 };
                    assert(r[a] == t[a0]);
                }
                if holds_undirected_side(r, e) {
                    let a = choose|a: int| 0 <= a < r.len() && same_undirected(#[trigger] r[a], e);
                    let a0 = if a < i { a } else { a + 1 };
                    assert(r[a] == t[a0]);
                }
            }
        } else {
            assert(r == t.push(x));
            if same_undirected(x, e) {
                assert(r[t.len() as int] == x);
                if holds_undirected_side(t, e) {
                    let a0 = choose|a0: int| 0 <= a0 < t.len() && same_undirected(#[trigger] t[a0], e);
                    assert(same_undirected(t[a0], x));
                    some_match_has_first(t, x, a0);
                }
            } else {
                if holds_undirected_side(t, e) {
                    let a0 = choose|a0: int| 0 <= a0 < t.len() && same_undirected(#[trigger] t[a0], e);
                    assert(r[a0] == t[a0]);
                }
                if holds_undirected_side(r, e) {
                    let a = choose|a: int| 0 <= a < r.len() && same_undirected(#[trigger] r[a], e);
                    assert(a < t.len());
                    assert(r[a] == t[a]);
                }
            }
        }
    }
}

/// Every side left by toggling is one of the toggled sides, with its direction kept.
pub proof fn toggled_sides_come_from_input(sides: Seq<(usize, usize)>)
    ensures
        forall|k: int| 0 <= k < toggled_sides(sides).len() ==> sides.contains(#[trigger] toggled_sides(sides)[k]),
    decreases sides.len(),
{
    if sides.len() > 0 {
        let rest = sides.drop_last();
        let t = toggled_sides(rest);
        toggled_sides_come_from_input(rest);
        let r = toggled_sides(sides);
        assert forall|k: int| 0 <= k < r.len() implies sides.contains(#[trigger] r[k]) by {
            if exists|i: int| is_first_match(t, sides.last(), i) {
                let i = choose|i: int| is_first_match(t, sides.last(), i);
                removal_keeps_others(t, i);
                let k0 = if k < i { k } else { k + 1 };
                assert(r[k] == t[k0]);
                assert(rest.contains(t[k0]));
                let j = choose|j: int| 0 <= j < rest.len() && rest[j] == t[k0];
                assert(sides[j] == rest[j]);
            } else {
                if k < t.len() {
                    assert(r[k] == t[k]);
                    assert(rest.contains(t[k]));
                    let j = choose|j: int| 0 <= j < rest.len() && rest[j] == t[k];
                    assert(sides[j] == rest[j]);
                } else {
                    assert(sides[sides.len() - 1] == r[k]);
                }
            }
        }
    }
}

/// `faces` after `Vec::swap_remove(i)`: the last face moves into slot `i`.
pub open spec fn swap_removed(faces: Seq<[usize; 3]>, i: int) -> Seq<[usize; 3]> {
    faces.update(i, faces.last()).drop_last()
}

/// `faces` after swap-removing the slots `bad[n - 1]`, ..., `bad[1]`, `bad[0]`, in that order.
pub open spec fn without_cavity(faces: Seq<[usize; 3]>, bad: Seq<usize>) -> Seq<[usize; 3]>
    decreases bad.len(),
{
    if bad.len() == 0 {
        faces
    } else {
        without_cavity(swap_removed(faces, bad.last() as int), bad.drop_last())
    }
}

/// The faces at the slots `bad`, in order.
pub open spec fn faces_at(faces: Seq<[usize; 3]>, bad: Seq<usize>) -> Seq<[usize; 3]> {
    bad.map_values(|i: usize| faces[i as int])
}

/// Slot indices that rise strictly and stay below `len`.
pub open spec fn rising_slots(bad: Seq<usize>, len: int) -> bool {
    &&& forall|i: int, j: int| 0 <= i < j < bad.len() ==> #[trigger] bad[i] < #[trigger] bad[j]
    &&& forall|i: int| 0 <= i < bad.len() ==> #[trigger] bad[i] < len
}

/// The faces `[left, right, point]` for every boundary side `(left, right)`, in order.
pub open spec fn fan_faces(boundary: Seq<(usize, usize)>, point: usize) -> Seq<[usize; 3]> {
    boundary.map_values(|e: (usize, usize)| [e.0, e.1, point])
}

/// Ascending positions of the set flags.
pub open spec fn flagged_slots(flags: Seq<bool>) -> Seq<usize>
    decreases flags.len(),
{
    if flags.len() == 0 {
        Seq::empty()
    } else if flags.last() {
        flagged_slots(flags.drop_last()).push((flags.len() - 1) as usize)
    } else {
        flagged_slots(flags.drop_last())
    }
}

/// The faces after one insertion step: the faces flagged by `in_circumcircle` are carved
/// out and the boundary of their cavity is fanned around `point`.
pub open spec fn after_insertion(faces: Seq<[usize; 3]>, in_circumcircle: Seq<bool>, point: usize) -> Seq<[usize; 3]> {
    let bad = flagged_slots(in_circumcircle);
    without_cavity(faces, bad) + fan_faces(toggled_sides(cavity_sides(faces, bad)), point)
}

proof fn swap_removed_multiset(faces: Seq<[usize; 3]>, i: int)
    requires
        0 <= i < faces.len(),
    ensures
        swap_removed(faces, i).to_multiset() =~= faces.to_multiset().remove(faces[i]),
        swap_removed(faces, i).len() == faces.len() - 1,
        forall|j: int| 0 <= j < i ==> #[trigger] swap_removed(faces, i)[j] == faces[j],
{
    broadcast use vstd::seq_lib::group_to_multiset_ensures;
    broadcast use vstd::multiset::group_multiset_axioms;

    let u = faces.update(i, faces.last());
    assert(u.drop_last() =~= u.remove(u.len() - 1));
    assert(u[u.len() - 1] == faces.last());
    assert(u.to_multiset() == faces.to_multiset().insert(faces.last()).remove(faces[i]));
}

/// Swap-removing the slots of a cavity, highest first, leaves exactly the other faces:
/// together with the carved faces they are the faces that were there before.
pub proof fn without_cavity_keeps_other_faces(faces: Seq<[usize; 3]>, bad: Seq<usize>)
    requires
        rising_slots(bad, faces.len() as int),
    ensures
        without_cavity(faces, bad).to_multiset().add(faces_at(faces, bad).to_multiset()) =~= faces.to_multiset(),
        without_cavity(faces, bad).len() == faces.len() - bad.len(),
    decreases bad.len(),
{
    broadcast use vstd::seq_lib::group_to_multiset_ensures;
    broadcast use vstd::multiset::group_multiset_axioms;

    if bad.len() > 0 {
        let i = bad.last() as int;
        let rest = bad.drop_last();
        let smaller = swap_removed(faces, i);
        swap_removed_multiset(faces, i);
        assert forall|k: int| 0 <= k < rest.len() implies #[trigger] rest[k] < smaller.len() by {
            assert(bad[k] < bad[bad.len() - 1]);
        }
        assert(rising_slots(rest, smaller.len() as int));
        without_cavity_keeps_other_faces(smaller, rest);
        assert(faces_at(smaller, rest) =~= faces_at(faces, rest)) by {
            assert forall|k: int| 0 <= k < rest.len() implies faces_at(smaller, rest)[k] == faces_at(faces, rest)[k] by {
                assert(bad[k] < bad[bad.len() - 1]);
            }
        }
        assert(faces_at(faces, bad) =~= faces_at(faces, rest).push(faces[i]));
        assert(faces.to_multiset().remove(faces[i]).insert(faces[i]) =~= faces.to_multiset()) by {
            assert(faces.to_multiset().count(faces[i]) > 0) by {
                assert(faces.contains(faces[i]));
            }
        }
    }
}

proof fn flagged_slots_rise(flags: Seq<bool>)
    requires
        flags.len() <= usize::MAX,
    ensures
        rising_slots(flagged_slots(flags), flags.len() as int),
        forall|k: int| 0 <= k < flagged_slots(flags).len() ==> flags[#[trigger] flagged_slots(flags)[k] as int],
    decreases flags.len(),
{
    if flags.len() > 0 {
        let rest = flags.drop_last();
        flagged_slots_rise(rest);
        let prev = flagged_slots(rest);
        let cur = flagged_slots(flags);
        assert forall|k: int| 0 <= k < prev.len() implies flags[#[trigger] prev[k] as int] by {
            assert(rest[prev[k] as int] == flags[prev[k] as int]);
        }
        if flags.last() {
            assert(cur == prev.push((flags.len() - 1) as usize));
            assert forall|i: int, j: int| 0 <= i < j < cur.len() implies #[trigger] cur[i] < #[trigger] cur[j] by {
                if j < prev.len() {
                    assert(prev[i] < prev[j]);
                } else {
                    assert(prev[i] < rest.len());
                }
            }
        } else {
            assert(cur == prev);
        }
    }
}

/// Slots whose flag is set, in ascending order.
pub fn flagged_indices(flags: &[bool]) -> (slots: Vec<usize>)
    ensures
        slots@ == flagged_slots(flags@),
        rising_slots(slots@, flags@.len() as int),
{
    let mut slots: Vec<usize> = Vec::new();
    let mut i: usize = 0;
    while i < flags.len()
        invariant
            i <= flags@.len(),
            slots@ == flagged_slots(flags@.take(i as int)),
        decreases flags@.len() - i,
    {
        proof {
            assert(flags@.take(i as int + 1).drop_last() =~= flags@.take(i as int));
        }
        if flags[i] {
            slots.push(i);
        }
        i = i + 1;
    }
    proof {
        assert(flags@.take(flags@.len() as int) =~= flags@);
        flagged_slots_rise(flags@);
    }
    slots
}

/// Swap-remove the slots `bad` from `triangles`, highest slot first.
pub fn remove_cavity(triangles: &mut Vec<[usize; 3]>, bad: &[usize])
    requires
        rising_slots(bad@, old(triangles)@.len() as int),
    ensures
        final(triangles)@ == without_cavity(old(triangles)@, bad@),
{
    let mut k: usize = bad.len();
    proof {
        assert(bad@.take(bad@.len() as int) =~= bad@);
    }
    while k > 0
        invariant
            k <= bad@.len(),
            forall|i: int, j: int| 0 <= i < j < bad@.len() ==> #[trigger] bad@[i] < #[trigger] bad@[j],
            forall|j: int| 0 <= j < k ==> #[trigger] bad@[j] < triangles@.len(),
            without_cavity(triangles@, bad@.take(k as int)) == without_cavity(old(triangles)@, bad@),
        decreases k,
    {
        let slot = bad[k - 1];
        proof {
            assert(bad@.take(k as int).drop_last() =~= bad@.take(k - 1));
            assert forall|j: int| 0 <= j < k - 1 implies #[trigger] bad@[j] < triangles@.len() - 1 by {
                assert(bad@[j] < bad@[k - 1]);
            }
        }
        triangles.swap_remove(slot);
        k = k - 1;
    }
    proof {
        assert(bad@.take(0) =~= Seq::<usize>::empty());
    }
}

/// Append the face `[left, right, point]` for every boundary side `(left, right)`.
pub fn push_fan(triangles: &mut Vec<[usize; 3]>, boundary: &[(usize, usize)], point: usize)
    ensures
        final(triangles)@ == old(triangles)@ + fan_faces(boundary@, point),
{
    let mut i: usize = 0;
    while i < boundary.len()
        invariant
            i <= boundary@.len(),
            triangles@ == old(triangles)@ + fan_faces(boundary@.take(i as int), point),
        decreases boundary@.len() - i,
    {
        let (left, right) = boundary[i];
        triangles.push([left, right, point]);
        proof {
            assert(fan_faces(boundary@.take(i as int + 1), point) =~= fan_faces(boundary@.take(i as int), point).push(
                [left, right, point],
            ));
        }
        i = i + 1;
    }
    proof {
        assert(boundary@.take(boundary@.len() as int) =~= boundary@);
    }
}

/// One Bowyer–Watson insertion of `point`: `in_circumcircle[t]` says whether `point` lies
/// inside the circumcircle of face `t`. The flagged faces are carved out (swap-removed,
/// highest slot first) and each side of the cavity boundary is joined to `point`.
pub fn insert_into_triangulation(triangles: &mut Vec<[usize; 3]>, in_circumcircle: &[bool], point: usize)
    requires
        in_circumcircle@.len() == old(triangles)@.len(),
    ensures
        final(triangles)@ == after_insertion(old(triangles)@, in_circumcircle@, point),
{
    let bad = flagged_indices(in_circumcircle);
    let boundary = cavity_boundary(triangles.as_slice(), bad.as_slice());
    remove_cavity(triangles, bad.as_slice());
    push_fan(triangles, boundary.as_slice(), point);
}

/// Faces whose three vertices are all below `n`: those that do not touch the scaffold
/// vertices `n`, `n + 1`, `n + 2`.
pub open spec fn real_face(face: [usize; 3], n: usize) -> bool {
    face[0] < n && face[1] < n && face[2] < n
}

/// Drop the faces that touch a scaffold vertex (index `n` or above), keeping the order.
pub fn discard_scaffold_faces(triangles: &[[usize; 3]], n: usize) -> (kept: Vec<[usize; 3]>)
    ensures
        kept@ == triangles@.filter(|face: [usize; 3]| real_face(face, n)),
{
    let mut kept: Vec<[usize; 3]> = Vec::new();
    let mut i: usize = 0;
    while i < triangles.len()
        invariant
            i <= triangles@.len(),
            kept@ == triangles@.take(i as int).filter(|face: [usize; 3]| real_face(face, n)),
        decreases triangles@.len() - i,
    {
        let face = triangles[i];
        proof {
            assert(triangles@.take(i as int + 1).drop_last() =~= triangles@.take(i as int));
            reveal_with_fuel(Seq::filter, 1);
        }
        if face[0] < n && face[1] < n && face[2] < n {
            kept.push(face);
        }
        i = i + 1;
    }
    proof {
        assert(triangles@.take(triangles@.len() as int) =~= triangles@);
    }
    kept
}

/// An insertion step replaces the flagged faces by the fan around the new point and
/// keeps every other face: as multisets, the faces after the step plus the carved faces
/// are the faces before the step plus the fan. Each fan face holds the new point, and
/// no two fan faces are built on the same boundary pair.
pub proof fn insertion_replaces_cavity_by_fan(faces: Seq<[usize; 3]>, in_circumcircle: Seq<bool>, point: usize)
    requires
        in_circumcircle.len() == faces.len(),
        faces.len() <= usize::MAX,
    ensures
        ({
            let bad = flagged_slots(in_circumcircle);
            let fan = fan_faces(toggled_sides(cavity_sides(faces, bad)), point);
            &&& after_insertion(faces, in_circumcircle, point).to_multiset().add(faces_at(faces, bad).to_multiset())
                =~= faces.to_multiset().add(fan.to_multiset())
            &&& forall|k: int| 0 <= k < fan.len() ==> (#[trigger] fan[k])[2] == point
            &&& distinct_undirected(toggled_sides(cavity_sides(faces, bad)))
        }),
{
    broadcast use vstd::multiset::group_multiset_axioms;

    let bad = flagged_slots(in_circumcircle);
    let boundary = toggled_sides(cavity_sides(faces, bad));
    let fan = fan_faces(boundary, point);
    flagged_slots_rise(in_circumcircle);
    without_cavity_keeps_other_faces(faces, bad);
    vstd::seq_lib::lemma_multiset_commutative(without_cavity(faces, bad), fan);
    toggled_sides_are_distinct(cavity_sides(faces, bad));
}

} // verus!
