//! Index layouts of the render meshes: Voronoi cell fans, combined terrain meshes and
//! line ribbons. Vertex positions are computed by the floating-point front end; these
//! functions fix which vertices every triangle uses.

use vstd::prelude::*;

verus! {

/// Triangle `k` of a cell fan: the apex (vertex `0`) and the `k`-th pair of boundary
/// vertices `1 + 2k`, `2 + 2k`, in that order or flipped.
pub open spec fn fan_triangle(k: int, flip_winding: bool) -> [usize; 3] {
    if flip_winding {
        [0, (2 + 2 * k) as usize, (1 + 2 * k) as usize]
    } else {
        [0, (1 + 2 * k) as usize, (2 + 2 * k) as usize]
    }
}

/// Triangles of a cell fan with `segments` boundary segments: vertex `0` is the apex and
/// every segment contributes its own two vertices. With `flip_winding` each triangle is
/// `[apex, right, left]` instead of `[apex, left, right]`.
pub fn fan_triangle_indices(segments: usize, flip_winding: bool) -> (triangles: Vec<[usize; 3]>)
    requires
        2 * segments + 1 <= usize::MAX,
    ensures
        triangles@.len() == segments,
        forall|k: int| 0 <= k < segments ==> #[trigger] triangles@[k] == fan_triangle(k, flip_winding),
{
    let mut triangles: Vec<[usize; 3]> = Vec::new();
    let mut k: usize = 0;
    while k < segments
        invariant
            k <= segments,
            2 * segments + 1 <= usize::MAX,
            triangles@.len() == k,
            forall|j: int| 0 <= j < k ==> #[trigger] triangles@[j] == fan_triangle(j, flip_winding),
        decreases segments - k,
    {
        let left = 1 + 2 * k;
        let right = left + 1;
        if flip_winding {
            triangles.push([0, right, left]);
        } else {
            triangles.push([0, left, right]);
        }
        k = k + 1;
    }
    triangles
}

/// Append the corners of `triangles`, each shifted by `base`, as one flat index list.
pub fn append_offset_triangles(indices: &mut Vec<u32>, triangles: &[[usize; 3]], base: u32)
    requires
        forall|t: int, c: int| 0 <= t < triangles@.len() && 0 <= c < 3 ==> base + (#[trigger] triangles@[t][c]) <= u32::MAX,
    ensures
        final(indices)@.len() == old(indices)@.len() + 3 * triangles@.len(),
        forall|i: int| 0 <= i < old(indices)@.len() ==> #[trigger] final(indices)@[i] == old(indices)@[i],
        forall|t: int, c: int| 0 <= t < triangles@.len() && 0 <= c < 3 ==> #[trigger] final(indices)@[old(indices)@.len() + 3 * t + c]
            == base + triangles@[t][c],
{
    let start = indices.len();
    let mut t: usize = 0;
    while t < triangles.len()
        invariant
            t <= triangles@.len(),
            start == old(indices)@.len(),
            forall|u: int, c: int| 0 <= u < triangles@.len() && 0 <= c < 3 ==> base + (#[trigger] triangles@[u][c]) <= u32::MAX,
            indices@.len() == start + 3 * t,
            forall|i: int| 0 <= i < start ==> #[trigger] indices@[i] == old(indices)@[i],
            forall|u: int, c: int| 0 <= u < t && 0 <= c < 3 ==> #[trigger] indices@[start + 3 * u + c] == base + triangles@[u][c],
        decreases triangles@.len() - t,
    {
        let face = triangles[t];
        assert(base + face[0] <= u32::MAX && base + face[1] <= u32::MAX && base + face[2] <= u32::MAX) by {
            assert(base + triangles@[t as int][0] <= u32::MAX);
            assert(base + triangles@[t as int][1] <= u32::MAX);
            assert(base + triangles@[t as int][2] <= u32::MAX);
        }
        let ghost before = indices@;
        indices.push(base + face[0] as u32);
        indices.push(base + face[1] as u32);
        indices.push(base + face[2] as u32);
        proof {
            assert forall|u: int, c: int| 0 <= u < t + 1 && 0 <= c < 3 implies #[trigger] indices@[start + 3 * u + c]
                == base + triangles@[u][c] by {
                if u < t {
                    assert(indices@[start + 3 * u + c] == before[start + 3 * u + c]);
                }
            }
        }
        t = t + 1;
    }
}

/// Append the two triangles `[b, b + 1, b + 2]` and `[b, b + 2, b + 3]` of the ribbon
/// quad whose four corners start at vertex `b`.
pub fn append_quad_indices(indices: &mut Vec<u32>, base: u32)
    requires
        base + 3 <= u32::MAX,
    ensures
        final(indices)@ == old(indices)@ + seq![base, (base + 1) as u32, (base + 2) as u32, base, (base + 2) as u32, (base + 3) as u32],
{
    let ghost start = indices@;
    indices.push(base);
    indices.push(base + 1);
    indices.push(base + 2);
    indices.push(base);
    indices.push(base + 2);
    indices.push(base + 3);
    assert(indices@ =~= start + seq![base, (base + 1) as u32, (base + 2) as u32, base, (base + 2) as u32, (base + 3) as u32]);
}

/// Split boundary edge `index` of a cell in two when a pole vertex is inserted after
/// boundary vertex `index`: both halves keep the neighbor across the edge that was split.
pub fn split_boundary_neighbor(neighbors: &mut Vec<usize>, index: usize)
    requires
        index < old(neighbors)@.len(),
    ensures
        final(neighbors)@ == old(neighbors)@.insert(index + 1, old(neighbors)@[index as int]),
{
    let neighbor = neighbors[index];
    let len = neighbors.len();
    assert(index + 1 <= len);
    neighbors.insert(index + 1, neighbor);
}

/// Flipping the winding of a cell fan keeps its triangles and their order and swaps the
/// last two corners of every triangle: `[apex, left, right]` becomes `[apex, right, left]`.
pub proof fn flipped_fan_swaps_last_corners(k: int)
    ensures
        fan_triangle(k, true) == [fan_triangle(k, false)[0], fan_triangle(k, false)[2], fan_triangle(k, false)[1]],
{
    assert(fan_triangle(k, true) =~= [fan_triangle(k, false)[0], fan_triangle(k, false)[2], fan_triangle(k, false)[1]]);
}

} // verus!
