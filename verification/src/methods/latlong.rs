//! Ring layout of the latitude–longitude grid.

use vstd::prelude::*;

use vstd::arithmetic::div_mod::{lemma_div_multiples_vanish_fancy, lemma_fundamental_div_mod};

use super::{method_goal, method_name, DistributionMethod, OptimizationGoal};

verus! {

/// Regular latitude–longitude grid (baseline for area-integration comparisons).
///
/// Equal-area colatitude rings with per-ring longitude samples.
#[derive(Debug, Clone, Copy, Default)]
pub struct LatitudeLongitude;

/// `k` is `√n` rounded to the nearest integer: `k - ½ ≤ √n < k + ½`.
pub open spec fn is_rounded_sqrt(n: int, k: int) -> bool {
    (2 * k - 1) * (2 * k - 1) <= 4 * n < (2 * k + 1) * (2 * k + 1)
}

/// `⌈a / b⌉` for `b > 0`.
pub open spec fn ceil_div(a: int, b: int) -> int {
    (a + b - 1) / b
}

/// Sizes of the remaining rings when `remaining` points are spread over `rings_left`
/// rings, each ring taking `⌈remaining / rings_left⌉` points.
pub open spec fn ring_sizes_from(remaining: nat, rings_left: nat) -> Seq<usize>
    decreases rings_left,
{
    if rings_left == 0 || remaining == 0 {
        Seq::empty()
    } else {
        let size = ceil_div(remaining as int, rings_left as int);
        seq![size as usize] + ring_sizes_from((remaining - size) as nat, (rings_left - 1) as nat)
    }
}

/// Sum of a sequence of counts.
pub open spec fn total(sizes: Seq<usize>) -> int
    decreases sizes.len(),
{
    if sizes.len() == 0 {
        0
    } else {
        sizes[0] + total(sizes.drop_first())
    }
}

impl LatitudeLongitude {
    /// Machine-readable method name.
    pub fn name(&self) -> (name: &'static str)
        ensures
            name@ == method_name(DistributionMethod::LatitudeLongitude),
    {
        "latitude_longitude"
    }

    /// Primary optimization goal of this method.
    pub fn optimizes(&self) -> (goal: OptimizationGoal)
        ensures
            goal == method_goal(DistributionMethod::LatitudeLongitude),
    {
        OptimizationGoal::EqualArea
    }

    /// Number of colatitude rings for `n` points: `√n` rounded to the nearest integer.
    pub fn ring_count(n: usize) -> (rings: usize)
        requires
            n >= 1,
        ensures
            rings >= 1,
            rings <= n,
            is_rounded_sqrt(n as int, rings as int),
    {
        let target: u128 = 4 * (n as u128);
        let mut k: usize = 1;
        assert((2 * k - 1) * (2 * k - 1) <= 4 * n) by (nonlinear_arith)
            requires k == 1, n >= 1;
        loop
            invariant
                1 <= k <= n,
                target == 4 * n,
                (2 * k - 1) * (2 * k - 1) <= 4 * n,
            ensures
                1 <= k <= n,
                (2 * k - 1) * (2 * k - 1) <= 4 * n,
                4 * n < (2 * k + 1) * (2 * k + 1),
            decreases n - k,
        {
            assert((2 * k + 1) * (2 * k + 1) < 0x1_0000_0000_0000_0000_0000_0000_0000_0000) by (nonlinear_arith)
                requires
                    (2 * k - 1) * (2 * k - 1) <= 4 * n,
                    n <= usize::MAX,
                    usize::MAX < 0x1_0000_0000_0000_0000,
                    k >= 1,
            {
                assert(2 * k - 1 <= 0x2_0000_0000) by (nonlinear_arith)
                    requires
                        (2 * k - 1) * (2 * k - 1) <= 4 * n,
                        n < 0x1_0000_0000_0000_0000,
                        k >= 1,
                {
                    if 2 * k - 1 > 0x2_0000_0000 {
                        assert((2 * k - 1) * (2 * k - 1) > 0x2_0000_0000 * 0x2_0000_0000);
                    }
                }
            }
            let next_odd: u128 = 2 * (k as u128) + 1;
            if next_odd * next_odd > target {
                break;
            }
            proof {
                assert(k + 1 <= n) by (nonlinear_arith)
                    requires
                        k >= 1,
                        (2 * k + 1) * (2 * k + 1) <= 4 * n,
                ;
            }
            k = k + 1;
        }
        k
    }

    /// Number of points on each colatitude ring, from north to south.
    ///
    /// Ring `r` of `R` takes `⌈remaining / (R - r)⌉` of the points not yet placed.
    pub fn ring_sizes(n: usize) -> (sizes: Vec<usize>)
        ensures
            n == 0 ==> sizes@.len() == 0,
            n >= 1 ==> exists|rings: int| is_rounded_sqrt(n as int, rings) && rings >= 1
                && sizes@ == ring_sizes_from(n as nat, rings as nat) && sizes@.len() == rings,
            total(sizes@) == n,
            forall|i: int| 0 <= i < sizes@.len() ==> #[trigger] sizes@[i] >= 1,
    {
        let mut sizes: Vec<usize> = Vec::new();
        if n == 0 {
            return sizes;
        }
        let rings = Self::ring_count(n);
        let mut index: usize = 0;
        let mut ring: usize = 0;
        while ring < rings && index < n
            invariant
                rings <= n,
                ring <= rings,
                index <= n,
                ring_sizes_from(n as nat, rings as nat)
                    == sizes@ + ring_sizes_from((n - index) as nat, (rings - ring) as nat),
            decreases rings - ring,
        {
            let remaining = n - index;
            let rings_left = rings - ring;
            let quotient = remaining / rings_left;
            let has_rest = remaining % rings_left != 0;
            proof {
                assert(has_rest ==> quotient < remaining) by (nonlinear_arith)
                    requires
                        rings_left >= 1,
                        quotient == remaining / rings_left,
                        has_rest == (remaining % rings_left != 0),
                        remaining >= 1,
                {
                    if rings_left == 1 {
                        assert(remaining % rings_left == 0);
                    } else {
                        assert(remaining == rings_left * quotient + remaining % rings_left);
                    }
                }
            }
            let points_in_ring = if has_rest { quotient + 1 } else { quotient };
            proof {
                let q = quotient as int;
                let rest = (remaining % rings_left) as int;
                let d = rings_left as int;
                lemma_fundamental_div_mod(remaining as int, d);
                assert(remaining as int == d * q + rest);
                if has_rest {
                    assert(remaining as int + d - 1 == d * (q + 1) + (rest - 1)) by (nonlinear_arith)
                        requires remaining as int == d * q + rest;
                    lemma_div_multiples_vanish_fancy(q + 1, rest - 1, d);
                } else {
                    assert(remaining as int + d - 1 == d * q + (d - 1));
                    lemma_div_multiples_vanish_fancy(q, d - 1, d);
                    assert(q >= 1) by (nonlinear_arith)
                        requires remaining as int == d * q, remaining >= 1, d >= 1;
                }
                assert(points_in_ring == ceil_div(remaining as int, rings_left as int));
                assert(points_in_ring <= remaining) by (nonlinear_arith)
                    requires
                        remaining as int == d * q + rest,
                        d >= 1,
                        q >= 0,
                        0 <= rest < d,
                        points_in_ring == if has_rest { q + 1 } else { q },
                        has_rest == (rest != 0),
                ;
                assert(sizes@.push(points_in_ring) + ring_sizes_from((n - index - points_in_ring) as nat, (rings - ring - 1) as nat)
                    =~= sizes@ + ring_sizes_from((n - index) as nat, (rings - ring) as nat));
            }
            sizes.push(points_in_ring);
            index = index + points_in_ring;
            ring = ring + 1;
        }
        proof {
            assert(ring_sizes_from((n - index) as nat, (rings - ring) as nat) =~= Seq::empty());
            assert(sizes@ =~= ring_sizes_from(n as nat, rings as nat));
            ring_sizes_partition_points(n as nat, rings as nat);
        }
        sizes
    }
}

/// Ring sizes account for every point, each ring is non-empty, and there is one size
/// per ring when there are at least as many points as rings.
pub proof fn ring_sizes_partition_points(remaining: nat, rings_left: nat)
    requires
        remaining >= rings_left,
        remaining <= usize::MAX,
    ensures
        total(ring_sizes_from(remaining, rings_left)) == if rings_left == 0 { 0 } else { remaining as int },
        ring_sizes_from(remaining, rings_left).len() == rings_left,
        forall|i: int| 0 <= i < rings_left ==> #[trigger] ring_sizes_from(remaining, rings_left)[i] >= 1,
    decreases rings_left,
{
    if rings_left > 0 {
        let size = ceil_div(remaining as int, rings_left as int);
        assert(1 <= size <= remaining && remaining - size >= rings_left - 1) by (nonlinear_arith)
            requires
                rings_left >= 1,
                remaining >= rings_left,
                size == (remaining + rings_left - 1) as int / rings_left as int,
        {
            assert(size * rings_left <= remaining + rings_left - 1);
            assert(size * rings_left > remaining - 1);
        }
        let rest = ring_sizes_from((remaining - size) as nat, (rings_left - 1) as nat);
        ring_sizes_partition_points((remaining - size) as nat, (rings_left - 1) as nat);
        let all = ring_sizes_from(remaining, rings_left);
        assert(all == seq![size as usize] + rest);
        assert(all[0] == size);
        assert(all.drop_first() =~= rest);
        assert forall|i: int| 0 <= i < rings_left implies #[trigger] all[i] >= 1 by {
            if i > 0 {
                assert(all[i] == rest[i - 1]);
            }
        }
        assert(total(all) == all[0] + total(all.drop_first()));
        if rings_left == 1 {
            assert(size == remaining) by (nonlinear_arith)
                requires size == (remaining + rings_left - 1) as int / rings_left as int, rings_left == 1;
            assert(rest.len() == 0);
            assert(total(rest) == 0);
        }
    }
}

} // verus!
