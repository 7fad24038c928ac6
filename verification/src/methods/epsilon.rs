//! Tiered ε lookup tables for Roberts-style offset lattices.
//!
//! Every ε is a decimal with two places; the tables give it in hundredths
//! (`ε = value / EPSILON_SCALE`).

use vstd::prelude::*;

verus! {

/// Denominator of the ε values below: each table value is ε in hundredths.
pub const EPSILON_SCALE: u32 = 100;

/// Fixed ε ≈ 0.36 for Roberts' average-neighbor offset, in hundredths.
pub const AVERAGE_NEIGHBOR_EPSILON: u32 = 36;

/// ε of the offset packing lattice for `n` samples, in hundredths.
pub open spec fn packing_epsilon_table(n: int) -> int {
    if n >= 600_000 {
        21400
    } else if n >= 400_000 {
        7500
    } else if n >= 11_000 {
        2700
    } else if n >= 890 {
        1000
    } else if n >= 177 {
        333
    } else if n >= 24 {
        133
    } else {
        33
    }
}

/// ε of the offset packing lattice with reserved poles for `n` samples, in hundredths.
pub open spec fn poles_epsilon_table(n: int) -> int {
    if n >= 40_000 {
        2500
    } else if n >= 1_000 {
        1000
    } else if n >= 80 {
        333
    } else {
        266
    }
}

/// Lookup ε for the offset packing lattice (minimum nearest-neighbor distance), in hundredths.
///
/// Tiered values from Martin Roberts, *How to evenly distribute points on a sphere more
/// effectively than the canonical Fibonacci lattice* (Extreme Learning, 2018).
pub fn packing_epsilon(n: usize) -> (epsilon: u32)
    ensures
        epsilon == packing_epsilon_table(n as int),
{
    if n >= 600_000 {
        21400
    } else if n >= 400_000 {
        7500
    } else if n >= 11_000 {
        2700
    } else if n >= 890 {
        1000
    } else if n >= 177 {
        333
    } else if n >= 24 {
        133
    } else {
        33
    }
}

/// Lookup ε for offset packing when north and south poles are reserved, in hundredths.
pub fn packing_with_poles_epsilon(n: usize) -> (epsilon: u32)
    ensures
        epsilon == poles_epsilon_table(n as int),
{
    if n >= 40_000 {
        2500
    } else if n >= 1_000 {
        1000
    } else if n >= 80 {
        333
    } else {
        266
    }
}

/// Both ε tables grow with the sample count.
pub proof fn epsilon_tables_are_monotone(m: int, n: int)
    requires
        m <= n,
    ensures
        packing_epsilon_table(m) <= packing_epsilon_table(n),
        poles_epsilon_table(m) <= poles_epsilon_table(n),
{
}

} // verus!
