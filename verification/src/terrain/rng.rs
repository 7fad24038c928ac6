//! Random draws for terrain generation.
//!
//! Randomness comes from rand's seedable `StdRng`. Verified code never looks inside the
//! generator: it only takes the numbers it draws, so every contract below holds whatever
//! the generator produces.

use vstd::prelude::*;

use rand::rngs::{OsRng, StdRng};
use rand::RngCore;
use rand::SeedableRng;

use vstd::seq_lib::to_multiset_update;

use super::types::{all_terrain_types, TerrainType};

verus! {

/// rand's standard seedable generator, carried as an opaque value.
#[verifier::external_type_specification]
#[verifier::external_body]
pub struct ExStdRng(StdRng);

/// Calls `RngCore::next_u32` on the generator. Nothing is claimed of the number drawn or
/// of the generator's new state.
#[verifier::external_body]
pub(crate) fn next_draw(rng: &mut StdRng) -> u32 {
    rng.next_u32()
}

/// The generator that `SeedableRng::seed_from_u64` builds for `seed`.
pub uninterp spec fn seeded_rng(seed: u64) -> StdRng;

/// Calls `SeedableRng::seed_from_u64`. The generator is claimed to depend on the seed
/// alone (rand_core expands the seed with a fixed PCG32 stream and builds the generator
/// from the result); what the generator then draws is not described.
#[verifier::external_body]
fn seeded_generator(seed: u64) -> (rng: StdRng)
    ensures
        rng == seeded_rng(seed),
{
    StdRng::seed_from_u64(seed)
}

/// Asks the operating system for four random bytes through `RngCore::try_fill_bytes` on
/// `OsRng` and reads them as a little-endian `u32`. rand_core forwards the request to
/// `getrandom`, which reports a failing entropy source as an error instead of panicking;
/// the wrapper gives `None` then. Nothing is claimed of the number drawn.
#[verifier::external_body]
fn entropy_seed() -> Option<u32> {
    let mut bytes = [0u8; 4];
    match OsRng.try_fill_bytes(&mut bytes) {
        Ok(()) => Some(u32::from_le_bytes(bytes)),
        Err(_) => None,
    }
}

/// Seed chosen for a Godot-style seed: a negative seed asks for a fresh random one.
pub open spec fn godot_seed_choice(seed: i32) -> Option<u32> {
    if seed < 0 { None } else { Some(seed as u32) }
}

/// Interpret a Godot-style seed: negative means "pick one at random".
pub fn seed_from_godot(seed: i32) -> (choice: Option<u32>)
    ensures
        choice == godot_seed_choice(seed),
{
    if seed < 0 {
        None
    } else {
        Some(seed as u32)
    }
}

/// The generator for a value read from the entropy source: seeded with that value, or
/// `None` when the source gave none.
pub fn rng_from_entropy(entropy: Option<u32>) -> (rng: Option<StdRng>)
    ensures
        entropy matches Some(e) ==> rng == Some(seeded_rng(e as u64)),
        entropy is None ==> rng is None,
{
    match entropy {
        Some(e) => Some(seeded_generator(e as u64)),
        None => None,
    }
}

/// Build an RNG for terrain generation from an optional fixed seed.
///
/// A fixed seed gives `StdRng::seed_from_u64(seed)`, so the same seed always gives the
/// same generator; what that generator then draws is rand's and is not described here.
/// Without a seed one is drawn from the operating system's entropy source; `None` comes
/// back only when that source fails.
pub fn terrain_rng_from_seed(seed: Option<u32>) -> (rng: Option<StdRng>)
    ensures
        seed matches Some(s) ==> rng == Some(seeded_rng(s as u64)),
        rng matches Some(r) ==> exists|s: u64| s <= u32::MAX && r == #[trigger] seeded_rng(s),
{
    match seed {
        Some(s) => Some(seeded_generator(s as u64)),
        None => rng_from_entropy(entropy_seed()),
    }
}

/// Build an RNG from a Godot-style seed (`seed < 0` picks a random seed, and gives `None`
/// only when the operating system's entropy source fails).
pub fn terrain_rng_from_godot_seed(seed: i32) -> (rng: Option<StdRng>)
    ensures
        seed >= 0 ==> rng == Some(seeded_rng(seed as u64)),
        rng matches Some(r) ==> exists|s: u64| s <= u32::MAX && r == #[trigger] seeded_rng(s),
{
    terrain_rng_from_seed(seed_from_godot(seed))
}

/// Index that a draw selects among `len` items: the draw modulo `len`.
pub fn index_from_draw(draw: u32, len: usize) -> (index: usize)
    requires
        len > 0,
    ensures
        index == (draw as int) % (len as int),
        index < len,
{
    (draw as usize) % len
}

/// Draw an index below `len`.
pub fn random_index(rng: &mut StdRng, len: usize) -> (index: usize)
    requires
        len > 0,
    ensures
        index < len,
{
    index_from_draw(next_draw(rng), len)
}

/// Terrain type that a draw selects: entry `draw % 6` of [`TerrainType::ALL`].
pub fn terrain_from_draw(draw: u32) -> (t: TerrainType)
    ensures
        t == all_terrain_types()[(draw as int) % 6],
{
    let all = TerrainType::ALL;
    let i = index_from_draw(draw, all.len());
    proof {
        assert(all@ =~= all_terrain_types());
    }
    all[i]
}

/// Draw one of the six terrain types: [`terrain_from_draw`] of the generator's next draw.
pub fn random_terrain(rng: &mut StdRng) -> (t: TerrainType)
    ensures
        all_terrain_types().contains(t),
        exists|draw: u32| t == #[trigger] all_terrain_types()[(draw as int) % 6],
{
    let draw = next_draw(rng);
    let t = terrain_from_draw(draw);
    proof {
        assert(all_terrain_types().contains(t)) by {
            assert(0 <= (draw as int) % 6 < 6);
        }
    }
    t
}

/// Item that a draw selects: entry `draw % len` of `items`.
pub fn item_from_draw<T: Copy>(items: &[T], draw: u32) -> (item: T)
    requires
        items@.len() > 0,
    ensures
        item == items@[(draw as int) % (items@.len() as int)],
{
    items[index_from_draw(draw, items.len())]
}

/// Draw one of `items`: [`item_from_draw`] of the generator's next draw.
pub fn choose_item<T: Copy>(items: &[T], rng: &mut StdRng) -> (item: T)
    requires
        items@.len() > 0,
    ensures
        items@.contains(item),
        exists|draw: u32| item == #[trigger] items@[(draw as int) % (items@.len() as int)],
{
    let draw = next_draw(rng);
    let item = item_from_draw(items, draw);
    proof {
        let i = (draw as int) % (items@.len() as int);
        assert(0 <= i < items@.len());
        assert(items@[i] == item);
    }
    item
}

/// `s` with the entries at `i` and `j` exchanged.
pub open spec fn swapped<T>(s: Seq<T>, i: int, j: int) -> Seq<T> {
    s.update(i, s[j]).update(j, s[i])
}

/// One Fisher–Yates step: exchange entry `index` with the entry at `draw` modulo
/// `index + 1`.
pub fn shuffle_step<T: Copy>(items: &mut Vec<T>, index: usize, draw: u32)
    requires
        index < old(items)@.len(),
    ensures
        final(items)@ == swapped(old(items)@, index as int, (draw as int) % (index as int + 1)),
        final(items)@.to_multiset() == old(items)@.to_multiset(),
{
    let len = items.len();
    assert(index + 1 <= len);
    let swap_index = index_from_draw(draw, index + 1);
    let a = items[index];
    let b = items[swap_index];
    let ghost before = items@;
    items.set(index, b);
    items.set(swap_index, a);
    proof {
        let mid = before.update(index as int, b);
        assert(before[index as int] == a);
        to_multiset_update(before, index as int, b);
        assert(mid.to_multiset() == before.to_multiset().insert(b).remove(a));
        assert(items@ == mid.update(swap_index as int, a));
        assert(mid[swap_index as int] == b);
        to_multiset_update(mid, swap_index as int, a);
        assert(items@.to_multiset() == mid.to_multiset().insert(a).remove(b));
        broadcast use vstd::multiset::group_multiset_axioms;
        vstd::seq_lib::to_multiset_contains(before, a);
        assert(before.contains(a)) by {
            assert(before[index as int] == a);
        }
        vstd::seq_lib::to_multiset_contains(mid, b);
        assert(mid.contains(b)) by {
            assert(mid[index as int] == b);
        }
        assert(items@.to_multiset() =~= before.to_multiset());
    }
}

/// The first `steps` Fisher–Yates steps on `s`: step `k` exchanges the entry at
/// `index = len - 1 - k` with the entry at `draws[k] % (index + 1)`.
pub open spec fn fisher_yates_steps<T>(s: Seq<T>, draws: Seq<u32>, steps: nat) -> Seq<T>
    decreases steps,
{
    if steps == 0 {
        s
    } else {
        let index = s.len() - steps;
        swapped(fisher_yates_steps(s, draws, (steps - 1) as nat), index, (draws[steps - 1] as int) % (index + 1))
    }
}

/// Fisher–Yates on `s` with the given draws: one step for each index from the last
/// down to `1`; a sequence of fewer than two entries is left as it is.
pub open spec fn fisher_yates<T>(s: Seq<T>, draws: Seq<u32>) -> Seq<T> {
    if s.len() < 2 {
        s
    } else {
        fisher_yates_steps(s, draws, (s.len() - 1) as nat)
    }
}

/// Shuffle `items` with the given draws, the first draw for the last index: the result
/// is [`fisher_yates`] of the input, a permutation of it.
pub fn shuffle_with_draws<T: Copy>(items: &mut Vec<T>, draws: &[u32])
    requires
        draws@.len() + 1 >= old(items)@.len(),
    ensures
        final(items)@ == fisher_yates(old(items)@, draws@),
        final(items)@.to_multiset() == old(items)@.to_multiset(),
        final(items)@.len() == old(items)@.len(),
{
    let len = items.len();
    if len < 2 {
        return;
    }
    let mut k: usize = 0;
    while k < len - 1
        invariant
            len == old(items)@.len(),
            len >= 2,
            draws@.len() + 1 >= len,
            k <= len - 1,
            items@ == fisher_yates_steps(old(items)@, draws@, k as nat),
            items@.len() == len,
            items@.to_multiset() == old(items)@.to_multiset(),
        decreases len - 1 - k,
    {
        let index = len - 1 - k;
        shuffle_step(items, index, draws[k]);
        k = k + 1;
    }
}

/// Shuffle `items` in place: one draw for each index from the last down to `1`, then
/// [`shuffle_with_draws`] with those draws in order. The result is a permutation of the
/// input.
pub fn shuffle<T: Copy>(rng: &mut StdRng, items: &mut Vec<T>)
    ensures
        final(items)@.to_multiset() == old(items)@.to_multiset(),
        final(items)@.len() == old(items)@.len(),
        exists|draws: Seq<u32>| final(items)@ == #[trigger] fisher_yates(old(items)@, draws),
{
    let len = items.len();
    let steps: usize = if len < 2 { 0 } else { len - 1 };
    let mut draws: Vec<u32> = Vec::new();
    let mut k: usize = 0;
    while k < steps
        invariant
            draws@.len() == k,
            k <= steps,
        decreases steps - k,
    {
        draws.push(next_draw(rng));
        k = k + 1;
    }
    shuffle_with_draws(items, draws.as_slice());
}

} // verus!
