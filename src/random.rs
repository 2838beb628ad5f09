//! The random source: rand's seedable standard generator and the few draws
//! that the rest of the library makes from it.

use rand::rngs::StdRng;
use rand::seq::SliceRandom;
use rand::Rng;
use rand::SeedableRng;
use vstd::prelude::*;

verus! {

#[verifier::external_type_specification]
#[verifier::external_body]
pub struct ExStdRng(rand::rngs::StdRng);

/// Relies on rand::SeedableRng::seed_from_u64: a generator whose whole
/// stream is fixed by the seed, so that runs can be reproduced.
#[verifier::external_body]
pub(crate) fn seeded_rng(seed: u64) -> (r: StdRng) {
    StdRng::seed_from_u64(seed)
}

/// Relies on rand::Rng::gen_range: a value of the half-open range, which
/// must not be empty (it panics on an empty one).
#[verifier::external_body]
pub(crate) fn draw_in(rng: &mut StdRng, lo: i64, hi: i64) -> (r: i64)
    requires
        lo < hi,
    ensures
        lo <= r < hi,
{
    rng.gen_range(lo..hi)
}

/// Relies on rand::Rng::gen for bool: a fair coin.
#[verifier::external_body]
pub(crate) fn flip_coin(rng: &mut StdRng) -> (r: bool) {
    rng.gen::<bool>()
}

/// Relies on rand::seq::SliceRandom::shuffle: the items are permuted in
/// place by swaps, none added or lost.
#[verifier::external_body]
pub(crate) fn shuffle_in_place<T>(items: &mut Vec<T>, rng: &mut StdRng)
    ensures
        final(items)@.len() == old(items)@.len(),
        final(items)@.to_multiset() == old(items)@.to_multiset(),
{
    items.shuffle(rng)
}

} // verus!
