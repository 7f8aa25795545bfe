use rand::rngs::{OsRng, StdRng};
use rand::seq::SliceRandom;
use rand::TryRngCore;
use vstd::prelude::*;

use crate::piece::Piece;

verus! {

/// The seedable generator of the `rand` crate that shuffles the deals.
#[verifier::external_type_specification]
#[verifier::external_body]
pub struct ExStdRng(rand::rngs::StdRng);

/// The generator that `StdRng::seed_from_u64` builds from `seed`. The crate
/// documents `seed_from_u64` as a fixed function of the seed (changing it is
/// a value-breaking change), so equal seeds give equal generators.
pub uninterp spec fn seeded_generator(seed: u64) -> StdRng;

/// Calls `rand::SeedableRng::seed_from_u64` for `StdRng`: the result is the
/// generator `seeded_generator(seed)`.
#[verifier::external_body]
pub(crate) fn rng_from_seed(seed: u64) -> (rng: StdRng)
    ensures
        rng == seeded_generator(seed),
{
    rand::SeedableRng::seed_from_u64(seed)
}

/// Calls `rand::TryRngCore::try_next_u64` on `rand::rngs::OsRng`, which asks
/// the operating system for a random `u64` and reports its failure as an
/// error instead of panicking. `None` stands for that error; any `u64` may
/// come back otherwise, so nothing more is stated.
#[verifier::external_body]
pub(crate) fn entropy_seed() -> (x: Option<u64>) {
    OsRng.try_next_u64().ok()
}

/// Calls `rand::seq::SliceRandom::shuffle` on the pieces. The crate documents
/// the result as a permutation of the input (picked uniformly), so the
/// contract states that the multiset of pieces is unchanged; which
/// permutation comes out depends on the generator and is not stated.
#[verifier::external_body]
pub(crate) fn shuffle_pieces(pieces: &mut Vec<Piece>, rng: &mut StdRng)
    ensures
        final(pieces)@.to_multiset() == old(pieces)@.to_multiset(),
        final(pieces)@.len() == old(pieces)@.len(),
{
    pieces.as_mut_slice().shuffle(rng)
}

} // verus!
