//! Random and pseudo-random bit sources used to draw hypervectors.
use vstd::prelude::*;
use rand::{Rng, RngCore, SeedableRng};
use rand_chacha::ChaCha20Rng;

verus! {

/// The first `count` outputs of `RngCore::next_u64` of a ChaCha20 generator
/// built by `SeedableRng::seed_from_u64(seed)`.
pub uninterp spec fn chacha20_words(seed: u64, count: nat) -> Seq<u64>;

/// Draws `count` words from `ChaCha20Rng::seed_from_u64(seed)` with
/// `next_u64`. The contract claims only that the words are those of the
/// seeded stream (named `chacha20_words`) and that there are `count` of
/// them; nothing is stated about their values.
#[verifier::external_body]
pub(crate) fn chacha20_stream(seed: u64, count: usize) -> (r: Vec<u64>)
    ensures
        r@ == chacha20_words(seed, count as nat),
        r@.len() == count,
{
    let mut rng = ChaCha20Rng::seed_from_u64(seed);
    (0..count).map(|_| rng.next_u64()).collect()
}

/// Draws `count` booleans from `rand::thread_rng()` with `Rng::gen`.
/// The values depend on the thread's entropy source; only their number
/// is stated.
#[verifier::external_body]
pub(crate) fn random_bits(count: usize) -> (r: Vec<bool>)
    ensures
        r@.len() == count,
{
    let mut rng = rand::thread_rng();
    (0..count).map(|_| rng.gen::<bool>()).collect()
}

} // verus!
