use vstd::prelude::*;

use rand::{Rng, SeedableRng};
use rand_chacha::ChaCha8Rng;

verus! {

/// The first `n` values that `gen_range(0..bound)` returns, one call after the
/// other, on a ChaCha8 generator made by `seed_from_u64(seed)`.
pub uninterp spec fn chacha8_draws(seed: u64, n: nat, bound: u64) -> Seq<u64>;

/// Relies on rand_chacha's `ChaCha8Rng::seed_from_u64` and rand's
/// `Rng::gen_range`: `n` values, each below `bound`, fixed by the seed (the
/// generator is portable and reproducible).
#[verifier::external_body]
pub(crate) fn uniform_draws(seed: u64, n: usize, bound: u64) -> (r: Vec<u64>)
    requires
        bound > 0,
    ensures
        r@ == chacha8_draws(seed, n as nat, bound),
        r@.len() == n,
        forall|k: int| 0 <= k < r@.len() ==> #[trigger] r@[k] < bound,
{
    let mut rng = ChaCha8Rng::seed_from_u64(seed);
    (0..n).map(|_| rng.gen_range(0..bound)).collect()
}

} // verus!
