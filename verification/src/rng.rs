//! The simulation's only source of randomness: a seedable generator from the
//! `rand` crate behind a small trusted boundary, and the verified Bernoulli
//! trial built on it.

use rand::Rng;
use rand::SeedableRng;
use vstd::prelude::*;

verus! {

/// Declares rand's StdRng so the generator can live in a field and be passed
/// around; the verifier sees nothing of its insides.
#[verifier::external_type_specification]
#[verifier::external_body]
pub struct ExStdRng(rand::rngs::StdRng);

/// Relies on rand::SeedableRng::seed_from_u64: builds a pseudo-random
/// generator from the given seed and never panics.
#[verifier::external_body]
pub(crate) fn rng_from_seed(seed: u64) -> rand::rngs::StdRng {
    rand::rngs::StdRng::seed_from_u64(seed)
}

/// Relies on rand::Rng::random_range over `0..bound`: returns a value
/// uniformly distributed below `bound`, and panics only on an empty range,
/// which the precondition rules out.
#[verifier::external_body]
pub(crate) fn draw_below(rng: &mut rand::rngs::StdRng, bound: u64) -> (r: u64)
    requires
        bound >= 1,
    ensures
        r < bound,
{
    rng.random_range(0..bound)
}

/// One Bernoulli trial with success probability `num / den`. Nothing can be
/// said of the outcome for probabilities strictly between zero and one; the
/// impossible and the certain trial are pinned down.
pub(crate) fn bernoulli(rng: &mut rand::rngs::StdRng, num: u64, den: u64) -> (r: bool)
    requires
        1 <= den,
        num <= den,
    ensures
        num == 0 ==> !r,
        num == den ==> r,
{
    draw_below(rng, den) < num
}

} // verus!
