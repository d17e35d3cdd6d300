use crate::world::entities::Direction;
use rand::rngs::ThreadRng;
use rand::seq::SliceRandom;
use rand::Rng;
use vstd::prelude::*;

verus! {

/// `rand::rngs::ThreadRng`, the handle to the thread's random number generator. Nothing
/// is known of what it holds.
#[verifier::external_type_specification]
#[verifier::external_body]
pub struct ExThreadRng(rand::rngs::ThreadRng);

/// `rand::thread_rng`, which hands out the thread's generator, seeded by the system. Nothing
/// is claimed of the handle. The call panics where the system cannot seed the generator.
pub assume_specification[ rand::thread_rng ]() -> (rng: rand::rngs::ThreadRng)
;

/// `rand::Rng::gen_range` on the closed range from `low` to `high`. The call panics on an
/// empty range, so `low` may not exceed `high`; the number drawn lies in the range. That it
/// is uniform is not stated.
#[verifier::external_body]
pub(crate) fn roll_between(rng: &mut ThreadRng, low: usize, high: usize) -> (n: usize)
    requires
        low <= high,
    ensures
        low <= n <= high,
{
    rng.gen_range(low..=high)
}

/// `rand::seq::SliceRandom::shuffle` on the four directions. The call swaps items of the
/// slice in place, so what comes back holds the same directions, each as often as before.
/// That every order is equally likely is not stated.
#[verifier::external_body]
pub(crate) fn shuffle_directions(rng: &mut ThreadRng, directions: &mut [Direction; 4])
    ensures
        final(directions)@.to_multiset() == old(directions)@.to_multiset(),
{
    directions.shuffle(rng);
}

} // verus!
