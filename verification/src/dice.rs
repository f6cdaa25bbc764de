//! Random draws, taken from the generator of the `rltk` crate.

use rltk::RandomNumberGenerator;
use vstd::prelude::*;

verus! {

/// The random number generator of the `rltk` crate.
#[verifier::external_type_specification]
#[verifier::external_body]
pub struct ExRandomNumberGenerator(RandomNumberGenerator);

/// Calls `RandomNumberGenerator::new`, which seeds a generator from the
/// system's entropy. Nothing is claimed of the numbers it will give.
#[verifier::external_body]
pub(crate) fn new_generator() -> RandomNumberGenerator {
    RandomNumberGenerator::new()
}

/// Calls `RandomNumberGenerator::range`. Claimed: the number drawn is at
/// least `min` and below `max`. An empty range makes the call panic, so it
/// is not admitted.
#[verifier::external_body]
pub(crate) fn draw_range(rng: &mut RandomNumberGenerator, min: i32, max: i32) -> (r: i32)
    requires
        min < max,
    ensures
        min <= r < max,
{
    rng.range(min, max)
}

/// Calls `RandomNumberGenerator::roll_dice`, which adds up `n` draws from 1
/// to `die_type`. Claimed: the total lies between `n` and `n * die_type`.
/// Admitted are only rolls whose largest total fits an `i32`.
#[verifier::external_body]
pub(crate) fn roll_dice(rng: &mut RandomNumberGenerator, n: i32, die_type: i32) -> (r: i32)
    requires
        1 <= n,
        1 <= die_type,
        n * die_type < i32::MAX,
    ensures
        n <= r <= n * die_type,
{
    rng.roll_dice(n, die_type)
}

} // verus!
