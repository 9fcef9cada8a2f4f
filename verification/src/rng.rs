//! The random number generator of the engine, taken from `rltk`.
//!
//! Its results depend on the generator's hidden state, so the contracts below
//! state only what holds of every outcome.

use vstd::prelude::*;
use rltk::RandomNumberGenerator;
use rand::seq::SliceRandom;

verus! {

/// `rltk::RandomNumberGenerator`, carried through verified code as an opaque value.
#[verifier::external_type_specification]
#[verifier::external_body]
pub struct ExRandomNumberGenerator(rltk::RandomNumberGenerator);

/// `RandomNumberGenerator::new`: a generator seeded from the operating
/// system's entropy. Nothing is stated of its state.
#[verifier::external_body]
pub(crate) fn rng_new() -> RandomNumberGenerator {
    RandomNumberGenerator::new()
}

/// `RandomNumberGenerator::range`: a uniform value of the half-open range
/// `min..max`. The range must not be empty (the underlying `gen_range` panics).
#[verifier::external_body]
pub(crate) fn rng_range(rng: &mut RandomNumberGenerator, min: i32, max: i32) -> (r: i32)
    requires
        min < max,
    ensures
        min <= r < max,
{
    rng.range(min, max)
}

/// `RandomNumberGenerator::roll_dice`: the sum of `n` rolls of a die with faces
/// `1..=die_type`, so a value between `n` and `n * die_type`.
#[verifier::external_body]
pub(crate) fn rng_roll_dice(rng: &mut RandomNumberGenerator, n: i32, die_type: i32) -> (r: i32)
    requires
        0 <= n,
        1 <= die_type < i32::MAX,
        n * die_type <= i32::MAX,
    ensures
        n <= r <= n * die_type,
{
    rng.roll_dice(n, die_type)
}

/// `rand::seq::SliceRandom::shuffle` with `rand::thread_rng()`: the items of
/// `v` in a random order. The shuffle only swaps items, so the result holds
/// the same items as many times each; which order comes out is not stated.
#[verifier::external_body]
pub(crate) fn shuffle(v: &mut Vec<i32>)
    ensures
        final(v)@.len() == old(v)@.len(),
        final(v)@.to_multiset() == old(v)@.to_multiset(),
{
    v.shuffle(&mut rand::thread_rng());
}

} // verus!
