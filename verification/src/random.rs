//! Random draws, taken from the thread-local generator of the `rand` crate.
//!
//! Nothing in this file is proved: each function states what `rand` documents
//! of the call it makes. The generator is seeded, and from time to time
//! seeded anew, from the entropy source of the system; where that source
//! fails, `rand` panics, whatever the arguments of the call.

use vstd::prelude::*;
use rand::rngs::ThreadRng;
use rand::Rng;

verus! {

/// `rand::rngs::ThreadRng`, a handle to the generator of the current thread.
/// Nothing is known of its state.
#[verifier::external_type_specification]
#[verifier::external_body]
pub struct ExThreadRng(rand::rngs::ThreadRng);

/// Calls `rand::thread_rng`, which hands out a handle to the lazily seeded
/// generator of the current thread. Nothing is claimed of the handle. The
/// first call in a thread seeds the generator, and panics where the entropy
/// source of the system fails.
#[verifier::external_body]
pub(crate) fn thread_rng() -> (rng: ThreadRng) {
    rand::thread_rng()
}

/// Calls `rand::Rng::gen_ratio`, which draws `true` with a chance of
/// `numerator` in `denominator`. The call panics on a zero denominator and on
/// a numerator above the denominator, so both are left out; it also panics
/// where the generator is due for new seed and the entropy source of the
/// system fails, which no argument decides. Of the outcome only the two
/// certain cases are claimed: a chance of one always gives `true`, a chance
/// of zero always `false`.
#[verifier::external_body]
pub(crate) fn gen_ratio(rng: &mut ThreadRng, numerator: u32, denominator: u32) -> (hit: bool)
    requires
        0 < denominator,
        numerator <= denominator,
    ensures
        numerator == denominator ==> hit,
        numerator == 0 ==> !hit,
{
    rng.gen_ratio(numerator, denominator)
}

} // verus!
