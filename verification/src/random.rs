use rand::Rng;
use vstd::prelude::*;

verus! {

/// One byte drawn from `rand::thread_rng()` with `Rng::gen::<u8>()`.
///
/// Nothing is promised of the value: it comes from the thread's random
/// generator and may be any byte. (`thread_rng` panics when the operating
/// system cannot seed the generator; no argument controls that.)
#[verifier::external_body]
pub(crate) fn random_byte() -> u8 {
    rand::thread_rng().gen::<u8>()
}

} // verus!
