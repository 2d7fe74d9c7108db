use std::time::Duration;

use vstd::prelude::*;

use pagurus::random::StdRng;

verus! {

/// pagurus's seeded random source, carried as an opaque value.
#[verifier::external_type_specification]
#[verifier::external_body]
pub struct ExStdRng(pagurus::random::StdRng);

/// Relies on pagurus's `Clone` for `StdRng`: a generator at the same point of
/// the same stream.
pub assume_specification[ <pagurus::random::StdRng as Clone>::clone ](
    rng: &pagurus::random::StdRng,
) -> pagurus::random::StdRng;

/// Relies on pagurus's `StdRng::from_clock_seed`: a generator seeded from a
/// clock reading.
#[verifier::external_body]
pub(crate) fn clock_seeded(now: Duration) -> StdRng {
    StdRng::from_clock_seed(now)
}

/// Relies on pagurus's `StdRng::default`: the generator of a zero seed.
#[verifier::external_body]
pub(crate) fn default_rng() -> StdRng {
    StdRng::default()
}

} // verus!
