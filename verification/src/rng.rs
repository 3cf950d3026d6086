//! Trusted boundary to the pseudo-random source: the deterministic,
//! seedable generator the write-traffic and data generators draw from.
//!
//! The generator type is opaque to the verifier; each draw promises only the
//! range the underlying distribution documents, never a particular value.
use vstd::prelude::*;

use rand::Rng;
use rand::SeedableRng;
use rand::distributions::Alphanumeric;
use rand::rngs::StdRng;

verus! {

#[verifier::external_type_specification]
#[verifier::external_body]
pub struct ExStdRng(StdRng);

/// Relies on rand's `StdRng::seed_from_u64`: builds a generator whose draws
/// are reproducible from the seed.
#[verifier::external_body]
pub(crate) fn rng_from_seed(seed: u64) -> StdRng {
    StdRng::seed_from_u64(seed)
}

/// Relies on rand's `Rng::gen_range`: a draw uniform over `[lo, hi)`. The
/// call panics on an empty range, which the precondition rules out.
#[verifier::external_body]
pub(crate) fn draw_in_range(rng: &mut StdRng, lo: u32, hi: u32) -> (r: u32)
    requires
        lo < hi,
    ensures
        lo <= r < hi,
{
    rng.gen_range(lo..hi)
}

/// Relies on rand's `Alphanumeric` distribution: every sampled character is
/// an ASCII letter or digit.
#[verifier::external_body]
pub(crate) fn draw_alphanumeric(rng: &mut StdRng) -> (c: char)
    ensures
        (97 <= c as u32 && c as u32 <= 122) || (65 <= c as u32 && c as u32 <= 90) || (48
            <= c as u32 && c as u32 <= 57),
{
    rng.sample(Alphanumeric) as char
}

} // verus!
