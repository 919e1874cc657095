//! The injectable randomness capability: a seeded generator owned by the
//! simulation state, so that a fixed seed reproduces a run exactly.
//!
//! Every draw goes through one of the trusted wrappers below; the logic that
//! consumes a draw is verified for every value the wrapper may return.
use rand::rngs::StdRng;
use rand::Rng;
use rand::SeedableRng;
use vstd::prelude::*;

verus! {

#[verifier::external_type_specification]
#[verifier::external_body]
pub struct ExStdRng(StdRng);

/// Relies on rand's `StdRng::seed_from_u64`: a deterministic generator built
/// from the given seed.
#[verifier::external_body]
pub fn rng_from_seed(seed: u64) -> StdRng {
    StdRng::seed_from_u64(seed)
}

/// Relies on rand's `Rng::gen_range` over the half-open integer range
/// `lo..hi`: the sample lies in that range, and the call panics only on an
/// empty range, which the precondition rules out.
#[verifier::external_body]
pub fn rng_range(rng: &mut StdRng, lo: u32, hi: u32) -> (r: u32)
    requires
        lo < hi,
    ensures
        lo <= r < hi,
{
    rng.gen_range(lo..hi)
}

/// Relies on rand's `Rng::gen_ratio`: true with probability `num/den`,
/// guaranteed true when `num == den` and false when `num == 0`; panics only
/// when `den == 0` or `num > den`, which the precondition rules out.
#[verifier::external_body]
pub fn rng_ratio(rng: &mut StdRng, num: u32, den: u32) -> (r: bool)
    requires
        0 < den,
        num <= den,
    ensures
        num == den ==> r,
        num == 0 ==> !r,
{
    rng.gen_ratio(num, den)
}

} // verus!
