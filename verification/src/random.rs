use vstd::prelude::*;

verus! {

/// Largest `high` for which `random_index` promises a result below `high`.
pub const RANDOM_RANGE_LIMIT: usize = 65536;

/// Calls `quad_rand::gen_range::<usize>(low, high)`, a pseudo-random number
/// drawn from a global generator. Its source computes
/// `low + (high - low) * (r / 2^32)` in `f64`, with `r` a `u32`, and casts
/// the result back to `usize`. While `high` is at most 2^16 every step of
/// that computation is exact, so the result lies in `low..high`. Which number
/// it is depends on the generator's state and is left unsaid.
#[verifier::external_body]
pub(crate) fn random_index(low: usize, high: usize) -> (r: usize)
    requires
        low < high <= RANDOM_RANGE_LIMIT,
    ensures
        low <= r < high,
{
    quad_rand::gen_range(low, high)
}

} // verus!
