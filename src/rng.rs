use vstd::prelude::*;

verus! {

/// Largest upper bound accepted by `gen_range`; below it every draw is exact.
pub const RANGE_LIMIT: u32 = 1048576;

/// Relies on quad_rand::gen_range for `u32`: a pseudo-random number in
/// `[low, high)`. It scales a 32-bit draw into the range in `f64`, which is
/// exact for bounds under `RANGE_LIMIT`, and truncates towards zero.
#[verifier::external_body]
pub(crate) fn gen_range(low: u32, high: u32) -> (r: u32)
    requires
        low < high,
        high <= RANGE_LIMIT,
    ensures
        low <= r < high,
{
    quad_rand::gen_range(low, high)
}

} // verus!
