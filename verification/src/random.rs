//! The one source of chance in the simulation.

use rand::Rng;
use vstd::prelude::*;

verus! {

/// Draws a number from `low` up to, not including, `high`.
///
/// Calls `rand::Rng::gen_range` on the generator that `rand::thread_rng`
/// hands out, with the half-open range `low..high`. The range must not be
/// empty, for `gen_range` panics on an empty one. All that is claimed of the
/// result is that it lies in the range; which number comes is left open, and
/// two draws may differ.
#[verifier::external_body]
pub(crate) fn draw_between(low: i32, high: i32) -> (r: i32)
    requires
        low < high,
    ensures
        low <= r < high,
{
    rand::thread_rng().gen_range(low..high)
}

} // verus!
