//! Chance.
use vstd::prelude::*;
use rand::Rng;

verus! {

/// Draws a number from `low` up to, but not including, `high`.
///
/// This calls `gen_range` of `rand::Rng` on the generator that
/// `rand::thread_rng` hands out, with the range from `low` to `high`, its end
/// excluded. Nothing is proved of the call; what is claimed is what `gen_range`
/// documents: the value lies in the range given. An empty range, on which
/// `gen_range` panics, is left out.
#[verifier::external_body]
pub(crate) fn random_in(low: i32, high: i32) -> (r: i32)
    requires
        low < high,
    ensures
        low <= r < high,
{
    rand::thread_rng().gen_range(low..high)
}

} // verus!
