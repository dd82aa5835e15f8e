//! The library's single source of randomness.

use vstd::prelude::*;
use rand::Rng;

verus! {

/// Select a `usize` integer from a specified `Range`.
///
/// Relies on `rand::Rng::gen_range` over `rand::thread_rng()`: on a
/// non-empty range it returns a uniformly distributed value inside the
/// range, and it panics on an empty one, which the precondition rules out.
#[verifier::external_body]
pub fn randint(range: std::ops::Range<usize>) -> (r: usize)
    requires
        range.start < range.end,
    ensures
        range.start <= r < range.end,
{
    rand::thread_rng().gen_range(range)
}

} // verus!
