//! The random source that seeds a grid.
//!
//! The generator is the caller's: whoever holds it decides how it is seeded,
//! so a run can be repeated by seeding it the same way. Nothing here is
//! proved of the numbers it yields beyond the range they fall in.

use vstd::prelude::*;
use rand::Rng;
use rand::rngs::StdRng;

verus! {

/// `rand::rngs::StdRng`, carried through as an opaque value.
#[verifier::external_type_specification]
#[verifier::external_body]
pub struct ExStdRng(rand::rngs::StdRng);

/// Draws an index below `bound` by calling `Rng::gen_range` on the range
/// `0..bound`.
///
/// Trusted, not proved: `gen_range` panics on an empty range, which `bound > 0`
/// rules out, and otherwise returns a value of the range, here one that is
/// less than `bound`. Which value comes back is left open.
#[verifier::external_body]
pub(crate) fn draw_below(rng: &mut StdRng, bound: usize) -> (index: usize)
    requires
        bound > 0,
    ensures
        index < bound,
{
    rng.gen_range(0..bound)
}

} // verus!
