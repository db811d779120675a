//! The random source.

use vstd::prelude::*;
use rand::rngs::StdRng;
use rand::Rng;

verus! {

/// `rand::rngs::StdRng`, the seedable generator of the `rand` crate. Nothing
/// is known of its state: a value is only handed on to the draw below.
#[verifier::external_type_specification]
#[verifier::external_body]
pub struct ExStdRng(StdRng);

/// Draws a whole number between `low` and `high`, both included, by
/// `rand::Rng::gen_range` on the inclusive range. Trusted, not proved: the
/// draw lies within the range. `gen_range` panics on an empty range, which
/// the precondition rules out. Which number comes depends on the state of
/// the generator, of which nothing is claimed.
#[verifier::external_body]
pub(crate) fn draw_between(rng: &mut StdRng, low: i64, high: i64) -> (drawn: i64)
    requires
        low <= high,
    ensures
        low <= drawn <= high,
{
    rng.gen_range(low..=high)
}

} // verus!
