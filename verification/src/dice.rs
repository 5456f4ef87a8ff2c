//! The source of chance: a seedable generator from `rand`, handed in by the
//! caller, so that a run can be repeated from its seed.

use rand::rngs::StdRng;
use rand::Rng;
use vstd::prelude::*;

verus! {

/// `rand::rngs::StdRng`, carried through as it is: nothing is known of what
/// it holds.
#[verifier::external_type_specification]
#[verifier::external_body]
pub struct ExStdRng(StdRng);

/// Draws a coordinate with `Rng::gen_range` on the inclusive range from `low`
/// to `high`. Assumed, not proved: the number drawn lies in that range. Which
/// number it is depends on the generator's state, of which nothing is said.
/// `gen_range` panics on an empty range, hence the precondition.
#[verifier::external_body]
pub(crate) fn draw_between(rng: &mut StdRng, low: i8, high: i8) -> (drawn: i8)
    requires
        low <= high,
    ensures
        low <= drawn <= high,
{
    rng.gen_range(low..=high)
}

} // verus!
