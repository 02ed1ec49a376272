use rand::rngs::ThreadRng;
use vstd::prelude::*;

verus! {

/// `rand::rngs::ThreadRng`, the random number generator of a thread. What
/// it holds is hidden: a value of it is only handed on.
#[verifier::external_type_specification]
#[verifier::external_body]
pub struct ExThreadRng(ThreadRng);

/// `rand::thread_rng` hands out the random number generator of the calling
/// thread. Nothing is claimed of the generator.
pub assume_specification[ rand::thread_rng ]() -> (rng: ThreadRng)
;

/// `rand::Rng::gen_range` on the range `0..bound`, which must not be empty:
/// the number that comes back is below the bound. Which number it is depends
/// on the generator and is left open.
#[verifier::external_body]
pub(crate) fn gen_below(rng: &mut ThreadRng, bound: u32) -> (n: u32)
    requires
        bound > 0,
    ensures
        n < bound,
{
    rand::Rng::gen_range(rng, 0..bound)
}

} // verus!
