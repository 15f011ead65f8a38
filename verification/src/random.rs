//! The one place where chance enters: the thread's random number generator.
//!
//! The items here are taken on trust. Each states what the `rand` crate
//! documents of the function it stands for, and nothing else in the crate
//! depends on which number is drawn.

use rand::rngs::ThreadRng;
use rand::Rng;
use vstd::prelude::*;

verus! {

/// `rand::rngs::ThreadRng`, the handle to the thread-local generator. Its
/// state is hidden: no contract speaks of what it holds.
#[verifier::external_type_specification]
#[verifier::external_body]
pub struct ExThreadRng(rand::rngs::ThreadRng);

/// `rand::thread_rng` hands out a handle to the thread-local generator, which
/// the operating system seeds. Nothing is claimed of the handle. The call
/// panics only where the operating system cannot seed the generator.
pub assume_specification[ rand::thread_rng ]() -> (rng: rand::rngs::ThreadRng);

/// Draws an index below `bound` with `Rng::gen_range` on the range
/// `0..bound`. The range must not be empty, as `gen_range` panics on an
/// empty one; the index drawn lies in the range. Which index comes out is
/// left open.
#[verifier::external_body]
pub(crate) fn random_index(rng: &mut ThreadRng, bound: usize) -> (index: usize)
    requires
        bound > 0,
    ensures
        index < bound,
{
    rng.gen_range(0..bound)
}

} // verus!
