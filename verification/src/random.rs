//! The source of randomness: the thread-local generator of the `rand` crate.
//!
//! Nothing is proved of the items in this file; their contracts state what
//! `rand` documents of every outcome. Each probabilistic rule of the
//! simulation is a verified function of the value drawn here.

use vstd::prelude::*;

verus! {

/// `rand::rngs::ThreadRng`, a handle to the thread-local generator. Its state
/// is opaque.
#[verifier::external_type_specification]
#[verifier::external_body]
pub struct ExThreadRng(rand::rngs::ThreadRng);

/// `rand::thread_rng` hands out the handle of the calling thread's generator.
/// Nothing is claimed of the handle.
pub assume_specification[ rand::thread_rng ]() -> (rng: rand::rngs::ThreadRng);

/// `Rng::gen_range` on the half-open range `0..bound`: an integer of that
/// range. The call panics on an empty range, which `requires` excludes.
#[verifier::external_body]
pub(crate) fn uniform_below(rng: &mut rand::rngs::ThreadRng, bound: i64) -> (r: i64)
    requires
        bound > 0,
    ensures
        0 <= r < bound,
{
    rand::Rng::gen_range(rng, 0..bound)
}

/// `SliceRandom::shuffle`: reorders the elements in place by a sequence of
/// swaps, so the result holds the same elements, each as often as before.
#[verifier::external_body]
pub(crate) fn shuffle<T>(v: &mut Vec<T>, rng: &mut rand::rngs::ThreadRng)
    ensures
        final(v)@.to_multiset() == old(v)@.to_multiset(),
{
    rand::seq::SliceRandom::shuffle(v.as_mut_slice(), rng)
}

/// `SliceRandom::choose`: `None` for an empty slice, else one of its
/// elements.
#[verifier::external_body]
pub(crate) fn pick<T: Copy>(v: &Vec<T>, rng: &mut rand::rngs::ThreadRng) -> (r: Option<T>)
    ensures
        v.len() == 0 ==> r is None,
        v.len() > 0 ==> r is Some && v@.contains(r->Some_0),
{
    rand::seq::SliceRandom::choose(v.as_slice(), rng).copied()
}

} // verus!
