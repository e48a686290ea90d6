//! The random source. Everything here is a thin call into the `rand` crate;
//! the contracts say what its documentation promises of every outcome and
//! are taken on trust.

use rand::rngs::ThreadRng;
use rand::seq::IndexedRandom;
use rand::Rng;
use vstd::prelude::*;

verus! {

/// `rand::rngs::ThreadRng`, a handle to the random generator of the current
/// thread. Its state is hidden from the proofs.
#[verifier::external_type_specification]
#[verifier::external_body]
pub struct ExThreadRng(ThreadRng);

/// `rand::rng`: hands out the generator of the current thread. Nothing is
/// claimed of the handle.
pub assume_specification[ rand::rng ]() -> (rng: ThreadRng)
;

/// `Rng::random_range` on the inclusive range `low..=high`. The call panics
/// on an empty range, which the precondition leaves out; of the value only
/// its bounds are claimed.
#[verifier::external_body]
pub(crate) fn random_in(rng: &mut ThreadRng, low: i64, high: i64) -> (value: i64)
    requires
        low <= high,
    ensures
        low <= value <= high,
{
    rng.random_range(low..=high)
}

/// `IndexedRandom::choose` on the items of a vector: no item when there is
/// none to choose, otherwise a reference to one of them. Which one is left
/// open.
#[verifier::external_body]
pub(crate) fn choose_one<'a, T>(items: &'a Vec<T>, rng: &mut ThreadRng) -> (chosen: Option<&'a T>)
    ensures
        chosen is None <==> items@.len() == 0,
        chosen is Some ==> items@.contains(*chosen->Some_0),
{
    items.choose(rng)
}

} // verus!
