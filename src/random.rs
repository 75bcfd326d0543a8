//! Random draws, through the `rand` crate. Nothing is promised of a drawn
//! value beyond its range.
use rand::seq::SliceRandom;
use rand::Rng;
use vstd::prelude::*;

verus! {

/// Relies on rand's `Rng::gen_range(0, high)` on the thread-local generator,
/// which returns a value in `[0, high)` and panics when `high` is zero.
#[verifier::external_body]
pub(crate) fn random_below(high: usize) -> (r: usize)
    requires
        high > 0,
    ensures
        r < high,
{
    rand::thread_rng().gen_range(0, high)
}

/// Relies on rand's `SliceRandom::shuffle`, which permutes the slice in place
/// by swapping its elements.
#[verifier::external_body]
pub(crate) fn shuffle<T>(v: &mut Vec<T>)
    ensures
        final(v)@.to_multiset() == old(v)@.to_multiset(),
{
    v.shuffle(&mut rand::thread_rng())
}

/// Relies on rand's `SliceRandom::choose`, which returns one element of the
/// slice, or nothing if and only if the slice is empty.
#[verifier::external_body]
pub(crate) fn choose_byte(options: &[u8]) -> (r: Option<u8>)
    ensures
        r.is_none() <==> options@.len() == 0,
        r.is_some() ==> options@.contains(r->0),
{
    options.choose(&mut rand::thread_rng()).copied()
}

} // verus!
