//! Chance. The two functions of this module hand out what the `rand` crate
//! draws; nothing is proved of them, and what is stated is what the
//! documentation of `rand` promises of every draw.

use rand::seq::SliceRandom;
use rand::Rng;
use vstd::prelude::*;

verus! {

/// Draws an index below `bound` with `rand::Rng::gen_range(0, bound)` on the
/// generator of `rand::thread_rng()`. `gen_range` returns a value of the
/// half-open range from its first argument to its second and panics on an
/// empty range, which `bound > 0` keeps out.
#[verifier::external_body]
pub(crate) fn random_below(bound: usize) -> (drawn: usize)
    requires
        bound > 0,
    ensures
        drawn < bound,
{
    rand::thread_rng().gen_range(0, bound)
}

/// Picks an element of `items` with `rand::seq::SliceRandom::choose` on the
/// generator of `rand::thread_rng()`. `choose` returns a reference to one
/// element of the slice, or `None` if the slice is empty.
#[verifier::external_body]
pub(crate) fn choose_one<T>(items: &Vec<T>) -> (chosen: Option<&T>)
    ensures
        chosen is None <==> items@.len() == 0,
        chosen is Some ==> items@.contains(*chosen.unwrap()),
{
    items.as_slice().choose(&mut rand::thread_rng())
}

} // verus!
