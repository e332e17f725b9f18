//! The random source: the only place where randomness enters the library.

use rand::seq::IteratorRandom;
use rand::Rng;
use vstd::prelude::*;

verus! {

/// Relies on `rand::Rng::gen_range` over the inclusive range `1..=6`: the
/// value drawn lies in that range.
#[verifier::external_body]
pub(crate) fn roll_die() -> (face: u32)
    ensures
        1 <= face <= 6,
{
    rand::thread_rng().gen_range(1..=6u32)
}

/// Relies on `rand::seq::IteratorRandom::choose` over the range `0..len`:
/// `None` exactly when the range is empty, otherwise one of its elements.
#[verifier::external_body]
pub(crate) fn random_index(len: usize) -> (r: Option<usize>)
    ensures
        r is None <==> len == 0,
        r matches Some(i) ==> i < len,
{
    (0..len).choose(&mut rand::thread_rng())
}

} // verus!
