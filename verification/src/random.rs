//! Random choices among moves, made with the `rand` crate.
use vstd::prelude::*;
use rand::rngs::StdRng;
use rand::seq::{IndexedRandom, IteratorRandom};

verus! {

/// The standard random number generator of `rand`, carried through without looking inside.
#[verifier::external_type_specification]
#[verifier::external_body]
pub struct ExStdRng(rand::rngs::StdRng);

/// `IndexedRandom::choose` of `rand` on a slice: `None` exactly for an empty slice, else one of
/// its elements (chosen uniformly; which one depends on the generator's state, so nothing more is
/// said of it).
#[verifier::external_body]
pub(crate) fn choose_from_slice<T: Copy>(items: &[T], rng: &mut StdRng) -> (r: Option<T>)
    ensures
        r.is_none() <==> items@.len() == 0,
        r.is_some() ==> items@.contains(r.unwrap()),
{
    items.choose(rng).copied()
}

/// `IteratorRandom::choose` of `rand` on the items of a vector: `None` exactly for an empty
/// vector, else one of its items (chosen uniformly; which one depends on the generator's state, so
/// nothing more is said of it).
#[verifier::external_body]
pub(crate) fn choose_from_vec<T>(items: Vec<T>, rng: &mut StdRng) -> (r: Option<T>)
    ensures
        r.is_none() <==> items@.len() == 0,
        r.is_some() ==> items@.contains(r.unwrap()),
{
    items.into_iter().choose(rng)
}

} // verus!
