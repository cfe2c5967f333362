use vstd::prelude::*;

verus! {

/// `rand::random::<usize>()` from the `rand` crate: a value drawn from
/// the thread-local generator. Nothing is claimed of the value, which
/// rests on chance.
#[verifier::external_body]
pub(crate) fn random_usize() -> usize {
    rand::random::<usize>()
}

} // verus!
