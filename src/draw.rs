use vstd::prelude::*;

verus! {

/// Relies on rand::random::<usize>: a value drawn from the thread-local
/// generator. Nothing is known of which value comes back.
#[verifier::external_body]
pub(crate) fn random_draw() -> (r: usize) {
    rand::random::<usize>()
}

} // verus!
