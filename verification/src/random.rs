use vstd::prelude::*;

verus! {

/// One byte from `rand::random::<u8>()`, which draws it from the thread-local
/// generator. Any byte may come back, so nothing is stated of it.
#[verifier::external_body]
pub(crate) fn random_byte() -> u8 {
    rand::random::<u8>()
}

} // verus!
