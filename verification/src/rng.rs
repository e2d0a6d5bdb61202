use vstd::prelude::*;

verus! {

/// Relies on rand::random: draws one byte from the thread-local generator
/// for the random-number opcode. Nothing is promised of the value; the
/// verified step function handles every byte alike.
#[verifier::external_body]
pub(crate) fn random_byte() -> u8 {
    rand::random()
}

} // verus!
