use vstd::prelude::*;

verus! {

/// Relies on `alea::u32`: draws a pseudorandom 32-bit value from a
/// thread-local generator and never fails. Nothing can be promised of the
/// value itself; callers must cope with every outcome.
#[verifier::external_body]
pub(crate) fn random_u32() -> u32 {
    alea::u32()
}

} // verus!
