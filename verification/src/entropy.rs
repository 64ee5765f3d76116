//! Fresh random bytes for salts and nonces.

use vstd::prelude::*;

verus! {

/// The error of the random generators of `rand`.
#[verifier::external_type_specification]
#[verifier::external_body]
pub struct ExRandError(rand::Error);

/// Calls `RngCore::try_fill_bytes` of the operating system's generator,
/// `aes_gcm::aead::OsRng`.
///
/// Nothing is stated of the outcome: the bytes differ from call to call,
/// and the call fails when the operating system has no randomness to give.
#[verifier::external_body]
pub(crate) fn fill_random<const N: usize>(out: &mut [u8; N]) -> Result<(), rand::Error> {
    rand::RngCore::try_fill_bytes(&mut aes_gcm::aead::OsRng, out)
}

} // verus!
