//! Key derivation: the master password and a salt give the symmetric key.
//!
//! The derivation is PBKDF2 with HMAC-SHA256 and a fixed, large iteration
//! count, so that each guess at the master password is expensive.

use crate::blob::SALT_LEN;
use vstd::prelude::*;
use vstd::utf8::encode_utf8;

verus! {

/// Length of the derived key, in bytes.
pub const KEY_LEN: usize = 32;

/// Number of PBKDF2 rounds.
pub const ITERATIONS: u32 = 100_000;

/// The `len` bytes that PBKDF2-HMAC-SHA256 derives from a password and a
/// salt in `rounds` rounds, as `pbkdf2::pbkdf2_hmac::<sha2::Sha256>`
/// computes them.
pub uninterp spec fn pbkdf2_hmac_sha256(
    password: Seq<u8>,
    salt: Seq<u8>,
    rounds: u32,
    len: nat,
) -> Seq<u8>;

/// Calls `pbkdf2::pbkdf2_hmac::<sha2::Sha256>`.
///
/// Trusted: the call overwrites all of `out`, and what it writes depends on
/// the password, the salt, the round count and the length of `out` only.
/// It does not fail: HMAC takes a key of any length.
#[verifier::external_body]
fn pbkdf2_fill(password: &[u8], salt: &[u8], rounds: u32, out: &mut [u8; KEY_LEN])
    ensures
        final(out)@ == pbkdf2_hmac_sha256(password@, salt@, rounds, KEY_LEN as nat),
{
    pbkdf2::pbkdf2_hmac::<sha2::Sha256>(password, salt, rounds, out);
}

/// Calls `zeroize::Zeroize::zeroize` on a byte array.
///
/// Trusted: the call stores a zero in every element, with writes that the
/// compiler may not remove, and cannot panic.
#[verifier::external_body]
fn zeroize_bytes(bytes: &mut [u8; KEY_LEN])
    ensures
        final(bytes)@ == Seq::new(KEY_LEN as nat, |i: int| 0u8),
    opens_invariants none
    no_unwind
{
    zeroize::Zeroize::zeroize(bytes);
}

/// The key that a password and a salt derive.
pub open spec fn derived_key(password: Seq<char>, salt: Seq<u8>) -> Seq<u8> {
    pbkdf2_hmac_sha256(encode_utf8(password), salt, ITERATIONS, KEY_LEN as nat)
}

/// Key material. Its bytes are overwritten with zeros when the value is
/// dropped, so a key does not outlive the scope that derived it, however
/// that scope is left.
pub struct DerivedKey {
    bytes: [u8; KEY_LEN],
}

impl View for DerivedKey {
    type V = Seq<u8>;

    closed spec fn view(&self) -> Seq<u8> {
        self.bytes@
    }
}

impl DerivedKey {
    /// The key material.
    pub fn as_bytes(&self) -> (bytes: &[u8; KEY_LEN])
        ensures
            bytes@ == self@,
    {
        &self.bytes
    }

    /// Overwrites the key material with zeros.
    pub fn wipe(&mut self)
        ensures
            final(self)@ == Seq::new(KEY_LEN as nat, |i: int| 0u8),
    {
        zeroize_bytes(&mut self.bytes);
    }
}

impl Drop for DerivedKey {
    fn drop(&mut self)
        ensures
            final(self)@ == Seq::new(KEY_LEN as nat, |i: int| 0u8),
        opens_invariants none
        no_unwind
    {
        zeroize_bytes(&mut self.bytes);
    }
}

/// Derives the key for a master password and a salt.
///
/// The result is a function of the two arguments: the same password and
/// salt always give the same key.
pub fn derive_key(password: &str, salt: &[u8; SALT_LEN]) -> (key: DerivedKey)
    ensures
        key@ == derived_key(password@, salt@),
        key@.len() == KEY_LEN,
{
    let mut key = DerivedKey { bytes: [0u8; KEY_LEN] };
    pbkdf2_fill(password.as_bytes(), salt.as_slice(), ITERATIONS, &mut key.bytes);
    key
}

} // verus!
