//! Authenticated encryption of the vault document: AES-256-GCM.

use crate::blob::NONCE_LEN;
use crate::error::VaultError;
use crate::kdf::DerivedKey;
use crate::kdf::KEY_LEN;
use vstd::prelude::*;

verus! {

/// Length of the authentication tag that follows the ciphertext, in bytes.
pub const TAG_LEN: usize = 16;

/// The longest plaintext, in bytes, that AES-GCM encrypts under one nonce.
pub const MAX_PLAINTEXT_LEN: u64 = 0x10_0000_0000;

/// The error of `aes_gcm`'s cipher operations. It carries no detail, so as
/// not to tell an attacker why an operation failed.
#[verifier::external_type_specification]
#[verifier::external_body]
pub struct ExAeadError(aes_gcm::Error);

/// Ciphertext and tag that AES-256-GCM gives for a plaintext under a key and
/// a nonce, with no associated data, as `aes_gcm::Aes256Gcm` computes them;
/// `None` where it refuses the plaintext.
pub uninterp spec fn aes256_gcm_encrypt(key: Seq<u8>, nonce: Seq<u8>, plaintext: Seq<u8>) -> Option<
    Seq<u8>,
>;

/// The plaintext that AES-256-GCM recovers from ciphertext and tag under a
/// key and a nonce, with no associated data, as `aes_gcm::Aes256Gcm`
/// computes it; `None` where the tag does not verify.
pub uninterp spec fn aes256_gcm_decrypt(key: Seq<u8>, nonce: Seq<u8>, ciphertext: Seq<u8>) -> Option<
    Seq<u8>,
>;

/// Calls `Aead::encrypt` of `aes_gcm::Aes256Gcm`.
///
/// Trusted: the call fails exactly when the plaintext is longer than
/// `aes_gcm::P_MAX`; otherwise it returns the ciphertext, as long as the
/// plaintext, followed by the tag, and decrypting that under the same key
/// and nonce gives the plaintext back, as the documentation of `aes_gcm`
/// shows by example.
#[verifier::external_body]
fn aead_encrypt(key: &[u8; KEY_LEN], nonce: &[u8; NONCE_LEN], plaintext: &[u8]) -> (r: Result<
    Vec<u8>,
    aes_gcm::Error,
>)
    ensures
        r is Ok <==> plaintext@.len() <= MAX_PLAINTEXT_LEN,
        match r {
            Ok(sealed) => {
                &&& aes256_gcm_encrypt(key@, nonce@, plaintext@) == Some(sealed@)
                &&& sealed@.len() == plaintext@.len() + TAG_LEN
                &&& aes256_gcm_decrypt(key@, nonce@, sealed@) == Some(plaintext@)
            },
            Err(_) => aes256_gcm_encrypt(key@, nonce@, plaintext@) is None,
        },
{
    let cipher = <aes_gcm::Aes256Gcm as aes_gcm::KeyInit>::new(
        aes_gcm::Key::<aes_gcm::Aes256Gcm>::from_slice(key),
    );
    aes_gcm::aead::Aead::encrypt(&cipher, aes_gcm::Nonce::from_slice(nonce), plaintext)
}

/// Calls `Aead::decrypt` of `aes_gcm::Aes256Gcm`.
///
/// Trusted: the call returns a plaintext only if the tag at the end of the
/// input verifies, the plaintext is then as long as the input without its
/// tag, and an input shorter than a tag is refused.
#[verifier::external_body]
fn aead_decrypt(key: &[u8; KEY_LEN], nonce: &[u8; NONCE_LEN], ciphertext: &[u8]) -> (r: Result<
    Vec<u8>,
    aes_gcm::Error,
>)
    ensures
        match r {
            Ok(plaintext) => {
                &&& aes256_gcm_decrypt(key@, nonce@, ciphertext@) == Some(plaintext@)
                &&& plaintext@.len() + TAG_LEN == ciphertext@.len()
            },
            Err(_) => aes256_gcm_decrypt(key@, nonce@, ciphertext@) is None,
        },
        ciphertext@.len() < TAG_LEN ==> r is Err,
{
    let cipher = <aes_gcm::Aes256Gcm as aes_gcm::KeyInit>::new(
        aes_gcm::Key::<aes_gcm::Aes256Gcm>::from_slice(key),
    );
    aes_gcm::aead::Aead::decrypt(&cipher, aes_gcm::Nonce::from_slice(nonce), ciphertext)
}

/// Encrypts and authenticates `plaintext`.
///
/// The nonce is the caller's: it must be fresh for every encryption under
/// one key, and this function has no means to check that.
///
/// Fails with `EncryptionFailed` exactly when the plaintext is longer than
/// `MAX_PLAINTEXT_LEN`. Otherwise the result is the ciphertext followed by
/// the tag, and `decrypt` under the same key and nonce recovers the
/// plaintext from it.
pub fn encrypt(plaintext: &[u8], key: &DerivedKey, nonce: &[u8; NONCE_LEN]) -> (r: Result<
    Vec<u8>,
    VaultError,
>)
    ensures
        r is Ok <==> plaintext@.len() <= MAX_PLAINTEXT_LEN,
        match r {
            Ok(sealed) => {
                &&& aes256_gcm_encrypt(key@, nonce@, plaintext@) == Some(sealed@)
                &&& sealed@.len() == plaintext@.len() + TAG_LEN
                &&& aes256_gcm_decrypt(key@, nonce@, sealed@) == Some(plaintext@)
            },
            Err(e) => {
                &&& e == VaultError::EncryptionFailed
                &&& aes256_gcm_encrypt(key@, nonce@, plaintext@) is None
            },
        },
{
    match aead_encrypt(key.as_bytes(), nonce, plaintext) {
        Ok(sealed) => Ok(sealed),
        Err(_) => Err(VaultError::EncryptionFailed),
    }
}

/// Verifies the tag at the end of `ciphertext` and decrypts.
///
/// Fails closed: with `DecryptionFailed`, and without any plaintext, exactly
/// when the tag does not verify under this key and nonce. An input shorter
/// than a tag never verifies.
pub fn decrypt(ciphertext: &[u8], key: &DerivedKey, nonce: &[u8; NONCE_LEN]) -> (r: Result<
    Vec<u8>,
    VaultError,
>)
    ensures
        match r {
            Ok(plaintext) => {
                &&& aes256_gcm_decrypt(key@, nonce@, ciphertext@) == Some(plaintext@)
                &&& plaintext@.len() + TAG_LEN == ciphertext@.len()
            },
            Err(e) => {
                &&& e == VaultError::DecryptionFailed
                &&& aes256_gcm_decrypt(key@, nonce@, ciphertext@) is None
            },
        },
        ciphertext@.len() < TAG_LEN ==> r is Err,
{
    match aead_decrypt(key.as_bytes(), nonce, ciphertext) {
        Ok(plaintext) => Ok(plaintext),
        Err(_) => Err(VaultError::DecryptionFailed),
    }
}

} // verus!
