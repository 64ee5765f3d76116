//! Sealing a document under a master password, and opening it again.
//!
//! Sealing derives a key from the password and a salt, encrypts the
//! document under that key and a nonce, and lays salt, nonce and ciphertext
//! out as one byte string. Opening undoes each step and checks it.

use crate::blob::ciphertext_of;
use crate::blob::layout;
use crate::blob::lemma_split_layout;
use crate::blob::nonce_of;
use crate::blob::salt_of;
use crate::blob::EncryptedBlob;
use crate::blob::HEADER_LEN;
use crate::blob::NONCE_LEN;
use crate::blob::SALT_LEN;
use crate::cipher::aes256_gcm_decrypt;
use crate::cipher::aes256_gcm_encrypt;
use crate::cipher::decrypt;
use crate::cipher::encrypt;
use crate::cipher::MAX_PLAINTEXT_LEN;
use crate::cipher::TAG_LEN;
use crate::entropy::fill_random;
use crate::error::VaultError;
use crate::kdf::derive_key;
use crate::kdf::derived_key;
use vstd::prelude::*;
use vstd::utf8::decode_utf8;
use vstd::utf8::decode_utf8_encode_utf8;
use vstd::utf8::encode_utf8;
use vstd::utf8::encode_utf8_decode_utf8;
use vstd::utf8::encode_utf8_valid_utf8;
use vstd::utf8::valid_utf8;

verus! {

/// The error of `String::from_utf8`.
#[verifier::external_type_specification]
#[verifier::external_body]
pub struct ExFromUtf8Error(std::string::FromUtf8Error);

/// Calls `String::from_utf8`.
///
/// Trusted: the call succeeds exactly on well-formed UTF-8, and the string
/// is then the text that the bytes encode.
#[verifier::external_body]
fn text_of_bytes(bytes: Vec<u8>) -> (r: Result<String, std::string::FromUtf8Error>)
    ensures
        match r {
            Ok(text) => valid_utf8(bytes@) && text@ == decode_utf8(bytes@),
            Err(_) => !valid_utf8(bytes@),
        },
{
    String::from_utf8(bytes)
}

/// The stored bytes of a document sealed under a password with a given salt
/// and nonce, or `EncryptionFailed` where the cipher refuses the document.
pub open spec fn sealed(
    data: Seq<char>,
    password: Seq<char>,
    salt: Seq<u8>,
    nonce: Seq<u8>,
) -> Result<Seq<u8>, VaultError> {
    match aes256_gcm_encrypt(derived_key(password, salt), nonce, encode_utf8(data)) {
        Some(ciphertext) => Ok(layout(salt, nonce, ciphertext)),
        None => Err(VaultError::EncryptionFailed),
    }
}

/// The document that stored bytes open to under a password, or the reason
/// why they do not open.
pub open spec fn opened(stored: Seq<u8>, password: Seq<char>) -> Result<Seq<char>, VaultError> {
    if stored.len() < HEADER_LEN {
        Err(VaultError::CorruptData)
    } else {
        match aes256_gcm_decrypt(
            derived_key(password, salt_of(stored)),
            nonce_of(stored),
            ciphertext_of(stored),
        ) {
            None => Err(VaultError::DecryptionFailed),
            Some(plaintext) => if valid_utf8(plaintext) {
                Ok(decode_utf8(plaintext))
            } else {
                Err(VaultError::InvalidEncoding)
            },
        }
    }
}

/// Opening fails closed. Stored bytes open to a document only if the cipher
/// verified their tag under the key that the password and their salt
/// derive, and the document is then the very plaintext that it recovered.
/// They fail with `DecryptionFailed` exactly when they are long enough to
/// hold a salt and a nonce and the tag does not verify.
pub proof fn lemma_opened_only_if_authenticated(stored: Seq<u8>, password: Seq<char>)
    ensures
        opened(stored, password) matches Ok(text) ==> {
            &&& stored.len() >= HEADER_LEN
            &&& aes256_gcm_decrypt(
                derived_key(password, salt_of(stored)),
                nonce_of(stored),
                ciphertext_of(stored),
            ) == Some(encode_utf8(text))
        },
        opened(stored, password) == Err::<Seq<char>, VaultError>(VaultError::DecryptionFailed) <==> {
            &&& stored.len() >= HEADER_LEN
            &&& aes256_gcm_decrypt(
                derived_key(password, salt_of(stored)),
                nonce_of(stored),
                ciphertext_of(stored),
            ) is None
        },
{
    if stored.len() >= HEADER_LEN {
        let recovered = aes256_gcm_decrypt(
            derived_key(password, salt_of(stored)),
            nonce_of(stored),
            ciphertext_of(stored),
        );
        if recovered is Some && valid_utf8(recovered->Some_0) {
            decode_utf8_encode_utf8(recovered->Some_0);
        }
    }
}

/// Seals `data` under `master_password` with the salt and the nonce given.
///
/// This is all of `encrypt_data` but the drawing of salt and nonce. The
/// caller answers for their freshness: a nonce must never serve twice under
/// one key.
///
/// Fails with `EncryptionFailed` exactly when the document has more than
/// `MAX_PLAINTEXT_LEN` bytes. What it returns opens, under the same
/// password, to `data`.
pub fn seal_with(
    data: &str,
    master_password: &str,
    salt: &[u8; SALT_LEN],
    nonce: &[u8; NONCE_LEN],
) -> (r: Result<Vec<u8>, VaultError>)
    ensures
        r is Ok <==> encode_utf8(data@).len() <= MAX_PLAINTEXT_LEN,
        match r {
            Ok(stored) => {
                &&& sealed(data@, master_password@, salt@, nonce@) == Ok::<Seq<u8>, VaultError>(
                    stored@,
                )
                &&& stored@.len() == HEADER_LEN + encode_utf8(data@).len() + TAG_LEN
                &&& salt_of(stored@) == salt@
                &&& nonce_of(stored@) == nonce@
                &&& opened(stored@, master_password@) == Ok::<Seq<char>, VaultError>(data@)
            },
            Err(e) => {
                &&& e == VaultError::EncryptionFailed
                &&& sealed(data@, master_password@, salt@, nonce@) == Err::<Seq<u8>, VaultError>(e)
            },
        },
{
    let encrypted = {
        let key = derive_key(master_password, salt);
        encrypt(data.as_bytes(), &key, nonce)
    };
    let ciphertext = match encrypted {
        Ok(ciphertext) => ciphertext,
        Err(e) => {
            return Err(e);
        },
    };
    let blob = EncryptedBlob { salt: *salt, nonce: *nonce, ciphertext };
    let stored = blob.encode();
    proof {
        lemma_split_layout(salt@, nonce@, blob.ciphertext@);
        encode_utf8_valid_utf8(data@);
        encode_utf8_decode_utf8(data@);
    }
    Ok(stored)
}

/// Seals `data` under `master_password` with a salt and a nonce drawn afresh
/// from the operating system's random generator.
///
/// Fails with `EncryptionFailed` when no salt or nonce could be drawn, and
/// always when the document has more than `MAX_PLAINTEXT_LEN` bytes.
/// Whatever salt and nonce were drawn, the result is the sealing of `data`
/// under them, and `decrypt_data` with the same password gives `data` back.
pub fn encrypt_data(data: &str, master_password: &str) -> (r: Result<Vec<u8>, VaultError>)
    ensures
        match r {
            Ok(stored) => {
                &&& sealed(data@, master_password@, salt_of(stored@), nonce_of(stored@)) == Ok::<
                    Seq<u8>,
                    VaultError,
                >(stored@)
                &&& stored@.len() == HEADER_LEN + encode_utf8(data@).len() + TAG_LEN
                &&& opened(stored@, master_password@) == Ok::<Seq<char>, VaultError>(data@)
            },
            Err(e) => e == VaultError::EncryptionFailed,
        },
        encode_utf8(data@).len() > MAX_PLAINTEXT_LEN ==> r is Err,
{
    let mut salt = [0u8; SALT_LEN];
    if fill_random(&mut salt).is_err() {
        return Err(VaultError::EncryptionFailed);
    }
    let mut nonce = [0u8; NONCE_LEN];
    if fill_random(&mut nonce).is_err() {
        return Err(VaultError::EncryptionFailed);
    }
    seal_with(data, master_password, &salt, &nonce)
}

/// Opens stored bytes under `master_password`.
///
/// Each failure has its own error: `CorruptData` when there are fewer than
/// `HEADER_LEN` bytes, `DecryptionFailed` when the tag does not verify (a
/// wrong password or altered bytes, and always when what follows the header
/// is shorter than a tag), `InvalidEncoding` when the plaintext is not
/// UTF-8. No plaintext leaves this function unless the tag verified; the
/// text that does is, in UTF-8, as long as the input without header and tag.
pub fn decrypt_data(encrypted: &[u8], master_password: &str) -> (r: Result<String, VaultError>)
    ensures
        match r {
            Ok(text) => opened(encrypted@, master_password@) == Ok::<Seq<char>, VaultError>(text@),
            Err(e) => opened(encrypted@, master_password@) == Err::<Seq<char>, VaultError>(e),
        },
        encrypted@.len() < HEADER_LEN <==> r is Err && r->Err_0 == VaultError::CorruptData,
        HEADER_LEN <= encrypted@.len() < HEADER_LEN + TAG_LEN ==> r is Err && r->Err_0
            == VaultError::DecryptionFailed,
        r matches Ok(text) ==> encode_utf8(text@).len() + HEADER_LEN + TAG_LEN == encrypted@.len(),
{
    let blob = match EncryptedBlob::decode(encrypted) {
        Ok(blob) => blob,
        Err(e) => {
            return Err(e);
        },
    };
    let decrypted = {
        let key = derive_key(master_password, &blob.salt);
        decrypt(blob.ciphertext.as_slice(), &key, &blob.nonce)
    };
    let plaintext = match decrypted {
        Ok(plaintext) => plaintext,
        Err(e) => {
            return Err(e);
        },
    };
    let ghost recovered = plaintext@;
    match text_of_bytes(plaintext) {
        Ok(text) => {
            proof {
                decode_utf8_encode_utf8(recovered);
            }
            Ok(text)
        },
        Err(_) => Err(VaultError::InvalidEncoding),
    }
}

} // verus!
