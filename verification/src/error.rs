//! The ways in which loading or saving a vault can fail.

use vstd::prelude::*;

verus! {

/// Why an operation on a stored vault failed.
#[derive(Clone, Copy, Debug, PartialEq, Eq, Structural)]
pub enum VaultError {
    /// The vault file could not be opened, read or written.
    IoError,
    /// The stored bytes are too short to hold a salt and a nonce.
    CorruptData,
    /// The authentication tag did not verify: the master password is wrong
    /// or the stored bytes were altered. The two are not told apart.
    DecryptionFailed,
    /// The decrypted bytes are not UTF-8 text.
    InvalidEncoding,
    /// The text and the name-to-secret mapping could not be turned into one
    /// another: the text is not a JSON object of strings, or the serializer
    /// gave up on the mapping.
    MalformedDocument,
    /// The document could not be encrypted: the operating system gave no
    /// random bytes for a salt and a nonce, or the document is longer than
    /// AES-GCM can encrypt under one nonce.
    EncryptionFailed,
}

} // verus!
