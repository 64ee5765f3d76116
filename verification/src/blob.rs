//! The byte layout of a stored vault: `salt || nonce || ciphertext`.

use crate::error::VaultError;
use vstd::prelude::*;
use vstd::slice::slice_subrange;
use vstd::slice::slice_to_vec;

verus! {

/// Length of the key-derivation salt, in bytes.
pub const SALT_LEN: usize = 16;

/// Length of the AEAD nonce, in bytes.
pub const NONCE_LEN: usize = 12;

/// Length of what precedes the ciphertext: salt and nonce.
pub const HEADER_LEN: usize = SALT_LEN + NONCE_LEN;

/// The bytes of a blob with the given parts: plain concatenation.
pub open spec fn layout(salt: Seq<u8>, nonce: Seq<u8>, ciphertext: Seq<u8>) -> Seq<u8> {
    salt + nonce + ciphertext
}

/// The salt of a stored byte string: its first `SALT_LEN` bytes.
pub open spec fn salt_of(bytes: Seq<u8>) -> Seq<u8> {
    bytes.subrange(0, SALT_LEN as int)
}

/// The nonce of a stored byte string: the `NONCE_LEN` bytes after the salt.
pub open spec fn nonce_of(bytes: Seq<u8>) -> Seq<u8> {
    bytes.subrange(SALT_LEN as int, HEADER_LEN as int)
}

/// The ciphertext and tag of a stored byte string: all that follows the nonce.
pub open spec fn ciphertext_of(bytes: Seq<u8>) -> Seq<u8> {
    bytes.subrange(HEADER_LEN as int, bytes.len() as int)
}

/// Splitting a concatenation gives back the three parts.
pub proof fn lemma_split_layout(salt: Seq<u8>, nonce: Seq<u8>, ciphertext: Seq<u8>)
    requires
        salt.len() == SALT_LEN,
        nonce.len() == NONCE_LEN,
    ensures
        layout(salt, nonce, ciphertext).len() == HEADER_LEN + ciphertext.len(),
        salt_of(layout(salt, nonce, ciphertext)) == salt,
        nonce_of(layout(salt, nonce, ciphertext)) == nonce,
        ciphertext_of(layout(salt, nonce, ciphertext)) == ciphertext,
{
    let bytes = layout(salt, nonce, ciphertext);
    assert(salt_of(bytes) =~= salt);
    assert(nonce_of(bytes) =~= nonce);
    assert(ciphertext_of(bytes) =~= ciphertext);
}

/// Concatenating the three parts of a byte string that is long enough gives
/// the byte string back.
pub proof fn lemma_layout_split(bytes: Seq<u8>)
    requires
        bytes.len() >= HEADER_LEN,
    ensures
        layout(salt_of(bytes), nonce_of(bytes), ciphertext_of(bytes)) == bytes,
{
    assert(layout(salt_of(bytes), nonce_of(bytes), ciphertext_of(bytes)) =~= bytes);
}

/// A stored vault taken apart.
pub struct EncryptedBlob {
    /// Salt that the key was derived with.
    pub salt: [u8; SALT_LEN],
    /// Nonce that the document was encrypted under.
    pub nonce: [u8; NONCE_LEN],
    /// Encrypted document followed by its authentication tag.
    pub ciphertext: Vec<u8>,
}

impl View for EncryptedBlob {
    type V = Seq<u8>;

    /// The bytes that this blob is stored as.
    open spec fn view(&self) -> Seq<u8> {
        layout(self.salt@, self.nonce@, self.ciphertext@)
    }
}

impl EncryptedBlob {
    /// Concatenates salt, nonce and ciphertext.
    pub fn encode(&self) -> (bytes: Vec<u8>)
        ensures
            bytes@ == self@,
    {
        let mut bytes: Vec<u8> = Vec::new();
        let mut i: usize = 0;
        while i < SALT_LEN
            invariant
                i <= SALT_LEN,
                bytes@ == self.salt@.subrange(0, i as int),
            decreases SALT_LEN - i,
        {
            bytes.push(self.salt[i]);
            i += 1;
        }
        assert(bytes@ == self.salt@);
        let mut j: usize = 0;
        while j < NONCE_LEN
            invariant
                j <= NONCE_LEN,
                bytes@ == self.salt@ + self.nonce@.subrange(0, j as int),
            decreases NONCE_LEN - j,
        {
            bytes.push(self.nonce[j]);
            j += 1;
        }
        assert(bytes@ == self.salt@ + self.nonce@);
        let mut k: usize = 0;
        while k < self.ciphertext.len()
            invariant
                k <= self.ciphertext@.len(),
                bytes@ == self.salt@ + self.nonce@ + self.ciphertext@.subrange(0, k as int),
            decreases self.ciphertext@.len() - k,
        {
            bytes.push(self.ciphertext[k]);
            k += 1;
        }
        assert(bytes@ == self.salt@ + self.nonce@ + self.ciphertext@);
        bytes
    }

    /// Splits stored bytes into salt, nonce and ciphertext.
    ///
    /// Fails with `CorruptData` exactly when there are fewer than
    /// `HEADER_LEN` bytes. Nothing else is checked: whatever follows the
    /// nonce is taken as ciphertext and tag.
    pub fn decode(bytes: &[u8]) -> (r: Result<EncryptedBlob, VaultError>)
        ensures
            r is Ok <==> bytes@.len() >= HEADER_LEN,
            r matches Err(e) ==> e == VaultError::CorruptData,
            r matches Ok(blob) ==> {
                &&& blob@ == bytes@
                &&& blob.salt@ == salt_of(bytes@)
                &&& blob.nonce@ == nonce_of(bytes@)
                &&& blob.ciphertext@ == ciphertext_of(bytes@)
            },
    {
        if bytes.len() < HEADER_LEN {
            return Err(VaultError::CorruptData);
        }
        let mut salt = [0u8; SALT_LEN];
        let mut i: usize = 0;
        while i < SALT_LEN
            invariant
                i <= SALT_LEN,
                bytes@.len() >= HEADER_LEN,
                forall|n: int| 0 <= n < i ==> salt@[n] == bytes@[n],
            decreases SALT_LEN - i,
        {
            salt[i] = bytes[i];
            i += 1;
        }
        let mut nonce = [0u8; NONCE_LEN];
        let mut j: usize = 0;
        while j < NONCE_LEN
            invariant
                j <= NONCE_LEN,
                bytes@.len() >= HEADER_LEN,
                forall|n: int| 0 <= n < j ==> nonce@[n] == bytes@[SALT_LEN + n],
            decreases NONCE_LEN - j,
        {
            nonce[j] = bytes[SALT_LEN + j];
            j += 1;
        }
        let ciphertext = slice_to_vec(slice_subrange(bytes, HEADER_LEN, bytes.len()));
        proof {
            assert(salt@ =~= salt_of(bytes@));
            assert(nonce@ =~= nonce_of(bytes@));
            lemma_layout_split(bytes@);
        }
        Ok(EncryptedBlob { salt, nonce, ciphertext })
    }
}

} // verus!
