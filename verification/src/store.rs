//! The vault: a mapping from names to secrets, with its stored form.

use crate::blob::nonce_of;
use crate::blob::salt_of;
use crate::blob::HEADER_LEN;
use crate::cipher::MAX_PLAINTEXT_LEN;
use crate::cipher::TAG_LEN;
use crate::document::json_object;
use crate::document::json_text;
use crate::document::parse_entries;
use crate::document::render_entries;
use crate::entries::distinct_names;
use crate::entries::entries_map;
use crate::entries::lemma_entries_map_keys;
use crate::entries::lemma_entries_map_len;
use crate::entries::lemma_entries_map_push;
use crate::entries::lemma_entries_map_remove;
use crate::entries::lemma_entries_map_secret;
use crate::entries::lemma_entries_map_update;
use crate::entries::position;
use crate::envelope::decrypt_data;
use crate::envelope::encrypt_data;
use crate::envelope::opened;
use crate::envelope::sealed;
use crate::error::VaultError;
use vstd::prelude::*;
use vstd::utf8::encode_utf8;

verus! {

/// What the caller found where the vault is kept.
pub enum VaultFile {
    /// There is no file: nothing was saved yet.
    Missing,
    /// There is a file, and it could not be opened or read.
    Unreadable,
    /// The whole content of the file.
    Contents(Vec<u8>),
}

/// The mapping that a vault file loads to under a password, or the reason
/// why it does not load.
pub open spec fn loaded(file: VaultFile, password: Seq<char>) -> Result<
    Map<Seq<char>, Seq<char>>,
    VaultError,
> {
    match file {
        VaultFile::Missing => Ok(Map::empty()),
        VaultFile::Unreadable => Err(VaultError::IoError),
        VaultFile::Contents(bytes) => match opened(bytes@, password) {
            Err(e) => Err(e),
            Ok(text) => match json_object(text) {
                Some(mapping) => Ok(mapping),
                None => Err(VaultError::MalformedDocument),
            },
        },
    }
}

/// The vault. Its view is the mapping from each name to its secret.
pub struct PasswordStore {
    entries: Vec<(String, String)>,
}

impl View for PasswordStore {
    type V = Map<Seq<char>, Seq<char>>;

    closed spec fn view(&self) -> Map<Seq<char>, Seq<char>> {
        entries_map(self.entries@)
    }
}

impl PasswordStore {
    #[verifier::type_invariant]
    spec fn well_formed(self) -> bool {
        distinct_names(self.entries@)
    }

    /// An empty vault.
    pub fn new() -> (store: Self)
        ensures
            store@ == Map::<Seq<char>, Seq<char>>::empty(),
    {
        PasswordStore { entries: Vec::new() }
    }

    /// The vault that a JSON document holds.
    ///
    /// Fails with `MalformedDocument` exactly when the text is not a JSON
    /// object whose values are all strings.
    pub fn from_document(text: &str) -> (r: Result<PasswordStore, VaultError>)
        ensures
            match r {
                Ok(store) => json_object(text@) == Some(store@),
                Err(e) => e == VaultError::MalformedDocument && json_object(text@) is None,
            },
    {
        match parse_entries(text) {
            Ok(entries) => Ok(PasswordStore { entries }),
            Err(_) => Err(VaultError::MalformedDocument),
        }
    }

    /// The vault as a JSON document, its names in order.
    ///
    /// Fails with `MalformedDocument` exactly when the serializer gives the
    /// mapping up. The document that it returns reads back, with
    /// `from_document`, as this mapping.
    pub fn to_document(&self) -> (r: Result<String, VaultError>)
        ensures
            match r {
                Ok(text) => {
                    &&& json_text(self@) == Some(text@)
                    &&& json_object(text@) == Some(self@)
                },
                Err(e) => e == VaultError::MalformedDocument && json_text(self@) is None,
            },
    {
        proof {
            use_type_invariant(self);
        }
        match render_entries(&self.entries) {
            Ok(text) => Ok(text),
            Err(_) => Err(VaultError::MalformedDocument),
        }
    }

    /// The vault that a vault file holds.
    ///
    /// A missing file is no error: it gives the empty vault. A file that
    /// could not be read gives `IoError`. Content is opened under the master
    /// password and read as a document; each step that fails has its own
    /// error. Content that holds a salt and a nonce but less than a tag
    /// after them always fails with `DecryptionFailed`.
    pub fn load(file: &VaultFile, master_password: &str) -> (r: Result<PasswordStore, VaultError>)
        ensures
            match r {
                Ok(store) => loaded(*file, master_password@) == Ok::<
                    Map<Seq<char>, Seq<char>>,
                    VaultError,
                >(store@),
                Err(e) => loaded(*file, master_password@) == Err::<
                    Map<Seq<char>, Seq<char>>,
                    VaultError,
                >(e),
            },
            *file is Missing ==> r is Ok && r->Ok_0@ == Map::<Seq<char>, Seq<char>>::empty(),
            *file is Unreadable <==> r is Err && r->Err_0 == VaultError::IoError,
            (*file matches VaultFile::Contents(bytes) && bytes@.len() < HEADER_LEN) <==> r is Err
                && r->Err_0 == VaultError::CorruptData,
            *file matches VaultFile::Contents(bytes) && HEADER_LEN <= bytes@.len() < HEADER_LEN
                + TAG_LEN ==> r is Err && r->Err_0 == VaultError::DecryptionFailed,
            *file matches VaultFile::Contents(bytes) ==> (r is Ok ==> bytes@.len() >= HEADER_LEN
                + TAG_LEN),
    {
        match file {
            VaultFile::Missing => Ok(PasswordStore::new()),
            VaultFile::Unreadable => Err(VaultError::IoError),
            VaultFile::Contents(bytes) => {
                let text = match decrypt_data(bytes.as_slice(), master_password) {
                    Ok(text) => text,
                    Err(e) => {
                        return Err(e);
                    },
                };
                PasswordStore::from_document(text.as_str())
            },
        }
    }

    /// The bytes to store for this vault under the master password.
    ///
    /// Each call draws a salt and a nonce afresh. Fails with
    /// `MalformedDocument` exactly when the serializer gives the mapping up. Otherwise fails with
    /// `EncryptionFailed` when no salt or nonce could be drawn, and always
    /// when the document has more than `MAX_PLAINTEXT_LEN` bytes. The bytes
    /// that it returns are salt, nonce, and the document's ciphertext and
    /// tag; they load, under the same password, to this mapping.
    pub fn save(&self, master_password: &str) -> (r: Result<Vec<u8>, VaultError>)
        ensures
            match r {
                Ok(bytes) => {
                    &&& json_text(self@) matches Some(text)
                    &&& encode_utf8(text).len() <= MAX_PLAINTEXT_LEN
                    &&& bytes@.len() == HEADER_LEN + encode_utf8(text).len() + TAG_LEN
                    &&& sealed(text, master_password@, salt_of(bytes@), nonce_of(bytes@)) == Ok::<
                        Seq<u8>,
                        VaultError,
                    >(bytes@)
                    &&& opened(bytes@, master_password@) == Ok::<Seq<char>, VaultError>(text)
                    &&& loaded(VaultFile::Contents(bytes), master_password@) == Ok::<
                        Map<Seq<char>, Seq<char>>,
                        VaultError,
                    >(self@)
                },
                Err(e) => match json_text(self@) {
                    None => e == VaultError::MalformedDocument,
                    Some(text) => e == VaultError::EncryptionFailed,
                },
            },
            json_text(self@) matches Some(text) && encode_utf8(text).len() > MAX_PLAINTEXT_LEN
                ==> r is Err,
    {
        let text = match self.to_document() {
            Ok(text) => text,
            Err(e) => {
                return Err(e);
            },
        };
        encrypt_data(text.as_str(), master_password)
    }

    /// The secret kept under `name`, if there is one.
    pub fn get(&self, name: &str) -> (r: Option<&String>)
        ensures
            match r {
                Some(secret) => self@.contains_key(name@) && secret@ == self@[name@],
                None => !self@.contains_key(name@),
            },
    {
        proof {
            use_type_invariant(self);
            lemma_entries_map_keys(self.entries@, name@);
        }
        match position(&self.entries, name) {
            Some(i) => {
                proof {
                    lemma_entries_map_secret(self.entries@, i as int);
                }
                Some(&self.entries[i].1)
            },
            None => None,
        }
    }

    /// Keeps `password` under `name`, in place of what was kept there.
    pub fn set(&mut self, name: &str, password: &str)
        ensures
            final(self)@ == old(self)@.insert(name@, password@),
    {
        proof {
            use_type_invariant(&*self);
        }
        let mut entries: Vec<(String, String)> = Vec::new();
        std::mem::swap(&mut entries, &mut self.entries);
        let entry = (name.to_owned(), password.to_owned());
        match position(&entries, name) {
            Some(i) => {
                proof {
                    lemma_entries_map_update(entries@, i as int, entry);
                }
                entries[i] = entry;
            },
            None => {
                proof {
                    lemma_entries_map_push(entries@, entry);
                }
                entries.push(entry);
            },
        }
        self.entries = entries;
    }

    /// Forgets `name` and its secret. Does nothing if the name is not kept.
    pub fn remove(&mut self, name: &str)
        ensures
            final(self)@ == old(self)@.remove(name@),
    {
        proof {
            use_type_invariant(&*self);
        }
        let mut entries: Vec<(String, String)> = Vec::new();
        std::mem::swap(&mut entries, &mut self.entries);
        match position(&entries, name) {
            Some(i) => {
                proof {
                    lemma_entries_map_remove(entries@, i as int);
                }
                entries.remove(i);
            },
            None => {
                proof {
                    lemma_entries_map_keys(entries@, name@);
                    assert(entries_map(entries@).remove(name@) =~= entries_map(entries@));
                }
            },
        }
        self.entries = entries;
    }

    /// The names that the vault keeps, each once, in no particular order.
    pub fn list_names(&self) -> (names: Vec<&String>)
        ensures
            names@.len() == self@.dom().len(),
            forall|i: int| 0 <= i < names@.len() ==> self@.contains_key(#[trigger] names@[i]@),
            forall|name: Seq<char>| #[trigger]
                self@.contains_key(name) ==> exists|i: int|
                    0 <= i < names@.len() && #[trigger] names@[i]@ == name,
            forall|i: int, j: int|
                0 <= i < j < names@.len() ==> #[trigger] names@[i]@ != #[trigger] names@[j]@,
    {
        proof {
            use_type_invariant(self);
        }
        let mut names: Vec<&String> = Vec::new();
        let mut i: usize = 0;
        while i < self.entries.len()
            invariant
                i <= self.entries@.len(),
                names@.len() == i,
                forall|j: int| 0 <= j < i ==> (#[trigger] names@[j])@ == self.entries@[j].0@,
            decreases self.entries@.len() - i,
        {
            names.push(&self.entries[i].0);
            i += 1;
        }
        proof {
            let entries = self.entries@;
            lemma_entries_map_len(entries);
            assert forall|j: int| 0 <= j < names@.len() implies self@.contains_key(
                #[trigger] names@[j]@,
            ) by {
                lemma_entries_map_secret(entries, j);
            }
            assert forall|name: Seq<char>| #[trigger] self@.contains_key(name) implies exists|
                j: int,
            |
                0 <= j < names@.len() && #[trigger] names@[j]@ == name by {
                lemma_entries_map_keys(entries, name);
                let j = choose|j: int| 0 <= j < entries.len() && (#[trigger] entries[j]).0@ == name;
                assert(names@[j]@ == name);
            }
            assert forall|a: int, b: int| 0 <= a < b < names@.len() implies #[trigger] names@[a]@
                != #[trigger] names@[b]@ by {
                assert(entries[a].0@ != entries[b].0@);
            }
        }
        names
    }
}

} // verus!
