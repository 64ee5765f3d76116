use pwn::envelope::decrypt_data;
use pwn::envelope::encrypt_data;
use pwn::error::VaultError;
use pwn::store::PasswordStore;
use pwn::store::VaultFile;

// The stored bytes of the vault {"email":"s3cr3t"} under the password
// "hunter2", with salt 0..16 and nonce 100..112.
const STORED: [u8; 62] = [
    0, 1, 2, 3, 4, 5, 6, 7, 8, 9, 10, 11, 12, 13, 14, 15, 100, 101, 102, 103, 104, 105, 106, 107,
    108, 109, 110, 111, 95, 136, 86, 39, 122, 145, 249, 252, 207, 220, 143, 97, 41, 165, 70, 74,
    47, 254, 5, 57, 80, 195, 14, 55, 189, 69, 255, 72, 201, 91, 227, 29, 178, 208,
];

fn load_bytes(bytes: &[u8], password: &str) -> Result<PasswordStore, VaultError> {
    PasswordStore::load(&VaultFile::Contents(bytes.to_vec()), password)
}

fn error_of(result: Result<PasswordStore, VaultError>) -> Option<VaultError> {
    match result {
        Ok(_) => None,
        Err(e) => Some(e),
    }
}

fn sorted_names(store: &PasswordStore) -> Vec<String> {
    let mut names: Vec<String> = store.list_names().into_iter().cloned().collect();
    names.sort();
    names
}

#[test]
fn set_save_load_get() {
    let mut store = PasswordStore::new();
    store.set("email", "s3cr3t");
    let bytes = store.save("hunter2").expect("a small vault saves");
    let reloaded = load_bytes(&bytes, "hunter2").expect("the right password loads");
    assert_eq!(reloaded.get("email"), Some(&"s3cr3t".to_string()));
    assert_eq!(reloaded.list_names().len(), 1);
}

#[test]
fn load_with_wrong_password_fails() {
    let mut store = PasswordStore::new();
    store.set("email", "s3cr3t");
    let bytes = store.save("hunter2").expect("a small vault saves");
    assert_eq!(error_of(load_bytes(&bytes, "wrongpass")), Some(VaultError::DecryptionFailed));
}

#[test]
fn remove_save_reload() {
    let mut store = load_bytes(&STORED, "hunter2").expect("the right password loads");
    assert_eq!(store.get("email"), Some(&"s3cr3t".to_string()));
    store.remove("email");
    let bytes = store.save("hunter2").expect("a small vault saves");
    let reloaded = load_bytes(&bytes, "hunter2").expect("the right password loads");
    assert_eq!(reloaded.get("email"), None);
    assert!(reloaded.list_names().is_empty());
}

#[test]
fn load_of_stored_bytes_known_answer() {
    let store = load_bytes(&STORED, "hunter2").expect("the right password loads");
    assert_eq!(store.get("email"), Some(&"s3cr3t".to_string()));
    assert_eq!(sorted_names(&store), vec!["email".to_string()]);
}

#[test]
fn round_trip_of_the_empty_vault() {
    let store = PasswordStore::new();
    let bytes = store.save("pw").expect("a small vault saves");
    assert_eq!(bytes.len(), 28 + 2 + 16);
    let reloaded = load_bytes(&bytes, "pw").expect("the right password loads");
    assert!(reloaded.list_names().is_empty());
}

#[test]
fn round_trip_of_many_entries() {
    let mut store = PasswordStore::new();
    for i in 0..50 {
        store.set(&format!("site-{}", i), &format!("p\u{00e4}ss \"{}\"\n\\", i * i));
    }
    store.set("\u{1F511}", "");
    let bytes = store.save("a long master pass phrase").expect("a small vault saves");
    let reloaded = load_bytes(&bytes, "a long master pass phrase").expect("the right password loads");
    assert_eq!(sorted_names(&reloaded), sorted_names(&store));
    assert_eq!(reloaded.list_names().len(), 51);
    for name in store.list_names() {
        assert_eq!(reloaded.get(name), store.get(name));
    }
}

#[test]
fn round_trip_under_unusual_passwords() {
    let mut store = PasswordStore::new();
    store.set("a", "1");
    for password in ["", " ", "\u{1F600}\u{00e9}"] {
        let bytes = store.save(password).expect("a small vault saves");
        let reloaded = load_bytes(&bytes, password).expect("the right password loads");
        assert_eq!(reloaded.get("a"), Some(&"1".to_string()));
    }
}

#[test]
fn wrong_passwords_are_rejected() {
    for wrong in ["hunter", "hunter22", "Hunter2", "hunter2 ", ""] {
        assert_eq!(
            error_of(load_bytes(&STORED, wrong)),
            Some(VaultError::DecryptionFailed),
            "password {:?}",
            wrong
        );
    }
}

#[test]
fn flipped_bit_in_the_ciphertext_region_is_detected() {
    for (offset, bit) in [(28usize, 0u8), (37, 3), (45, 7), (46, 0), (61, 7)] {
        let mut altered = STORED;
        altered[offset] ^= 1 << bit;
        assert_eq!(
            error_of(load_bytes(&altered, "hunter2")),
            Some(VaultError::DecryptionFailed),
            "offset {} bit {}",
            offset,
            bit
        );
    }
}

#[test]
fn flipped_bit_in_salt_or_nonce_is_detected() {
    for offset in [0usize, 15, 16, 27] {
        let mut altered = STORED;
        altered[offset] ^= 1;
        assert_eq!(
            error_of(load_bytes(&altered, "hunter2")),
            Some(VaultError::DecryptionFailed),
            "offset {}",
            offset
        );
    }
}

#[test]
fn file_shorter_than_28_bytes_is_corrupt() {
    for len in [0usize, 1, 16, 27] {
        assert_eq!(
            error_of(load_bytes(&STORED[..len], "hunter2")),
            Some(VaultError::CorruptData),
            "length {}",
            len
        );
    }
}

#[test]
fn file_of_28_bytes_or_more_without_a_valid_tag_fails_decryption() {
    for len in [28usize, 29, 44, 61] {
        assert_eq!(
            error_of(load_bytes(&STORED[..len], "hunter2")),
            Some(VaultError::DecryptionFailed),
            "length {}",
            len
        );
    }
}

#[test]
fn missing_file_is_the_empty_vault() {
    let store = PasswordStore::load(&VaultFile::Missing, "hunter2").expect("no file is no error");
    assert!(store.list_names().is_empty());
    assert_eq!(store.get("email"), None);
}

#[test]
fn unreadable_file_is_an_io_error() {
    assert_eq!(
        error_of(PasswordStore::load(&VaultFile::Unreadable, "hunter2")),
        Some(VaultError::IoError)
    );
}

#[test]
fn decrypted_bytes_that_are_no_text_are_an_invalid_encoding() {
    let stored: [u8; 47] = [
        0, 1, 2, 3, 4, 5, 6, 7, 8, 9, 10, 11, 12, 13, 14, 15, 100, 101, 102, 103, 104, 105, 106,
        107, 108, 109, 110, 111, 219, 84, 51, 38, 133, 245, 200, 92, 59, 199, 128, 241, 224, 63,
        6, 108, 206, 139, 140,
    ];
    assert_eq!(error_of(load_bytes(&stored, "hunter2")), Some(VaultError::InvalidEncoding));
}

#[test]
fn decrypted_text_that_is_no_document_is_malformed() {
    for text in ["", "plain words", "[1,2,3]", "{\"n\":5}"] {
        let stored = encrypt_data(text, "pw").expect("short document");
        assert_eq!(
            error_of(load_bytes(&stored, "pw")),
            Some(VaultError::MalformedDocument),
            "text {:?}",
            text
        );
    }
}

#[test]
fn two_saves_of_one_vault_differ() {
    let mut store = PasswordStore::new();
    store.set("email", "s3cr3t");
    let first = store.save("hunter2").expect("a small vault saves");
    let second = store.save("hunter2").expect("a small vault saves");
    assert_eq!(first.len(), second.len());
    assert_ne!(first, second);
    assert_ne!(&first[..16], &second[..16]);
    assert_ne!(&first[16..28], &second[16..28]);
    assert_ne!(&first[28..], &second[28..]);
}

#[test]
fn save_leaves_the_vault_as_it_was() {
    let mut store = PasswordStore::new();
    store.set("a", "1");
    store.set("b", "2");
    let _ = store.save("pw").expect("a small vault saves");
    assert_eq!(store.get("a"), Some(&"1".to_string()));
    assert_eq!(store.get("b"), Some(&"2".to_string()));
    assert_eq!(store.list_names().len(), 2);
}

#[test]
fn stored_bytes_are_salt_nonce_ciphertext_and_tag() {
    let mut store = PasswordStore::new();
    store.set("email", "s3cr3t");
    let bytes = store.save("hunter2").expect("a small vault saves");
    let document = "{\"email\":\"s3cr3t\"}";
    assert_eq!(bytes.len(), 16 + 12 + document.len() + 16);
    let text = decrypt_data(&bytes, "hunter2");
    assert_eq!(text, Ok(document.to_string()));
}

#[test]
fn load_of_28_zero_bytes_fails_decryption() {
    assert_eq!(error_of(load_bytes(&[0u8; 28], "pw")), Some(VaultError::DecryptionFailed));
    assert_eq!(error_of(load_bytes(&[0u8; 43], "pw")), Some(VaultError::DecryptionFailed));
}

#[test]
fn saved_bytes_are_at_least_a_header_a_tag_and_two_braces() {
    let empty = PasswordStore::new();
    assert_eq!(empty.save("pw").expect("a small vault saves").len(), 46);
    let mut store = PasswordStore::new();
    store.set("a", "1");
    let text = store.to_document().expect("a vault has a document");
    let bytes = store.save("pw").expect("a small vault saves");
    assert_eq!(bytes.len(), 28 + text.len() + 16);
}
