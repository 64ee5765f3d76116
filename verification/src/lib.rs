//! An encrypted, password-protected store of named secrets.
//!
//! The vault is a mapping from names to secrets. At rest it is one byte
//! string: a random salt, a random nonce, and the AES-256-GCM encryption of
//! the vault's JSON document under a key derived from the master password.
//! This crate computes on bytes and strings only; reading and writing the
//! file is left to the caller.

pub mod blob;
pub mod cipher;
pub mod document;
pub mod entries;
pub mod entropy;
pub mod envelope;
pub mod error;
pub mod kdf;
pub mod store;
