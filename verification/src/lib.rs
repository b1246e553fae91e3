//! A local, single-user secret vault.
//!
//! The crate derives a symmetric key from a master password and a per-vault
//! random salt, protects individual secret fields with an authenticated
//! cipher, and keeps credential records in an embedded relational store,
//! encrypting the secret field at rest and decrypting it on read.

pub mod config;
pub mod database;
pub mod encryption;
pub mod errors;
pub mod file_search;
pub mod password;
pub mod prelude;
pub mod text;
pub mod vault;
