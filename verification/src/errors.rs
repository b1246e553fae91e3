//! Error taxonomy of the vault core.

use vstd::prelude::*;

verus! {

/// Failures surfaced by the vault core.
///
/// Security-relevant failures are never swallowed: every cryptographic and
/// authentication failure is reported to the caller, and the core never falls
/// back to storing plaintext.
#[derive(Debug, Clone, PartialEq, Eq)]
pub enum VaultError {
    /// Master password verification failed: wrong password, corrupted vault
    /// file, or a tag mismatch on the verification ciphertext. The cause is
    /// deliberately not distinguished further.
    Authentication,
    /// Encryption or decryption of a stored record failed: malformed
    /// ciphertext, truncated blob, or key mismatch.
    Crypto,
    /// An input was rejected: a password length outside the accepted range,
    /// or a complexity request that could not be met.
    Validation,
    /// The requested record id has no matching row.
    NotFound,
    /// The underlying persistence layer failed; the message is passed on
    /// unmasked.
    Storage(String),
}

impl VaultError {
    /// A short human-readable description of the error.
    pub fn message(&self) -> (r: String) {
        match self {
            VaultError::Authentication => String::from_str("authentication failed"),
            VaultError::Crypto => String::from_str("encryption or decryption failed"),
            VaultError::Validation => String::from_str("invalid input"),
            VaultError::NotFound => String::from_str("no matching record"),
            VaultError::Storage(m) => {
                let mut s = String::from_str("storage failure: ");
                s.append(m.as_str());
                s
            },
        }
    }
}

/// Failures of the file-search utility.
#[derive(Debug, Clone, PartialEq, Eq)]
pub enum FileSearchError {
    IoError(String),
    InputError(String),
    SearchError(String),
}

impl FileSearchError {
    /// A short human-readable description of the error.
    pub fn message(&self) -> (r: String) {
        match self {
            FileSearchError::IoError(m) => {
                let mut s = String::from_str("IO error: ");
                s.append(m.as_str());
                s
            },
            FileSearchError::InputError(m) => {
                let mut s = String::from_str("Input error: ");
                s.append(m.as_str());
                s
            },
            FileSearchError::SearchError(m) => {
                let mut s = String::from_str("Search error: ");
                s.append(m.as_str());
                s
            },
        }
    }
}

} // verus!
