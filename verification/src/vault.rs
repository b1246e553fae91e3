//! Master-vault bootstrap and unlock.
//!
//! The vault file is `salt (16 bytes) || nonce || ciphertext || tag`, where
//! the encrypted part is the master password itself, sealed under the key
//! derived from (master password, salt). On every later run the candidate
//! password is verified by deriving the key again and decrypting: the unlock
//! succeeds exactly when decryption succeeds and yields the candidate. Salt
//! and verification ciphertext are written together; the caller persists the
//! returned bytes atomically.

use vstd::prelude::*;
use vstd::utf8::encode_utf8;

use crate::encryption::blob_decrypts_to;
use crate::encryption::pbkdf2_key;
use crate::encryption::random_bytes;
use crate::encryption::sealed;
use crate::encryption::Encryption;
use crate::encryption::KDF_ITERATIONS;
use crate::encryption::NONCE_LEN;
use crate::encryption::SALT_LEN;
use crate::errors::VaultError;
use crate::text::str_eq;

verus! {

/// The vault file accepts `password`: the file is long enough to hold the
/// salt, and the rest of it decrypts, under the key derived from the
/// password and that salt, to the password itself.
pub open spec fn vault_accepts(file: Seq<u8>, password: Seq<char>) -> bool {
    file.len() >= SALT_LEN && blob_decrypts_to(
        file.skip(SALT_LEN as int),
        pbkdf2_key(encode_utf8(password), file.take(SALT_LEN as int), KDF_ITERATIONS as int),
        password,
    )
}

/// First-run bootstrap: generate a fresh random 16-byte salt, derive a key
/// from the master password and that salt, encrypt the password itself as
/// verification ciphertext, and return the vault file bytes together with
/// the ready cipher. The returned file accepts exactly this password; the
/// caller must persist it atomically. Fails only if the random source fails.
pub fn bootstrap_vault(master_password: &str) -> (r: Result<(Vec<u8>, Encryption), VaultError>)
    ensures
        r matches Ok(p) ==> vault_accepts(p.0@, master_password@) && p.1@ == pbkdf2_key(
            encode_utf8(master_password@),
            p.0@.take(SALT_LEN as int),
            KDF_ITERATIONS as int,
        ),
        r matches Err(e) ==> e == VaultError::Crypto,
{
    let mut file = match random_bytes(SALT_LEN) {
        Ok(v) => v,
        Err(_) => {
            return Err(VaultError::Crypto);
        },
    };
    let cipher = Encryption::new(master_password, file.as_slice());
    let mut blob = match cipher.encrypt(master_password) {
        Ok(v) => v,
        Err(_) => {
            return Err(VaultError::Crypto);
        },
    };
    let ghost salt = file@;
    let ghost verification = blob@;
    file.append(&mut blob);
    proof {
        assert(file@.take(SALT_LEN as int) =~= salt);
        assert(file@.skip(SALT_LEN as int) =~= verification);
    }
    Ok((file, cipher))
}

/// Every-run unlock: read the salt and verification ciphertext out of the
/// vault file, derive a key from the candidate password, and decrypt. The
/// unlock succeeds — yielding the ready cipher — exactly when the file
/// accepts the candidate; every failure is the one opaque authentication
/// error, with no detail distinguishing the cause.
pub fn unlock_vault(master_password: &str, file: &[u8]) -> (r: Result<Encryption, VaultError>)
    ensures
        r matches Ok(cipher) ==> vault_accepts(file@, master_password@) && cipher@ == pbkdf2_key(
            encode_utf8(master_password@),
            file@.take(SALT_LEN as int),
            KDF_ITERATIONS as int,
        ),
        r is Ok <==> vault_accepts(file@, master_password@),
        r matches Err(e) ==> e == VaultError::Authentication,
{
    if file.len() < SALT_LEN {
        return Err(VaultError::Authentication);
    }
    let salt: &[u8] = &file[0..SALT_LEN];
    let blob: &[u8] = &file[SALT_LEN..file.len()];
    proof {
        assert(salt@ =~= file@.take(SALT_LEN as int));
        assert(blob@ =~= file@.skip(SALT_LEN as int));
    }
    let cipher = Encryption::new(master_password, salt);
    match cipher.decrypt(blob) {
        Ok(decrypted) => {
            if str_eq(decrypted.as_str(), master_password) {
                Ok(cipher)
            } else {
                Err(VaultError::Authentication)
            }
        },
        Err(_) => Err(VaultError::Authentication),
    }
}

/// Vault bootstrap then unlock: a vault file formed from password `P` and
/// salt `S` — `S || nonce || sealed(key, nonce, utf8(P))` with the key
/// derived from `P` and `S` — accepts `P`. Together with the unlock
/// contract, unlocking such a file with `P` succeeds; unlocking with a
/// password the file does not accept fails with the authentication error.
pub proof fn lemma_bootstrap_then_unlock(salt: Seq<u8>, nonce: Seq<u8>, password: Seq<char>)
    requires
        salt.len() == SALT_LEN,
        nonce.len() == NONCE_LEN,
    ensures
        vault_accepts(
            salt + nonce + sealed(
                pbkdf2_key(encode_utf8(password), salt, KDF_ITERATIONS as int),
                nonce,
                encode_utf8(password),
            ),
            password,
        ),
{
    let key = pbkdf2_key(encode_utf8(password), salt, KDF_ITERATIONS as int);
    let file = salt + nonce + sealed(key, nonce, encode_utf8(password));
    assert(file.take(SALT_LEN as int) =~= salt);
    assert(file.skip(SALT_LEN as int) =~= nonce + sealed(key, nonce, encode_utf8(password)));
    crate::encryption::lemma_encrypt_decrypt_round_trip(key, nonce, password);
}

} // verus!
