//! Key derivation and authenticated encryption of secret fields.
//!
//! A 32-byte key is derived from the master password and a per-vault salt by
//! PBKDF2 (HMAC-SHA-256, fixed iteration count). Secrets are protected by an
//! AEAD cipher (256-bit key, 96-bit nonce, 128-bit tag, empty associated
//! data); an encrypted blob is laid out as `nonce || ciphertext || tag`.

use ring::aead;
use ring::rand::SecureRandom;
use vstd::prelude::*;
use vstd::utf8::encode_utf8;

use crate::errors::VaultError;

verus! {

/// Iteration count of the password-based key derivation. A design constant,
/// chosen to balance brute-force resistance against interactive unlock
/// latency; it is not configurable.
pub const KDF_ITERATIONS: u32 = 100000;

/// Length in bytes of a nonce.
pub const NONCE_LEN: usize = 12;

/// Length in bytes of an authentication tag.
pub const TAG_LEN: usize = 16;

/// Length in bytes of a derived key.
pub const KEY_LEN: usize = 32;

/// Length in bytes of a per-vault salt.
pub const SALT_LEN: usize = 16;

/// The 32-byte key that PBKDF2 (HMAC-SHA-256) derives from a password, a
/// salt and an iteration count. A function of its arguments alone.
pub uninterp spec fn pbkdf2_key(password: Seq<u8>, salt: Seq<u8>, iterations: int) -> Seq<u8>;

/// The bytes (ciphertext followed by the 16-byte tag) that the AEAD seal
/// operation produces from a key, a nonce and a message. A function of its
/// arguments alone.
pub uninterp spec fn sealed(key: Seq<u8>, nonce: Seq<u8>, message: Seq<u8>) -> Seq<u8>;

/// The blob `blob` is `nonce || ciphertext || tag` for the UTF-8 encoding of
/// `s` under `key`: exactly the blobs from which decryption under `key`
/// recovers `s`.
pub open spec fn blob_decrypts_to(blob: Seq<u8>, key: Seq<u8>, s: Seq<char>) -> bool {
    blob.len() >= NONCE_LEN && blob.skip(NONCE_LEN as int) == sealed(
        key,
        blob.take(NONCE_LEN as int),
        encode_utf8(s),
    )
}

/// Relies on ring::pbkdf2::derive with PBKDF2_HMAC_SHA256: it fills the
/// output deterministically from password, salt and iteration count alone.
#[verifier::external_body]
fn pbkdf2_derive_key(password: &[u8], salt: &[u8], iterations: u32) -> (key: [u8; 32])
    requires
        1 <= iterations,
    ensures
        key@ == pbkdf2_key(password@, salt@, iterations as int),
{
    let mut key = [0u8; 32];
    ring::pbkdf2::derive(
        ring::pbkdf2::PBKDF2_HMAC_SHA256,
        core::num::NonZeroU32::new(iterations).unwrap(),
        salt,
        password,
        &mut key,
    );
    key
}

/// Relies on ring::rand::SystemRandom::fill: it fills the buffer with random
/// bytes or fails. Nothing is assumed about the values drawn.
#[verifier::external_body]
pub(crate) fn random_bytes(n: usize) -> (r: Result<Vec<u8>, VaultError>)
    ensures
        r matches Ok(v) ==> v@.len() == n,
        r matches Err(e) ==> e == VaultError::Crypto,
{
    let mut buf = vec![0u8; n];
    ring::rand::SystemRandom::new().fill(&mut buf).map_err(|_| VaultError::Crypto)?;
    Ok(buf)
}

/// Relies on ring::aead::LessSafeKey::seal_in_place_append_tag with
/// CHACHA20_POLY1305 and empty associated data (and on UnboundKey::new and
/// Nonce::assume_unique_for_key to build its inputs): the result is the
/// ciphertext followed by the 16-byte tag, a function of key, nonce and
/// message alone, and — the stream cipher being a bijection for a fixed key
/// and nonce — a different message never seals to the same bytes.
#[verifier::external_body]
fn aead_seal(key: &[u8; 32], nonce: &[u8], message: &[u8]) -> (r: Result<Vec<u8>, VaultError>)
    requires
        nonce@.len() == NONCE_LEN,
    ensures
        r matches Ok(ct) ==> ct@ == sealed(key@, nonce@, message@) && ct@.len() == message@.len()
            + TAG_LEN && (forall|m2: Seq<u8>| ct@ == #[trigger] sealed(key@, nonce@, m2) ==> m2
            == message@),
        r matches Err(e) ==> e == VaultError::Crypto,
{
    let unbound = aead::UnboundKey::new(&aead::CHACHA20_POLY1305, key)
        .map_err(|_| VaultError::Crypto)?;
    let sealing = aead::LessSafeKey::new(unbound);
    let nonce_arr: [u8; 12] = nonce.try_into().map_err(|_| VaultError::Crypto)?;
    let n = aead::Nonce::assume_unique_for_key(nonce_arr);
    let mut buf = message.to_vec();
    sealing.seal_in_place_append_tag(n, aead::Aad::empty(), &mut buf)
        .map_err(|_| VaultError::Crypto)?;
    Ok(buf)
}

/// Relies on ring::aead::LessSafeKey::open_in_place with CHACHA20_POLY1305
/// and empty associated data (and on UnboundKey::new and
/// Nonce::assume_unique_for_key to build its inputs): it recomputes the tag
/// the seal operation would append and compares; it returns exactly the
/// message whose sealing under (key, nonce) is the given input, and fails on
/// every input that is not such a sealing.
#[verifier::external_body]
fn aead_open(key: &[u8; 32], nonce: &[u8], ciphertext: &[u8]) -> (r: Result<Vec<u8>, VaultError>)
    requires
        nonce@.len() == NONCE_LEN,
    ensures
        r matches Ok(m) ==> ciphertext@ == sealed(key@, nonce@, m@) && (forall|m2: Seq<u8>|
            ciphertext@ == #[trigger] sealed(key@, nonce@, m2) ==> m2 == m@),
        r is Err ==> forall|m: Seq<u8>| ciphertext@ != #[trigger] sealed(key@, nonce@, m),
        r matches Err(e) ==> e == VaultError::Crypto,
{
    let unbound = aead::UnboundKey::new(&aead::CHACHA20_POLY1305, key)
        .map_err(|_| VaultError::Crypto)?;
    let opening = aead::LessSafeKey::new(unbound);
    let nonce_arr: [u8; 12] = nonce.try_into().map_err(|_| VaultError::Crypto)?;
    let n = aead::Nonce::assume_unique_for_key(nonce_arr);
    let mut buf = ciphertext.to_vec();
    let plain = opening.open_in_place(n, aead::Aad::empty(), &mut buf)
        .map_err(|_| VaultError::Crypto)?;
    Ok(plain.to_vec())
}

/// Relies on String::from_utf8: it returns the string whose UTF-8 encoding
/// is exactly the given bytes, and fails exactly when the bytes are not
/// valid UTF-8.
#[verifier::external_body]
fn string_from_utf8(bytes: Vec<u8>) -> (r: Option<String>)
    ensures
        r matches Some(s) ==> encode_utf8(s@) == bytes@,
        vstd::utf8::valid_utf8(bytes@) ==> r is Some,
{
    String::from_utf8(bytes).ok()
}

/// An authenticated cipher holding a key derived from the master password
/// and the per-vault salt. The key lives only as long as the process; it is
/// never persisted.
#[derive(Debug)]
pub struct Encryption {
    key: [u8; 32],
}

impl View for Encryption {
    type V = Seq<u8>;

    closed spec fn view(&self) -> Seq<u8> {
        self.key@
    }
}

impl Encryption {
    /// Derive the field-encryption key from the master password and the
    /// per-vault salt. Deterministic: the same password and salt always
    /// yield the same key.
    pub fn new(master_password: &str, salt: &[u8]) -> (r: Self)
        ensures
            r@ == pbkdf2_key(encode_utf8(master_password@), salt@, KDF_ITERATIONS as int),
            r@.len() == KEY_LEN,
    {
        let key = pbkdf2_derive_key(master_password.as_bytes(), salt, KDF_ITERATIONS);
        Encryption { key }
    }

    /// Encrypt `data` under this key with a fresh random 96-bit nonce. The
    /// result is `nonce || ciphertext || tag`; decryption under the same key
    /// recovers exactly `data`. Fails only if the random source fails.
    pub fn encrypt(&self, data: &str) -> (r: Result<Vec<u8>, VaultError>)
        ensures
            r matches Ok(blob) ==> blob_decrypts_to(blob@, self@, data@) && blob@.len()
                == NONCE_LEN + encode_utf8(data@).len() + TAG_LEN,
            r matches Ok(blob) ==> forall|s2: Seq<char>|
                blob_decrypts_to(blob@, self@, s2) ==> s2 == data@,
            r matches Err(e) ==> e == VaultError::Crypto,
    {
        let mut blob = match random_bytes(NONCE_LEN) {
            Ok(v) => v,
            Err(_) => {
                return Err(VaultError::Crypto);
            },
        };
        let mut ct = match aead_seal(&self.key, blob.as_slice(), data.as_bytes()) {
            Ok(v) => v,
            Err(_) => {
                return Err(VaultError::Crypto);
            },
        };
        let ghost nonce = blob@;
        let ghost ct_bytes = ct@;
        blob.append(&mut ct);
        proof {
            assert(blob@.take(NONCE_LEN as int) =~= nonce);
            assert(blob@.skip(NONCE_LEN as int) =~= ct_bytes);
            assert forall|s2: Seq<char>| blob_decrypts_to(blob@, self@, s2) implies s2
                == data@ by {
                vstd::utf8::encode_utf8_decode_utf8(s2);
                vstd::utf8::encode_utf8_decode_utf8(data@);
            }
        }
        Ok(blob)
    }

    /// Decrypt a blob laid out as `nonce || ciphertext || tag`. Returns the
    /// unique string the blob encrypts under this key, and fails — with one
    /// opaque error that does not distinguish a wrong key from corrupted
    /// data — on every blob that encrypts none.
    pub fn decrypt(&self, encrypted_data: &[u8]) -> (r: Result<String, VaultError>)
        ensures
            r matches Ok(p) ==> blob_decrypts_to(encrypted_data@, self@, p@),
            forall|s: Seq<char>|
                blob_decrypts_to(encrypted_data@, self@, s) ==> (r matches Ok(p) && p@ == s),
            r matches Err(e) ==> e == VaultError::Crypto,
    {
        if encrypted_data.len() < NONCE_LEN {
            return Err(VaultError::Crypto);
        }
        let nonce: &[u8] = &encrypted_data[0..NONCE_LEN];
        let ct: &[u8] = &encrypted_data[NONCE_LEN..encrypted_data.len()];
        proof {
            assert(nonce@ =~= encrypted_data@.take(NONCE_LEN as int));
            assert(ct@ =~= encrypted_data@.skip(NONCE_LEN as int));
        }
        let m = match aead_open(&self.key, nonce, ct) {
            Ok(v) => v,
            Err(_) => {
                return Err(VaultError::Crypto);
            },
        };
        match string_from_utf8(m) {
            Some(t) => {
                proof {
                    assert forall|s: Seq<char>|
                        blob_decrypts_to(encrypted_data@, self@, s) implies t@ == s by {
                        vstd::utf8::encode_utf8_decode_utf8(s);
                        vstd::utf8::encode_utf8_decode_utf8(t@);
                    }
                }
                Ok(t)
            },
            None => {
                proof {
                    assert forall|s: Seq<char>|
                        !blob_decrypts_to(encrypted_data@, self@, s) by {
                        if blob_decrypts_to(encrypted_data@, self@, s) {
                            vstd::utf8::encode_utf8_valid_utf8(s);
                        }
                    }
                }
                Err(VaultError::Crypto)
            },
        }
    }
}

/// Encrypt-then-decrypt round trip, stated over the model: a blob formed as
/// `nonce || sealed(key, nonce, utf8(s))` decrypts to `s` under `key`; with
/// the decryption contract this yields
/// `decrypt(encrypt(s, k), k) == Ok(s)` for every string `s` and key `k`.
pub proof fn lemma_encrypt_decrypt_round_trip(key: Seq<u8>, nonce: Seq<u8>, s: Seq<char>)
    requires
        nonce.len() == NONCE_LEN,
    ensures
        blob_decrypts_to(nonce + sealed(key, nonce, encode_utf8(s)), key, s),
{
    let blob = nonce + sealed(key, nonce, encode_utf8(s));
    assert(blob.take(NONCE_LEN as int) =~= nonce);
    assert(blob.skip(NONCE_LEN as int) =~= sealed(key, nonce, encode_utf8(s)));
}

} // verus!
