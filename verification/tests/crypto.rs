use rusty_toolkit::encryption::Encryption;
use rusty_toolkit::errors::VaultError;
use rusty_toolkit::vault::{bootstrap_vault, unlock_vault};

const SALT: [u8; 16] = [7u8; 16];

#[test]
fn test_encrypt_decrypt() {
    let master_password = "password";
    let data = "data";

    let encryption = Encryption::new(master_password, &SALT);
    let encrypted_data = encryption.encrypt(data).unwrap();
    let decrypted_data = encryption.decrypt(&encrypted_data).unwrap();

    assert_eq!(data, decrypted_data);
}

#[test]
fn test_decrypt_invalid_data() {
    let encryption = Encryption::new("password", &SALT);
    let result = encryption.decrypt(&[0u8; 8]);
    assert!(result.is_err());
}

#[test]
fn test_different_passwords() {
    let data = "data";
    let encryption1 = Encryption::new("password1", &SALT);
    let encryption2 = Encryption::new("password2", &SALT);

    let encrypted_data = encryption1.encrypt(data).unwrap();
    let result = encryption2.decrypt(&encrypted_data);
    assert!(result.is_err());
}

#[test]
fn round_trip_many_strings() {
    let cipher = Encryption::new("master", &SALT);
    let cases = ["", "a", "hello world", "pässwörd \u{1F512} ünïcode", "line\nbreak\ttab"];
    for case in cases {
        let blob = cipher.encrypt(case).unwrap();
        assert_eq!(cipher.decrypt(&blob).unwrap(), case);
    }
}

#[test]
fn fresh_nonce_every_call() {
    let cipher = Encryption::new("master", &SALT);
    let one = cipher.encrypt("same plaintext").unwrap();
    let two = cipher.encrypt("same plaintext").unwrap();
    assert_ne!(one, two);
}

#[test]
fn tamper_detection_every_bit() {
    let cipher = Encryption::new("master", &SALT);
    let blob = cipher.encrypt("secret value").unwrap();
    for byte in 0..blob.len() {
        for bit in 0..8 {
            let mut tampered = blob.clone();
            tampered[byte] ^= 1u8 << bit;
            assert!(
                cipher.decrypt(&tampered).is_err(),
                "flip of bit {bit} in byte {byte} went unnoticed"
            );
        }
    }
}

#[test]
fn truncated_blob_fails() {
    let cipher = Encryption::new("master", &SALT);
    let blob = cipher.encrypt("secret value").unwrap();
    for cut in 0..blob.len() {
        assert!(cipher.decrypt(&blob[..cut]).is_err());
    }
}

#[test]
fn key_isolation() {
    let cipher1 = Encryption::new("first password", &SALT);
    let cipher2 = Encryption::new("second password", &SALT);
    let blob = cipher1.encrypt("guarded").unwrap();
    assert!(matches!(cipher2.decrypt(&blob), Err(VaultError::Crypto)));
    assert_eq!(cipher1.decrypt(&blob).unwrap(), "guarded");
}

#[test]
fn salt_isolation() {
    let salt_a = [1u8; 16];
    let salt_b = [2u8; 16];
    let cipher_a = Encryption::new("same password", &salt_a);
    let cipher_b = Encryption::new("same password", &salt_b);
    let blob_a = cipher_a.encrypt("guarded").unwrap();
    let blob_b = cipher_b.encrypt("guarded").unwrap();
    assert!(cipher_b.decrypt(&blob_a).is_err());
    assert!(cipher_a.decrypt(&blob_b).is_err());
}

#[test]
fn derivation_is_deterministic() {
    let one = Encryption::new("password", &SALT);
    let two = Encryption::new("password", &SALT);
    let blob = one.encrypt("data").unwrap();
    assert_eq!(two.decrypt(&blob).unwrap(), "data");
}

#[test]
fn vault_bootstrap_then_unlock() {
    let (file, _cipher) = bootstrap_vault("correct horse").unwrap();
    assert!(file.len() >= 16 + 12 + 16);

    let unlocked = unlock_vault("correct horse", &file);
    assert!(unlocked.is_ok());

    let cipher = unlocked.unwrap();
    let blob = cipher.encrypt("check").unwrap();
    assert_eq!(cipher.decrypt(&blob).unwrap(), "check");
}

#[test]
fn vault_rejects_wrong_password() {
    let (file, _cipher) = bootstrap_vault("correct horse").unwrap();
    for wrong in ["correct horsf", "", "correct horse ", "CORRECT HORSE"] {
        assert!(matches!(unlock_vault(wrong, &file), Err(VaultError::Authentication)));
    }
}

#[test]
fn vault_rejects_corrupt_file() {
    let (file, _cipher) = bootstrap_vault("correct horse").unwrap();
    let mut tampered = file.clone();
    let last = tampered.len() - 1;
    tampered[last] ^= 0x01;
    assert!(matches!(
        unlock_vault("correct horse", &tampered),
        Err(VaultError::Authentication)
    ));
    assert!(matches!(unlock_vault("correct horse", &file[..10]), Err(VaultError::Authentication)));
}
