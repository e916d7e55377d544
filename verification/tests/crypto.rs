use riscv_vm::crypto::{
    decrypt, derive_key, derive_key_with_params, encrypt, generate_nonce, generate_random_key,
    generate_salt, open_vault, seal_vault, seal_vault_with, CryptoError, SecureKey, VaultHeader,
    SALT_SIZE, VAULT_VERSION,
};

/// Use faster Argon2 params for tests
fn derive_test_key(passphrase: &[u8], salt: &[u8; SALT_SIZE]) -> Result<SecureKey, CryptoError> {
    derive_key_with_params(passphrase, salt, 1024, 1, 1) // 1 MiB, 1 iter
}

#[test]
fn test_key_derivation_consistency() {
    let passphrase = b"test passphrase";
    let salt = generate_salt();

    let key1 = derive_test_key(passphrase, &salt).unwrap();
    let key2 = derive_test_key(passphrase, &salt).unwrap();

    assert_eq!(key1.as_bytes(), key2.as_bytes());
}

#[test]
fn test_different_salt_produces_different_key() {
    let passphrase = b"test passphrase";
    let salt1 = generate_salt();
    let salt2 = generate_salt();

    let key1 = derive_test_key(passphrase, &salt1).unwrap();
    let key2 = derive_test_key(passphrase, &salt2).unwrap();

    assert_ne!(key1.as_bytes(), key2.as_bytes());
}

#[test]
fn test_encrypt_decrypt_roundtrip() {
    let key = generate_random_key();
    let nonce = generate_nonce();
    let plaintext = b"Hello, secure world!";

    let ciphertext = encrypt(&key, &nonce, plaintext).unwrap();
    let decrypted = decrypt(&key, &nonce, &ciphertext).unwrap();

    assert_eq!(plaintext.as_slice(), decrypted.as_slice());
}

#[test]
fn test_wrong_key_fails_decryption() {
    let key1 = generate_random_key();
    let key2 = generate_random_key();
    let nonce = generate_nonce();
    let plaintext = b"Secret data";

    let ciphertext = encrypt(&key1, &nonce, plaintext).unwrap();
    let result = decrypt(&key2, &nonce, &ciphertext);

    assert!(matches!(result, Err(CryptoError::DecryptionFailed(_))));
}

#[test]
fn test_wrong_nonce_fails_decryption() {
    let key = generate_random_key();
    let nonce1 = generate_nonce();
    let nonce2 = generate_nonce();
    let plaintext = b"Secret data";

    let ciphertext = encrypt(&key, &nonce1, plaintext).unwrap();
    let result = decrypt(&key, &nonce2, &ciphertext);

    assert!(matches!(result, Err(CryptoError::DecryptionFailed(_))));
}

#[test]
fn test_tampered_ciphertext_fails() {
    let key = generate_random_key();
    let nonce = generate_nonce();
    let plaintext = b"Secret data";

    let mut ciphertext = encrypt(&key, &nonce, plaintext).unwrap();
    // Tamper with ciphertext
    ciphertext[0] ^= 0xFF;

    let result = decrypt(&key, &nonce, &ciphertext);
    assert!(matches!(result, Err(CryptoError::DecryptionFailed(_))));
}

#[test]
fn test_vault_header_serialization() {
    let header = VaultHeader {
        version: VAULT_VERSION,
        salt: generate_salt(),
        nonce: generate_nonce(),
    };

    let bytes = header.to_bytes();
    let parsed = VaultHeader::from_bytes(&bytes).unwrap();

    assert_eq!(parsed.version, header.version);
    assert_eq!(parsed.salt, header.salt);
    assert_eq!(parsed.nonce, header.nonce);
}

#[test]
fn test_seal_open_vault_roundtrip() {
    let passphrase = b"wallet-passphrase-2024";
    let plaintext = b"VM state snapshot data here...";

    let vault = seal_vault(passphrase, plaintext).unwrap();
    let decrypted = open_vault(passphrase, &vault).unwrap();

    assert_eq!(plaintext.as_slice(), decrypted.as_slice());
}

#[test]
fn test_wrong_passphrase_fails_open() {
    let correct_passphrase = b"correct-passphrase";
    let wrong_passphrase = b"wrong-passphrase";
    let plaintext = b"Secret state";

    let vault = seal_vault(correct_passphrase, plaintext).unwrap();
    let result = open_vault(wrong_passphrase, &vault);

    assert!(matches!(result, Err(CryptoError::DecryptionFailed(_))));
}

#[test]
fn aes_gcm_known_answer_empty_message() {
    // AES-256-GCM, all-zero key and nonce, empty plaintext: only the tag.
    let key = SecureKey::new([0u8; 32]);
    let c = encrypt(&key, &[0u8; 12], b"").unwrap();
    assert_eq!(
        c,
        vec![
            0x53, 0x0f, 0x8a, 0xfb, 0xc7, 0x45, 0x36, 0xb9, 0xa9, 0x63, 0xb4, 0xf1, 0xc4, 0xcb,
            0x73, 0x8b
        ]
    );
}

#[test]
fn ciphertext_is_tag_longer_and_not_plaintext() {
    let key = SecureKey::new([7u8; 32]);
    let c = encrypt(&key, &[1u8; 12], b"abcdef").unwrap();
    assert_eq!(c.len(), 6 + 16);
    assert_ne!(&c[..6], b"abcdef");
}

#[test]
fn short_ciphertext_is_rejected() {
    let key = SecureKey::new([7u8; 32]);
    let r = decrypt(&key, &[0u8; 12], &[0u8; 15]);
    assert!(matches!(r, Err(CryptoError::DecryptionFailed(_))));
}

#[test]
fn invalid_argon2_params_are_rejected() {
    let salt = [3u8; 16];
    assert!(matches!(
        derive_key_with_params(b"pw", &salt, 4, 1, 1),
        Err(CryptoError::KeyDerivationFailed(_))
    ));
    assert!(matches!(
        derive_key_with_params(b"pw", &salt, 1024, 0, 1),
        Err(CryptoError::KeyDerivationFailed(_))
    ));
    assert!(matches!(
        derive_key_with_params(b"pw", &salt, 1024, 1, 0),
        Err(CryptoError::KeyDerivationFailed(_))
    ));
    assert!(matches!(
        derive_key_with_params(b"pw", &salt, 15, 1, 2),
        Err(CryptoError::KeyDerivationFailed(_))
    ));
}

#[test]
fn derived_key_is_not_the_passphrase() {
    let salt = [9u8; 16];
    let k = derive_test_key(&[0u8; 32], &salt).unwrap();
    assert_ne!(k.as_bytes(), &[0u8; 32]);
    let k2 = derive_test_key(b"other", &salt).unwrap();
    assert_ne!(k.as_bytes(), k2.as_bytes());
}

#[test]
fn header_parse_errors() {
    assert!(matches!(
        VaultHeader::from_bytes(&[1u8; 28]),
        Err(CryptoError::InvalidInput(_))
    ));
    let mut bytes = [0u8; 29];
    bytes[0] = 2;
    assert!(matches!(
        VaultHeader::from_bytes(&bytes),
        Err(CryptoError::InvalidInput(_))
    ));
    assert!(matches!(open_vault(b"pw", &[1u8; 10]), Err(CryptoError::InvalidInput(_))));
    match VaultHeader::from_bytes(&[1u8; 28]) {
        Err(CryptoError::InvalidInput(m)) => assert_eq!(m, "Header too short: 28 < 29"),
        _ => panic!("short header accepted"),
    }
    match VaultHeader::from_bytes(&bytes) {
        Err(CryptoError::InvalidInput(m)) => assert_eq!(m, "Unsupported vault version: 2 (expected 1)"),
        _ => panic!("wrong version accepted"),
    }
}

#[test]
fn sealed_blob_layout() {
    let salt = [0x11u8; 16];
    let nonce = [0x22u8; 12];
    let blob = seal_vault_with(b"pw", b"xyz", &salt, &nonce).unwrap();
    assert_eq!(blob.len(), 29 + 3 + 16);
    assert_eq!(blob[0], VAULT_VERSION);
    assert_eq!(&blob[1..17], &salt);
    assert_eq!(&blob[17..29], &nonce);
    let key = derive_key(b"pw", &salt).unwrap();
    assert_eq!(decrypt(&key, &nonce, &blob[29..]).unwrap(), b"xyz".to_vec());
    assert_eq!(open_vault(b"pw", &blob).unwrap(), b"xyz".to_vec());
}

#[test]
fn zeroize_wipes_the_key_bytes() {
    let mut key = SecureKey::new([0xA5u8; 32]);
    assert_eq!(key.as_bytes(), &[0xA5u8; 32]);
    key.zeroize();
    assert_eq!(key.as_bytes(), &[0u8; 32]);
}
