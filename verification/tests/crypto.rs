use pbhub::crypto::CiphertextBundle;
use pbhub::crypto::EncryptedApiKey;
use pbhub::crypto::decrypt;
use pbhub::crypto::encrypt;
use pbhub::crypto::generate_master_key;
use pbhub::crypto::examples::SecureKeyManager;

#[test]
fn test_encrypt_decrypt_roundtrip() {
    let master_key = generate_master_key();
    let plaintext = b"test-api-key-12345";

    let bundle = encrypt(&master_key, plaintext);

    let decrypted = decrypt(&master_key, &bundle).unwrap();

    assert_eq!(plaintext, decrypted.as_slice());
}

#[test]
fn test_encrypt_different_nonces() {
    let master_key = generate_master_key();
    let plaintext = b"same-plaintext";

    let bundle1 = encrypt(&master_key, plaintext);
    let bundle2 = encrypt(&master_key, plaintext);

    assert_ne!(bundle1.nonce, bundle2.nonce);
    assert_ne!(bundle1.ciphertext, bundle2.ciphertext);

    let decrypted1 = decrypt(&master_key, &bundle1).unwrap();
    let decrypted2 = decrypt(&master_key, &bundle2).unwrap();
    assert_eq!(decrypted1, decrypted2);
    assert_eq!(plaintext, decrypted1.as_slice());
}

#[test]
fn test_tamper_detection() {
    let master_key = generate_master_key();
    let plaintext = b"secret-data";

    let mut bundle = encrypt(&master_key, plaintext);

    bundle.ciphertext[0] ^= 0x01;

    assert!(decrypt(&master_key, &bundle).is_err());
}

#[test]
fn test_wrong_key_fails() {
    let master_key1 = generate_master_key();
    let master_key2 = generate_master_key();
    let plaintext = b"secret-data";

    let bundle = encrypt(&master_key1, plaintext);

    assert!(decrypt(&master_key2, &bundle).is_err());
}

#[test]
fn test_encrypted_api_key() {
    let master_key = generate_master_key();
    let api_key = "sk-1234567890abcdef";

    let encrypted = EncryptedApiKey::new(
        "test-service".to_string(),
        "main-key".to_string(),
        api_key,
        &master_key,
        None,
    );

    let decrypted = encrypted.decrypt_key(&master_key).unwrap();
    assert_eq!(api_key, decrypted);

    assert!(!encrypted.is_expired());
}

#[test]
fn test_api_key_expiration() {
    let master_key = generate_master_key();
    let api_key = "sk-expired";

    let expired_time = chrono::Utc::now().timestamp_millis() as u64 - 3_600_000;

    let encrypted = EncryptedApiKey::new(
        "test-service".to_string(),
        "expired-key".to_string(),
        api_key,
        &master_key,
        Some(expired_time),
    );

    assert!(encrypted.is_expired());
}

#[test]
fn test_invalid_nonce_size() {
    let invalid_bundle = CiphertextBundle {
        ciphertext: vec![1, 2, 3],
        nonce: vec![1, 2, 3],
    };

    assert!(invalid_bundle.nonce_array().is_err());
}

#[test]
fn test_empty_plaintext() {
    let master_key = generate_master_key();
    let empty_plaintext = b"";

    let bundle = encrypt(&master_key, empty_plaintext);
    let decrypted = decrypt(&master_key, &bundle).unwrap();

    assert_eq!(empty_plaintext, decrypted.as_slice());
}

#[test]
fn test_large_plaintext() {
    let master_key = generate_master_key();
    let large_plaintext = vec![42u8; 10000];

    let bundle = encrypt(&master_key, &large_plaintext);
    let decrypted = decrypt(&master_key, &bundle).unwrap();

    assert_eq!(large_plaintext, decrypted);
}

#[test]
fn test_key_manager_basic_operations() {
    let mut manager = SecureKeyManager::new();

    manager.store_api_key(
        "test-service".to_string(),
        "main".to_string(),
        "secret-api-key-123",
        None,
    );

    let retrieved = manager.get_api_key("test-service", "main").unwrap();
    assert_eq!(retrieved, "secret-api-key-123");

    let keys = manager.list_keys();
    assert_eq!(keys.len(), 1);
    assert_eq!(keys[0].0, "test-service");
    assert_eq!(keys[0].1, "main");
    assert!(!keys[0].3);
}

#[test]
fn test_key_not_found() {
    let manager = SecureKeyManager::new();

    let result = manager.get_api_key("nonexistent", "key");
    assert!(result.is_err());
}

#[test]
fn test_expired_key() {
    let mut manager = SecureKeyManager::new();

    let expired_time = chrono::Utc::now().timestamp_millis() as u64 - 3_600_000;

    manager.store_api_key(
        "test-service".to_string(),
        "expired".to_string(),
        "expired-key",
        Some(expired_time),
    );

    let result = manager.get_api_key("test-service", "expired");
    assert!(result.is_err());
}

#[test]
fn test_remove_key() {
    let mut manager = SecureKeyManager::new();

    manager.store_api_key(
        "test-service".to_string(),
        "temp".to_string(),
        "temp-key",
        None,
    );

    assert!(manager.get_api_key("test-service", "temp").is_ok());

    assert!(manager.remove_key("test-service", "temp"));

    assert!(manager.get_api_key("test-service", "temp").is_err());

    assert!(!manager.remove_key("test-service", "temp"));
}

#[test]
fn encrypt_transforms_plaintext() {
    let master_key = generate_master_key();
    let plaintext = b"visible-secret";

    let bundle = encrypt(&master_key, plaintext);

    // AES-GCM appends an authentication tag, so the ciphertext is longer
    // than the plaintext and never equals it.
    assert_eq!(bundle.ciphertext.len(), plaintext.len() + 16);
    assert_ne!(bundle.ciphertext.as_slice(), plaintext.as_slice());
    assert_eq!(bundle.nonce.len(), 12);
}

#[test]
fn store_replaces_existing_key() {
    let mut manager = SecureKeyManager::new();

    manager.store_api_key("svc".to_string(), "k".to_string(), "old-value-123", None);
    manager.store_api_key("svc".to_string(), "k".to_string(), "new-value-456", None);

    assert_eq!(manager.get_api_key("svc", "k").unwrap(), "new-value-456");
    assert_eq!(manager.list_keys().len(), 1);
}

#[test]
fn manager_with_master_key_exports_it() {
    let key = generate_master_key();
    let manager = SecureKeyManager::with_master_key(key);
    assert_eq!(manager.export_master_key(), key);
}
