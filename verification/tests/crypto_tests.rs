use mini_ai_1c::crypto::{
    decrypt_string_with_key, encrypt_string_with_key, master_key_from_stored, KEY_SIZE,
    NONCE_SIZE,
};

fn key(fill: u8) -> Vec<u8> {
    vec![fill; KEY_SIZE]
}

#[test]
fn encrypted_secret_decrypts_to_itself() {
    let k = key(7);
    for secret in ["", "sk-test-123", "пароль с пробелами", "🙂 emoji"] {
        let sealed = encrypt_string_with_key(secret, &k).unwrap();
        assert_ne!(sealed, secret);
        assert_eq!(decrypt_string_with_key(&sealed, &k), Ok(secret.to_string()));
    }
}

#[test]
fn two_encryptions_use_fresh_nonces() {
    let k = key(1);
    let a = encrypt_string_with_key("same", &k).unwrap();
    let b = encrypt_string_with_key("same", &k).unwrap();
    assert_ne!(a, b);
}

#[test]
fn encryption_refuses_a_key_of_the_wrong_length() {
    assert!(encrypt_string_with_key("x", &[0u8; 16]).is_err());
    assert!(encrypt_string_with_key("x", &[]).is_err());
}

#[test]
fn short_data_is_invalid_encrypted_data() {
    // "AAAA" decodes to three zero bytes, fewer than a nonce.
    assert_eq!(
        decrypt_string_with_key("AAAA", &key(3)),
        Err("Invalid encrypted data".to_string())
    );
}

#[test]
fn decryption_fails_for_wrong_key_tampering_or_bad_base64() {
    let sealed = encrypt_string_with_key("secret", &key(9)).unwrap();
    assert!(decrypt_string_with_key(&sealed, &key(8)).is_err());
    assert!(decrypt_string_with_key("not base64!", &key(9)).is_err());
    let mut bytes: Vec<char> = sealed.chars().collect();
    let last = bytes.len() - 3;
    bytes[last] = if bytes[last] == 'A' { 'B' } else { 'A' };
    let tampered: String = bytes.into_iter().collect();
    assert!(decrypt_string_with_key(&tampered, &key(9)).is_err());
}

#[test]
fn master_key_keeps_a_valid_stored_key() {
    let stored = key(5);
    let (k, fresh) = master_key_from_stored(Some(stored.clone()));
    assert_eq!(k, stored);
    assert!(!fresh);

    let (k2, fresh2) = master_key_from_stored(Some(vec![1, 2, 3]));
    assert_eq!(k2.len(), KEY_SIZE);
    assert!(fresh2);

    let (k3, fresh3) = master_key_from_stored(None);
    assert_eq!(k3.len(), KEY_SIZE);
    assert!(fresh3);
    assert_eq!(NONCE_SIZE, 12);
}
