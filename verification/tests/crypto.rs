use base64::prelude::{Engine, BASE64_STANDARD};
use mkcontent::crypto::{encode_payload, encrypt_data, encrypt_with_salt, CryptoError};

#[test]
fn test_encryption() {
    let data = "Secret message";
    let password = "strong password";

    let encrypted = encrypt_data(data, password).unwrap();
    let b64_encoded = BASE64_STANDARD.encode(encrypted);
    println!("Encrypted data: {}", b64_encoded);
}

#[test]
fn payload_length_is_header_plus_whole_blocks() {
    // 14 bytes of text pad to one block.
    assert_eq!(encrypt_data("Secret message", "pw").unwrap().len(), 32 + 16);
    // The empty text still gets a full block of padding.
    assert_eq!(encrypt_data("", "pw").unwrap().len(), 32 + 16);
    // 15 bytes fit in one block with one byte of padding.
    assert_eq!(encrypt_data("123456789012345", "pw").unwrap().len(), 32 + 16);
    // 16 bytes need a second block.
    assert_eq!(encrypt_data("1234567890123456", "pw").unwrap().len(), 32 + 32);
    // 17 bytes too.
    assert_eq!(encrypt_data("12345678901234567", "pw").unwrap().len(), 32 + 32);
}

#[test]
fn payload_starts_with_the_salt() {
    let salt = [7u8; 16];
    let payload = encrypt_with_salt("hello", "pw", &salt).unwrap();
    assert_eq!(&payload[..16], &salt);
    assert_eq!(payload.len(), 48);
}

#[test]
fn same_salt_gives_same_payload() {
    let salt = [1u8; 16];
    let a = encrypt_with_salt("hello", "pw", &salt).unwrap();
    let b = encrypt_with_salt("hello", "pw", &salt).unwrap();
    assert_eq!(a, b);
    let c = encrypt_with_salt("hello", "other", &salt).unwrap();
    assert_ne!(a, c);
    let d = encrypt_with_salt("hellp", "pw", &salt).unwrap();
    assert_ne!(a[32..], d[32..]);
    assert_eq!(a[..32], d[..32]);
}

fn hex(bytes: &[u8]) -> String {
    bytes.iter().map(|b| format!("{:02x}", b)).collect()
}

#[test]
fn known_answer_for_key_derivation_and_cipher() {
    // PBKDF2-HMAC-SHA-256 of "password" with 100000 rounds gives the key and
    // the IV 11f6..bbf7; AES-256-CBC with PKCS#7 gives one block.
    let payload = encrypt_with_salt("Secret message", "password", b"saltsaltsaltsalt").unwrap();
    assert_eq!(
        hex(&payload),
        "73616c7473616c7473616c7473616c74\
         11f6392e90b29edde1c01d740771bbf7\
         6f2c2fa42adf1b76d264d0efb471c8e1"
    );
    assert_eq!(
        encode_payload(&payload),
        Ok(String::from("c2FsdHNhbHRzYWx0c2FsdBH2OS6Qsp7d4cAddAdxu/dvLC+kKt8bdtJk0O+0ccjh"))
    );
}

#[test]
fn known_answer_for_text_that_is_not_ascii() {
    // 17 bytes of text and a password with an umlaut: two blocks.
    let salt: Vec<u8> = (0u8..16).collect();
    let payload = encrypt_with_salt("sixteen bytes é!", "pässword", &salt).unwrap();
    assert_eq!(
        hex(&payload),
        "000102030405060708090a0b0c0d0e0f\
         176ffef9e1109d0bba28ccc923bc74d9\
         8045b0c41d6b08f84c609560968186338a1f74ddf98f77eba1707021c9ab1e5a"
    );
}

#[test]
fn fresh_salts_differ() {
    let a = encrypt_data("hello", "pw").unwrap();
    let b = encrypt_data("hello", "pw").unwrap();
    assert_ne!(a[..16], b[..16]);
}

#[test]
fn crypto_errors_are_distinct() {
    assert_ne!(CryptoError::Random, CryptoError::TooLong);
}
