use base64::Engine;
use biliticket::vault::{
    buyer_cache_path, decrypt_data, encrypt_data, machine_key, open_data, seal, seal_data, sealed_part_count,
    unseal, OpenError, UnsealError,
};

#[test]
fn sealed_data_opens_back() {
    let key = b"0123456789abcdef".to_vec();
    let text = seal_data(&key, b"[{\"name\":\"a\"}]").unwrap();
    assert_eq!(sealed_part_count(&text), 2);
    assert_eq!(open_data(&key, &text, true), Ok(b"[{\"name\":\"a\"}]".to_vec()));
    assert_eq!(open_data(&key, &text, false), Ok(b"[{\"name\":\"a\"}]".to_vec()));
    let other = b"fedcba9876543210".to_vec();
    assert_ne!(open_data(&other, &text, true), Ok(b"[{\"name\":\"a\"}]".to_vec()));
}

#[test]
fn short_keys_are_refused() {
    assert!(seal_data(b"short", b"x").is_none());
    assert!(encrypt_data(b"short", b"x").is_none());
    assert!(decrypt_data(b"short", &[0u8; 16], &[0u8; 16]).is_none());
}

#[test]
fn encrypt_then_decrypt() {
    let key = [7u8; 16];
    let (iv, c) = encrypt_data(&key, b"hello").unwrap();
    assert_eq!(iv.len(), 16);
    assert_eq!(c.len(), 16);
    assert_eq!(decrypt_data(&key, &iv, &c), Some(b"hello".to_vec()));
}

#[test]
fn seal_format() {
    assert_eq!(seal(b"ab", b"cd"), "YWI=%Y2Q=");
    assert_eq!(unseal("YWI=%Y2Q=", true), Ok((b"ab".to_vec(), b"cd".to_vec())));
    assert_eq!(unseal(" YWI= % Y2Q=\n", true), Ok((b"ab".to_vec(), b"cd".to_vec())));
    assert_eq!(unseal("YWI=%Y2Q=%x", true), Err(UnsealError::Format));
    assert_eq!(unseal("YWI=%Y2Q=%x", false), Ok((b"ab".to_vec(), b"cd".to_vec())));
    assert_eq!(unseal("no-percent", true), Err(UnsealError::Format));
    assert_eq!(unseal("!!%Y2Q=", true), Err(UnsealError::Encoding));
    assert_eq!(open_data(&[1u8; 16], "YWI=%Y2Q=", true), Err(OpenError::Decrypt));
}

#[test]
fn machine_key_is_sixteen_bytes() {
    assert_eq!(machine_key("0123456789abcdefXYZ"), b"0123456789abcdef".to_vec());
}

#[test]
fn buyer_cache_paths() {
    assert_eq!(buyer_cache_path(123), "./buyer_cache_123.dat");
    assert_eq!(buyer_cache_path(-4), "./buyer_cache_-4.dat");
}

#[test]
fn sealed_text_is_base64_of_iv_and_ciphertext() {
    let key = [3u8; 16];
    let text = seal_data(&key, b"payload").unwrap();
    let parts: Vec<&str> = text.split('%').collect();
    assert_eq!(parts.len(), 2);
    let iv = base64::engine::general_purpose::STANDARD.decode(parts[0]).unwrap();
    let c = base64::engine::general_purpose::STANDARD.decode(parts[1]).unwrap();
    assert_eq!(iv.len(), 16);
    assert_eq!(decrypt_data(&key, &iv, &c), Some(b"payload".to_vec()));
}

#[test]
fn non_canonical_base64_is_refused() {
    assert_eq!(unseal("YWI%Y2Q=", true), Err(UnsealError::Encoding));
    assert_eq!(unseal("YWJ=%Y2Q=", true), Err(UnsealError::Encoding));
}
