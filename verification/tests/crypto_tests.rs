use axion_vault::crypto::{decrypt_password, derive_key, encrypt_password, generate_password};
use axion_vault::types::VaultError;

fn salt_a() -> Vec<u8> {
    vec![1, 2, 3, 4, 5, 6, 7, 8, 9, 10, 11, 12, 13, 14, 15, 16]
}

fn salt_b() -> Vec<u8> {
    vec![16, 15, 14, 13, 12, 11, 10, 9, 8, 7, 6, 5, 4, 3, 2, 1]
}

#[test]
fn derive_key_is_deterministic() {
    let k1 = derive_key("correcthorse123", &salt_a()).unwrap();
    let k2 = derive_key("correcthorse123", &salt_a()).unwrap();
    assert_eq!(k1, k2);
    assert_eq!(k1.len(), 32);
}

#[test]
fn derive_key_is_not_the_passphrase() {
    let k = derive_key("correcthorse123", &salt_a()).unwrap();
    assert_ne!(k.as_slice(), "correcthorse123".as_bytes());
}

#[test]
fn derive_key_rejects_empty_passphrase() {
    let r = derive_key("", &salt_a());
    assert!(matches!(r, Err(VaultError::KeyDerivation)));
}

#[test]
fn encrypt_decrypt_round_trip() {
    let key = derive_key("correcthorse123", &salt_a()).unwrap();
    let (cipher, nonce) = encrypt_password("s3cret!", &key).unwrap();
    assert_eq!(nonce.len(), 12);
    let plain = decrypt_password(&cipher, &nonce, &key).unwrap();
    assert_eq!(plain, "s3cret!");
}

#[test]
fn ciphertext_differs_from_plaintext() {
    let key = derive_key("correcthorse123", &salt_a()).unwrap();
    let (cipher, _nonce) = encrypt_password("s3cret!", &key).unwrap();
    assert_ne!(cipher.as_slice(), "s3cret!".as_bytes());
    assert_eq!(cipher.len(), "s3cret!".len() + 16);
}

#[test]
fn decrypt_with_wrong_key_fails_closed() {
    let k1 = derive_key("correcthorse123", &salt_a()).unwrap();
    let k2 = derive_key("correcthorse124", &salt_b()).unwrap();
    assert_ne!(k1, k2);
    let (cipher, nonce) = encrypt_password("s3cret!", &k1).unwrap();
    let r = decrypt_password(&cipher, &nonce, &k2);
    assert!(matches!(r, Err(VaultError::Authentication)));
}

#[test]
fn decrypt_of_tampered_ciphertext_fails_closed() {
    let key = derive_key("correcthorse123", &salt_a()).unwrap();
    let (mut cipher, nonce) = encrypt_password("s3cret!", &key).unwrap();
    cipher[0] ^= 0x01;
    let r = decrypt_password(&cipher, &nonce, &key);
    assert!(matches!(r, Err(VaultError::Authentication)));
}

#[test]
fn encryption_uses_fresh_nonces() {
    let key = derive_key("correcthorse123", &salt_a()).unwrap();
    let (c1, n1) = encrypt_password("s3cret!", &key).unwrap();
    let (c2, n2) = encrypt_password("s3cret!", &key).unwrap();
    assert_ne!(n1, n2);
    assert_ne!(c1, c2);
}

fn assert_alphabet(p: &str, symbols: bool) {
    let symbol_set = "!@#$%^&*()_+-=[]{}|;:,.<>?";
    for c in p.chars() {
        let basic = c.is_ascii_lowercase() || c.is_ascii_uppercase() || c.is_ascii_digit();
        let sym = symbols && symbol_set.contains(c);
        assert!(basic || sym, "character {:?} outside the alphabet", c);
    }
}

#[test]
fn generate_password_clamps_length() {
    assert_eq!(generate_password(0, false).chars().count(), 8);
    assert_eq!(generate_password(7, true).chars().count(), 8);
    assert_eq!(generate_password(8, false).chars().count(), 8);
    assert_eq!(generate_password(64, true).chars().count(), 64);
    assert_eq!(generate_password(128, false).chars().count(), 128);
    assert_eq!(generate_password(4000, true).chars().count(), 128);
}

#[test]
fn generate_password_draws_from_the_alphabet() {
    let p = generate_password(128, false);
    assert_alphabet(&p, false);
    let q = generate_password(128, true);
    assert_alphabet(&q, true);
}
