//! Key derivation and authenticated encryption.
//!
//! The primitives (Argon2id, AES-256-GCM, the OS random source) live in
//! outside crates; each is reached through one trusted item whose contract
//! states what that crate's source shows. Everything above those calls is
//! verified.

use vstd::prelude::*;

use crate::types::{VaultError, MAX_PASSPHRASE_LEN, MAX_STORED_CIPHER};

use aes_gcm::aead::Aead;
use aes_gcm::{Aes256Gcm, KeyInit, Nonce};
use argon2::Argon2;
use rand::rngs::OsRng;
use rand::RngCore;

verus! {

/// The key Argon2id (default parameters) derives from a passphrase and a
/// salt. It is a function of those two inputs alone.
pub uninterp spec fn derived_key(pass: Seq<char>, salt: Seq<u8>) -> Seq<u8>;

/// The ciphertext AES-256-GCM produces from a key, a nonce and a plaintext
/// (the plaintext's UTF-8 bytes, with the authentication tag appended). It is
/// a function of those three inputs alone.
pub uninterp spec fn sealed(key: Seq<u8>, nonce: Seq<u8>, plain: Seq<char>) -> Seq<u8>;

/// Relies on argon2::Argon2::hash_password_into with the crate's default
/// algorithm and parameters: the result is 32 bytes, determined by the
/// passphrase and the salt alone; with a 16-byte salt and a passphrase of
/// fewer than 2^32 bytes the call cannot fail.
#[verifier::external_body]
fn argon2_derive(pass: &str, salt: &[u8]) -> (r: Vec<u8>)
    requires
        salt@.len() == 16,
        pass@.len() <= 0x3FFF_FFFF,
    ensures
        r@ == derived_key(pass@, salt@),
        r@.len() == 32,
{
    let mut key = [0u8; 32];
    Argon2::default()
        .hash_password_into(pass.as_bytes(), salt, &mut key)
        .expect("argon2 accepts a 16-byte salt");
    key.to_vec()
}

/// Relies on aes_gcm::Aes256Gcm::encrypt: deterministic in key, nonce and
/// plaintext; the ciphertext is the plaintext's UTF-8 bytes encrypted plus a
/// 16-byte tag; it fails only when the message exceeds the cipher's 2^36-byte
/// limit, which four bytes per character keeps out of reach.
#[verifier::external_body]
fn aead_seal(plain: &str, key: &[u8], nonce: &[u8]) -> (r: Result<Vec<u8>, ()>)
    requires
        key@.len() == 32,
        nonce@.len() == 12,
    ensures
        r matches Ok(c) ==> c@ == sealed(key@, nonce@, plain@),
        r matches Ok(c) ==> c@.len() == vstd::utf8::encode_utf8(plain@).len() + 16,
        r matches Ok(c) ==> c@.len() <= plain@.len() * 4 + 16,
        plain@.len() * 4 < 0x10_0000_0000 ==> r is Ok,
{
    let cipher = Aes256Gcm::new_from_slice(key).expect("key is 32 bytes");
    cipher
        .encrypt(Nonce::from_slice(nonce), plain.as_bytes())
        .map_err(|_| ())
}

/// Relies on aes_gcm::Aes256Gcm::decrypt: it succeeds exactly on ciphertexts
/// that AES-256-GCM produces under this key and nonce (for a fixed key and
/// nonce, encryption of UTF-8 text is injective, and the tag check admits
/// nothing else), and then returns the plaintext those bytes encrypt.
#[verifier::external_body]
fn aead_open(cipher: &[u8], key: &[u8], nonce: &[u8]) -> (r: Option<String>)
    requires
        key@.len() == 32,
        nonce@.len() == 12,
    ensures
        match r {
            Some(p) => {
                &&& cipher@ == sealed(key@, nonce@, p@)
                &&& forall|q: Seq<char>| cipher@ == sealed(key@, nonce@, q) ==> q == p@
                &&& p@.len() + 16 <= cipher@.len()
                &&& vstd::utf8::encode_utf8(p@).len() + 16 == cipher@.len()
            },
            None => forall|q: Seq<char>| cipher@ != sealed(key@, nonce@, q),
        },
{
    let aead = Aes256Gcm::new_from_slice(key).expect("key is 32 bytes");
    let plain = aead.decrypt(Nonce::from_slice(nonce), cipher).ok()?;
    String::from_utf8(plain).ok()
}

/// Relies on rand::rngs::OsRng::fill_bytes (the operating system's secure
/// random source): it fills the whole buffer, so the result has the requested
/// length. Nothing is assumed about the bytes themselves.
#[verifier::external_body]
pub(crate) fn random_bytes(n: usize) -> (r: Vec<u8>)
    ensures
        r@.len() == n,
{
    let mut buf = vec![0u8; n];
    OsRng.fill_bytes(&mut buf);
    buf
}

/// Relies on rand::thread_rng().next_u32: a fresh random word. Nothing is
/// assumed about its value.
#[verifier::external_body]
fn random_u32() -> u32 {
    rand::thread_rng().next_u32()
}

/// Derives the 32-byte session key from a master passphrase and a 16-byte
/// salt. Deterministic: the same passphrase and salt always give the same
/// key. Rejects an empty passphrase and never falls back to a weaker path.
pub fn derive_key(master_password: &str, salt: &[u8]) -> (r: Result<Vec<u8>, VaultError>)
    requires
        salt@.len() == 16,
        master_password@.len() <= MAX_PASSPHRASE_LEN,
    ensures
        r matches Ok(k) ==> master_password@.len() > 0 && k@ == derived_key(
            master_password@,
            salt@,
        ) && k@.len() == 32,
        r matches Err(e) ==> master_password@.len() == 0 && e == VaultError::KeyDerivation,
{
    if master_password.unicode_len() == 0 {
        return Err(VaultError::KeyDerivation);
    }
    Ok(argon2_derive(master_password, salt))
}

/// Law: key derivation is deterministic. Two keys derived from the same
/// passphrase and the same salt are the same key.
pub proof fn lemma_derive_key_deterministic(
    pass: Seq<char>,
    salt: Seq<u8>,
    k1: Seq<u8>,
    k2: Seq<u8>,
)
    requires
        k1 == derived_key(pass, salt),
        k2 == derived_key(pass, salt),
    ensures
        k1 == k2,
{
}

/// Encrypts one secret under the given key with a fresh random 12-byte
/// nonce, and returns the ciphertext together with that nonce.
pub fn encrypt_password(password: &str, key: &[u8]) -> (r: Result<(Vec<u8>, Vec<u8>), VaultError>)
    requires
        key@.len() == 32,
        password@.len() <= MAX_STORED_CIPHER,
    ensures
        r matches Ok(p) ==> {
            &&& p.1@.len() == 12
            &&& p.0@ == sealed(key@, p.1@, password@)
            &&& p.0@.len() <= password@.len() * 4 + 16
            &&& p.0@.len() == vstd::utf8::encode_utf8(password@).len() + 16
        },
        r is Ok,
{
    let nonce = random_bytes(12);
    match aead_seal(password, key, nonce.as_slice()) {
        Ok(cipher) => Ok((cipher, nonce)),
        Err(_) => vstd::pervasive::unreached(),
    }
}

/// Decrypts one secret. Succeeds exactly when the ciphertext was produced
/// under this key and nonce, and then returns the original plaintext; on a
/// wrong key or corrupted data it fails closed with an authentication error.
pub fn decrypt_password(encrypted: &[u8], nonce: &[u8], key: &[u8]) -> (r: Result<
    String,
    VaultError,
>)
    requires
        key@.len() == 32,
        nonce@.len() == 12,
    ensures
        r matches Ok(p) ==> encrypted@ == sealed(key@, nonce@, p@),
        r matches Ok(p) ==> forall|q: Seq<char>| encrypted@ == sealed(key@, nonce@, q) ==> q == p@,
        r matches Ok(p) ==> p@.len() + 16 <= encrypted@.len() && vstd::utf8::encode_utf8(
            p@,
        ).len() + 16 == encrypted@.len(),
        r matches Err(e) ==> e == VaultError::Authentication && forall|q: Seq<char>|
            encrypted@ != sealed(key@, nonce@, q),
{
    match aead_open(encrypted, key, nonce) {
        Some(plain) => Ok(plain),
        None => Err(VaultError::Authentication),
    }
}

/// The entry's ciphertext opens under this key: some plaintext seals to it
/// with the entry's own nonce.
pub open spec fn entry_decryptable(key: Seq<u8>, e: crate::types::EntryModel) -> bool {
    exists|p: Seq<char>| e.encrypted_password == sealed(key, e.nonce, p)
}

/// The plaintext the entry's ciphertext opens to under this key (meaningful
/// when `entry_decryptable` holds; sealing is injective per key and nonce,
/// so there is only one).
pub open spec fn entry_plaintext(key: Seq<u8>, e: crate::types::EntryModel) -> Seq<char> {
    choose|p: Seq<char>| e.encrypted_password == sealed(key, e.nonce, p)
}

/// Law: the round trip. A ciphertext that encryption produced from a
/// plaintext, handed to decryption under the same key and nonce (whose
/// outcome `decrypt_password`'s contract pins down), yields exactly that
/// plaintext back.
pub proof fn lemma_encrypt_decrypt_round_trip(
    key: Seq<u8>,
    nonce: Seq<u8>,
    plain: Seq<char>,
    outcome: Result<Seq<char>, VaultError>,
)
    requires
        outcome matches Ok(p) ==> sealed(key, nonce, plain) == sealed(key, nonce, p) && forall|
            q: Seq<char>,
        | sealed(key, nonce, plain) == sealed(key, nonce, q) ==> q == p,
        outcome matches Err(e) ==> forall|q: Seq<char>| sealed(key, nonce, plain) != sealed(
            key,
            nonce,
            q,
        ),
    ensures
        outcome == Ok::<Seq<char>, VaultError>(plain),
{
    match outcome {
        Ok(p) => {
            assert(sealed(key, nonce, plain) == sealed(key, nonce, plain));
            assert(plain == p);
        },
        Err(_) => {
            assert(sealed(key, nonce, plain) == sealed(key, nonce, plain));
            assert(false);
        },
    }
}

/// The length `generate_password` actually uses: the request clamped into
/// 8..=128.
pub open spec fn clamped_length(n: usize) -> usize {
    if n < 8 {
        8
    } else if n > 128 {
        128
    } else {
        n
    }
}

/// One of the 26 symbols the generator may draw when symbols are asked for.
pub open spec fn is_symbol_char(c: char) -> bool {
    ||| c == '!'
    ||| c == '@'
    ||| c == '#'
    ||| c == '$'
    ||| c == '%'
    ||| c == '^'
    ||| c == '&'
    ||| c == '*'
    ||| c == '('
    ||| c == ')'
    ||| c == '_'
    ||| c == '+'
    ||| c == '-'
    ||| c == '='
    ||| c == '['
    ||| c == ']'
    ||| c == '{'
    ||| c == '}'
    ||| c == '|'
    ||| c == ';'
    ||| c == ':'
    ||| c == ','
    ||| c == '.'
    ||| c == '<'
    ||| c == '>'
    ||| c == '?'
}

/// The alphabet generated passwords draw from: ASCII lower case, upper case
/// and digits, plus the fixed symbol set when symbols are asked for.
pub open spec fn is_password_char(c: char, include_symbols: bool) -> bool {
    ||| 'a' as u32 <= c as u32 <= 'z' as u32
    ||| 'A' as u32 <= c as u32 <= 'Z' as u32
    ||| '0' as u32 <= c as u32 <= '9' as u32
    ||| (include_symbols && is_symbol_char(c))
}

fn char_for_index(idx: usize, include_symbols: bool) -> (r: char)
    requires
        idx < 62 || (include_symbols && idx < 88),
    ensures
        is_password_char(r, include_symbols),
{
    if idx < 26 {
        (97 + idx as u8) as char
    } else if idx < 52 {
        (65 + (idx - 26) as u8) as char
    } else if idx < 62 {
        (48 + (idx - 52) as u8) as char
    } else {
        match idx {
            62 => '!',
            63 => '@',
            64 => '#',
            65 => '$',
            66 => '%',
            67 => '^',
            68 => '&',
            69 => '*',
            70 => '(',
            71 => ')',
            72 => '_',
            73 => '+',
            74 => '-',
            75 => '=',
            76 => '[',
            77 => ']',
            78 => '{',
            79 => '}',
            80 => '|',
            81 => ';',
            82 => ':',
            83 => ',',
            84 => '.',
            85 => '<',
            86 => '>',
            _ => '?',
        }
    }
}

/// Generates a random password of exactly `clamp(length, 8, 128)` characters,
/// each drawn from the permitted alphabet by the secure random source.
pub fn generate_password(length: usize, include_symbols: bool) -> (r: String)
    ensures
        r@.len() == clamped_length(length),
        forall|i: int| 0 <= i < r@.len() ==> is_password_char(#[trigger] r@[i], include_symbols),
{
    let len: usize = if length < 8 {
        8
    } else if length > 128 {
        128
    } else {
        length
    };
    let size: usize = if include_symbols {
        88
    } else {
        62
    };
    let mut out = String::new();
    let mut i: usize = 0;
    while i < len
        invariant
            i <= len,
            size == if include_symbols { 88int } else { 62int },
            out@.len() == i,
            forall|j: int| 0 <= j < i ==> is_password_char(#[trigger] out@[j], include_symbols),
        decreases len - i,
    {
        let idx = (random_u32() as usize) % size;
        let c = char_for_index(idx, include_symbols);
        crate::text::push_char(&mut out, c);
        i = i + 1;
    }
    out
}

} // verus!
