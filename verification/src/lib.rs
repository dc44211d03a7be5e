//! An encrypted credential vault: Argon2 key derivation, AES-256-GCM
//! authenticated encryption of secrets, a brute-force lockout policy, and
//! CRUD plus host-based lookup over the decrypted entries.
//!
//! The vault file itself is read and written by the embedding application;
//! this library holds the vault aggregate in memory, enforces the session
//! state machine (uninitialized / locked / unlocked), and proves what each
//! operation does to the stored data.

pub mod adblock;
pub mod crypto;
pub mod operations;
pub mod text;
pub mod types;
pub mod urls;
pub mod vault;
