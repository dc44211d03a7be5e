use axion_vault::types::VaultError;
use axion_vault::vault::VaultSession;

#[test]
fn create_rejects_weak_passphrase() {
    let mut s = VaultSession::new();
    let r = s.create_vault("short7!");
    assert!(matches!(r, Err(VaultError::WeakPassword)));
    assert!(!s.vault_exists());
}

#[test]
fn create_then_create_again_already_exists() {
    let mut s = VaultSession::new();
    s.create_vault("correcthorse123").unwrap();
    assert!(s.vault_exists());
    assert!(s.is_vault_unlocked());
    let r = s.create_vault("correcthorse123");
    assert!(matches!(r, Err(VaultError::AlreadyExists)));
}

#[test]
fn unlock_without_vault_is_not_found() {
    let mut s = VaultSession::new();
    let r = s.unlock_vault("correcthorse123");
    assert!(matches!(r, Err(VaultError::NotFound)));
}

#[test]
fn lock_drops_the_key_and_keeps_the_vault() {
    let mut s = VaultSession::new();
    s.create_vault("correcthorse123").unwrap();
    assert!(s.is_vault_unlocked());
    s.lock_vault().unwrap();
    assert!(!s.is_vault_unlocked());
    assert!(s.vault_exists());
}

#[test]
fn delete_vault_is_idempotent() {
    let mut s = VaultSession::new();
    s.create_vault("correcthorse123").unwrap();
    s.delete_vault().unwrap();
    assert!(!s.vault_exists());
    assert!(!s.is_vault_unlocked());
    s.delete_vault().unwrap();
    assert!(!s.vault_exists());
}

#[test]
fn create_add_lock_unlock_list_round_trip() {
    let mut s = VaultSession::new();
    s.create_vault("correcthorse123").unwrap();
    s.add_password(
        "https://bank.com".to_string(),
        "alice".to_string(),
        "s3cret!".to_string(),
    )
    .unwrap();
    s.lock_vault().unwrap();
    assert!(matches!(
        s.get_passwords(),
        Err(VaultError::VaultLocked)
    ));
    s.unlock_vault("correcthorse123").unwrap();
    let list = s.get_passwords().unwrap();
    assert_eq!(list.len(), 1);
    assert_eq!(list[0].url, "https://bank.com");
    assert_eq!(list[0].username, "alice");
    assert_eq!(list[0].password, "s3cret!");
}

#[test]
fn wrong_attempts_count_down_and_a_correct_unlock_resets() {
    let mut s = VaultSession::new();
    s.create_vault("correcthorse123").unwrap();
    s.lock_vault().unwrap();
    assert_eq!(s.get_remaining_attempts(), 15);
    match s.unlock_vault("wrongpass1") {
        Err(VaultError::InvalidPassword { remaining }) => assert_eq!(remaining, 14),
        other => panic!("expected an invalid-password error, got {:?}", other),
    }
    match s.unlock_vault("wrongpass2") {
        Err(VaultError::InvalidPassword { remaining }) => assert_eq!(remaining, 13),
        other => panic!("expected an invalid-password error, got {:?}", other),
    }
    assert_eq!(s.get_remaining_attempts(), 13);
    assert!(s.unlock_vault("correcthorse123").unwrap());
    assert!(s.is_vault_unlocked());
    assert_eq!(s.get_remaining_attempts(), 15);
}

#[test]
fn the_final_wrong_attempt_destroys_the_vault() {
    let mut s = VaultSession::new();
    s.create_vault("correcthorse123").unwrap();
    s.lock_vault().unwrap();
    let mut stored = s.stored_vault().unwrap();
    stored.metadata.failed_attempts = 14;
    let mut s2 = VaultSession::from_stored(stored).unwrap();
    assert_eq!(s2.get_remaining_attempts(), 1);
    let r = s2.unlock_vault("wrongpass1");
    assert!(matches!(r, Err(VaultError::LockedOut)));
    assert!(!s2.vault_exists());
    assert!(!s2.is_vault_unlocked());
}

#[test]
fn an_exhausted_counter_locks_out_before_any_derivation() {
    let mut s = VaultSession::new();
    s.create_vault("correcthorse123").unwrap();
    s.lock_vault().unwrap();
    let mut stored = s.stored_vault().unwrap();
    stored.metadata.failed_attempts = 15;
    let mut s2 = VaultSession::from_stored(stored).unwrap();
    assert_eq!(s2.get_remaining_attempts(), 0);
    let r = s2.unlock_vault("correcthorse123");
    assert!(matches!(r, Err(VaultError::LockedOut)));
    assert!(!s2.vault_exists());
}

#[test]
fn a_legacy_vault_without_verification_nonce_is_rejected() {
    let mut s = VaultSession::new();
    s.create_vault("correcthorse123").unwrap();
    let mut stored = s.stored_vault().unwrap();
    stored.metadata.verification_nonce = Vec::new();
    let r = VaultSession::from_stored(stored);
    assert!(matches!(r, Err(VaultError::Format)));
}

#[test]
fn change_master_password_rekeys_and_keeps_entries() {
    let mut s = VaultSession::new();
    s.create_vault("oldhorse12345").unwrap();
    s.add_password(
        "https://bank.com".to_string(),
        "alice".to_string(),
        "s3cret!".to_string(),
    )
    .unwrap();
    assert!(s.change_master_password("oldhorse12345", "newhorse67890").unwrap());
    s.lock_vault().unwrap();
    let r = s.unlock_vault("oldhorse12345");
    assert!(matches!(r, Err(VaultError::InvalidPassword { .. })));
    assert!(s.unlock_vault("newhorse67890").unwrap());
    let list = s.get_passwords().unwrap();
    assert_eq!(list.len(), 1);
    assert_eq!(list[0].username, "alice");
    assert_eq!(list[0].password, "s3cret!");
}

#[test]
fn change_master_password_needs_no_unlocked_session() {
    let mut s = VaultSession::new();
    s.create_vault("oldhorse12345").unwrap();
    s.add_password(
        "https://bank.com".to_string(),
        "alice".to_string(),
        "s3cret!".to_string(),
    )
    .unwrap();
    s.lock_vault().unwrap();
    assert!(s.change_master_password("oldhorse12345", "newhorse67890").unwrap());
    assert!(s.unlock_vault("newhorse67890").unwrap());
    assert_eq!(s.get_passwords().unwrap()[0].password, "s3cret!");
}

#[test]
fn failed_attempts_leave_the_entries_intact() {
    let mut s = VaultSession::new();
    s.create_vault("correcthorse123").unwrap();
    s.add_password(
        "https://bank.com".to_string(),
        "alice".to_string(),
        "s3cret!".to_string(),
    )
    .unwrap();
    s.lock_vault().unwrap();
    assert!(s.unlock_vault("wrongpass1").is_err());
    assert!(s.unlock_vault("wrongpass2").is_err());
    assert!(s.unlock_vault("correcthorse123").unwrap());
    let list = s.get_passwords().unwrap();
    assert_eq!(list.len(), 1);
    assert_eq!(list[0].password, "s3cret!");
}

#[test]
fn change_master_password_rejects_a_weak_new_passphrase() {
    let mut s = VaultSession::new();
    s.create_vault("oldhorse12345").unwrap();
    let r = s.change_master_password("oldhorse12345", "weak");
    assert!(matches!(r, Err(VaultError::WeakPassword)));
}

#[test]
fn change_master_password_without_vault_is_not_found() {
    let mut s = VaultSession::new();
    let r = s.change_master_password("oldhorse12345", "newhorse67890");
    assert!(matches!(r, Err(VaultError::NotFound)));
}

#[test]
fn change_master_password_fails_whole_when_an_entry_does_not_decrypt() {
    let mut s = VaultSession::new();
    s.create_vault("oldhorse12345").unwrap();
    s.add_password(
        "https://bank.com".to_string(),
        "alice".to_string(),
        "s3cret!".to_string(),
    )
    .unwrap();
    let mut stored = s.stored_vault().unwrap();
    stored.entries[0].encrypted_password[0] ^= 0x01;
    let mut s2 = VaultSession::from_stored(stored).unwrap();
    let r = s2.change_master_password("oldhorse12345", "newhorse67890");
    assert!(matches!(r, Err(VaultError::Authentication)));
    assert!(s2.vault_exists());
    assert!(s2.unlock_vault("oldhorse12345").unwrap());
}
