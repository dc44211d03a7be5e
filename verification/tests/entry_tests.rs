use axion_vault::types::VaultError;
use axion_vault::vault::VaultSession;

fn open_vault() -> VaultSession {
    let mut s = VaultSession::new();
    s.create_vault("correcthorse123").unwrap();
    s
}

#[test]
fn add_returns_the_stored_encrypted_entry() {
    let mut s = open_vault();
    let e = s
        .add_password(
            "https://bank.com".to_string(),
            "alice".to_string(),
            "s3cret!".to_string(),
        )
        .unwrap();
    assert_eq!(e.url, "https://bank.com");
    assert_eq!(e.username, "alice");
    assert_eq!(e.id.len(), 36);
    assert_eq!(e.nonce.len(), 12);
    assert_eq!(e.created_at, e.updated_at);
    assert_ne!(e.encrypted_password.as_slice(), "s3cret!".as_bytes());
}

#[test]
fn operations_require_an_unlocked_session() {
    let mut s = open_vault();
    s.lock_vault().unwrap();
    assert!(matches!(
        s.add_password("u".to_string(), "n".to_string(), "p".to_string()),
        Err(VaultError::VaultLocked)
    ));
    assert!(matches!(
        s.update_password("x".to_string(), None, None, None),
        Err(VaultError::VaultLocked)
    ));
    assert!(matches!(
        s.delete_password("x".to_string()),
        Err(VaultError::VaultLocked)
    ));
    assert!(matches!(
        s.search_passwords("a".to_string()),
        Err(VaultError::VaultLocked)
    ));
    assert!(matches!(
        s.get_passwords_for_url("https://bank.com".to_string()),
        Err(VaultError::VaultLocked)
    ));
}

#[test]
fn update_of_the_password_touches_nothing_else() {
    let mut s = open_vault();
    let added = s
        .add_password(
            "https://bank.com".to_string(),
            "alice".to_string(),
            "s3cret!".to_string(),
        )
        .unwrap();
    // Age the entry so the refresh of updated_at is observable.
    let mut stored = s.stored_vault().unwrap();
    stored.entries[0].created_at = 1000;
    stored.entries[0].updated_at = 1000;
    let mut s2 = VaultSession::from_stored(stored).unwrap();
    s2.unlock_vault("correcthorse123").unwrap();
    let updated = s2
        .update_password(added.id.clone(), None, None, Some("newpass".to_string()))
        .unwrap();
    assert_eq!(updated.id, added.id);
    assert_eq!(updated.url, "https://bank.com");
    assert_eq!(updated.username, "alice");
    assert_eq!(updated.created_at, 1000);
    assert!(updated.updated_at > 1000);
    let list = s2.get_passwords().unwrap();
    assert_eq!(list.len(), 1);
    assert_eq!(list[0].password, "newpass");
    assert_eq!(list[0].username, "alice");
    assert_eq!(list[0].url, "https://bank.com");
    assert_eq!(list[0].created_at, 1000);
}

#[test]
fn update_without_a_new_password_keeps_the_old_one() {
    let mut s = open_vault();
    let added = s
        .add_password(
            "https://bank.com".to_string(),
            "alice".to_string(),
            "s3cret!".to_string(),
        )
        .unwrap();
    let updated = s
        .update_password(
            added.id.clone(),
            Some("https://bank.example".to_string()),
            Some("bob".to_string()),
            None,
        )
        .unwrap();
    assert_eq!(updated.encrypted_password, added.encrypted_password);
    assert_eq!(updated.nonce, added.nonce);
    let list = s.get_passwords().unwrap();
    assert_eq!(list[0].url, "https://bank.example");
    assert_eq!(list[0].username, "bob");
    assert_eq!(list[0].password, "s3cret!");
}

#[test]
fn update_of_an_absent_id_is_not_found() {
    let mut s = open_vault();
    let r = s.update_password("no-such-id".to_string(), None, None, None);
    assert!(matches!(r, Err(VaultError::NotFound)));
}

#[test]
fn delete_removes_the_entry_and_only_it() {
    let mut s = open_vault();
    let a = s
        .add_password("https://a.com".to_string(), "a".to_string(), "pa".to_string())
        .unwrap();
    let b = s
        .add_password("https://b.com".to_string(), "b".to_string(), "pb".to_string())
        .unwrap();
    assert!(s.delete_password(a.id.clone()).unwrap());
    let list = s.get_passwords().unwrap();
    assert_eq!(list.len(), 1);
    assert_eq!(list[0].id, b.id);
    let r = s.delete_password(a.id);
    assert!(matches!(r, Err(VaultError::NotFound)));
}

#[test]
fn search_is_a_case_insensitive_substring_match() {
    let mut s = open_vault();
    s.add_password(
        "https://Bank.com".to_string(),
        "alice".to_string(),
        "pa".to_string(),
    )
    .unwrap();
    s.add_password(
        "https://mail.org".to_string(),
        "BANKER".to_string(),
        "pb".to_string(),
    )
    .unwrap();
    s.add_password(
        "https://news.net".to_string(),
        "carol".to_string(),
        "pc".to_string(),
    )
    .unwrap();
    let hits = s.search_passwords("bank".to_string()).unwrap();
    assert_eq!(hits.len(), 2);
    let empty = s.search_passwords("zebra".to_string()).unwrap();
    assert_eq!(empty.len(), 0);
    let all = s.search_passwords("".to_string()).unwrap();
    assert_eq!(all.len(), 3);
}

#[test]
fn find_for_host_matches_by_hostname_with_www_stripped() {
    let mut s = open_vault();
    s.add_password("example.com".to_string(), "a".to_string(), "pa".to_string())
        .unwrap();
    s.add_password(
        "https://example.com".to_string(),
        "b".to_string(),
        "pb".to_string(),
    )
    .unwrap();
    s.add_password("example.org".to_string(), "c".to_string(), "pc".to_string())
        .unwrap();
    let hits = s
        .get_passwords_for_url("https://www.example.com/login".to_string())
        .unwrap();
    assert_eq!(hits.len(), 2);
    let names: Vec<&str> = hits.iter().map(|e| e.username.as_str()).collect();
    assert!(names.contains(&"a"));
    assert!(names.contains(&"b"));
}

#[test]
fn find_for_host_with_no_extractable_host_matches_nothing() {
    let mut s = open_vault();
    s.add_password("example.com".to_string(), "a".to_string(), "pa".to_string())
        .unwrap();
    let hits = s.get_passwords_for_url("".to_string()).unwrap();
    assert_eq!(hits.len(), 0);
}

#[test]
fn a_tampered_entry_makes_listing_fail_closed() {
    let mut s = open_vault();
    s.add_password(
        "https://bank.com".to_string(),
        "alice".to_string(),
        "s3cret!".to_string(),
    )
    .unwrap();
    let mut stored = s.stored_vault().unwrap();
    stored.entries[0].encrypted_password[2] ^= 0xFF;
    let mut s2 = VaultSession::from_stored(stored).unwrap();
    s2.unlock_vault("correcthorse123").unwrap();
    let r = s2.get_passwords();
    assert!(matches!(r, Err(VaultError::Authentication)));
}
