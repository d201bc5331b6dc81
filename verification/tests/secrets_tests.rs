use sslboard_desktop::secrets::{
    ensure_prefix, open_secret, seal_secret, secret_ref, MasterKeyVault, SecretError, SecretKind,
    SecretStoreError,
};

#[test]
fn kinds_round_trip_through_storage_names() {
    for k in [
        SecretKind::DnsProviderToken,
        SecretKind::DnsProviderAccessKey,
        SecretKind::DnsProviderSecretKey,
        SecretKind::AcmeAccountKey,
        SecretKind::ManagedPrivateKey,
    ] {
        assert_eq!(SecretKind::from_stored(k.as_str()), Ok(k));
    }
    assert_eq!(SecretKind::from_stored("dns_credential"), Ok(SecretKind::DnsProviderToken));
    assert_eq!(
        SecretKind::from_stored("password"),
        Err("unknown secret kind: password".to_string())
    );
}

#[test]
fn references_need_the_prefix() {
    assert!(ensure_prefix("sec_", "sec_abc").is_ok());
    match ensure_prefix("sec_", "abc") {
        Err(e @ SecretError::InvalidReference(_)) => {
            assert_eq!(e.message(), "invalid secret reference: expected prefix sec_")
        }
        other => panic!("unexpected {:?}", other),
    }
    assert_eq!(secret_ref("sec_", "0123"), "sec_0123");
}

#[test]
fn store_errors_map_to_manager_errors() {
    match SecretError::from_store_error_for(SecretStoreError::NotFound("x".to_string()), "sec_1") {
        SecretError::NotFound(id) => assert_eq!(id, "sec_1"),
        other => panic!("unexpected {:?}", other),
    }
    match SecretError::from_store_error(SecretStoreError::Locked("vault is locked".to_string())) {
        e @ SecretError::Locked(_) => assert_eq!(e.message(), "secret vault is locked: vault is locked"),
        other => panic!("unexpected {:?}", other),
    }
    match SecretError::from_store_error(SecretStoreError::MasterKeyMismatch) {
        SecretError::Store(m) => assert!(m.starts_with("master key mismatch")),
        other => panic!("unexpected {:?}", other),
    }
    assert_eq!(
        SecretStoreError::NotFound("a".to_string()).message(),
        "secret not found: a"
    );
}

#[test]
fn vault_locks_and_unlocks() {
    let mut vault = MasterKeyVault::new();
    assert!(!vault.is_unlocked());
    assert!(vault.needs_key());
    match vault.with_key() {
        Err(SecretStoreError::Locked(m)) => assert_eq!(m, "vault is locked"),
        _ => panic!("expected a locked vault"),
    }
    vault.unlock_with(vec![7u8; 32]);
    assert!(vault.is_unlocked());
    assert_eq!(vault.with_key().unwrap().len(), 32);
    vault.lock();
    assert!(!vault.is_unlocked());
}

#[test]
fn sealed_secrets_open_again() {
    let mut vault = MasterKeyVault::new();
    vault.unlock_with((0u8..32).collect());
    let nonce = [9u8; 12];
    let payload = seal_secret(&vault, &nonce, b"api-token").unwrap();
    assert_eq!(payload.len(), 12 + 9 + 16);
    assert_eq!(&payload[..12], &nonce);
    assert_eq!(open_secret(&vault, "sec_1", Some(payload.clone())).unwrap(), b"api-token");

    let mut other = MasterKeyVault::new();
    other.unlock_with(vec![1u8; 32]);
    assert!(matches!(
        open_secret(&other, "sec_1", Some(payload.clone())),
        Err(SecretStoreError::MasterKeyMismatch)
    ));
    assert!(matches!(open_secret(&vault, "sec_1", None), Err(SecretStoreError::NotFound(id)) if id == "sec_1"));
    assert!(matches!(
        open_secret(&vault, "sec_1", Some(vec![1, 2, 3])),
        Err(SecretStoreError::Store(m)) if m == "stored ciphertext missing nonce"
    ));
    let locked = MasterKeyVault::new();
    assert!(matches!(open_secret(&locked, "sec_1", Some(payload)), Err(SecretStoreError::Locked(_))));
    let mut short_key = MasterKeyVault::new();
    short_key.unlock_with(vec![1u8; 16]);
    assert!(matches!(seal_secret(&short_key, &nonce, b"x"), Err(SecretStoreError::Store(_))));
}
