use gitswitch::secrets::{
    choose_store, erase_reply, fetch_reply, secret_error, KeychainFailure, KeyringStore, MemoryStore, NullStore,
    PlatformStore, SecretStore,
};
use gitswitch::Error;

#[test]
fn memory_store_round_trips() {
    let mut store = MemoryStore::new();
    store.set("github.com:octocat", "ghp_EXAMPLEtoken").unwrap();
    assert_eq!(
        store.get("github.com:octocat").unwrap().as_deref(),
        Some("ghp_EXAMPLEtoken")
    );
    store.delete("github.com:octocat").unwrap();
    assert!(store.get("github.com:octocat").unwrap().is_none());
}

#[test]
fn null_store_refuses_to_persist_tokens() {
    let mut store = NullStore::new();
    assert!(store.set("k", "ghp_EXAMPLEtoken").is_err());
    assert!(store.get("k").unwrap().is_none());
    assert!(!store.available());
}

#[test]
fn memory_store_overwrites_and_keeps_other_keys() {
    let mut store = MemoryStore::new();
    store.set("a", "one").unwrap();
    store.set("b", "two").unwrap();
    store.set("a", "three").unwrap();
    assert_eq!(store.get("a").unwrap().as_deref(), Some("three"));
    assert_eq!(store.get("b").unwrap().as_deref(), Some("two"));
    store.delete("a").unwrap();
    assert!(store.get("a").unwrap().is_none());
    assert_eq!(store.get("b").unwrap().as_deref(), Some("two"));
    assert!(store.available());
}

#[test]
fn credential_store_errors_are_redacted() {
    match secret_error("denied for ghp_EXAMPLE0123456789") {
        Error::Secret(m) => assert_eq!(m, "denied for [redacted]"),
        other => panic!("unexpected error: {}", other.message()),
    }
}

#[test]
fn keychain_reads_answer_per_outcome() {
    assert_eq!(fetch_reply(Ok("ghp_EXAMPLEtoken".to_string())).unwrap().as_deref(), Some("ghp_EXAMPLEtoken"));
    assert!(fetch_reply(Err(KeychainFailure::NoEntry)).unwrap().is_none());
    match fetch_reply(Err(KeychainFailure::Other("locked: ghp_EXAMPLEsecret".to_string()))) {
        Err(Error::Secret(m)) => assert_eq!(m, "locked: [redacted]"),
        other => panic!("unexpected {other:?}"),
    }
}

#[test]
fn keychain_erases_answer_per_outcome() {
    assert!(erase_reply(Ok(())).is_ok());
    assert!(erase_reply(Err(KeychainFailure::NoEntry)).is_ok());
    assert!(matches!(erase_reply(Err(KeychainFailure::Other("denied".to_string()))), Err(Error::Secret(m)) if m == "denied"));
}

#[test]
fn the_keychain_is_used_only_when_available() {
    assert!(matches!(choose_store(KeyringStore::new(), true), PlatformStore::Keyring(_)));
    let fallback = choose_store(KeyringStore::new(), false);
    assert!(matches!(fallback, PlatformStore::Null(_)));
    assert!(!fallback.available());
}
