use gitswitch::model::{Account, DEFAULT_HOST};
use gitswitch::store::{blank_document, legacy_active, migrate_legacy, schema_version, Config, LegacyAccount, Store, SCHEMA_VERSION};
use gitswitch::Error;

fn store() -> Store {
    Store::empty("accounts.json")
}

fn sample(name: &str) -> Account {
    Account::new(name, "octocat", "Octo Cat", "octo@example.com")
}

#[test]
fn missing_file_starts_empty() {
    assert!(store().is_empty());
}

#[test]
fn accounts_persist_between_sessions() {
    let mut first = store();
    first.add(sample("work")).unwrap();
    first.set_active("work").unwrap();

    let saved = first.saved_config();
    let second = Store::with_config(first.path(), saved);
    assert_eq!(second.accounts().len(), 1);
    assert_eq!(second.active().unwrap().name, "work");
}

#[test]
fn duplicate_names_are_rejected_case_insensitively() {
    let mut store = store();
    store.add(sample("work")).unwrap();
    let err = store.add(sample("WORK")).unwrap_err();
    assert!(matches!(err, Error::DuplicateAccount(_)));
}

#[test]
fn removing_the_active_account_clears_it() {
    let mut store = store();
    store.add(sample("work")).unwrap();
    store.set_active("work").unwrap();
    store.remove("work").unwrap();
    assert!(store.active().is_none());
    assert!(store.is_empty());
}

#[test]
fn removing_an_unknown_account_errors() {
    let mut store = store();
    assert!(matches!(
        store.remove("ghost").unwrap_err(),
        Error::UnknownAccount(_)
    ));
}

#[test]
fn rename_moves_the_active_marker() {
    let mut store = store();
    store.add(sample("work")).unwrap();
    store.set_active("work").unwrap();
    store.rename("work", "job").unwrap();
    assert_eq!(store.active().unwrap().name, "job");
}

#[test]
fn rename_onto_an_existing_name_is_rejected() {
    let mut store = store();
    store.add(sample("work")).unwrap();
    store.add(sample("personal")).unwrap();
    assert!(matches!(
        store.rename("work", "personal").unwrap_err(),
        Error::DuplicateAccount(_)
    ));
}

#[test]
fn newer_schema_versions_are_refused() {
    match schema_version("/tmp/accounts.json", Some(999)).unwrap_err() {
        Error::ConfigTooNew { path, found, supported } => {
            assert_eq!(path, "/tmp/accounts.json");
            assert_eq!(found, 999);
            assert_eq!(supported, SCHEMA_VERSION);
        }
        other => panic!("unexpected error: {}", other.message()),
    }
    assert_eq!(schema_version("p", None).unwrap(), 0);
    assert_eq!(schema_version("p", Some(1)).unwrap(), 1);
}

#[test]
fn empty_file_is_treated_as_no_accounts() {
    assert!(blank_document("   \n"));
    assert!(blank_document(""));
    assert!(!blank_document(" {} "));
}

#[test]
fn lookups_ignore_case_and_keep_the_stored_name() {
    let mut store = store();
    store.add(sample("Work")).unwrap();
    assert_eq!(store.get("WORK").unwrap().name, "Work");
    assert!(store.require("nope").is_err());
    store.set_active("work").unwrap();
    assert_eq!(store.config().active.as_deref(), Some("Work"));
}

#[test]
fn invalid_accounts_are_refused() {
    let mut store = store();
    let err = store.add(Account::new("bad name", "octocat", "Octo Cat", "octo@example.com")).unwrap_err();
    assert!(matches!(err, Error::InvalidInput(_)));
    assert!(store.is_empty());
}

#[test]
fn update_replaces_the_account_with_that_name() {
    let mut store = store();
    store.add(sample("work")).unwrap();
    let mut changed = sample("WORK");
    changed.host = "github.example.com".to_string();
    store.update(changed).unwrap();
    assert_eq!(store.accounts()[0].host, "github.example.com");
    assert!(matches!(store.update(sample("ghost")).unwrap_err(), Error::UnknownAccount(_)));
}

#[test]
fn renaming_only_the_case_is_allowed() {
    let mut store = store();
    store.add(sample("work")).unwrap();
    store.rename("work", "Work").unwrap();
    assert_eq!(store.accounts()[0].name, "Work");
    assert!(matches!(store.rename("ghost", "other").unwrap_err(), Error::UnknownAccount(_)));
    assert!(matches!(store.rename("Work", "bad name").unwrap_err(), Error::InvalidInput(_)));
}

#[test]
fn saved_configurations_carry_the_current_schema() {
    let config = Config { version: 0, active: None, accounts: vec![sample("work")] };
    let store = Store::with_config("x", config);
    let saved = store.saved_config();
    assert_eq!(saved.version, SCHEMA_VERSION);
    assert_eq!(saved.accounts[0].host, DEFAULT_HOST);
}

#[test]
fn legacy_profiles_become_a_list_with_their_names() {
    let work = LegacyAccount {
        username: "octocat".to_string(),
        git_name: "Octo Cat".to_string(),
        git_email: "octo@example.com".to_string(),
        host: DEFAULT_HOST.to_string(),
        has_stored_token: false,
    };
    let config = migrate_legacy(Some("work".to_string()), vec![("work".to_string(), work)]);
    assert_eq!(config.version, SCHEMA_VERSION);
    assert_eq!(config.active.as_deref(), Some("work"));
    assert_eq!(config.accounts.len(), 1);
    let store = Store::with_config("accounts.json", config);
    let account = store.get("work").unwrap();
    assert_eq!(account.username, "octocat");
    assert_eq!(account.host, DEFAULT_HOST);
    assert_eq!(store.active().unwrap().name, "work");
}

#[test]
fn an_empty_legacy_document_migrates_to_no_accounts() {
    let config = migrate_legacy(None, Vec::new());
    assert_eq!(config.version, SCHEMA_VERSION);
    assert!(config.active.is_none());
    assert!(config.accounts.is_empty());
}

#[test]
fn a_legacy_current_entry_wins_over_active() {
    let pick = |c: Option<Option<&str>>, a: Option<Option<&str>>| {
        legacy_active(
            c.map(|v| Ok(v.map(str::to_string))),
            a.map(|v| Ok(v.map(str::to_string))),
        )
        .unwrap()
    };
    assert_eq!(pick(Some(Some("work")), Some(Some("home"))).as_deref(), Some("work"));
    assert_eq!(pick(Some(None), Some(Some("home"))), None);
    assert_eq!(pick(None, Some(Some("home"))).as_deref(), Some("home"));
    assert_eq!(pick(None, None), None);
    let bad = legacy_active(Some(Err(gitswitch::Error::InvalidInput("x".to_string()))), Some(Ok(None)));
    assert!(bad.is_err());
}

#[test]
fn versions_beyond_any_u32_are_refused_too() {
    match schema_version("p", Some(1u64 << 32)).unwrap_err() {
        Error::ConfigTooNew { found, supported, .. } => {
            assert_eq!(found, u32::MAX);
            assert_eq!(supported, SCHEMA_VERSION);
        }
        other => panic!("unexpected error: {other:?}"),
    }
}
