use gitswitch::git::Scope;
use gitswitch::model::Account;
use gitswitch::secrets::{MemoryStore, SecretStore};
use gitswitch::service::{GhOutcome, Service, SwitchOptions};
use gitswitch::store::Store;
use gitswitch::testing::{gh_status_output, MockRunner};
use gitswitch::Error;

fn service(runner: MockRunner) -> Service<MockRunner, MemoryStore> {
    Service::new(runner, MemoryStore::new(), Store::empty("accounts.json"))
}

fn account(name: &str, username: &str) -> Account {
    Account::new(
        name,
        username,
        "Octo Cat",
        &format!("{username}@users.noreply.github.com"),
    )
}

fn base_runner() -> MockRunner {
    MockRunner::new()
        .ok("git config", "")
        .ok("gh auth setup-git", "")
}

#[test]
fn switching_uses_gh_auth_switch_when_the_account_is_known() {
    let statuses = gh_status_output("github.com", &[("octocat", false), ("work-bot", true)]);
    let after = gh_status_output("github.com", &[("octocat", true), ("work-bot", false)]);
    let runner = base_runner()
        .ok("gh auth status", &statuses)
        .ok("gh auth status", &after)
        .ok("gh auth switch", "");

    let mut service = service(runner);
    service
        .store_mut()
        .add(account("personal", "octocat"))
        .unwrap();

    let report = service
        .switch("personal", SwitchOptions::default())
        .unwrap();
    assert_eq!(report.gh, GhOutcome::Switched);
    assert!(report.verified);
    assert!(report.warnings.is_empty());
    assert!(service
        .runner()
        .was_called("gh auth switch --hostname github.com --user octocat"));
    assert!(service
        .runner()
        .was_called("git config --global user.name Octo Cat"));
}

#[test]
fn switching_to_the_active_account_is_a_no_op_for_gh() {
    let status = gh_status_output("github.com", &[("octocat", true)]);
    let runner = base_runner().ok("gh auth status", &status);

    let mut service = service(runner);
    service
        .store_mut()
        .add(account("personal", "octocat"))
        .unwrap();

    let report = service
        .switch("personal", SwitchOptions::default())
        .unwrap();
    assert_eq!(report.gh, GhOutcome::AlreadyActive);
    assert!(!service.runner().was_called("gh auth switch"));
}

#[test]
fn an_unknown_account_is_reauthenticated_from_the_credential_store() {
    let empty = "You are not logged into any GitHub hosts";
    let after = gh_status_output("github.com", &[("octocat", true)]);
    let runner = base_runner()
        .status("gh auth status", 1, "", empty)
        .ok("gh auth status", &after)
        .ok("gh auth login", "");

    let mut secrets = MemoryStore::new();
    secrets
        .set("github.com:octocat", "ghp_EXAMPLE0123456789abc")
        .unwrap();
    let mut service = Service::new(runner, secrets, Store::empty("accounts.json"));
    service
        .store_mut()
        .add(account("personal", "octocat"))
        .unwrap();

    let report = service
        .switch("personal", SwitchOptions::default())
        .unwrap();
    assert_eq!(report.gh, GhOutcome::ReAuthenticated);
    assert_eq!(
        service.runner().stdin_for("gh auth login").as_deref(),
        Some("ghp_EXAMPLE0123456789abc")
    );
}

#[test]
fn switching_without_any_credentials_asks_the_user_to_authenticate() {
    let runner = base_runner().status("gh auth status", 1, "", "not logged in");

    let mut service = service(runner);
    service
        .store_mut()
        .add(account("personal", "octocat"))
        .unwrap();

    let err = service
        .switch("personal", SwitchOptions::default())
        .unwrap_err();
    assert!(matches!(err, Error::NotAuthenticated(_)));
}

#[test]
fn a_switch_that_does_not_take_effect_is_reported() {
    let before = gh_status_output("github.com", &[("octocat", false), ("work-bot", true)]);
    let runner = base_runner()
        .ok("gh auth status", &before)
        .ok("gh auth status", &before)
        .ok("gh auth switch", "");

    let mut service = service(runner);
    service
        .store_mut()
        .add(account("personal", "octocat"))
        .unwrap();

    let err = service
        .switch("personal", SwitchOptions::default())
        .unwrap_err();
    match err {
        Error::VerificationFailed { expected, found } => {
            assert_eq!(expected, "octocat");
            assert_eq!(found, "work-bot");
        }
        other => panic!("unexpected error: {}", other.message()),
    }
}

#[test]
fn missing_gh_still_updates_the_git_identity() {
    let runner = MockRunner::new().ok("git config", "").missing("gh");

    let mut service = service(runner);
    service
        .store_mut()
        .add(account("personal", "octocat"))
        .unwrap();

    let report = service
        .switch("personal", SwitchOptions::default())
        .unwrap();
    assert!(matches!(report.gh, GhOutcome::Skipped(_)));
    assert_eq!(report.warnings.len(), 1);
    assert_eq!(
        service.store().active().map(|a| a.name.clone()),
        Some("personal".to_string())
    );
    assert!(service.runner().was_called("git config --global user.email"));
}

#[test]
fn switching_an_unknown_profile_fails_before_touching_git() {
    let runner = MockRunner::new();
    let mut service = service(runner);
    let err = service
        .switch("ghost", SwitchOptions::default())
        .unwrap_err();
    assert!(matches!(err, Error::UnknownAccount(_)));
    assert!(service.runner().calls().is_empty());
}

#[test]
fn local_scope_requires_a_repository() {
    let runner = MockRunner::new().status(
        "git rev-parse --is-inside-work-tree",
        128,
        "",
        "fatal: not a git repository",
    );
    let mut service = service(runner);
    service
        .store_mut()
        .add(account("personal", "octocat"))
        .unwrap();

    let err = service
        .switch(
            "personal",
            SwitchOptions {
                scope: Scope::Local,
                verify: false,
            },
        )
        .unwrap_err();
    assert!(err.message().contains("not inside a git repository"));
}

#[test]
fn adding_with_a_token_authenticates_and_caches_it() {
    let runner = MockRunner::new().ok("gh auth login", "");
    let mut service = service(runner);

    let saved = service
        .add_account(
            account("work", "work-bot"),
            Some("ghp_EXAMPLE0123456789abc"),
        )
        .unwrap();
    assert!(saved.has_stored_token);
    assert_eq!(service.store().accounts().len(), 1);
    let (_, mut secrets, _) = service.into_parts();
    assert_eq!(
        secrets.get("github.com:work-bot").unwrap().as_deref(),
        Some("ghp_EXAMPLE0123456789abc")
    );
}

#[test]
fn a_rejected_token_does_not_save_the_account() {
    let runner = MockRunner::new().status("gh auth login", 1, "", "bad credentials");
    let mut service = service(runner);

    assert!(service
        .add_account(
            account("work", "work-bot"),
            Some("ghp_EXAMPLE0123456789abc")
        )
        .is_err());
    assert!(service.store().is_empty());
    let (_, mut secrets, _) = service.into_parts();
    assert!(secrets.get("github.com:work-bot").unwrap().is_none());
}

#[test]
fn removing_an_account_clears_its_cached_token() {
    let runner = MockRunner::new().ok("gh auth logout", "");
    let mut secrets = MemoryStore::new();
    secrets.set("github.com:octocat", "ghp_x").unwrap();
    let mut service = Service::new(runner, secrets, Store::empty("accounts.json"));
    service
        .store_mut()
        .add(account("personal", "octocat"))
        .unwrap();

    service.remove_account("personal", true).unwrap();
    assert!(service.store().is_empty());
    assert!(service.runner().was_called("gh auth logout"));
    let (_, mut secrets, _) = service.into_parts();
    assert!(secrets.get("github.com:octocat").unwrap().is_none());
}

#[test]
fn status_flags_a_mismatch_between_git_and_gh() {
    let runner = MockRunner::new()
        .ok("git --version", "git version 2.55.0")
        .ok("gh --version", "gh version 2.97.0")
        .ok("git config --get user.name", "Octo Cat")
        .ok("git config --get user.email", "octo@example.com")
        .ok(
            "gh auth status",
            &gh_status_output("github.com", &[("work-bot", true)]),
        );

    let mut service = service(runner);
    service
        .store_mut()
        .add(account("personal", "octocat"))
        .unwrap();
    service.store_mut().set_active("personal").unwrap();

    let status = service.status();
    assert!(status.git_installed && status.gh_installed);
    assert_eq!(status.gh_login.as_deref(), Some("work-bot"));
    assert!(!status.is_consistent());
}

#[test]
fn status_reports_missing_dependencies_as_problems() {
    let runner = MockRunner::new().missing("git").missing("gh");
    let mut service = service(runner);
    let status = service.status();
    assert_eq!(status.problems.len(), 2);
    assert!(status.problems.iter().any(|p| p.contains("git")));
    assert!(status.problems.iter().any(|p| p.contains("gh")));
}

#[test]
fn a_failed_credential_helper_setup_only_warns() {
    let status = gh_status_output("github.com", &[("octocat", true)]);
    let runner = MockRunner::new()
        .ok("git config", "")
        .status("gh auth setup-git", 1, "", "cannot write helper")
        .ok("gh auth status", &status);
    let mut service = service(runner);
    service.store_mut().add(account("personal", "octocat")).unwrap();
    let report = service.switch("personal", SwitchOptions::default()).unwrap();
    assert_eq!(report.warnings.len(), 1);
    assert_eq!(
        report.warnings[0],
        "git credential helper was not updated: `gh auth setup-git` exited with status 1: cannot write helper"
    );
}

#[test]
fn a_failed_switch_leaves_the_active_account_alone() {
    let runner = base_runner().status("gh auth status", 1, "", "not logged in");
    let mut service = service(runner);
    service.store_mut().add(account("personal", "octocat")).unwrap();
    service.store_mut().add(account("work", "work-bot")).unwrap();
    service.store_mut().set_active("work").unwrap();
    assert!(service.switch("personal", SwitchOptions::default()).is_err());
    assert_eq!(service.store().active().unwrap().name, "work");
}

#[test]
fn reauthenticating_stores_the_new_token() {
    let runner = MockRunner::new().ok("gh auth login", "");
    let mut service = service(runner);
    service.store_mut().add(account("work", "work-bot")).unwrap();
    service.reauthenticate("work", " ghp_EXAMPLE0123456789abc ").unwrap();
    assert!(service.store().get("work").unwrap().has_stored_token);
    assert_eq!(
        service.runner().stdin_for("gh auth login").as_deref(),
        Some("ghp_EXAMPLE0123456789abc")
    );
    assert!(matches!(service.reauthenticate("ghost", "ghp_EXAMPLE0123456789abc"), Err(Error::UnknownAccount(_))));
    assert!(matches!(service.reauthenticate("work", "short"), Err(Error::InvalidInput(_))));
}

#[test]
fn renaming_goes_through_the_store() {
    let mut service = service(MockRunner::new());
    service.store_mut().add(account("work", "work-bot")).unwrap();
    service.rename_account("work", "job").unwrap();
    assert!(service.store().get("job").is_some());
    assert!(service.runner().calls().is_empty());
}

#[test]
fn a_browser_sign_in_then_switches_to_the_profile() {
    let status = gh_status_output("github.com", &[("octocat", true)]);
    let runner = base_runner()
        .ok("gh auth login", "")
        .ok("gh auth status", &status);
    let mut service = service(runner);
    service
        .store_mut()
        .add(account("personal", "octocat"))
        .unwrap();

    let target = service.sign_in_target("PERSONAL").unwrap();
    assert_eq!(target.name, "personal");
    let report = service.sign_in(&target).unwrap();
    assert_eq!(report.account.name, "personal");
    assert!(service
        .runner()
        .was_called("gh auth login --hostname github.com --git-protocol https"));
    assert_eq!(service.store().active().unwrap().name, "personal");
}

#[test]
fn a_browser_sign_in_needs_a_known_profile_and_gh() {
    let mut service = service(MockRunner::new().missing("gh"));
    assert!(matches!(
        service.sign_in_target("ghost"),
        Err(Error::UnknownAccount(n)) if n == "ghost"
    ));
    service
        .store_mut()
        .add(account("personal", "octocat"))
        .unwrap();
    assert!(matches!(
        service.sign_in_target("personal"),
        Err(Error::MissingDependency("gh"))
    ));
}

#[test]
fn an_unfinished_browser_sign_in_does_not_switch() {
    let runner = MockRunner::new().status("gh auth login", 1, "", "");
    let mut service = service(runner);
    service
        .store_mut()
        .add(account("personal", "octocat"))
        .unwrap();
    let target = service.sign_in_target("personal").unwrap();
    assert!(service.sign_in(&target).is_err());
    assert!(service.store().active().is_none());
    assert_eq!(service.runner().calls().len(), 1);
}
