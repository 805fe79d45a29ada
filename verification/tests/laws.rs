//! Concrete instances of the properties the library proves in general.
use gitswitch::model::Account;
use gitswitch::process::redact;
use gitswitch::secrets::MemoryStore;
use gitswitch::service::{Service, SwitchOptions};
use gitswitch::store::Store;
use gitswitch::testing::{gh_status_output, MockRunner};

fn sample(name: &str) -> Account {
    Account::new(name, "octocat", "Octo Cat", "octo@example.com")
}

#[test]
fn an_added_account_is_found_again() {
    let mut store = Store::empty("a.json");
    store.add(sample("work")).unwrap();
    assert_eq!(store.get("work").unwrap().username, "octocat");
}

#[test]
fn adding_then_removing_restores_the_list() {
    let mut store = Store::empty("a.json");
    store.add(sample("personal")).unwrap();
    store.add(sample("work")).unwrap();
    store.remove("work").unwrap();
    assert_eq!(store.accounts().len(), 1);
    assert_eq!(store.accounts()[0].name, "personal");
    assert!(store.get("work").is_none());
}

#[test]
fn a_renamed_account_keeps_its_fields() {
    let mut store = Store::empty("a.json");
    store.add(sample("work")).unwrap();
    store.rename("work", "job").unwrap();
    let a = store.get("job").unwrap();
    assert_eq!(a.username, "octocat");
    assert_eq!(a.git_email, "octo@example.com");
    assert!(store.get("work").is_none());
}

#[test]
fn the_account_made_active_is_reported_active() {
    let mut store = Store::empty("a.json");
    store.add(sample("personal")).unwrap();
    store.add(sample("work")).unwrap();
    store.set_active("WORK").unwrap();
    assert_eq!(store.active().unwrap().name, "work");
}

#[test]
fn redacted_text_holds_no_token() {
    let out = redact("x ghp_EXAMPLE0123456789 y github_pat_EXAMPLE_0123 z");
    assert!(!out.contains("ghp_EXAMPLE"));
    assert!(!out.contains("github_pat_EXAMPLE"));
    assert_eq!(redact(&out), out);
}

#[test]
fn a_successful_switch_activates_the_account_and_a_verified_one_matches_gh() {
    let runner = MockRunner::new()
        .ok("git config", "")
        .ok("gh auth setup-git", "")
        .ok("gh auth status", &gh_status_output("github.com", &[("octocat", true)]));
    let mut store = Store::empty("a.json");
    store.add(sample("personal")).unwrap();
    let mut service = Service::new(runner, MemoryStore::new(), store);
    let report = service.switch("personal", SwitchOptions::default()).unwrap();
    assert!(report.verified);
    assert_eq!(service.store().active().unwrap().name, "personal");
    assert_eq!(service.runner().calls().last().unwrap(), "gh auth status");
}

#[test]
fn an_unknown_switch_runs_nothing() {
    let mut service = Service::new(MockRunner::new(), MemoryStore::new(), Store::empty("a.json"));
    assert!(service.switch("nobody", SwitchOptions::default()).is_err());
    assert!(service.runner().calls().is_empty());
}

#[test]
fn the_active_account_survives_changes_to_the_others() {
    let mut store = Store::empty("a.json");
    store.add(sample("personal")).unwrap();
    store.add(sample("work")).unwrap();
    store.add(sample("spare")).unwrap();
    store.set_active("work").unwrap();
    store.add(sample("extra")).unwrap();
    store.update(Account::new("WORK", "work-bot", "Work Bot", "bot@example.com")).unwrap();
    store.rename("personal", "home").unwrap();
    store.remove("spare").unwrap();
    let active = store.active().unwrap();
    assert_eq!(active.name, "WORK");
    assert_eq!(active.username, "work-bot");
    store.rename("WORK", "job").unwrap();
    assert_eq!(store.active().unwrap().name, "job");
    store.remove("job").unwrap();
    assert!(store.active().is_none());
}

#[test]
fn a_generated_status_report_reads_back() {
    let text = gh_status_output("ghe.example.com", &[("octocat", false), ("work-bot", true)]);
    let accounts = gitswitch::gh::parse_status(&text);
    assert_eq!(accounts.len(), 2);
    assert_eq!(accounts[0].host, "ghe.example.com");
    assert_eq!(accounts[0].login, "octocat");
    assert!(!accounts[0].active);
    assert_eq!(accounts[1].login, "work-bot");
    assert!(accounts[1].active);

    let lone = gitswitch::gh::parse_status(&gh_status_output("github.com", &[("octocat", false)]));
    assert_eq!(lone.len(), 1);
    assert!(lone[0].active);
}
