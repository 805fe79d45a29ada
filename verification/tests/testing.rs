use gitswitch::process::Runner;
use gitswitch::testing::{gh_status_output, MockRunner};

#[test]
fn replies_are_matched_by_longest_prefix() {
    let mut runner = MockRunner::new()
        .ok("git config", "generic")
        .ok("git config --global user.name", "Octo Cat");
    let out = runner
        .run("git", &["config", "--global", "user.name"], None)
        .unwrap();
    assert_eq!(out.stdout, "Octo Cat");
}

#[test]
fn repeated_registrations_are_replayed_in_order() {
    let mut runner = MockRunner::new()
        .ok("gh auth status", "first")
        .ok("gh auth status", "second");
    assert_eq!(
        runner.run("gh", &["auth", "status"], None).unwrap().stdout,
        "first"
    );
    assert_eq!(
        runner.run("gh", &["auth", "status"], None).unwrap().stdout,
        "second"
    );
    // The last reply keeps being returned once the queue is exhausted.
    assert_eq!(
        runner.run("gh", &["auth", "status"], None).unwrap().stdout,
        "second"
    );
}

#[test]
fn stdin_is_captured() {
    let mut runner = MockRunner::new().ok("gh auth login", "");
    runner
        .run("gh", &["auth", "login"], Some("ghp_EXAMPLEsecret"))
        .unwrap();
    assert_eq!(
        runner.stdin_for("gh auth login").as_deref(),
        Some("ghp_EXAMPLEsecret")
    );
}

#[test]
fn missing_programs_are_unavailable_and_fail() {
    let mut runner = MockRunner::new().missing("gh");
    assert!(!runner.is_available("gh"));
    assert!(runner.is_available("git"));
    assert!(runner.run("gh", &["--version"], None).is_err());
    assert_eq!(runner.calls(), vec!["gh --version".to_string()]);
}

#[test]
fn unregistered_commands_are_errors() {
    let mut runner = MockRunner::new();
    let err = runner.run("git", &["status"], None).unwrap_err();
    assert!(err.message().contains("git status"));
    assert!(runner.was_called("git status"));
}

#[test]
fn status_output_lists_each_login() {
    let text = gh_status_output("github.com", &[("octocat", true)]);
    assert!(text.starts_with("github.com\n"));
    assert!(text.contains("Logged in to github.com account octocat (keyring)"));
    assert!(text.contains("- Active account: true"));
}
