use gitswitch::git::{Git, Identity, Scope};
use gitswitch::testing::MockRunner;
use gitswitch::Error;

#[test]
fn reads_the_effective_identity() {
    let mut runner = MockRunner::new()
        .ok("git config --get user.name", "Octo Cat")
        .ok("git config --get user.email", "octo@example.com");
    let mut git = Git::new(&mut runner);

    let identity = git.identity().unwrap();
    assert_eq!(identity.name.as_deref(), Some("Octo Cat"));
    assert_eq!(identity.email.as_deref(), Some("octo@example.com"));
    assert!(identity.is_complete());
}

#[test]
fn unset_keys_are_none_not_errors() {
    let mut runner = MockRunner::new()
        .status("git config --get user.name", 1, "", "")
        .status("git config --get user.email", 1, "", "");
    let identity = Git::new(&mut runner).identity().unwrap();
    assert_eq!(identity, Identity::default());
    assert!(!identity.is_complete());
}

#[test]
fn config_errors_are_surfaced() {
    let mut runner = MockRunner::new().status(
        "git config --get user.name",
        128,
        "",
        "fatal: bad config line 3",
    );
    let err = Git::new(&mut runner).identity().unwrap_err();
    assert!(err.message().contains("bad config line 3"));
}

#[test]
fn setting_the_identity_writes_both_keys() {
    let mut runner = MockRunner::new()
        .ok("git config --global user.name Octo Cat", "")
        .ok("git config --global user.email octo@example.com", "");
    Git::new(&mut runner)
        .set_identity(Scope::Global, "Octo Cat", "octo@example.com")
        .unwrap();
    assert_eq!(runner.calls().len(), 2);
}

#[test]
fn local_scope_uses_the_local_flag() {
    let mut runner = MockRunner::new()
        .ok("git config --local user.name Octo Cat", "")
        .ok("git config --local user.email octo@example.com", "");
    Git::new(&mut runner)
        .set_identity(Scope::Local, "Octo Cat", "octo@example.com")
        .unwrap();
    assert!(runner.calls()[0].contains("--local"));
}

#[test]
fn repository_detection_reads_rev_parse() {
    let mut inside = MockRunner::new().ok("git rev-parse --is-inside-work-tree", "true");
    assert!(Git::new(&mut inside).is_inside_repository());

    let mut outside = MockRunner::new().status(
        "git rev-parse --is-inside-work-tree",
        128,
        "",
        "fatal: not a git repository",
    );
    assert!(!Git::new(&mut outside).is_inside_repository());
}

#[test]
fn missing_git_is_reported_as_a_dependency_problem() {
    let mut runner = MockRunner::new().missing("git");
    let err = Git::new(&mut runner).version().unwrap_err();
    assert!(matches!(err, Error::MissingDependency("git")));
    assert!(err.hint().unwrap().contains("git-scm.com"));
}

#[test]
fn a_failed_name_write_stops_before_the_email() {
    let mut runner = MockRunner::new().status("git config --global user.name", 255, "", "locked");
    let err = Git::new(&mut runner)
        .set_identity(Scope::Global, "Octo Cat", "octo@example.com")
        .unwrap_err();
    assert_eq!(
        err.message(),
        "`git config --global user.name Octo Cat` exited with status 255: locked"
    );
    assert_eq!(runner.calls().len(), 1);
}

#[test]
fn versions_and_scopes_read_as_expected() {
    let mut runner = MockRunner::new().ok("git --version", "  git version 2.55.0\n");
    assert_eq!(Git::new(&mut runner).version().unwrap(), "git version 2.55.0");
    assert_eq!(Scope::Global.flag(), "--global");
    assert_eq!(Scope::Local.flag(), "--local");
    assert_eq!(Scope::Global.label(), "global");
    assert_eq!(Scope::Local.label(), "repository");
    assert_eq!(Scope::default(), Scope::Global);
}

#[test]
fn version_and_identity_text_are_redacted() {
    let mut runner = MockRunner::new()
        .ok("git --version", "git version 2.55.0 ghp_EXAMPLEleak\n")
        .ok("git config --get user.name", "ghp_EXAMPLEname\n")
        .ok("git config --get user.email", "octo@example.com\n");
    let mut git = Git::new(&mut runner);
    assert_eq!(git.version().unwrap(), "git version 2.55.0 [redacted]");
    let id = git.identity().unwrap();
    assert_eq!(id.name.as_deref(), Some("[redacted]"));
    assert_eq!(id.email.as_deref(), Some("octo@example.com"));
}
