use gitswitch::gh::{parse_status, Gh};
use gitswitch::model::DEFAULT_HOST;
use gitswitch::testing::{gh_status_output, MockRunner};
use gitswitch::Error;

const TWO_ACCOUNTS: &str = "github.com\n  \u{2713} Logged in to github.com account xRookieFight (keyring)\n  - Active account: true\n  - Git operations protocol: https\n  - Token: gho_************************\n  \u{2713} Logged in to github.com account work-bot (keyring)\n  - Active account: false\n  - Token: gho_************************\n";

#[test]
fn parses_multiple_accounts_and_the_active_flag() {
    let accounts = parse_status(TWO_ACCOUNTS);
    assert_eq!(accounts.len(), 2);
    assert_eq!(accounts[0].login, "xRookieFight");
    assert!(accounts[0].active);
    assert_eq!(accounts[1].login, "work-bot");
    assert!(!accounts[1].active);
    assert!(accounts.iter().all(|a| a.host == DEFAULT_HOST));
}

#[test]
fn parses_enterprise_hosts() {
    let text = gh_status_output("github.example.com", &[("octocat", true)]);
    let accounts = parse_status(&text);
    assert_eq!(accounts[0].host, "github.example.com");
}

#[test]
fn a_lone_account_is_treated_as_active() {
    let text = "github.com\n  \u{2713} Logged in to github.com account solo (keyring)\n  - Git operations protocol: https\n";
    assert!(parse_status(text)[0].active);
}

#[test]
fn tokens_are_never_returned_by_the_parser() {
    let accounts = parse_status(TWO_ACCOUNTS);
    assert!(!format!("{accounts:?}").contains("gho_"));
}

#[test]
fn logged_out_cli_reports_no_accounts() {
    let mut runner = MockRunner::new().status(
        "gh auth status",
        1,
        "",
        "You are not logged into any GitHub hosts. To log in, run: gh auth login",
    );
    assert!(Gh::new(&mut runner).accounts().unwrap().is_empty());
}

#[test]
fn unexpected_status_failures_are_errors() {
    let mut runner = MockRunner::new().status("gh auth status", 1, "", "connection refused");
    let err = Gh::new(&mut runner).accounts().unwrap_err();
    assert!(err.message().contains("connection refused"));
}

#[test]
fn active_login_is_reported_per_host() {
    let mut runner = MockRunner::new().ok("gh auth status", TWO_ACCOUNTS);
    assert_eq!(
        Gh::new(&mut runner)
            .active_login(DEFAULT_HOST)
            .unwrap()
            .as_deref(),
        Some("xRookieFight")
    );
}

#[test]
fn switch_passes_host_and_user() {
    let mut runner = MockRunner::new().ok("gh auth switch", "");
    Gh::new(&mut runner).switch(DEFAULT_HOST, "work-bot").unwrap();
    assert!(runner.was_called("gh auth switch --hostname github.com --user work-bot"));
}

#[test]
fn switch_failures_are_actionable() {
    let mut runner = MockRunner::new().status(
        "gh auth switch",
        1,
        "",
        "no account named work-bot is logged in",
    );
    let err = Gh::new(&mut runner)
        .switch(DEFAULT_HOST, "work-bot")
        .unwrap_err();
    assert!(err.message().contains("no account named work-bot"));
}

#[test]
fn token_login_uses_stdin_and_never_argv() {
    let mut runner = MockRunner::new().ok("gh auth login", "");
    Gh::new(&mut runner)
        .login_with_token(DEFAULT_HOST, "ghp_EXAMPLE0123456789abc")
        .unwrap();
    let command = &runner.calls()[0];
    assert!(!command.contains("ghp_"));
    assert!(command.contains("--with-token"));
    assert_eq!(
        runner.stdin_for("gh auth login").as_deref(),
        Some("ghp_EXAMPLE0123456789abc")
    );
}

#[test]
fn token_login_errors_are_redacted() {
    let mut runner = MockRunner::new().status(
        "gh auth login",
        1,
        "",
        "error validating token ghp_EXAMPLE0123456789abc: bad credentials",
    );
    let err = Gh::new(&mut runner)
        .login_with_token(DEFAULT_HOST, "ghp_EXAMPLE0123456789abc")
        .unwrap_err();
    let message = err.message();
    assert!(!message.contains("ghp_EXAMPLE0123456789abc"));
    assert!(message.contains("[redacted]"));
    assert!(message.contains("bad credentials"));
}

#[test]
fn missing_cli_is_reported_as_a_dependency_problem() {
    let mut runner = MockRunner::new().missing("gh");
    let err = Gh::new(&mut runner).accounts().unwrap_err();
    assert!(matches!(err, Error::MissingDependency("gh")));
    assert!(err.hint().unwrap().contains("cli.github.com"));
}

#[test]
fn logout_tolerates_an_already_logged_out_account() {
    let mut runner =
        MockRunner::new().status("gh auth logout", 1, "", "not logged in to any hosts");
    assert!(Gh::new(&mut runner).logout(DEFAULT_HOST, "work-bot").is_ok());
}

#[test]
fn accounts_are_filtered_by_host() {
    let mut text = gh_status_output("github.com", &[("octocat", true)]);
    text.push_str(&gh_status_output("github.example.com", &[("corp", true)]));
    let mut runner = MockRunner::new().ok("gh auth status", &text);
    let accounts = Gh::new(&mut runner).accounts_for("github.example.com").unwrap();
    assert_eq!(accounts.len(), 1);
    assert_eq!(accounts[0].login, "corp");
}

#[test]
fn known_logins_ignore_case() {
    let mut runner = MockRunner::new().ok("gh auth status", TWO_ACCOUNTS);
    assert!(Gh::new(&mut runner).is_known(DEFAULT_HOST, "WORK-BOT").unwrap());
}

#[test]
fn versions_keep_only_the_first_line() {
    let mut runner = MockRunner::new().ok("gh --version", "gh version 2.97.0 (2025)\nhttps://github.com/cli/cli\n");
    assert_eq!(Gh::new(&mut runner).version().unwrap(), "gh version 2.97.0 (2025)");
}

#[test]
fn an_interactive_login_that_fails_is_reported() {
    let mut runner = MockRunner::new().status("gh auth login", 1, "", "");
    let err = Gh::new(&mut runner).login_interactive(DEFAULT_HOST).unwrap_err();
    assert_eq!(err.message(), "`gh auth login` exited with status 1: interactive login did not complete");
    assert!(runner.recorded()[0].interactive);
}

#[test]
fn version_text_is_redacted() {
    let mut runner = MockRunner::new().ok("gh --version", "gh version 2.97.0 ghp_EXAMPLEleak\nhttps://example.invalid\n");
    let version = Gh::new(&mut runner).version().unwrap();
    assert_eq!(version, "gh version 2.97.0 [redacted]");
}
