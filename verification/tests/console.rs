use gitswitch::console::{
    added_lines, current_lines, doctor_lines, error_lines, is_confirmation, list_lines, ok_mark,
    require_flag, switch_lines, switch_options, token_from_input, warn_mark,
};
use gitswitch::git::{Identity, Scope};
use gitswitch::model::Account;
use gitswitch::service::{GhOutcome, Status, SwitchReport};
use gitswitch::Error;

fn account(name: &str, username: &str) -> Account {
    Account::new(name, username, "Octo Cat", "octo@example.com")
}

#[test]
fn marks_depend_on_colour() {
    assert_eq!(ok_mark(false), "OK");
    assert_eq!(warn_mark(false), "!");
    assert_eq!(ok_mark(true), "\u{1b}[32m\u{2713}\u{1b}[0m");
    assert_eq!(warn_mark(true), "\u{1b}[33m!\u{1b}[0m");
}

#[test]
fn required_flags_name_themselves() {
    assert_eq!(require_flag(Some("work".to_string()), "--name").unwrap(), "work");
    assert_eq!(
        require_flag(None, "--name").unwrap_err().message(),
        "--name is required in non-interactive mode"
    );
}

#[test]
fn piped_tokens_are_trimmed_and_checked() {
    assert_eq!(token_from_input("ghp_EXAMPLE0123456789abc\n").unwrap(), "ghp_EXAMPLE0123456789abc");
    assert!(matches!(token_from_input("short\n"), Err(Error::InvalidInput(_))));
    assert!(matches!(token_from_input(""), Err(Error::InvalidInput(_))));
}

#[test]
fn confirmation_accepts_y_and_yes_in_any_case() {
    assert!(is_confirmation("y\n"));
    assert!(is_confirmation(" YES "));
    assert!(is_confirmation("Yes"));
    assert!(!is_confirmation("n"));
    assert!(!is_confirmation("yep"));
    assert!(!is_confirmation(""));
}

#[test]
fn switch_flags_become_options() {
    let o = switch_options(true, true);
    assert_eq!(o.scope, Scope::Local);
    assert!(!o.verify);
    let o = switch_options(false, false);
    assert_eq!(o.scope, Scope::Global);
    assert!(o.verify);
}

#[test]
fn list_is_empty_on_a_fresh_install() {
    let lines = list_lines(&[], None);
    assert_eq!(lines, vec!["No accounts saved yet. Run `gitswitch add` to create one.".to_string()]);
}

#[test]
fn list_rows_align_and_mark_the_active_account() {
    let accounts = vec![account("work", "work-bot"), account("personal", "octocat")];
    let lines = list_lines(&accounts, Some("personal"));
    assert_eq!(lines[0], format!("  {:8}  {:<20} {}", "work", "work-bot", "octo@example.com"));
    assert_eq!(lines[1], format!("* {:8}  {:<20} {}", "personal", "octocat", "octo@example.com"));
}

#[test]
fn current_fails_when_nothing_is_active() {
    let status = Status::default();
    assert!(matches!(current_lines(&status, "!"), Err(Error::NoActiveAccount)));
}

#[test]
fn current_shows_git_gh_and_disagreement() {
    let status = Status {
        active_account: Some(account("personal", "octocat")),
        identity: Identity { name: Some("Octo Cat".to_string()), email: None },
        gh_login: Some("work-bot".to_string()),
        ..Status::default()
    };
    let lines = current_lines(&status, "!").unwrap();
    assert_eq!(lines[0], "personal  (octocat)");
    assert_eq!(lines[1], "  git       Octo Cat <unset>");
    assert_eq!(lines[2], "  gh        work-bot");
    assert_eq!(lines[3], "  ! git and gh disagree - run `gitswitch switch personal`");
}

#[test]
fn switch_output_lists_warnings() {
    let report = SwitchReport {
        account: account("personal", "octocat"),
        scope: Scope::Local,
        gh: GhOutcome::Skipped("GitHub CLI (gh) is not installed".to_string()),
        verified: false,
        warnings: vec!["w1".to_string()],
    };
    let lines = switch_lines(&report, "OK", "!");
    assert_eq!(lines[0], "OK switched to personal (octocat)");
    assert_eq!(lines[1], "  git       Octo Cat <octo@example.com> [repository]");
    assert_eq!(lines[2], "  gh        skipped - GitHub CLI (gh) is not installed");
    assert_eq!(lines[3], "  ! w1");
}

#[test]
fn add_output_explains_what_happened_to_the_token() {
    let mut saved = account("work", "work-bot");
    assert_eq!(
        added_lines(&saved, false, "OK", "!")[1],
        "  sign it in with `gitswitch auth work` (opens your browser)"
    );
    assert_eq!(
        added_lines(&saved, true, "OK", "!")[1],
        "  ! no OS credential store available - the token was not cached"
    );
    saved.has_stored_token = true;
    let lines = added_lines(&saved, true, "OK", "!");
    assert_eq!(lines[0], "OK saved `work` (work-bot)");
    assert_eq!(lines[1], "  token stored in the OS credential store");
}

#[test]
fn doctor_lists_tools_and_problems() {
    let status = Status {
        git_version: Some("git version 2.55.0".to_string()),
        problems: vec!["GitHub CLI (gh) is not installed or not on PATH".to_string()],
        ..Status::default()
    };
    let lines = doctor_lines("0.1.0", &status, false, "/tmp/accounts.json", 12, "OK", "!");
    assert_eq!(lines[0], "gitswitch 0.1.0");
    assert_eq!(lines[1], "  git       git version 2.55.0");
    assert_eq!(lines[2], "  gh        NOT FOUND");
    assert_eq!(lines[3], "  keychain  unavailable - tokens will not be cached");
    assert_eq!(lines[4], "  config    /tmp/accounts.json");
    assert_eq!(lines[5], "  accounts  12");
    assert_eq!(lines[6], "");
    assert_eq!(lines[7], "! GitHub CLI (gh) is not installed or not on PATH");
    let clean = Status::default();
    let lines = doctor_lines("0.1.0", &clean, true, "p", 0, "OK", "!");
    assert_eq!(lines[3], "  keychain  available");
    assert_eq!(lines[7], "OK everything looks good");
}

#[test]
fn errors_print_their_hint() {
    let lines = error_lines(&Error::NoActiveAccount, false);
    assert_eq!(lines[0], "error: no account is currently active");
    assert_eq!(lines[1], "hint: Select an account with `gitswitch switch <account>`.");
    let lines = error_lines(&Error::InvalidInput("bad".to_string()), true);
    assert_eq!(lines, vec!["\u{1b}[31merror:\u{1b}[0m bad".to_string()]);
}
