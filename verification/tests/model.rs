use gitswitch::model::{validate_email, validate_name, validate_token, validate_username, Account};

#[test]
fn account_names_are_restricted() {
    assert!(validate_name("work").is_ok());
    assert!(validate_name("open-source.2").is_ok());
    assert!(validate_name("").is_err());
    assert!(validate_name("has space").is_err());
    assert!(validate_name("semi;colon").is_err());
}

#[test]
fn usernames_follow_github_rules() {
    assert!(validate_username("xRookieFight").is_ok());
    assert!(validate_username("bad_user").is_err());
    assert!(validate_username(&"a".repeat(40)).is_err());
}

#[test]
fn emails_need_a_domain() {
    assert!(validate_email("dev@example.com").is_ok());
    assert!(validate_email("dev@example").is_err());
    assert!(validate_email("dev.example.com").is_err());
    assert!(validate_email("a@b@c.com").is_err());
}

#[test]
fn tokens_are_checked_without_being_echoed() {
    assert!(validate_token("ghp_EXAMPLE0123456789abc").is_ok());
    assert!(validate_token("short").is_err());
    let err = validate_token("has space in it here").unwrap_err();
    assert!(!err.message().contains("has space"));
}

#[test]
fn secret_key_is_host_scoped() {
    let account = Account::new("work", "octocat", "Octo Cat", "octo@example.com")
        .with_host("github.example.com");
    assert_eq!(account.secret_key(), "github.example.com:octocat");
}

#[test]
fn new_accounts_default_to_the_public_host() {
    let account = Account::new("work", "octocat", "Octo Cat", "octo@example.com");
    assert_eq!(account.host, "github.com");
    assert!(!account.has_stored_token);
    assert!(account.validate().is_ok());
}

#[test]
fn validation_reports_the_first_bad_field() {
    let account = Account::new("bad name", "bad_user", "", "nope");
    let err = account.validate().unwrap_err();
    assert!(err.message().contains("name"));
    let account = Account::new("work", "octocat", "  ", "octo@example.com");
    assert_eq!(account.validate().unwrap_err().message(), "Git name must not be empty");
    let account = Account::new("work", "octocat", "Octo Cat", "octo@example.com").with_host(" ");
    assert_eq!(account.validate().unwrap_err().message(), "host must not be empty");
}

#[test]
fn token_messages_are_exact() {
    assert_eq!(validate_token("   ").unwrap_err().message(), "token must not be empty");
    assert_eq!(
        validate_token("short").unwrap_err().message(),
        "that does not look like a GitHub token"
    );
    assert!(validate_token("  ghp_EXAMPLE0123456789abc\n").is_ok());
}
