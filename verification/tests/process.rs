use gitswitch::process::{map_spawn_error, redact, Output, Recorder, Request, Runner, Spawner};
use gitswitch::Error;

#[test]
fn redacts_token_shapes() {
    let input = "Token: ghp_EXAMPLEabcdefghij and github_pat_EXAMPLExyz done";
    let out = redact(input);
    assert!(!out.contains("ghp_EXAMPLEabcdefghij"));
    assert!(!out.contains("github_pat_EXAMPLExyz"));
    assert!(out.contains("[redacted]"));
    assert!(out.contains("Token:"));
    assert!(out.ends_with("done"));
}

#[test]
fn keeps_ordinary_text_intact() {
    let input = "failed to connect to github.com (network unreachable)";
    assert_eq!(redact(input), input);
}

#[test]
fn redacts_quoted_tokens() {
    let out = redact("token=\"gho_EXAMPLE0123456789\",");
    assert!(!out.contains("gho_EXAMPLE0123456789"));
    assert!(out.ends_with("\","));
}

#[test]
fn short_prefix_matches_are_left_alone() {
    assert_eq!(redact("ghp_x"), "ghp_x");
}

#[test]
fn redaction_is_idempotent() {
    let once = redact("a ghp_EXAMPLE0123456789 b ghs_EXAMPLE0123456789 c");
    assert_eq!(redact(&once), once);
    assert_eq!(once, "a [redacted] b [redacted] c");
}

#[test]
fn output_message_prefers_the_error_stream() {
    let out = Output { status: 1, stdout: "  out  ".to_string(), stderr: "  err  ".to_string() };
    assert_eq!(out.message(), "err");
    assert!(!out.ok());
    let out = Output { status: 0, stdout: " out ghp_EXAMPLE0123456789 ".to_string(), stderr: "  ".to_string() };
    assert_eq!(out.message(), "out [redacted]");
    assert!(out.ok());
}

#[test]
fn spawn_failures_name_missing_tools() {
    assert!(matches!(map_spawn_error("git", true, "x".to_string()), Error::MissingDependency("git")));
    assert!(matches!(map_spawn_error("gh", true, "x".to_string()), Error::MissingDependency("gh")));
    match map_spawn_error("git", false, "denied".to_string()) {
        Error::Spawn { program, message } => {
            assert_eq!(program, "git");
            assert_eq!(message, "denied");
        }
        other => panic!("unexpected error: {}", other.message()),
    }
}

/// Answers every request with fixed values.
struct Fixed;

impl Spawner for Fixed {
    fn spawn(&mut self, request: &Request) -> gitswitch::Result<Output> {
        let stdout = format!(
            "{} {} <{}>",
            request.program,
            request.args.join(" "),
            request.stdin.as_deref().unwrap_or("")
        );
        Ok(Output { status: 3, stdout, stderr: "err".to_string() })
    }

    fn spawn_interactive(&mut self, request: &Request) -> gitswitch::Result<i32> {
        assert_eq!(format!("{} {}", request.program, request.args.join(" ")), "gh auth login");
        assert!(request.stdin.is_none());
        Err(Error::MissingDependency("gh"))
    }

    fn locate(&self, program: &str) -> bool {
        program == "git"
    }
}

#[test]
fn recorder_hands_requests_through_unchanged() {
    let mut runner = Recorder::new(Fixed);
    let out = runner.run("git", &["config", "user.name"], Some("data")).unwrap();
    assert_eq!(
        out,
        Output { status: 3, stdout: "git config user.name <data>".to_string(), stderr: "err".to_string() }
    );
    let err = runner.run_interactive("gh", &["auth", "login"]).unwrap_err();
    assert!(matches!(err, Error::MissingDependency("gh")));
    assert!(runner.is_available("git"));
    assert!(!runner.is_available("gh"));
}
