//! Every failure surfaced to the user, with its message and its next step.
use vstd::prelude::*;

use crate::text::{str_eq};

verus! {

/// Every failure surfaced to the user. Messages are written to be read by a
/// human in a terminal, and never contain credentials.
///
/// Paths and operating-system errors are carried as the text the user sees.
#[derive(Debug)]
pub enum Error {
    MissingDependency(&'static str),
    Spawn { program: String, message: String },
    CommandFailed { command: String, status: i32, message: String },
    NoConfigDir,
    ConfigRead { path: String, message: String },
    ConfigWrite { path: String, message: String },
    ConfigCorrupt { path: String, message: String },
    ConfigTooNew { path: String, found: u32, supported: u32 },
    UnknownAccount(String),
    DuplicateAccount(String),
    InvalidInput(String),
    NoActiveAccount,
    NotAuthenticated(String),
    VerificationFailed { expected: String, found: String },
    Secret(String),
    UnsupportedTerminal(String),
    Io(String),
}

pub type Result<T> = core::result::Result<T, Error>;

/// The ASCII digit for `d < 10`.
pub open spec fn digit_char(d: nat) -> char {
    (48 + d) as char
}

/// Decimal notation of a natural number, without leading zeros.
pub open spec fn decimal(n: nat) -> Seq<char>
    decreases n,
{
    if n < 10 {
        seq![digit_char(n)]
    } else {
        decimal(n / 10).push(digit_char(n % 10))
    }
}

/// Decimal notation of an integer, with a leading `-` when negative.
pub open spec fn signed_decimal(n: int) -> Seq<char> {
    if n < 0 {
        seq!['-'] + decimal((-n) as nat)
    } else {
        decimal(n as nat)
    }
}

/// The text of an error, as the terminal shows it.
pub open spec fn message_of(e: Error) -> Seq<char> {
    match e {
        Error::MissingDependency(p) => "`"@ + p@ + "` was not found on your PATH"@,
        Error::Spawn { program, message } => "failed to run `"@ + program@ + "`: "@ + message@,
        Error::CommandFailed { command, status, message } => "`"@ + command@
            + "` exited with status "@ + signed_decimal(status as int) + ": "@ + message@,
        Error::NoConfigDir => "could not determine a configuration directory for the current user"@,
        Error::ConfigRead { path, message } => "could not read configuration at "@ + path@ + ": "@
            + message@,
        Error::ConfigWrite { path, message } => "could not write configuration to "@ + path@
            + ": "@ + message@,
        Error::ConfigCorrupt { path, message } => "configuration at "@ + path@
            + " is corrupted: "@ + message@,
        Error::ConfigTooNew { path, found, supported } => "configuration at "@ + path@
            + " was written by a newer version of gitswitch (schema "@ + decimal(found as nat)
            + ", supported "@ + decimal(supported as nat) + ")"@,
        Error::UnknownAccount(name) => "no account named `"@ + name@ + "` is saved"@,
        Error::DuplicateAccount(name) => "an account named `"@ + name@ + "` already exists"@,
        Error::InvalidInput(m) => m@,
        Error::NoActiveAccount => "no account is currently active"@,
        Error::NotAuthenticated(host) => "GitHub CLI is not authenticated for "@ + host@,
        Error::VerificationFailed { expected, found } =>
            "account switch could not be verified: gh reports `"@ + found@
            + "` as active, expected `"@ + expected@ + "`"@,
        Error::Secret(m) => "credential store error: "@ + m@,
        Error::UnsupportedTerminal(m) => "this terminal cannot host the interactive interface: "@
            + m@,
        Error::Io(m) => m@,
    }
}

/// The next step suggested underneath an error, if there is one.
pub open spec fn hint_of(e: Error) -> Option<Seq<char>> {
    match e {
        Error::MissingDependency(p) => if p@ == "git"@ {
            Some(
                "Install Git from https://git-scm.com/downloads and make sure `git` is on your PATH."@,
            )
        } else if p@ == "gh"@ {
            Some(
                "Install the GitHub CLI from https://cli.github.com and make sure `gh` is on your PATH."@,
            )
        } else {
            Some("Install `"@ + p@ + "` and retry."@)
        },
        Error::NotAuthenticated(host) => Some(
            "Run `gitswitch add` or `gh auth login --hostname "@ + host@ + "`."@,
        ),
        Error::UnknownAccount(_) => Some(
            "Run `gitswitch list` to see the accounts you have saved."@,
        ),
        Error::DuplicateAccount(name) => Some(
            "Pick another name, or update the existing one with `gitswitch remove "@ + name@
                + "`."@,
        ),
        Error::ConfigCorrupt { path, .. } => Some(
            "Fix the file by hand or delete it to start over: "@ + path@,
        ),
        Error::ConfigTooNew { .. } => Some("Upgrade gitswitch to the latest release."@),
        Error::VerificationFailed { expected, .. } => Some(
            "Re-authenticate the account with `gitswitch add` or `gh auth login --user "@
                + expected@ + "`."@,
        ),
        Error::NoActiveAccount => Some("Select an account with `gitswitch switch <account>`."@),
        Error::Secret(_) => Some(
            "gitswitch could not reach your OS credential store; tokens will not be cached."@,
        ),
        _ => None,
    }
}

/// Appends the decimal notation of `n` to `out`.
pub fn push_decimal(out: &mut String, n: u32)
    ensures
        final(out)@ == old(out)@ + decimal(n as nat),
    decreases n,
{
    if n >= 10 {
        push_decimal(out, n / 10);
    }
    let d = (n % 10) as u8;
    out.push((d + 48) as char);
    proof {
        assert(((d + 48) as char) == digit_char((n % 10) as nat));
        if n >= 10 {
            assert(decimal(n as nat) == decimal((n / 10) as nat).push(digit_char((n % 10) as nat)));
        } else {
            assert(decimal(n as nat) == seq![digit_char(n as nat)]);
        }
    }
}

/// Appends the decimal notation of a signed status code to `out`.
pub fn push_signed(out: &mut String, n: i32)
    ensures
        final(out)@ == old(out)@ + signed_decimal(n as int),
{
    if n < 0 {
        out.push('-');
        let magnitude: i64 = -(n as i64);
        if magnitude > 4294967295 {
            proof {
                assert(false);
            }
        }
        push_decimal(out, magnitude as u32);
        proof {
            assert(old(out)@.push('-') + decimal((-n) as nat) =~= old(out)@ + (seq!['-'] + decimal(
                (-n) as nat,
            )));
        }
    } else {
        push_decimal(out, n as u32);
    }
}

impl Error {
    /// The message shown to the user.
    pub fn message(&self) -> (m: String)
        ensures
            m@ == message_of(*self),
    {
        let mut m = String::new();
        match self {
            Error::MissingDependency(p) => {
                m.append("`");
                m.append(p);
                m.append("` was not found on your PATH");
            },
            Error::Spawn { program, message } => {
                m.append("failed to run `");
                m.append(program.as_str());
                m.append("`: ");
                m.append(message.as_str());
            },
            Error::CommandFailed { command, status, message } => {
                m.append("`");
                m.append(command.as_str());
                m.append("` exited with status ");
                push_signed(&mut m, *status);
                m.append(": ");
                m.append(message.as_str());
            },
            Error::NoConfigDir => {
                m.append("could not determine a configuration directory for the current user");
            },
            Error::ConfigRead { path, message } => {
                m.append("could not read configuration at ");
                m.append(path.as_str());
                m.append(": ");
                m.append(message.as_str());
            },
            Error::ConfigWrite { path, message } => {
                m.append("could not write configuration to ");
                m.append(path.as_str());
                m.append(": ");
                m.append(message.as_str());
            },
            Error::ConfigCorrupt { path, message } => {
                m.append("configuration at ");
                m.append(path.as_str());
                m.append(" is corrupted: ");
                m.append(message.as_str());
            },
            Error::ConfigTooNew { path, found, supported } => {
                m.append("configuration at ");
                m.append(path.as_str());
                m.append(" was written by a newer version of gitswitch (schema ");
                push_decimal(&mut m, *found);
                m.append(", supported ");
                push_decimal(&mut m, *supported);
                m.append(")");
            },
            Error::UnknownAccount(name) => {
                m.append("no account named `");
                m.append(name.as_str());
                m.append("` is saved");
            },
            Error::DuplicateAccount(name) => {
                m.append("an account named `");
                m.append(name.as_str());
                m.append("` already exists");
            },
            Error::InvalidInput(text) => {
                m.append(text.as_str());
            },
            Error::NoActiveAccount => {
                m.append("no account is currently active");
            },
            Error::NotAuthenticated(host) => {
                m.append("GitHub CLI is not authenticated for ");
                m.append(host.as_str());
            },
            Error::VerificationFailed { expected, found } => {
                m.append("account switch could not be verified: gh reports `");
                m.append(found.as_str());
                m.append("` as active, expected `");
                m.append(expected.as_str());
                m.append("`");
            },
            Error::Secret(text) => {
                m.append("credential store error: ");
                m.append(text.as_str());
            },
            Error::UnsupportedTerminal(text) => {
                m.append("this terminal cannot host the interactive interface: ");
                m.append(text.as_str());
            },
            Error::Io(text) => {
                m.append(text.as_str());
            },
        }
        m
    }

    /// A short, actionable next step shown underneath the error message.
    pub fn hint(&self) -> (h: Option<String>)
        ensures
            h matches Some(t) ==> hint_of(*self) == Some(t@),
            h is None ==> hint_of(*self) is None,
    {
        match self {
            Error::MissingDependency(p) => {
                if str_eq(p, "git") {
                    Some(
                        "Install Git from https://git-scm.com/downloads and make sure `git` is on your PATH.".to_string(),
                    )
                } else if str_eq(p, "gh") {
                    Some(
                        "Install the GitHub CLI from https://cli.github.com and make sure `gh` is on your PATH.".to_string(),
                    )
                } else {
                    let mut t = String::new();
                    t.append("Install `");
                    t.append(p);
                    t.append("` and retry.");
                    Some(t)
                }
            },
            Error::NotAuthenticated(host) => {
                let mut t = String::new();
                t.append("Run `gitswitch add` or `gh auth login --hostname ");
                t.append(host.as_str());
                t.append("`.");
                Some(t)
            },
            Error::UnknownAccount(_) => Some(
                "Run `gitswitch list` to see the accounts you have saved.".to_string(),
            ),
            Error::DuplicateAccount(name) => {
                let mut t = String::new();
                t.append("Pick another name, or update the existing one with `gitswitch remove ");
                t.append(name.as_str());
                t.append("`.");
                Some(t)
            },
            Error::ConfigCorrupt { path, .. } => {
                let mut t = String::new();
                t.append("Fix the file by hand or delete it to start over: ");
                t.append(path.as_str());
                Some(t)
            },
            Error::ConfigTooNew { .. } => Some("Upgrade gitswitch to the latest release.".to_string()),
            Error::VerificationFailed { expected, .. } => {
                let mut t = String::new();
                t.append("Re-authenticate the account with `gitswitch add` or `gh auth login --user ");
                t.append(expected.as_str());
                t.append("`.");
                Some(t)
            },
            Error::NoActiveAccount => Some(
                "Select an account with `gitswitch switch <account>`.".to_string(),
            ),
            Error::Secret(_) => Some(
                "gitswitch could not reach your OS credential store; tokens will not be cached.".to_string(),
            ),
            _ => None,
        }
    }
}

} // verus!
