//! The operations the command line and the terminal interface share: adding,
//! removing, renaming and switching accounts, and reading the current state.
use vstd::prelude::*;

use crate::error::{message_of, signed_decimal, Error, Result};
use crate::gh::{
    accounts_step, first_active, gh_accounts, gh_call, gh_login_with_token, gh_logout,
    gh_setup_git, gh_switch, gh_version, gh_version_step, has_login, logout_args, logout_step,
    only_host, setup_git_args, status_args, switch_args, token_login_args, GhAccount,
    GhAccountView,
};
use crate::git::{
    checked_step, command_failed, config_step, get_args, git_call, git_label, identity_result,
    inside_repository, inside_repository_check, one_more, read_identity, set_args, step_error,
    version_step, write_identity, git_version, Identity, Scope, Step,
};
use crate::model::{account_error, secret_key_of, token_error, validate_token, Account, AccountView, DEFAULT_HOST};
use crate::process::{output_message, Invocation, OutputView, Runner};
use crate::secrets::{SecretOp, SecretStore};
use crate::store::{active_index, find_name, lemma_find_own_name, ConfigView, Store};
use crate::text::{eq_ignore_ascii_case, eq_ignore_case, trim};

verus! {

/// What the tool did to the GitHub CLI while switching.
#[derive(Debug, Clone, PartialEq, Eq)]
pub enum GhOutcome {
    /// `gh` already had the account selected.
    AlreadyActive,
    /// `gh auth switch` was used.
    Switched,
    /// The account was re-authenticated from the token in the OS credential store.
    ReAuthenticated,
    /// `gh` is unusable; only the git identity was updated.
    Skipped(String),
}

/// A [`GhOutcome`] with its text as characters.
pub enum GhOutcomeView {
    AlreadyActive,
    Switched,
    ReAuthenticated,
    Skipped(Seq<char>),
}

impl View for GhOutcome {
    type V = GhOutcomeView;

    open spec fn view(&self) -> GhOutcomeView {
        match self {
            GhOutcome::AlreadyActive => GhOutcomeView::AlreadyActive,
            GhOutcome::Switched => GhOutcomeView::Switched,
            GhOutcome::ReAuthenticated => GhOutcomeView::ReAuthenticated,
            GhOutcome::Skipped(r) => GhOutcomeView::Skipped(r@),
        }
    }
}

#[derive(Debug, Clone, PartialEq, Eq)]
pub struct SwitchReport {
    pub account: Account,
    pub scope: Scope,
    pub gh: GhOutcome,
    pub verified: bool,
    pub warnings: Vec<String>,
}

pub open spec fn texts(v: Seq<String>) -> Seq<Seq<char>> {
    v.map_values(|s: String| s@)
}

/// A snapshot of everything the main screen shows.
#[derive(Debug, Clone, Default, PartialEq, Eq)]
pub struct Status {
    pub git_installed: bool,
    pub gh_installed: bool,
    pub git_version: Option<String>,
    pub gh_version: Option<String>,
    pub identity: Identity,
    pub active_account: Option<Account>,
    pub gh_login: Option<String>,
    pub problems: Vec<String>,
}

/// Whether git and gh agree about who the user is.
pub open spec fn consistent(active: Option<AccountView>, login: Option<Seq<char>>) -> bool {
    match (active, login) {
        (Some(a), Some(l)) => eq_ignore_case(a.username, l),
        (Some(_), None) => false,
        _ => true,
    }
}

pub open spec fn account_opt(a: Option<Account>) -> Option<AccountView> {
    match a {
        Some(x) => Some(x@),
        None => None,
    }
}

impl Status {
    /// False when git and gh disagree about who the user is.
    pub fn is_consistent(&self) -> (b: bool)
        ensures
            b == consistent(account_opt(self.active_account), crate::git::opt_view(self.gh_login)),
    {
        match (&self.active_account, &self.gh_login) {
            (Some(account), Some(login)) => eq_ignore_ascii_case(account.username.as_str(), login.as_str()),
            (Some(_), None) => false,
            _ => true,
        }
    }
}

#[derive(Debug, Clone, Copy, PartialEq, Eq, Structural)]
pub struct SwitchOptions {
    pub scope: Scope,
    /// Re-read `gh auth status` afterwards to confirm the switch took effect.
    pub verify: bool,
}

impl Default for SwitchOptions {
    fn default() -> (o: Self)
        ensures
            o.scope == Scope::Global,
            o.verify,
    {
        SwitchOptions { scope: Scope::Global, verify: true }
    }
}

// ---------------------------------------------------------------------------
// What the operations do, step by step
// ---------------------------------------------------------------------------

/// Why an operation stopped.
pub enum Failure {
    /// No saved account has this name.
    Unknown(Seq<char>),
    /// A required program is not installed.
    Missing(Seq<char>),
    /// The input was refused with this message.
    Invalid(Seq<char>),
    /// An error from the runner or the credential store, handed on unchanged.
    Passed(Error),
    /// A command exited with a failure status.
    Command(Seq<char>, OutputView),
    /// `gh` holds no session for the host and no token is cached.
    NotAuthenticated(Seq<char>),
    /// After switching, `gh` reports another login: expected, found.
    Unverified(Seq<char>, Seq<char>),
}

/// `e` is the error that `f` describes.
pub open spec fn fails_with(e: Error, f: Failure) -> bool {
    match f {
        Failure::Unknown(n) => e matches Error::UnknownAccount(x) && x@ == n,
        Failure::Missing(p) => e matches Error::MissingDependency(x) && x@ == p,
        Failure::Invalid(m) => e matches Error::InvalidInput(x) && x@ == m,
        Failure::Passed(x) => e == x,
        Failure::Command(c, o) => command_failed(e, c, o),
        Failure::NotAuthenticated(h) => e matches Error::NotAuthenticated(x) && x@ == h,
        Failure::Unverified(want, got) => e matches Error::VerificationFailed { expected, found }
            && expected@ == want && found@ == got,
    }
}

/// The failure a step that did not yield a value stands for.
pub open spec fn step_failure<T>(s: Step<T>) -> Failure {
    match s {
        Step::RunnerError(e) => Failure::Passed(e),
        Step::Failed(c, o) => Failure::Command(c, o),
        Step::Value(_) => Failure::Invalid(Seq::empty()),
    }
}

/// The message of the error a step that did not yield a value stands for.
pub open spec fn step_message<T>(s: Step<T>) -> Seq<char> {
    match s {
        Step::RunnerError(e) => message_of(e),
        Step::Failed(c, o) => "`"@ + c + "` exited with status "@ + signed_decimal(o.status as int)
            + ": "@ + output_message(o),
        Step::Value(_) => Seq::empty(),
    }
}

pub proof fn lemma_step_error<T>(e: Error, s: Step<T>)
    requires
        step_error(e, s),
    ensures
        fails_with(e, step_failure(s)),
        message_of(e) == step_message(s),
{
}

/// A result that either carries a value or stops with a failure.
pub enum Outcome<T> {
    Done(T),
    Fails(Failure),
}

/// A command an operation hands to the runner.
pub struct Command {
    pub program: Seq<char>,
    pub args: Seq<Seq<char>>,
    pub stdin: Option<Seq<char>>,
}

pub open spec fn git_cmd(args: Seq<Seq<char>>) -> Command {
    Command { program: "git"@, args, stdin: None }
}

pub open spec fn gh_cmd(args: Seq<Seq<char>>, stdin: Option<Seq<char>>) -> Command {
    Command { program: "gh"@, args, stdin }
}

/// `inv` is the non-interactive run of `c`.
pub open spec fn made(inv: Invocation, c: Command) -> bool {
    inv.program == c.program && inv.args == c.args && inv.stdin == c.stdin && !inv.interactive
}

/// A request an operation makes of the credential store.
pub enum Request {
    Store(Seq<char>, Seq<char>),
    Fetch(Seq<char>),
    Erase(Seq<char>),
}

/// `op` answers `req`.
pub open spec fn answers(op: SecretOp, req: Request) -> bool {
    match req {
        Request::Store(k, t) => op matches SecretOp::Store { key, token, .. } && key == k && token == t,
        Request::Fetch(k) => op matches SecretOp::Fetch { key, .. } && key == k,
        Request::Erase(k) => op matches SecretOp::Erase { key, .. } && key == k,
    }
}

/// `after` is `before` followed by runs of `calls`, in order.
pub open spec fn ran(before: Seq<Invocation>, after: Seq<Invocation>, calls: Seq<Command>) -> bool {
    &&& after.len() == before.len() + calls.len()
    &&& after.subrange(0, before.len() as int) == before
    &&& forall|k: int| 0 <= k < calls.len() ==> made(#[trigger] after[before.len() + k], calls[k])
}

/// `after` is `before` followed by answers to `requests`, in order.
pub open spec fn asked(before: Seq<SecretOp>, after: Seq<SecretOp>, requests: Seq<Request>) -> bool {
    &&& after.len() == before.len() + requests.len()
    &&& after.subrange(0, before.len() as int) == before
    &&& forall|k: int| 0 <= k < requests.len() ==> answers(#[trigger] after[before.len() + k], requests[k])
}

/// The commands and credential store requests an operation made, and how it ended.
pub struct Trace<T> {
    pub calls: Seq<Command>,
    pub requests: Seq<Request>,
    pub result: Outcome<T>,
}

/// `r` is the result `o` describes.
pub open spec fn outcome_is(r: Result<GhOutcome>, o: Outcome<GhOutcomeView>) -> bool {
    match o {
        Outcome::Done(v) => r matches Ok(x) && x@ == v,
        Outcome::Fails(f) => r matches Err(e) && fails_with(e, f),
    }
}

/// Some account is active and has `login`, ignoring ASCII case.
pub open spec fn has_active_login(accounts: Seq<GhAccountView>, login: Seq<char>) -> bool {
    exists|i: int|
        0 <= i < accounts.len() && accounts[i].active && eq_ignore_case(
            #[trigger] accounts[i].login,
            login,
        )
}

/// The answer a credential store gave to a fetch.
pub open spec fn fetched(op: SecretOp) -> core::result::Result<Option<Seq<char>>, Error> {
    match op {
        SecretOp::Fetch { reply, .. } => reply,
        _ => Ok(None),
    }
}

/// How `gh` is brought onto account `a`, reading the replies at `log[i..]`
/// and the credential store answers at `ops[j..]`: nothing to do when the
/// account is already active, `gh auth switch` when `gh` knows it, a login
/// with the cached token otherwise.
pub open spec fn align_trace(a: AccountView, log: Seq<Invocation>, i: int, ops: Seq<SecretOp>, j: int) -> Trace<GhOutcomeView> {
    let status = gh_cmd(status_args(), None);
    let step = crate::gh::map_step(
        accounts_step(log[i].reply),
        |x: Seq<GhAccountView>| only_host(x, a.host),
    );
    match step {
        Step::Value(list) => if has_active_login(list, a.username) {
            Trace {
                calls: seq![status],
                requests: Seq::empty(),
                result: Outcome::Done(GhOutcomeView::AlreadyActive),
            }
        } else if has_login(list, a.username) {
            let s = checked_step(log[i + 1].reply, "gh auth switch --user "@ + a.username);
            Trace {
                calls: seq![status, gh_cmd(switch_args(a.host, a.username), None)],
                requests: Seq::empty(),
                result: if s is Value {
                    Outcome::Done(GhOutcomeView::Switched)
                } else {
                    Outcome::Fails(step_failure(s))
                },
            }
        } else {
            let key = secret_key_of(a);
            match fetched(ops[j]) {
                Err(e) => Trace {
                    calls: seq![status],
                    requests: seq![Request::Fetch(key)],
                    result: Outcome::Fails(Failure::Passed(e)),
                },
                Ok(Some(t)) => {
                    let s = checked_step(log[i + 1].reply, "gh auth login --with-token"@);
                    Trace {
                        calls: seq![status, gh_cmd(token_login_args(a.host), Some(trim(t)))],
                        requests: seq![Request::Fetch(key)],
                        result: if s is Value {
                            Outcome::Done(GhOutcomeView::ReAuthenticated)
                        } else {
                            Outcome::Fails(step_failure(s))
                        },
                    }
                },
                Ok(None) => Trace {
                    calls: seq![status],
                    requests: seq![Request::Fetch(key)],
                    result: Outcome::Fails(Failure::NotAuthenticated(a.host)),
                },
            }
        },
        _ => Trace { calls: seq![status], requests: Seq::empty(), result: Outcome::Fails(step_failure(step)) },
    }
}

pub open spec fn not_repository_message() -> Seq<char> {
    "the current directory is not inside a git repository"@
}

pub open spec fn gh_missing_reason() -> Seq<char> {
    "GitHub CLI (gh) is not installed"@
}

/// Writing the git identity of `a` to `scope`, reading the replies at `log[i..]`:
/// `user.name` first, then `user.email` unless the first write failed.
pub open spec fn identity_trace(a: AccountView, scope: Scope, log: Seq<Invocation>, i: int) -> Trace<()> {
    let name_args = set_args(scope, "user.name"@, a.git_name);
    let email_args = set_args(scope, "user.email"@, a.git_email);
    let first = checked_step(log[i].reply, git_label(name_args));
    if first is Value {
        let second = checked_step(log[i + 1].reply, git_label(email_args));
        Trace {
            calls: seq![git_cmd(name_args), git_cmd(email_args)],
            requests: Seq::empty(),
            result: if second is Value {
                Outcome::Done(())
            } else {
                Outcome::Fails(step_failure(second))
            },
        }
    } else {
        Trace { calls: seq![git_cmd(name_args)], requests: Seq::empty(), result: Outcome::Fails(step_failure(first)) }
    }
}

/// The git half of a switch: for the repository scope, the check that the
/// working directory is a repository, then the identity.
pub open spec fn git_trace(a: AccountView, scope: Scope, log: Seq<Invocation>, i: int) -> Trace<()> {
    if scope == Scope::Local {
        let check = git_cmd(seq!["rev-parse"@, "--is-inside-work-tree"@]);
        if inside_repository(log[i].reply) {
            let t = identity_trace(a, scope, log, i + 1);
            Trace { calls: seq![check] + t.calls, requests: t.requests, result: t.result }
        } else {
            Trace {
                calls: seq![check],
                requests: Seq::empty(),
                result: Outcome::Fails(Failure::Invalid(not_repository_message())),
            }
        }
    } else {
        identity_trace(a, scope, log, i)
    }
}

/// What a successful switch reports.
pub struct Switched {
    pub account: AccountView,
    pub gh: GhOutcomeView,
    pub verified: bool,
    pub warnings: Seq<Seq<char>>,
}

/// After `gh` was brought onto `a` with `outcome`: the credential helper is
/// set up (a failure only warns), then, when asked, `gh auth status` must
/// show `a` as the active login on its host.
pub open spec fn finish_trace(a: AccountView, outcome: GhOutcomeView, verify: bool, log: Seq<Invocation>, i: int) -> Trace<Switched> {
    let setup = checked_step(log[i].reply, "gh auth setup-git"@);
    let warnings = if setup is Value {
        Seq::empty()
    } else {
        seq!["git credential helper was not updated: "@ + step_message(setup)]
    };
    let setup_cmd = gh_cmd(setup_git_args(a.host), None);
    if verify {
        let calls = seq![setup_cmd, gh_cmd(status_args(), None)];
        let found = crate::gh::map_step(
            accounts_step(log[i + 1].reply),
            |x: Seq<GhAccountView>| first_active(only_host(x, a.host)),
        );
        match found {
            Step::Value(login) => {
                let f = match login {
                    Some(l) => l,
                    None => Seq::empty(),
                };
                if eq_ignore_case(f, a.username) {
                    Trace {
                        calls,
                        requests: Seq::empty(),
                        result: Outcome::Done(Switched { account: a, gh: outcome, verified: true, warnings }),
                    }
                } else {
                    Trace {
                        calls,
                        requests: Seq::empty(),
                        result: Outcome::Fails(
                            Failure::Unverified(
                                a.username,
                                if f.len() == 0 {
                                    "nobody"@
                                } else {
                                    f
                                },
                            ),
                        ),
                    }
                }
            },
            _ => Trace { calls, requests: Seq::empty(), result: Outcome::Fails(step_failure(found)) },
        }
    } else {
        Trace {
            calls: seq![setup_cmd],
            requests: Seq::empty(),
            result: Outcome::Done(Switched { account: a, gh: outcome, verified: false, warnings }),
        }
    }
}

/// Switching to the account `name` finds in `c`: the git identity first;
/// then, when `gh` is installed, `gh` is brought onto the account and the
/// switch confirmed, otherwise only a warning says so.
pub open spec fn switch_trace(
    c: ConfigView,
    name: Seq<char>,
    options: SwitchOptions,
    has_git: bool,
    has_gh: bool,
    log: Seq<Invocation>,
    i: int,
    ops: Seq<SecretOp>,
    j: int,
) -> Trace<Switched> {
    match find_name(c.accounts, name) {
        None => Trace { calls: Seq::empty(), requests: Seq::empty(), result: Outcome::Fails(Failure::Unknown(name)) },
        Some(k) => {
            let a = c.accounts[k];
            if !has_git {
                Trace {
                    calls: Seq::empty(),
                    requests: Seq::empty(),
                    result: Outcome::Fails(Failure::Missing("git"@)),
                }
            } else {
                let g = git_trace(a, options.scope, log, i);
                match g.result {
                    Outcome::Fails(f) => Trace { calls: g.calls, requests: Seq::empty(), result: Outcome::Fails(f) },
                    Outcome::Done(_) => {
                        let i2 = i + g.calls.len();
                        if !has_gh {
                            Trace {
                                calls: g.calls,
                                requests: Seq::empty(),
                                result: Outcome::Done(
                                    Switched {
                                        account: a,
                                        gh: GhOutcomeView::Skipped(gh_missing_reason()),
                                        verified: false,
                                        warnings: seq![gh_missing_reason() + "; only the git identity was updated"@],
                                    },
                                ),
                            }
                        } else {
                            let al = align_trace(a, log, i2, ops, j);
                            match al.result {
                                Outcome::Fails(f) => Trace {
                                    calls: g.calls + al.calls,
                                    requests: al.requests,
                                    result: Outcome::Fails(f),
                                },
                                Outcome::Done(o) => {
                                    let fin = finish_trace(a, o, options.verify, log, i2 + al.calls.len());
                                    Trace {
                                        calls: g.calls + al.calls + fin.calls,
                                        requests: al.requests,
                                        result: fin.result,
                                    }
                                },
                            }
                        }
                    },
                }
            }
        },
    }
}

/// `rep` is the report `v` describes.
pub open spec fn report_is(rep: SwitchReport, v: Switched, scope: Scope) -> bool {
    &&& rep.account@ == v.account
    &&& rep.scope == scope
    &&& rep.gh@ == v.gh
    &&& rep.verified == v.verified
    &&& texts(rep.warnings@) == v.warnings
}

pub open spec fn unit_is(r: Result<()>, o: Outcome<()>) -> bool {
    match o {
        Outcome::Done(_) => r is Ok,
        Outcome::Fails(f) => r matches Err(e) && fails_with(e, f),
    }
}

pub open spec fn switched_is(r: Result<SwitchReport>, o: Outcome<Switched>, scope: Scope) -> bool {
    match o {
        Outcome::Done(v) => r matches Ok(rep) && report_is(rep, v, scope),
        Outcome::Fails(f) => r matches Err(e) && fails_with(e, f),
    }
}

/// The answer a credential store gave to a store request.
pub open spec fn store_reply(op: SecretOp) -> core::result::Result<(), Error> {
    match op {
        SecretOp::Store { reply, .. } => reply,
        _ => Ok(()),
    }
}

/// The runner, the credential store and the account list are as they were.
pub open spec fn untouched<R: Runner, S: SecretStore>(before: Service<R, S>, after: Service<R, S>) -> bool {
    &&& after.log() == before.log()
    &&& after.probes() == before.probes()
    &&& after.ops() == before.ops()
    &&& after.store_state() == before.store_state()
}

/// Nothing changed but one lookup of `program`, which found nothing.
pub open spec fn probed_only<R: Runner, S: SecretStore>(
    before: Service<R, S>,
    after: Service<R, S>,
    program: Seq<char>,
) -> bool {
    &&& after.log() == before.log()
    &&& after.probes() == before.probes().push((program, false))
    &&& after.ops() == before.ops()
    &&& after.store_state() == before.store_state()
}

/// `after` holds the accounts of `before` with `a` added at the end.
pub open spec fn added(before: ConfigView, after: ConfigView, a: AccountView) -> bool {
    after == ConfigView { accounts: before.accounts.push(a), ..before }
}

/// A [`Status`] with its text as characters.
pub struct StatusView {
    pub git_installed: bool,
    pub gh_installed: bool,
    pub git_version: Option<Seq<char>>,
    pub gh_version: Option<Seq<char>>,
    pub name: Option<Seq<char>>,
    pub email: Option<Seq<char>>,
    pub active_account: Option<AccountView>,
    pub gh_login: Option<Seq<char>>,
    pub problems: Seq<Seq<char>>,
}

pub open spec fn status_view(s: Status) -> StatusView {
    StatusView {
        git_installed: s.git_installed,
        gh_installed: s.gh_installed,
        git_version: crate::git::opt_view(s.git_version),
        gh_version: crate::git::opt_view(s.gh_version),
        name: crate::git::opt_view(s.identity.name),
        email: crate::git::opt_view(s.identity.email),
        active_account: account_opt(s.active_account),
        gh_login: crate::git::opt_view(s.gh_login),
        problems: texts(s.problems@),
    }
}

/// The value a step yielded, if it yielded one.
pub open spec fn value_of<T>(s: Step<T>) -> Option<T> {
    match s {
        Step::Value(v) => Some(v),
        _ => None,
    }
}

pub open spec fn when(cond: bool, items: Seq<Command>) -> Seq<Command> {
    if cond {
        items
    } else {
        Seq::empty()
    }
}

/// What the status snapshot holds and which commands it runs, reading the
/// replies at `log[i..]`: the versions of the installed tools, the effective
/// git identity, the active account and the login `gh` has active on its
/// host. A missing tool or a failing read becomes a problem in the list,
/// never an error.
pub open spec fn status_trace(c: ConfigView, has_git: bool, has_gh: bool, log: Seq<Invocation>, i: int) -> (Seq<Command>, StatusView) {
    let p1 = if has_git {
        i + 1
    } else {
        i
    };
    let p2 = if has_gh {
        p1 + 1
    } else {
        p1
    };
    let name_step = config_step(log[p2].reply);
    let email_step = config_step(log[p2 + 1].reply);
    let id_calls = if !has_git {
        Seq::empty()
    } else if name_step is Value {
        seq![git_cmd(get_args(None, "user.name"@)), git_cmd(get_args(None, "user.email"@))]
    } else {
        seq![git_cmd(get_args(None, "user.name"@))]
    };
    let identity_ok = has_git && name_step is Value && email_step is Value;
    let id_problems = if !has_git {
        Seq::empty()
    } else if !(name_step is Value) {
        seq![step_message(name_step)]
    } else if !(email_step is Value) {
        seq![step_message(email_step)]
    } else {
        Seq::empty()
    };
    let p3 = p2 + id_calls.len();
    let active = match active_index(c) {
        Some(k) => Some(c.accounts[k]),
        None => None,
    };
    let host = match active {
        Some(a) => a.host,
        None => DEFAULT_HOST@,
    };
    let login_step = crate::gh::map_step(
        accounts_step(log[p3].reply),
        |x: Seq<GhAccountView>| first_active(only_host(x, host)),
    );
    let login_problems = if has_gh && !(login_step is Value) {
        seq![step_message(login_step)]
    } else {
        Seq::empty()
    };
    let missing = (if has_git {
        Seq::empty()
    } else {
        seq!["git is not installed or not on PATH"@]
    }) + (if has_gh {
        Seq::empty()
    } else {
        seq!["GitHub CLI (gh) is not installed or not on PATH"@]
    });
    let calls = when(has_git, seq![git_cmd(seq!["--version"@])]) + when(
        has_gh,
        seq![gh_cmd(seq!["--version"@], None)],
    ) + id_calls + when(has_gh, seq![gh_cmd(status_args(), None)]);
    (
        calls,
        StatusView {
            git_installed: has_git,
            gh_installed: has_gh,
            git_version: if has_git {
                value_of(version_step(log[i].reply))
            } else {
                None
            },
            gh_version: if has_gh {
                value_of(gh_version_step(log[p1].reply))
            } else {
                None
            },
            name: if identity_ok {
                name_step->Value_0
            } else {
                None
            },
            email: if identity_ok {
                email_step->Value_0
            } else {
                None
            },
            active_account: active,
            gh_login: if has_gh && login_step is Value {
                login_step->Value_0
            } else {
                None
            },
            problems: missing + id_problems + login_problems,
        },
    )
}

/// The answer to the `k`-th program lookup made after `before`.
pub open spec fn answer(before: Seq<(Seq<char>, bool)>, after: Seq<(Seq<char>, bool)>, k: int) -> bool {
    after[before.len() + k].1
}

/// The program lookups that [`Service::switch`] makes: `git` once the
/// profile is known, then `gh` once the git identity is written.
pub open spec fn switch_probes(
    c: ConfigView,
    name: Seq<char>,
    options: SwitchOptions,
    has_git: bool,
    has_gh: bool,
    log: Seq<Invocation>,
    i: int,
) -> Seq<(Seq<char>, bool)> {
    match find_name(c.accounts, name) {
        None => Seq::empty(),
        Some(k) => if has_git && git_trace(c.accounts[k], options.scope, log, i).result is Done {
            seq![("git"@, has_git), ("gh"@, has_gh)]
        } else {
            seq![("git"@, has_git)]
        },
    }
}

/// What [`Service::switch`] does: see [`switch_trace`]. The account becomes
/// the active one exactly when the switch succeeds; a failed switch leaves
/// the account list as it was.
pub open spec fn switch_done<R: Runner, S: SecretStore>(
    before: Service<R, S>,
    after: Service<R, S>,
    name: Seq<char>, options: SwitchOptions, r: Result<SwitchReport>,
) -> bool {
    let has_git = answer(before.probes(), after.probes(), 0);
    let has_gh = answer(before.probes(), after.probes(), 1);
    &&& after.store_state().path_view() == before.store_state().path_view()
    &&& after.probes() == before.probes() + switch_probes(
        before.config(),
        name,
        options,
        has_git,
        has_gh,
        after.log(),
        before.log().len() as int,
    )
    &&& ({
        let t = switch_trace(
            before.config(),
            name,
            options,
            has_git,
            has_gh,
            after.log(),
            before.log().len() as int,
            after.ops(),
            before.ops().len() as int,
        );
        &&& ran(before.log(), after.log(), t.calls)
        &&& asked(before.ops(), after.ops(), t.requests)
        &&& switched_is(r, t.result, options.scope)
        &&& match t.result {
            Outcome::Done(v) => after.config() == ConfigView {
                active: Some(v.account.name),
                ..before.config()
            },
            Outcome::Fails(_) => after.store_state() == before.store_state(),
        }
    })
}

/// What [`Service::status`] does: see [`status_trace`].
pub open spec fn status_done<R: Runner, S: SecretStore>(
    before: Service<R, S>,
    after: Service<R, S>,
    st: Status,
) -> bool {
    let has_git = answer(before.probes(), after.probes(), 0);
    let has_gh = answer(before.probes(), after.probes(), 1);
    &&& after.probes() == before.probes() + seq![("git"@, has_git), ("gh"@, has_gh)]
    &&& after.store_state() == before.store_state()
    &&& after.ops() == before.ops()
    &&& ({
        let t = status_trace(
            before.config(),
            has_git,
            has_gh,
            after.log(),
            before.log().len() as int,
        );
        &&& ran(before.log(), after.log(), t.0)
        &&& status_view(st) == t.1
    })
}

/// What [`Service::rename_account`] does: what [`Store::rename`] does.
pub open spec fn rename_done<R: Runner, S: SecretStore>(
    before: Service<R, S>,
    after: Service<R, S>,
    from: Seq<char>, to: Seq<char>, r: Result<()>,
) -> bool {
    &&& after.runner_state() == before.runner_state()
    &&& after.secrets_state() == before.secrets_state()
    &&& after.store_state().path_view() == before.store_state().path_view()
    &&& after.config().version == before.config().version
    &&& r is Err ==> after.config() == before.config()
    &&& match crate::store::rename_outcome(before.config(), from, to) {
        crate::store::RenameOutcome::Invalid(m) => r matches Err(Error::InvalidInput(x)) && x@ == m,
        crate::store::RenameOutcome::Taken => r matches Err(Error::DuplicateAccount(n)) && n@ == to,
        crate::store::RenameOutcome::Unknown => r matches Err(Error::UnknownAccount(n)) && n@ == from,
        crate::store::RenameOutcome::Renamed(c) => r is Ok && after.config() == c,
    }
}

/// What [`Service::remove_account`] does.
pub open spec fn remove_done<R: Runner, S: SecretStore>(
    before: Service<R, S>,
    after: Service<R, S>,
    name: Seq<char>, logout: bool, r: Result<Account>,
) -> bool {
    let has_gh = answer(before.probes(), after.probes(), 0);
    &&& after.store_state().path_view() == before.store_state().path_view()
    &&& match find_name(before.config().accounts, name) {
        None => untouched(before, after) && (r matches Err(Error::UnknownAccount(n))
            && n@ == name),
        Some(k) => {
            let c = before.config();
            let a = c.accounts[k];
            &&& after.config() == ConfigView {
                accounts: c.accounts.remove(k),
                active: match c.active {
                    Some(n) => if eq_ignore_case(n, a.name) {
                        None
                    } else {
                        Some(n)
                    },
                    None => None,
                },
                ..c
            }
            &&& asked(before.ops(), after.ops(), seq![Request::Erase(secret_key_of(a))])
            &&& after.probes() == before.probes() + (if logout {
                seq![("gh"@, has_gh)]
            } else {
                Seq::empty()
            })
            &&& if logout && has_gh {
                let step = logout_step(after.log().last().reply, a.username);
                &&& ran(before.log(), after.log(), seq![gh_cmd(logout_args(a.host, a.username), None)])
                &&& if step is Value {
                    r matches Ok(x) && x@ == a
                } else {
                    r matches Err(e) && fails_with(e, step_failure(step))
                }
            } else {
                after.log() == before.log() && (r matches Ok(x) && x@ == a)
            }
        },
    }
}

/// What [`Service::add_account`] does.
pub open spec fn add_done<R: Runner, S: SecretStore>(
    before: Service<R, S>,
    after: Service<R, S>,
    account: AccountView, token: Option<Seq<char>>, r: Result<Account>,
) -> bool {
    let has_gh = answer(before.probes(), after.probes(), 0);
    &&& after.store_state().path_view() == before.store_state().path_view()
    &&& ({
        let a = account;
        let c = before.config();
        if account_error(a) is Some {
            untouched(before, after) && (r matches Err(Error::InvalidInput(m))
                && account_error(a) == Some(m@))
        } else if find_name(c.accounts, a.name) is Some {
            untouched(before, after) && (r matches Err(Error::DuplicateAccount(n))
                && n@ == a.name)
        } else {
            match token {
                None => {
                    &&& after.log() == before.log()
                    &&& after.probes() == before.probes()
                    &&& after.ops() == before.ops()
                    &&& r matches Ok(x) && x@ == a
                    &&& added(c, after.config(), a)
                },
                Some(t) => if token_error(t) is Some {
                    untouched(before, after) && (r matches Err(Error::InvalidInput(m))
                        && token_error(t) == Some(m@))
                } else if !has_gh {
                    probed_only(before, after, "gh"@) && (r matches Err(Error::MissingDependency(p))
                        && p@ == "gh"@)
                } else {
                    let step = checked_step(after.log().last().reply, "gh auth login --with-token"@);
                    &&& after.probes() == before.probes().push(("gh"@, true))
                    &&& ran(before.log(), after.log(), seq![gh_cmd(token_login_args(a.host), Some(trim(t)))])
                    &&& if !(step is Value) {
                        &&& after.ops() == before.ops()
                        &&& after.store_state() == before.store_state()
                        &&& r matches Err(e) && fails_with(e, step_failure(step))
                    } else {
                        let reply = store_reply(after.ops().last());
                        &&& asked(before.ops(), after.ops(), seq![Request::Store(secret_key_of(a), trim(t))])
                        &&& match reply {
                            Ok(_) => r matches Ok(x) && x@ == AccountView { has_stored_token: true, ..a }
                                && added(c, after.config(), x@),
                            Err(Error::Secret(_)) => r matches Ok(x) && x@ == AccountView { has_stored_token: false, ..a }
                                && added(c, after.config(), x@),
                            Err(e) => r == Err::<Account, Error>(e) && after.store_state() == before.store_state(),
                        }
                    }
                },
            }
        }
    })
}

/// What [`Service::reauthenticate`] does.
pub open spec fn reauth_done<R: Runner, S: SecretStore>(
    before: Service<R, S>,
    after: Service<R, S>,
    name: Seq<char>, token: Seq<char>, r: Result<()>,
) -> bool {
    let has_gh = answer(before.probes(), after.probes(), 0);
    &&& after.store_state().path_view() == before.store_state().path_view()
    &&& ({
        let c = before.config();
        if token_error(token) is Some {
            untouched(before, after) && (r matches Err(Error::InvalidInput(m))
                && token_error(token) == Some(m@))
        } else {
            match find_name(c.accounts, name) {
                None => untouched(before, after) && (r matches Err(
                    Error::UnknownAccount(n),
                ) && n@ == name),
                Some(k) => {
                    let a = c.accounts[k];
                    if !has_gh {
                        probed_only(before, after, "gh"@) && (r matches Err(
                            Error::MissingDependency(p),
                        ) && p@ == "gh"@)
                    } else {
                        let step = checked_step(after.log().last().reply, "gh auth login --with-token"@);
                        &&& after.probes() == before.probes().push(("gh"@, true))
                        &&& ran(before.log(), after.log(), seq![gh_cmd(token_login_args(a.host), Some(trim(token)))])
                        &&& if !(step is Value) {
                            &&& after.ops() == before.ops()
                            &&& after.store_state() == before.store_state()
                            &&& r matches Err(e) && fails_with(e, step_failure(step))
                        } else {
                            let b = AccountView { has_stored_token: store_reply(after.ops().last()) is Ok, ..a };
                            &&& asked(before.ops(), after.ops(), seq![Request::Store(secret_key_of(a), trim(token))])
                            &&& if account_error(b) is Some {
                                after.config() == c && (r matches Err(Error::InvalidInput(m))
                                    && account_error(b) == Some(m@))
                            } else {
                                r is Ok && after.config() == ConfigView {
                                    accounts: c.accounts.update(k, b),
                                    ..c
                                }
                            }
                        }
                    }
                },
            }
        }
    })
}

/// The text of an optional string.
pub open spec fn str_opt(s: Option<&str>) -> Option<Seq<char>> {
    match s {
        Some(t) => Some(t@),
        None => None,
    }
}

/// Whether some account is active and has `login`, ignoring ASCII case.
fn any_active_login(accounts: &Vec<GhAccount>, login: &str) -> (b: bool)
    ensures
        b == has_active_login(crate::gh::accounts_view(accounts@), login@),
{
    let ghost all = crate::gh::accounts_view(accounts@);
    let mut i: usize = 0;
    while i < accounts.len()
        invariant
            all == crate::gh::accounts_view(accounts@),
            i <= accounts@.len(),
            forall|k: int|
                0 <= k < i ==> !(all[k].active && eq_ignore_case(#[trigger] all[k].login, login@)),
        decreases accounts@.len() - i,
    {
        if accounts[i].active && eq_ignore_ascii_case(accounts[i].login.as_str(), login) {
            assert(eq_ignore_case(all[i as int].login, login@));
            return true;
        }
        i = i + 1;
    }
    false
}

/// Coordinates the store, git and the GitHub CLI. All behaviour that the CLI
/// and the TUI share lives here.
pub struct Service<R: Runner, S: SecretStore> {
    runner: R,
    secrets: S,
    store: Store,
}

impl<R: Runner, S: SecretStore> Service<R, S> {
    pub closed spec fn runner_state(&self) -> R {
        self.runner
    }

    pub closed spec fn secrets_state(&self) -> S {
        self.secrets
    }

    pub closed spec fn store_state(&self) -> Store {
        self.store
    }

    /// Commands run so far.
    pub open spec fn log(&self) -> Seq<Invocation> {
        self.runner_state().invocations()
    }

    /// Credential store requests made so far.
    pub open spec fn ops(&self) -> Seq<SecretOp> {
        self.secrets_state().operations()
    }

    /// The account list.
    pub open spec fn config(&self) -> ConfigView {
        self.store_state()@
    }

    /// Program lookups made so far.
    pub open spec fn probes(&self) -> Seq<(Seq<char>, bool)> {
        self.runner_state().probes()
    }

    pub fn new(runner: R, secrets: S, store: Store) -> (s: Self)
        ensures
            s.runner_state() == runner,
            s.secrets_state() == secrets,
            s.store_state() == store,
    {
        Service { runner, secrets, store }
    }

    pub fn store(&self) -> (s: &Store)
        ensures
            *s == self.store_state(),
    {
        &self.store
    }

    pub fn store_mut(&mut self) -> (s: &mut Store)
        ensures
            *s == old(self).store_state(),
            final(self).store_state() == *final(s),
            final(self).runner_state() == old(self).runner_state(),
            final(self).secrets_state() == old(self).secrets_state(),
    {
        &mut self.store
    }

    pub fn runner(&self) -> (r: &R)
        ensures
            *r == self.runner_state(),
    {
        &self.runner
    }

    pub fn secrets(&self) -> (s: &S)
        ensures
            *s == self.secrets_state(),
    {
        &self.secrets
    }

    /// The git commands, run through this service's runner.
    pub fn git(&mut self) -> (g: crate::git::Git<'_, R>)
        ensures
            *g.runner == old(self).runner_state(),
            final(self).runner_state() == *final(g.runner),
            final(self).secrets_state() == old(self).secrets_state(),
            final(self).store_state() == old(self).store_state(),
    {
        crate::git::Git::new(&mut self.runner)
    }

    /// The GitHub CLI commands, run through this service's runner.
    pub fn gh(&mut self) -> (g: crate::gh::Gh<'_, R>)
        ensures
            *g.runner == old(self).runner_state(),
            final(self).runner_state() == *final(g.runner),
            final(self).secrets_state() == old(self).secrets_state(),
            final(self).store_state() == old(self).store_state(),
    {
        crate::gh::Gh::new(&mut self.runner)
    }

    /// Hands the terminal to `gh auth login` for `host`.
    pub(crate) fn login_interactive(&mut self, host: &str) -> (r: Result<()>)
        ensures
            final(self).store_state() == old(self).store_state(),
            final(self).ops() == old(self).ops(),
            final(self).probes() == old(self).probes(),
            one_more(old(self).log(), final(self).log()),
            final(self).log().last().program == "gh"@,
            final(self).log().last().args == crate::gh::interactive_login_args(host@),
            final(self).log().last().interactive,
            crate::gh::interactive_login_ok(r, final(self).log().last().reply),
    {
        crate::gh::gh_login_interactive(&mut self.runner, host)
    }

    /// Before a browser sign-in: the saved profile `name`, once `gh` is
    /// found installed.
    pub fn sign_in_target(&mut self, name: &str) -> (r: Result<Account>)
        ensures
            match find_name(old(self).config().accounts, name@) {
                None => untouched(*old(self), *final(self)) && (r matches Err(Error::UnknownAccount(n))
                    && n@ == name@),
                Some(k) => {
                    let has_gh = answer(old(self).probes(), final(self).probes(), 0);
                    &&& final(self).probes() == old(self).probes().push(("gh"@, has_gh))
                    &&& final(self).log() == old(self).log()
                    &&& final(self).ops() == old(self).ops()
                    &&& final(self).store_state() == old(self).store_state()
                    &&& if has_gh {
                        r matches Ok(a) && a@ == old(self).config().accounts[k]
                    } else {
                        r matches Err(Error::MissingDependency(p)) && p@ == "gh"@
                    }
                },
            },
    {
        let account = match self.store.require(name) {
            Ok(a) => a.duplicate(),
            Err(e) => {
                return Err(e);
            },
        };
        if !self.runner.is_available("gh") {
            return Err(Error::MissingDependency("gh"));
        }
        Ok(account)
    }

    /// The browser sign-in: hands the terminal to `gh auth login` for the
    /// profile's host and, once it completes, switches to the profile with
    /// the default options (see [`switch_done`]).
    pub fn sign_in(&mut self, account: &Account) -> (r: Result<SwitchReport>)
        ensures
            ({
                let i = old(self).log().len() as int;
                let call = final(self).log()[i];
                &&& final(self).log().len() > i
                &&& final(self).log().subrange(0, i) == old(self).log()
                &&& call.program == "gh"@
                &&& call.args == crate::gh::interactive_login_args(account@.host)
                &&& call.interactive
                &&& if call.reply matches Ok(o) && o.status == 0 {
                    exists|mid: Service<R, S>|
                        {
                            &&& #[trigger] mid.log() == old(self).log().push(call)
                            &&& mid.probes() == old(self).probes()
                            &&& mid.ops() == old(self).ops()
                            &&& mid.store_state() == old(self).store_state()
                            &&& switch_done(
                                mid,
                                *final(self),
                                account@.name,
                                SwitchOptions { scope: Scope::Global, verify: true },
                                r,
                            )
                        }
                } else {
                    &&& final(self).log().len() == i + 1
                    &&& final(self).probes() == old(self).probes()
                    &&& final(self).ops() == old(self).ops()
                    &&& final(self).store_state() == old(self).store_state()
                    &&& r matches Err(e) && crate::gh::interactive_login_ok(Err(e), call.reply)
                }
            }),
    {
        let login = self.login_interactive(account.host.as_str());
        let ghost mid = *self;
        proof {
            assert(mid.log().drop_last() == old(self).log());
            assert(mid.log() =~= old(self).log().push(mid.log().last()));
        }
        if let Err(e) = login {
            return Err(e);
        }
        let r = self.switch(account.name.as_str(), SwitchOptions::default());
        proof {
            let i = old(self).log().len() as int;
            assert(self.log().subrange(0, mid.log().len() as int) == mid.log());
            assert(self.log()[i] == self.log().subrange(0, mid.log().len() as int)[i]);
            assert(self.log().subrange(0, i) =~= old(self).log());
        }
        r
    }

    /// Gives back the runner, the credential store and the account list.
    pub fn into_parts(self) -> (parts: (R, S, Store))
        ensures
            parts.0 == self.runner_state(),
            parts.1 == self.secrets_state(),
            parts.2 == self.store_state(),
    {
        (self.runner, self.secrets, self.store)
    }

    /// Writes the git identity of `account`: see [`git_trace`].
    fn prepare_git(&mut self, account: &Account, scope: Scope) -> (r: Result<()>)
        ensures
            final(self).store_state() == old(self).store_state(),
            final(self).ops() == old(self).ops(),
            final(self).probes() == old(self).probes(),
            ({
                let t = git_trace(account@, scope, final(self).log(), old(self).log().len() as int);
                &&& ran(old(self).log(), final(self).log(), t.calls)
                &&& t.requests.len() == 0
                &&& unit_is(r, t.result)
            }),
    {
        let ghost log0 = self.log();
        let ghost i = log0.len() as int;
        let ghost a = account@;
        if scope == Scope::Local {
            let inside = inside_repository_check(&mut self.runner);
            let ghost log1 = self.log();
            proof {
                assert(log1.subrange(0, i) =~= log0);
            }
            if !inside {
                return Err(Error::InvalidInput("the current directory is not inside a git repository".to_string()));
            }
            let w = write_identity(&mut self.runner, scope, account.git_name.as_str(), account.git_email.as_str());
            proof {
                let log2 = self.log();
                assert(log2.subrange(0, i) =~= log0);
                assert(log2[i] == log1[i]);
                let t = identity_trace(a, scope, log2, i + 1);
                let g = git_trace(a, scope, log2, i);
                assert(g.calls =~= seq![git_cmd(seq!["rev-parse"@, "--is-inside-work-tree"@])] + t.calls);
                assert forall|k: int| 0 <= k < g.calls.len() implies made(#[trigger] log2[log0.len() + k], g.calls[k]) by {
                    if k > 0 {
                        assert(g.calls[k] == t.calls[k - 1]);
                        assert(log2[log0.len() + k] == log2[log1.len() + (k - 1)]);
                    }
                }
                if w is Err {
                    let first = checked_step(log2[i + 1].reply, git_label(set_args(scope, "user.name"@, a.git_name)));
                    if first is Value {
                        lemma_step_error(w->Err_0, checked_step(log2[i + 2].reply, git_label(set_args(scope, "user.email"@, a.git_email))));
                    } else {
                        lemma_step_error(w->Err_0, first);
                    }
                }
            }
            w
        } else {
            let w = write_identity(&mut self.runner, scope, account.git_name.as_str(), account.git_email.as_str());
            proof {
                let log2 = self.log();
                let t = identity_trace(a, scope, log2, i);
                assert forall|k: int| 0 <= k < t.calls.len() implies made(#[trigger] log2[log0.len() + k], t.calls[k]) by {}
                if w is Err {
                    let first = checked_step(log2[i].reply, git_label(set_args(scope, "user.name"@, a.git_name)));
                    if first is Value {
                        lemma_step_error(w->Err_0, checked_step(log2[i + 1].reply, git_label(set_args(scope, "user.email"@, a.git_email))));
                    } else {
                        lemma_step_error(w->Err_0, first);
                    }
                }
            }
            w
        }
    }

    /// Sets up the credential helper and confirms the switch: see [`finish_trace`].
    fn finish_switch(&mut self, account: &Account, outcome: GhOutcome, scope: Scope, verify: bool) -> (r: Result<SwitchReport>)
        ensures
            final(self).store_state() == old(self).store_state(),
            final(self).ops() == old(self).ops(),
            final(self).probes() == old(self).probes(),
            ({
                let t = finish_trace(account@, outcome@, verify, final(self).log(), old(self).log().len() as int);
                &&& ran(old(self).log(), final(self).log(), t.calls)
                &&& t.requests.len() == 0
                &&& switched_is(r, t.result, scope)
            }),
    {
        let ghost log0 = self.log();
        let ghost i = log0.len() as int;
        let ghost a = account@;
        let setup = gh_setup_git(&mut self.runner, account.host.as_str());
        let ghost log1 = self.log();
        let ghost setup_step = checked_step(log1[i].reply, "gh auth setup-git"@);
        proof {
            assert(log1.subrange(0, i) =~= log0);
        }
        let mut warnings: Vec<String> = Vec::new();
        if let Err(err) = setup {
            proof {
                lemma_step_error(err, setup_step);
            }
            let mut w = "git credential helper was not updated: ".to_string();
            let m = err.message();
            w.append(m.as_str());
            warnings.push(w);
        }
        proof {
            assert(texts(warnings@) =~= (if setup_step is Value {
                Seq::<Seq<char>>::empty()
            } else {
                seq!["git credential helper was not updated: "@ + step_message(setup_step)]
            }));
        }
        let mut verified = false;
        if verify {
            let found = crate::gh::gh_active_login(&mut self.runner, account.host.as_str());
            proof {
                let log2 = self.log();
                assert(log2.subrange(0, i) =~= log0);
                assert(log2[i] == log1[i]);
            }
            let found = match found {
                Ok(f) => f,
                Err(e) => {
                    proof {
                        let log2 = self.log();
                        lemma_step_error(
                            e,
                            crate::gh::map_step(
                                accounts_step(log2[i + 1].reply),
                                |x: Seq<GhAccountView>| first_active(only_host(x, a.host)),
                            ),
                        );
                    }
                    return Err(e);
                },
            };
            let f = match found {
                Some(l) => l,
                None => String::new(),
            };
            if !eq_ignore_ascii_case(f.as_str(), account.username.as_str()) {
                let shown = if f.as_str().is_empty() {
                    "nobody".to_string()
                } else {
                    f
                };
                return Err(
                    Error::VerificationFailed {
                        expected: account.username.as_str().to_string(),
                        found: shown,
                    },
                );
            }
            verified = true;
        }
        Ok(SwitchReport { account: account.duplicate(), scope, gh: outcome, verified, warnings })
    }

    /// Points git and `gh` at the named profile: see [`switch_trace`]. The
    /// account becomes the active one exactly when the switch succeeds;
    /// a failed switch leaves the account list as it was.
    #[verifier::rlimit(40)]
    pub fn switch(&mut self, name: &str, options: SwitchOptions) -> (r: Result<SwitchReport>)
        ensures
            switch_done(*old(self), *final(self), name@, options, r),
    {
        let ghost c0 = self.config();
        let ghost log0 = self.log();
        let ghost ops0 = self.ops();
        let ghost i = log0.len() as int;
        let ghost j = ops0.len() as int;
        proof {
            assert(log0.subrange(0, i) =~= log0);
            assert(ops0.subrange(0, j) =~= ops0);
        }
        let account = match self.store.require(name) {
            Ok(a) => a.duplicate(),
            Err(e) => {
                return Err(e);
            },
        };
        let ghost k = find_name(c0.accounts, name@)->0;
        let ghost a = account@;
        if !self.runner.is_available("git") {
            proof {
                assert(self.probes() =~= old(self).probes() + seq![("git"@, false)]);
            }
            return Err(Error::MissingDependency("git"));
        }
        let g = self.prepare_git(&account, options.scope);
        let ghost log1 = self.log();
        proof {
            assert(self.probes() =~= old(self).probes() + seq![("git"@, true)]);
        }
        if let Err(e) = g {
            return Err(e);
        }
        let ghost g_calls = git_trace(a, options.scope, log1, i).calls;
        let gh_installed = self.runner.is_available("gh");
        proof {
            assert(self.probes() =~= old(self).probes() + seq![("git"@, true), ("gh"@, gh_installed)]);
        }
        let report = if !gh_installed {
            let reason = "GitHub CLI (gh) is not installed";
            let mut w = reason.to_string();
            w.append("; only the git identity was updated");
            let mut warnings: Vec<String> = Vec::new();
            warnings.push(w);
            proof {
                assert(texts(warnings@) =~= seq![gh_missing_reason() + "; only the git identity was updated"@]);
            }
            SwitchReport {
                account: account.duplicate(),
                scope: options.scope,
                gh: GhOutcome::Skipped(reason.to_string()),
                verified: false,
                warnings,
            }
        } else {
            let outcome = self.align_gh(&account);
            let ghost log2 = self.log();
            let ghost al = align_trace(a, log2, log1.len() as int, self.ops(), j);
            proof {
                assert forall|x: int| 0 <= x < log1.len() implies log2[x] == log1[x] by {
                    assert(log2.subrange(0, log1.len() as int)[x] == log2[x]);
                }
                assert(git_trace(a, options.scope, log2, i) == git_trace(a, options.scope, log1, i));
            }
            let outcome = match outcome {
                Ok(o) => o,
                Err(e) => {
                    proof {
                        let t = switch_trace(c0, name@, options, true, true, log2, i, self.ops(), j);
                        assert(t.calls =~= g_calls + al.calls);
                        assert forall|m: int| 0 <= m < t.calls.len() implies made(#[trigger] log2[log0.len() + m], t.calls[m]) by {
                            if m < g_calls.len() {
                                assert(log2[log0.len() + m] == log1[log0.len() + m]);
                            } else {
                                assert(t.calls[m] == al.calls[m - g_calls.len()]);
                                assert(log2[log0.len() + m] == log2[log1.len() + (m - g_calls.len())]);
                            }
                        }
                        assert(log2.subrange(0, i) =~= log0);
                    }
                    return Err(e);
                },
            };
            let rep = self.finish_switch(&account, outcome, options.scope, options.verify);
            let ghost log3 = self.log();
            proof {
                assert forall|x: int| 0 <= x < log2.len() implies log3[x] == log2[x] by {
                    assert(log3.subrange(0, log2.len() as int)[x] == log3[x]);
                }
                assert(git_trace(a, options.scope, log3, i) == git_trace(a, options.scope, log1, i));
                assert(align_trace(a, log3, log1.len() as int, self.ops(), j) == al);
                let fin = finish_trace(a, outcome@, options.verify, log3, log2.len() as int);
                let t = switch_trace(c0, name@, options, true, true, log3, i, self.ops(), j);
                assert(t.calls =~= g_calls + al.calls + fin.calls);
                assert forall|m: int| 0 <= m < t.calls.len() implies made(#[trigger] log3[log0.len() + m], t.calls[m]) by {
                    if m < g_calls.len() {
                        assert(log3[log0.len() + m] == log1[log0.len() + m]);
                    } else if m < g_calls.len() + al.calls.len() {
                        assert(t.calls[m] == al.calls[m - g_calls.len()]);
                        assert(log3[log0.len() + m] == log2[log1.len() + (m - g_calls.len())]);
                    } else {
                        assert(t.calls[m] == fin.calls[m - g_calls.len() - al.calls.len()]);
                        assert(log3[log0.len() + m] == log3[log2.len() + (m - g_calls.len() - al.calls.len())]);
                    }
                }
                assert(log3.subrange(0, i) =~= log0);
            }
            match rep {
                Ok(rep) => rep,
                Err(e) => {
                    return Err(e);
                },
            }
        };
        proof {
            lemma_find_own_name(c0.accounts, name@);
        }
        let ghost before_set = *self;
        let set = self.store.set_active(account.name.as_str());
        proof {
            assert(set is Ok);
            assert(self.probes() == before_set.probes());
        }
        Ok(report)
    }

    /// Collects the current state without changing the account list or the
    /// credential store: see [`status_trace`].
    pub fn status(&mut self) -> (st: Status)
        ensures
            status_done(*old(self), *final(self), st),
    {
        let ghost log0 = self.log();
        let ghost i = log0.len() as int;
        let mut problems: Vec<String> = Vec::new();
        let git_installed = self.runner.is_available("git");
        let gh_installed = self.runner.is_available("gh");
        let ghost has_git = git_installed;
        let ghost has_gh = gh_installed;
        if !git_installed {
            problems.push("git is not installed or not on PATH".to_string());
        }
        if !gh_installed {
            problems.push("GitHub CLI (gh) is not installed or not on PATH".to_string());
        }
        let ghost missing = texts(problems@);
        let git_version_text = if git_installed {
            match git_version(&mut self.runner) {
                Ok(v) => Some(v),
                Err(_) => None,
            }
        } else {
            None
        };
        let ghost log1 = self.log();
        let gh_version_text = if gh_installed {
            match gh_version(&mut self.runner) {
                Ok(v) => Some(v),
                Err(_) => None,
            }
        } else {
            None
        };
        let ghost log2 = self.log();
        let identity = if git_installed {
            match read_identity(&mut self.runner, None) {
                Ok(id) => id,
                Err(err) => {
                    proof {
                        let l = self.log();
                        let name_step = config_step(l[log2.len() as int].reply);
                        if name_step is Value {
                            lemma_step_error(err, config_step(l[log2.len() + 1int].reply));
                        } else {
                            lemma_step_error(err, name_step);
                        }
                    }
                    problems.push(err.message());
                    Identity::empty()
                }
            }
        } else {
            Identity::empty()
        };
        let ghost log3 = self.log();
        let ghost id_problems = texts(problems@).subrange(missing.len() as int, problems@.len() as int);
        let active_account = match self.store.active() {
            Some(a) => Some(a.duplicate()),
            None => None,
        };
        let host = match &active_account {
            Some(a) => a.host.as_str().to_string(),
            None => DEFAULT_HOST.to_string(),
        };
        let ghost problems3 = problems@;
        let gh_login = if gh_installed {
            match crate::gh::gh_active_login(&mut self.runner, host.as_str()) {
                Ok(login) => login,
                Err(err) => {
                    proof {
                        let l = self.log();
                        lemma_step_error(
                            err,
                            crate::gh::map_step(
                                accounts_step(l.last().reply),
                                |x: Seq<GhAccountView>| first_active(only_host(x, host@)),
                            ),
                        );
                    }
                    problems.push(err.message());
                    None
                }
            }
        } else {
            None
        };
        let ghost log4 = self.log();
        proof {
            assert forall|x: int| 0 <= x < log1.len() implies log4[x] == log1[x] by {
                assert(log2.subrange(0, log1.len() as int)[x] == log2[x]);
                assert(log3.subrange(0, log2.len() as int)[x] == log3[x]);
                assert(log4.subrange(0, log3.len() as int)[x] == log4[x]);
            }
            assert forall|x: int| 0 <= x < log2.len() implies log4[x] == log2[x] by {
                assert(log3.subrange(0, log2.len() as int)[x] == log3[x]);
                assert(log4.subrange(0, log3.len() as int)[x] == log4[x]);
            }
            assert forall|x: int| 0 <= x < log3.len() implies log4[x] == log3[x] by {
                assert(log4.subrange(0, log3.len() as int)[x] == log4[x]);
            }
            assert(self.probes() =~= old(self).probes() + seq![("git"@, has_git), ("gh"@, has_gh)]);
            let t = status_trace(self.config(), has_git, has_gh, log4, i);
            assert(t.1.problems =~= texts(problems@));
            assert(log4.subrange(0, i) =~= log0);
            assert forall|m: int| 0 <= m < t.0.len() implies made(#[trigger] log4[log0.len() + m], t.0[m]) by {
            }
        }
        Status {
            git_installed,
            gh_installed,
            git_version: git_version_text,
            gh_version: gh_version_text,
            identity,
            active_account,
            gh_login,
            problems,
        }
    }

    pub fn rename_account(&mut self, from: &str, to: &str) -> (r: Result<()>)
        ensures
            rename_done(*old(self), *final(self), from@, to@, r),
    {
        self.store.rename(from, to)
    }

    /// Forgets a profile, its cached token and, when asked and `gh` is
    /// installed, its `gh` session. The profile is gone from the list even
    /// when the logout then fails.
    pub fn remove_account(&mut self, name: &str, logout: bool) -> (r: Result<Account>)
        ensures
            remove_done(*old(self), *final(self), name@, logout, r),
    {
        let ghost c0 = self.config();
        let ghost log0 = self.log();
        let ghost ops0 = self.ops();
        let account = match self.store.require(name) {
            Ok(a) => a.duplicate(),
            Err(e) => {
                return Err(e);
            },
        };
        proof {
            lemma_find_own_name(c0.accounts, name@);
        }
        let removed = self.store.remove(account.name.as_str());
        let removed = match removed {
            Ok(x) => x,
            Err(e) => {
                return Err(e);
            },
        };
        let key = account.secret_key();
        let _ = self.secrets.delete(key.as_str());
        proof {
            let ops1 = self.ops();
            assert(ops1.subrange(0, ops0.len() as int) =~= ops0);
            assert(ops1[ops0.len() as int] == ops1.last());
        }
        let gh_installed = if logout {
            self.runner.is_available("gh")
        } else {
            false
        };
        proof {
            assert(self.probes() =~= old(self).probes() + (if logout {
                seq![("gh"@, gh_installed)]
            } else {
                Seq::empty()
            }));
        }
        if gh_installed {
            let out = gh_logout(&mut self.runner, account.host.as_str(), account.username.as_str());
            proof {
                let log1 = self.log();
                assert(log1.subrange(0, log0.len() as int) =~= log0);
                assert(log1[log0.len() as int] == log1.last());
            }
            if let Err(e) = out {
                proof {
                    lemma_step_error(e, logout_step(self.log().last().reply, account@.username));
                }
                return Err(e);
            }
        }
        Ok(removed)
    }

    /// Saves a profile and, when a token is supplied, authenticates `gh` with
    /// it first. The token is piped to `gh` on stdin and cached in the
    /// credential store, never in the account list; a store that cannot keep
    /// it only leaves `has_stored_token` unset, since `gh` already holds the
    /// session.
    pub fn add_account(&mut self, account: Account, token: Option<&str>) -> (r: Result<Account>)
        ensures
            add_done(*old(self), *final(self), account@, str_opt(token), r),
    {
        let ghost log0 = self.log();
        let ghost ops0 = self.ops();
        let ghost c0 = self.config();
        let v = account.validate();
        if let Err(e) = v {
            return Err(e);
        }
        if self.store.get(account.name.as_str()).is_some() {
            return Err(Error::DuplicateAccount(account.name));
        }
        let mut account = account;
        if let Some(token) = token {
            let tv = validate_token(token);
            if let Err(e) = tv {
                return Err(e);
            }
            if !self.runner.is_available("gh") {
                return Err(Error::MissingDependency("gh"));
            }
            let login = gh_login_with_token(&mut self.runner, account.host.as_str(), token);
            proof {
                let log1 = self.log();
                assert(log1.subrange(0, log0.len() as int) =~= log0);
                assert(log1[log0.len() as int] == log1.last());
            }
            if let Err(e) = login {
                proof {
                    lemma_step_error(e, checked_step(self.log().last().reply, "gh auth login --with-token"@));
                }
                return Err(e);
            }
            let key = account.secret_key();
            let secret = crate::text::trimmed(token);
            let kept = self.secrets.set(key.as_str(), secret.as_str());
            proof {
                let ops1 = self.ops();
                assert(ops1.subrange(0, ops0.len() as int) =~= ops0);
                assert(ops1[ops0.len() as int] == ops1.last());
            }
            match kept {
                Ok(()) => {
                    account.has_stored_token = true;
                },
                Err(Error::Secret(m)) => {
                    account.has_stored_token = false;
                },
                Err(e) => {
                    return Err(e);
                },
            }
        }
        let saved = account.duplicate();
        let added = self.store.add(account);
        proof {
            assert(added is Ok);
        }
        Ok(saved)
    }

    /// Stores a fresh token for an existing profile and logs `gh` back in with it.
    pub fn reauthenticate(&mut self, name: &str, token: &str) -> (r: Result<()>)
        ensures
            reauth_done(*old(self), *final(self), name@, token@, r),
    {
        let ghost log0 = self.log();
        let ghost ops0 = self.ops();
        let ghost c0 = self.config();
        let tv = validate_token(token);
        if let Err(e) = tv {
            return Err(e);
        }
        let mut account = match self.store.require(name) {
            Ok(a) => a.duplicate(),
            Err(e) => {
                return Err(e);
            },
        };
        if !self.runner.is_available("gh") {
            return Err(Error::MissingDependency("gh"));
        }
        let login = gh_login_with_token(&mut self.runner, account.host.as_str(), token);
        proof {
            let log1 = self.log();
            assert(log1.subrange(0, log0.len() as int) =~= log0);
            assert(log1[log0.len() as int] == log1.last());
        }
        if let Err(e) = login {
            proof {
                lemma_step_error(e, checked_step(self.log().last().reply, "gh auth login --with-token"@));
            }
            return Err(e);
        }
        let key = account.secret_key();
        let secret = crate::text::trimmed(token);
        let kept = self.secrets.set(key.as_str(), secret.as_str());
        proof {
            let ops1 = self.ops();
            assert(ops1.subrange(0, ops0.len() as int) =~= ops0);
            assert(ops1[ops0.len() as int] == ops1.last());
            lemma_find_own_name(c0.accounts, name@);
        }
        account.has_stored_token = kept.is_ok();
        self.store.update(account)
    }

    /// Brings `gh` onto `account`: see [`align_trace`].
    fn align_gh(&mut self, account: &Account) -> (r: Result<GhOutcome>)
        ensures
            final(self).store_state() == old(self).store_state(),
            final(self).probes() == old(self).probes(),
            ({
                let t = align_trace(
                    account@,
                    final(self).log(),
                    old(self).log().len() as int,
                    final(self).ops(),
                    old(self).ops().len() as int,
                );
                &&& ran(old(self).log(), final(self).log(), t.calls)
                &&& asked(old(self).ops(), final(self).ops(), t.requests)
                &&& outcome_is(r, t.result)
            }),
    {
        let ghost log0 = self.log();
        let ghost ops0 = self.ops();
        let ghost i = log0.len() as int;
        let ghost a = account@;
        let all = gh_accounts(&mut self.runner);
        let ghost log1 = self.log();
        proof {
            assert(log1.subrange(0, i) =~= log0);
        }
        let all = match all {
            Ok(v) => v,
            Err(e) => {
                proof {
                    assert(ops0.subrange(0, ops0.len() as int) =~= ops0);
                }
                return Err(e);
            },
        };
        let accounts = crate::gh::filter_host(all, account.host.as_str());
        if any_active_login(&accounts, account.username.as_str()) {
            proof {
                assert(ops0.subrange(0, ops0.len() as int) =~= ops0);
            }
            return Ok(GhOutcome::AlreadyActive);
        }
        if crate::gh::knows_login(&accounts, account.username.as_str()) {
            let s = gh_switch(&mut self.runner, account.host.as_str(), account.username.as_str());
            proof {
                let log2 = self.log();
                assert(log2.subrange(0, i) =~= log0);
                assert(log2[i] == log1[i]);
                assert(ops0.subrange(0, ops0.len() as int) =~= ops0);
            }
            return match s {
                Ok(()) => Ok(GhOutcome::Switched),
                Err(e) => Err(e),
            };
        }
        let key = account.secret_key();
        let fetched = self.secrets.get(key.as_str());
        proof {
            let ops1 = self.ops();
            assert(ops1.subrange(0, ops0.len() as int) =~= ops0);
            assert(ops1[ops0.len() as int] == ops1.last());
        }
        match fetched {
            Err(e) => Err(e),
            Ok(Some(token)) => {
                let s = gh_login_with_token(&mut self.runner, account.host.as_str(), token.as_str());
                proof {
                    let log2 = self.log();
                    assert(log2.subrange(0, i) =~= log0);
                    assert(log2[i] == log1[i]);
                }
                match s {
                    Ok(()) => Ok(GhOutcome::ReAuthenticated),
                    Err(e) => Err(e),
                }
            },
            Ok(None) => Err(Error::NotAuthenticated(account.host.as_str().to_string())),
        }
    }
}

// ---------------------------------------------------------------------------
// Laws of switching
// ---------------------------------------------------------------------------

/// Law: switching to a name that no saved account has runs no command and
/// asks nothing of the credential store.
pub proof fn lemma_unknown_switch_touches_nothing(
    c: ConfigView,
    name: Seq<char>,
    options: SwitchOptions,
    has_git: bool,
    has_gh: bool,
    log: Seq<Invocation>,
    i: int,
    ops: Seq<SecretOp>,
    j: int,
)
    requires
        find_name(c.accounts, name) is None,
    ensures
        ({
            let t = switch_trace(c, name, options, has_git, has_gh, log, i, ops, j);
            &&& t.calls.len() == 0
            &&& t.requests.len() == 0
            &&& t.result == Outcome::<Switched>::Fails(Failure::Unknown(name))
        }),
{
}

/// Law: when the names in the list are unique, the account a successful
/// switch reports is the one the name finds, and once it is recorded as
/// active the list reports it as the active account.
pub proof fn lemma_switch_makes_active(
    c: ConfigView,
    name: Seq<char>,
    options: SwitchOptions,
    has_git: bool,
    has_gh: bool,
    log: Seq<Invocation>,
    i: int,
    ops: Seq<SecretOp>,
    j: int,
)
    requires
        crate::store::names_unique(c.accounts),
        switch_trace(c, name, options, has_git, has_gh, log, i, ops, j).result is Done,
    ensures
        ({
            let v = switch_trace(c, name, options, has_git, has_gh, log, i, ops, j).result->Done_0;
            &&& find_name(c.accounts, name) matches Some(k) && v.account == c.accounts[k]
            &&& active_index(ConfigView { active: Some(v.account.name), ..c }) == find_name(
                c.accounts,
                name,
            )
        }),
{
    let k = find_name(c.accounts, name)->0;
    crate::store::lemma_set_active_then_active(c.accounts, name, c.version);
    let after = ConfigView { active: Some(c.accounts[k].name), ..c };
    assert(after == ConfigView { version: c.version, active: Some(c.accounts[k].name), accounts: c.accounts });
}

/// The login a step reports, or nothing.
pub open spec fn login_or_empty(login: Option<Seq<char>>) -> Seq<char> {
    match login {
        Some(l) => l,
        None => Seq::empty(),
    }
}

/// Law: a switch reported as verified ends with `gh auth status`, and in its
/// reply the login active on the account's host is the account's username,
/// ignoring ASCII case.
pub proof fn lemma_verified_switch_confirms_gh(
    c: ConfigView,
    name: Seq<char>,
    options: SwitchOptions,
    has_git: bool,
    has_gh: bool,
    log: Seq<Invocation>,
    i: int,
    ops: Seq<SecretOp>,
    j: int,
)
    requires
        switch_trace(c, name, options, has_git, has_gh, log, i, ops, j).result matches Outcome::Done(v)
            && v.verified,
    ensures
        ({
            let t = switch_trace(c, name, options, has_git, has_gh, log, i, ops, j);
            let v = t.result->Done_0;
            let last = i + t.calls.len() - 1;
            &&& t.calls.len() >= 1
            &&& t.calls.last() == gh_cmd(status_args(), None)
            &&& crate::gh::map_step(
                accounts_step(log[last].reply),
                |x: Seq<GhAccountView>| first_active(only_host(x, v.account.host)),
            ) matches Step::Value(login) && eq_ignore_case(login_or_empty(login), v.account.username)
        }),
{
    let k = find_name(c.accounts, name)->0;
    let a = c.accounts[k];
    let g = git_trace(a, options.scope, log, i);
    let i2 = i + g.calls.len();
    let al = align_trace(a, log, i2, ops, j);
    let o = al.result->Done_0;
    let fin = finish_trace(a, o, options.verify, log, i2 + al.calls.len());
    let t = switch_trace(c, name, options, has_git, has_gh, log, i, ops, j);
    assert(t.calls == g.calls + al.calls + fin.calls);
    assert(fin.calls.len() == 2);
    assert(t.calls.last() == fin.calls.last());
}

/// Law: with a profile active, git and `gh` count as consistent only when
/// `gh` has an active login and it is the profile's login, ignoring ASCII
/// case; with none active there is nothing to disagree about.
pub proof fn lemma_consistent_needs_the_profile_login(a: Option<AccountView>, login: Option<Seq<char>>)
    ensures
        consistent(a, login) <==> match a {
            Some(p) => login matches Some(x) && eq_ignore_case(p.username, x),
            None => true,
        },
{
}

/// The git option for `scope`.
pub open spec fn scope_option(scope: Scope) -> Seq<char> {
    if scope == Scope::Global {
        "--global"@
    } else {
        "--local"@
    }
}

/// Law: a switch that succeeds has written the profile's git identity in
/// the chosen scope: `git config <scope> user.name <its git name>`, then
/// `git config <scope> user.email <its git email>`, right after the
/// repository check when the scope is the repository.
pub proof fn lemma_switch_sets_profile_identity<R: Runner, S: SecretStore>(
    before: Service<R, S>,
    after: Service<R, S>,
    name: Seq<char>,
    options: SwitchOptions,
    r: Result<SwitchReport>,
)
    requires
        switch_done(before, after, name, options, r),
        r is Ok,
    ensures
        find_name(before.config().accounts, name) is Some,
        ({
            let a = before.config().accounts[find_name(before.config().accounts, name)->0];
            let i = before.log().len() + if options.scope == Scope::Local {
                1int
            } else {
                0int
            };
            let flag = scope_option(options.scope);
            &&& i + 1 < after.log().len()
            &&& after.log()[i].program == "git"@
            &&& after.log()[i].args == seq!["config"@, flag, "user.name"@, a.git_name]
            &&& after.log()[i + 1].program == "git"@
            &&& after.log()[i + 1].args == seq!["config"@, flag, "user.email"@, a.git_email]
        }),
{
    let has_git = answer(before.probes(), after.probes(), 0);
    let has_gh = answer(before.probes(), after.probes(), 1);
    let log = after.log();
    let i0 = before.log().len() as int;
    let t = switch_trace(before.config(), name, options, has_git, has_gh, log, i0, after.ops(), before.ops().len() as int);
    assert(t.result is Done);
    let k = find_name(before.config().accounts, name)->0;
    let a = before.config().accounts[k];
    let g = git_trace(a, options.scope, log, i0);
    assert(g.result is Done);
    assert(g.calls.len() >= 2);
    assert forall|m: int| 0 <= m < g.calls.len() implies #[trigger] t.calls[m] == g.calls[m] by {}
    let flag = scope_option(options.scope);
    if options.scope == Scope::Local {
        let id = identity_trace(a, options.scope, log, i0 + 1);
        assert(g.calls[1] == id.calls[0] && g.calls[2] == id.calls[1]);
        assert(made(log[i0 + 1], t.calls[1]));
        assert(made(log[i0 + 2], t.calls[2]));
    } else {
        assert(made(log[i0], t.calls[0]));
        assert(made(log[i0 + 1], t.calls[1]));
    }
}

/// Some login of `accounts` on `host` is marked active.
pub open spec fn active_on(accounts: Seq<GhAccountView>, host: Seq<char>) -> bool {
    exists|j: int| 0 <= j < accounts.len() && (#[trigger] accounts[j]).active && accounts[j].host == host
}

proof fn lemma_first_active(s: Seq<GhAccountView>)
    ensures
        first_active(s) matches Some(l) ==> exists|j: int|
            0 <= j < s.len() && (#[trigger] s[j]).active && s[j].login == l,
        (exists|j: int| 0 <= j < s.len() && (#[trigger] s[j]).active) ==> first_active(s) is Some,
    decreases s.len(),
{
    if s.len() > 0 && !s[0].active {
        let rest = s.drop_first();
        lemma_first_active(rest);
        if first_active(s) is Some {
            let j = choose|j: int| 0 <= j < rest.len() && (#[trigger] rest[j]).active && rest[j].login
                == first_active(s)->0;
            assert(s[j + 1] == rest[j]);
        }
        if exists|j: int| 0 <= j < s.len() && (#[trigger] s[j]).active {
            let j = choose|j: int| 0 <= j < s.len() && (#[trigger] s[j]).active;
            assert(rest[j - 1] == s[j]);
        }
    }
}

proof fn lemma_only_host(x: Seq<GhAccountView>, h: Seq<char>)
    ensures
        forall|j: int| 0 <= j < only_host(x, h).len() ==> (#[trigger] only_host(x, h)[j]).host == h
            && exists|m: int| 0 <= m < x.len() && x[m] == only_host(x, h)[j],
        forall|m: int| 0 <= m < x.len() && (#[trigger] x[m]).host == h ==> exists|j: int|
            0 <= j < only_host(x, h).len() && only_host(x, h)[j] == x[m],
    decreases x.len(),
{
    if x.len() > 0 {
        let rest = x.drop_last();
        lemma_only_host(rest, h);
        let o = only_host(x, h);
        let p = only_host(rest, h);
        assert forall|j: int| 0 <= j < o.len() implies (#[trigger] o[j]).host == h && exists|m: int|
            0 <= m < x.len() && x[m] == o[j] by {
            if j < p.len() {
                assert(o[j] == p[j]);
                let m = choose|m: int| 0 <= m < rest.len() && rest[m] == p[j];
                assert(x[m] == rest[m]);
            } else {
                assert(o[j] == x.last());
                assert(x[x.len() - 1] == x.last());
            }
        }
        assert forall|m: int| 0 <= m < x.len() && (#[trigger] x[m]).host == h implies exists|j: int|
            0 <= j < o.len() && o[j] == x[m] by {
            if m < rest.len() {
                assert(rest[m] == x[m]);
                let j = choose|j: int| 0 <= j < p.len() && p[j] == rest[m];
                assert(o[j] == p[j]);
            } else {
                assert(x[m] == x.last());
                assert(o[o.len() - 1] == x.last());
            }
        }
    }
}

/// With `gh` installed, a status run ends with `gh auth status`, and the
/// login it reports is read from that last reply.
proof fn lemma_status_ends_with_gh(c: ConfigView, has_git: bool, log: Seq<Invocation>, i: int)
    requires
        log.len() == i + status_trace(c, has_git, true, log, i).0.len(),
    ensures
        ({
            let t = status_trace(c, has_git, true, log, i);
            let host = match t.1.active_account {
                Some(a) => a.host,
                None => DEFAULT_HOST@,
            };
            let step = crate::gh::map_step(
                accounts_step(log.last().reply),
                |x: Seq<GhAccountView>| first_active(only_host(x, host)),
            );
            &&& t.0.len() > 0
            &&& t.0[t.0.len() - 1] == gh_cmd(status_args(), None)
            &&& t.1.gh_login == if step is Value {
                step->Value_0
            } else {
                None
            }
        }),
{
    let t = status_trace(c, has_git, true, log, i);
    assert(t.0.len() > 0);
    assert(log.len() - 1 == i + t.0.len() - 1);
}

/// Law: the login that status reports for `gh` is one that `gh auth status`
/// marked active on the active profile's host (the public host when no
/// profile is active); and when some login there is marked active, status
/// reports one.
#[verifier::spinoff_prover]
pub proof fn lemma_status_login_is_active_on_host<R: Runner, S: SecretStore>(
    before: Service<R, S>,
    after: Service<R, S>,
    st: Status,
)
    requires
        status_done(before, after, st),
    ensures
        ({
            let v = status_view(st);
            let host = match v.active_account {
                Some(a) => a.host,
                None => DEFAULT_HOST@,
            };
            let last = after.log().last();
            &&& v.gh_login matches Some(l) ==> {
                &&& v.gh_installed
                &&& last.program == "gh"@
                &&& last.args == seq!["auth"@, "status"@]
                &&& accounts_step(last.reply) matches Step::Value(accts) && exists|j: int|
                    0 <= j < accts.len() && (#[trigger] accts[j]).active && accts[j].host == host
                        && accts[j].login == l
            }
            &&& (v.gh_installed && (accounts_step(last.reply) matches Step::Value(accts) && active_on(
                accts,
                host,
            ))) ==> v.gh_login is Some
        }),
{
    let has_git = answer(before.probes(), after.probes(), 0);
    let has_gh = answer(before.probes(), after.probes(), 1);
    let log = after.log();
    let i = before.log().len() as int;
    let t = status_trace(before.config(), has_git, has_gh, log, i);
    let v = status_view(st);
    assert(v == t.1);
    assert(ran(before.log(), log, t.0));
    if has_gh {
        lemma_status_ends_with_gh(before.config(), has_git, log, i);
        let host = match v.active_account {
            Some(a) => a.host,
            None => DEFAULT_HOST@,
        };
        let k = t.0.len() - 1;
        assert(made(log[before.log().len() + k], t.0[k]));
        assert(log.last() == log[before.log().len() + k]);
        match accounts_step(log.last().reply) {
            Step::Value(accts) => {
                let on = only_host(accts, host);
                lemma_only_host(accts, host);
                lemma_first_active(on);
                if v.gh_login is Some {
                    let j = choose|j: int| 0 <= j < on.len() && (#[trigger] on[j]).active && on[j].login
                        == v.gh_login->0;
                    assert(on[j].host == host);
                    let m = choose|m: int| 0 <= m < accts.len() && accts[m] == on[j];
                    assert(accts[m].active && accts[m].host == host && accts[m].login == v.gh_login->0);
                }
                if active_on(accts, host) {
                    let m = choose|m: int| 0 <= m < accts.len() && (#[trigger] accts[m]).active && accts[m].host
                        == host;
                    let j = choose|j: int| 0 <= j < on.len() && on[j] == accts[m];
                    assert(on[j].active);
                }
            },
            _ => {},
        }
    }
}

} // verus!
