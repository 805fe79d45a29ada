//! The `git` side of an account: the identity in `user.name` / `user.email`.
use vstd::prelude::*;

use crate::error::{Error, Result};
use crate::process::{
    arg_views, output_message, redact, redact_spec, Invocation, Output, OutputView, Runner,
};
use crate::text::{eq_ignore_case, str_eq, trim, trimmed};

verus! {

/// Which git configuration file an operation targets.
#[derive(Debug, Clone, Copy, PartialEq, Eq, Structural)]
pub enum Scope {
    /// `~/.gitconfig` - the identity used by every repository by default.
    Global,
    /// `.git/config` of the repository in the working directory.
    Local,
}

pub open spec fn flag_of(scope: Scope) -> Seq<char> {
    match scope {
        Scope::Global => "--global"@,
        Scope::Local => "--local"@,
    }
}

pub open spec fn label_of(scope: Scope) -> Seq<char> {
    match scope {
        Scope::Global => "global"@,
        Scope::Local => "repository"@,
    }
}

impl Scope {
    pub fn flag(self) -> (f: &'static str)
        ensures
            f@ == flag_of(self),
    {
        match self {
            Scope::Global => "--global",
            Scope::Local => "--local",
        }
    }

    pub fn label(self) -> (l: &'static str)
        ensures
            l@ == label_of(self),
    {
        match self {
            Scope::Global => "global",
            Scope::Local => "repository",
        }
    }

    /// The scope used when none is chosen: the global configuration.
    pub fn default() -> (s: Scope)
        ensures
            s == Scope::Global,
    {
        Scope::Global
    }
}

/// The `user.name` / `user.email` pair git would use right now.
#[derive(Debug, Clone, Default, PartialEq, Eq)]
pub struct Identity {
    pub name: Option<String>,
    pub email: Option<String>,
}

pub open spec fn opt_view(s: Option<String>) -> Option<Seq<char>> {
    match s {
        Some(t) => Some(t@),
        None => None,
    }
}

impl Identity {
    pub fn is_complete(&self) -> (b: bool)
        ensures
            b == (self.name is Some && self.email is Some),
    {
        self.name.is_some() && self.email.is_some()
    }

    /// No name and no email.
    pub fn empty() -> (i: Identity)
        ensures
            i.name is None && i.email is None,
    {
        Identity { name: None, email: None }
    }
}

// ---------------------------------------------------------------------------
// How command replies become results
// ---------------------------------------------------------------------------

/// `e` is the failure of `command` with output `o`.
pub open spec fn command_failed(e: Error, command: Seq<char>, o: OutputView) -> bool {
    e matches Error::CommandFailed { command: c, status, message } && c@ == command && status
        == o.status && message@ == output_message(o)
}

/// The result of one command: a value, the runner's own error passed on, or
/// the command's failure reported under a label.
pub enum Step<T> {
    Value(T),
    RunnerError(Error),
    Failed(Seq<char>, OutputView),
}

/// `e` is the error that `step` stands for.
pub open spec fn step_error<T>(e: Error, step: Step<T>) -> bool {
    match step {
        Step::Value(_) => false,
        Step::RunnerError(x) => e == x,
        Step::Failed(command, o) => command_failed(e, command, o),
    }
}

/// A reply that must have succeeded: its output, or the failure of `command`.
pub open spec fn checked_step(reply: core::result::Result<OutputView, Error>, command: Seq<char>) -> Step<OutputView> {
    match reply {
        Err(e) => Step::RunnerError(e),
        Ok(o) => if o.status != 0 {
            Step::Failed(command, o)
        } else {
            Step::Value(o)
        },
    }
}

/// What `git config --get` yields: unset keys are `None`, not errors.
pub open spec fn config_step(reply: core::result::Result<OutputView, Error>) -> Step<Option<Seq<char>>> {
    match reply {
        Err(e) => Step::RunnerError(e),
        Ok(o) => if o.status == 1 && trim(o.stderr).len() == 0 {
            Step::Value(None)
        } else if o.status != 0 {
            Step::Failed("git config --get"@, o)
        } else if trim(o.stdout).len() == 0 {
            Step::Value(None)
        } else {
            Step::Value(Some(redact_spec(trim(o.stdout))))
        },
    }
}

/// `r` is what `step` yields.
pub open spec fn opt_result(r: Result<Option<String>>, step: Step<Option<Seq<char>>>) -> bool {
    match step {
        Step::Value(v) => r matches Ok(x) && opt_view(x) == v,
        _ => r matches Err(e) && step_error(e, step),
    }
}

pub open spec fn unit_result(r: Result<()>, step: Step<OutputView>) -> bool {
    match step {
        Step::Value(_) => r is Ok,
        _ => r matches Err(e) && step_error(e, step),
    }
}

/// `log` is `before` with one more entry.
pub open spec fn one_more(before: Seq<Invocation>, log: Seq<Invocation>) -> bool {
    log.len() == before.len() + 1 && log.drop_last() == before
}

/// A call of `git` with these arguments, not interactive and with nothing piped in.
pub open spec fn git_call(inv: Invocation, args: Seq<Seq<char>>) -> bool {
    inv.program == "git"@ && inv.args == args && inv.stdin is None && !inv.interactive
}

pub open spec fn get_args(scope: Option<Scope>, key: Seq<char>) -> Seq<Seq<char>> {
    match scope {
        Some(s) => seq!["config"@, flag_of(s), "--get"@, key],
        None => seq!["config"@, "--get"@, key],
    }
}

pub open spec fn set_args(scope: Scope, key: Seq<char>, value: Seq<char>) -> Seq<Seq<char>> {
    seq!["config"@, flag_of(scope), key, value]
}

/// The label a failed `git` command is reported under: the command line.
pub open spec fn git_label(args: Seq<Seq<char>>) -> Seq<char> {
    "git "@ + crate::testing::join_words(args)
}

// ---------------------------------------------------------------------------
// Operations
// ---------------------------------------------------------------------------

fn fail(command: String, out: &Output) -> (e: Error)
    ensures
        command_failed(e, command@, out@),
{
    Error::CommandFailed { command, status: out.status, message: out.message() }
}

/// Reads one configuration key.
pub fn config_get<R: Runner>(runner: &mut R, scope: Option<Scope>, key: &str) -> (r: Result<
    Option<String>,
>)
    ensures
        crate::process::same_probes(*old(runner), *final(runner)),
        one_more(old(runner).invocations(), final(runner).invocations()),
        git_call(final(runner).invocations().last(), get_args(scope, key@)),
        opt_result(r, config_step(final(runner).invocations().last().reply)),
{
    let out = match scope {
        Some(s) => {
            let flag = s.flag();
            let r = runner.run("git", &["config", flag, "--get", key], None);
            proof {
                assert(arg_views(seq!["config", flag, "--get", key]) =~= get_args(scope, key@));
            }
            r
        },
        None => {
            let r = runner.run("git", &["config", "--get", key], None);
            proof {
                assert(arg_views(seq!["config", "--get", key]) =~= get_args(scope, key@));
            }
            r
        },
    };
    proof {
        assert(final(runner).invocations().drop_last() =~= old(runner).invocations());
    }
    let out = out?;
    let stderr = trimmed(out.stderr.as_str());
    // git exits with 1 when the key is simply not set, which is not an error.
    if out.status == 1 && stderr.as_str().is_empty() {
        return Ok(None);
    }
    if !out.ok() {
        return Err(fail("git config --get".to_string(), &out));
    }
    let value = trimmed(out.stdout.as_str());
    if value.as_str().is_empty() {
        Ok(None)
    } else {
        Ok(Some(redact(value.as_str())))
    }
}

/// Writes one configuration key.
pub fn config_set<R: Runner>(runner: &mut R, scope: Scope, key: &str, value: &str) -> (r: Result<
    (),
>)
    ensures
        crate::process::same_probes(*old(runner), *final(runner)),
        one_more(old(runner).invocations(), final(runner).invocations()),
        git_call(final(runner).invocations().last(), set_args(scope, key@, value@)),
        unit_result(
            r,
            checked_step(
                final(runner).invocations().last().reply,
                git_label(set_args(scope, key@, value@)),
            ),
        ),
{
    let flag = scope.flag();
    let out = runner.run("git", &["config", flag, key, value], None);
    proof {
        assert(arg_views(seq!["config", flag, key, value]) =~= set_args(scope, key@, value@));
        assert(final(runner).invocations().drop_last() =~= old(runner).invocations());
    }
    let out = out?;
    if !out.ok() {
        let mut command = "git config ".to_string();
        command.append(flag);
        command.append(" ");
        command.append(key);
        command.append(" ");
        command.append(value);
        proof {
            reveal_strlit("git config ");
            reveal_strlit("git ");
            reveal_strlit("config");
            reveal_strlit(" ");
            let a = set_args(scope, key@, value@);
            assert(a.drop_last().drop_last().drop_last() =~= seq!["config"@]);
            assert(a.drop_last().drop_last() =~= seq!["config"@, flag_of(scope)]);
            assert(a.drop_last() =~= seq!["config"@, flag_of(scope), key@]);
            let a1 = seq!["config"@];
            let a2 = seq!["config"@, flag_of(scope)];
            let a3 = seq!["config"@, flag_of(scope), key@];
            assert(crate::testing::join_words(a1) == "config"@);
            assert(crate::testing::join_words(a2) == crate::testing::join_words(a1) + " "@ + flag_of(scope));
            assert(crate::testing::join_words(a3) == crate::testing::join_words(a2) + " "@ + key@);
            assert(crate::testing::join_words(a) == crate::testing::join_words(a3) + " "@ + value@);
            assert(command@ =~= git_label(a));
        }
        return Err(fail(command, &out));
    }
    Ok(())
}

/// What `git --version` yields: the trimmed output, redacted.
pub open spec fn version_step(reply: core::result::Result<OutputView, Error>) -> Step<Seq<char>> {
    match checked_step(reply, "git --version"@) {
        Step::Value(o) => Step::Value(redact_spec(trim(o.stdout))),
        Step::RunnerError(e) => Step::RunnerError(e),
        Step::Failed(c, o) => Step::Failed(c, o),
    }
}

pub open spec fn string_result(r: Result<String>, step: Step<Seq<char>>) -> bool {
    match step {
        Step::Value(v) => r matches Ok(x) && x@ == v,
        _ => r matches Err(e) && step_error(e, step),
    }
}

pub fn git_version<R: Runner>(runner: &mut R) -> (r: Result<String>)
    ensures
        crate::process::same_probes(*old(runner), *final(runner)),
        one_more(old(runner).invocations(), final(runner).invocations()),
        git_call(final(runner).invocations().last(), seq!["--version"@]),
        string_result(r, version_step(final(runner).invocations().last().reply)),
{
    let out = runner.run("git", &["--version"], None);
    proof {
        assert(arg_views(seq!["--version"]) =~= seq!["--version"@]);
        assert(final(runner).invocations().last().args =~= seq!["--version"@]);
        assert(final(runner).invocations().drop_last() =~= old(runner).invocations());
    }
    let out = out?;
    if !out.ok() {
        proof {
            assert(crate::testing::join_words(seq!["--version"@]) == "--version"@);
        }
        return Err(fail("git --version".to_string(), &out));
    }
    let version = trimmed(out.stdout.as_str());
    Ok(redact(version.as_str()))
}

/// What reading an identity yields from the two replies.
pub open spec fn identity_result(r: Result<Identity>, log: Seq<Invocation>, start: int) -> bool {
    let name = config_step(log[start].reply);
    match name {
        Step::Value(n) => {
            let email = config_step(log[start + 1].reply);
            match email {
                Step::Value(m) => r matches Ok(id) && opt_view(id.name) == n && opt_view(id.email)
                    == m,
                _ => r matches Err(e) && step_error(e, email),
            }
        },
        _ => r matches Err(e) && step_error(e, name),
    }
}

/// Reads `user.name`, then `user.email` unless the first read failed.
pub fn read_identity<R: Runner>(runner: &mut R, scope: Option<Scope>) -> (r: Result<Identity>)
    ensures
        crate::process::same_probes(*old(runner), *final(runner)),
        ({
            let before = old(runner).invocations();
            let log = final(runner).invocations();
            let start = before.len() as int;
            &&& log.subrange(0, start) == before
            &&& git_call(log[start], get_args(scope, "user.name"@))
            &&& identity_result(r, log, start)
            &&& if config_step(log[start].reply) is Value {
                log.len() == start + 2 && git_call(log[start + 1], get_args(scope, "user.email"@))
            } else {
                log.len() == start + 1
            }
        }),
{
    let ghost before = runner.invocations();
    let name = config_get(runner, scope, "user.name");
    let ghost mid = runner.invocations();
    let name = match name {
        Ok(n) => n,
        Err(e) => {
            proof {
                assert(mid.subrange(0, before.len() as int) =~= before);
            }
            return Err(e);
        },
    };
    let email = config_get(runner, scope, "user.email");
    proof {
        let log = runner.invocations();
        assert(log.drop_last() == mid);
        assert(log.subrange(0, before.len() as int) =~= before);
        assert(log[before.len() as int] == mid.last());
    }
    let email = email?;
    Ok(Identity { name, email })
}

/// Writes `user.name`, then `user.email` unless the first write failed.
pub fn write_identity<R: Runner>(runner: &mut R, scope: Scope, name: &str, email: &str) -> (r:
    Result<()>)
    ensures
        crate::process::same_probes(*old(runner), *final(runner)),
        ({
            let before = old(runner).invocations();
            let log = final(runner).invocations();
            let start = before.len() as int;
            let first = checked_step(log[start].reply, git_label(set_args(scope, "user.name"@, name@)));
            &&& log.subrange(0, start) == before
            &&& git_call(log[start], set_args(scope, "user.name"@, name@))
            &&& if first is Value {
                &&& log.len() == start + 2
                &&& git_call(log[start + 1], set_args(scope, "user.email"@, email@))
                &&& unit_result(
                    r,
                    checked_step(
                        log[start + 1].reply,
                        git_label(set_args(scope, "user.email"@, email@)),
                    ),
                )
            } else {
                log.len() == start + 1 && unit_result(r, first)
            }
        }),
{
    let ghost before = runner.invocations();
    let first = config_set(runner, scope, "user.name", name);
    let ghost mid = runner.invocations();
    proof {
        assert(mid.subrange(0, before.len() as int) =~= before);
    }
    if let Err(e) = first {
        return Err(e);
    }
    let second = config_set(runner, scope, "user.email", email);
    proof {
        let log = runner.invocations();
        assert(log.drop_last() == mid);
        assert(log.subrange(0, before.len() as int) =~= before);
        assert(log[before.len() as int] == mid.last());
    }
    second
}

/// Whether `git rev-parse --is-inside-work-tree` answers `true`; any failure counts as no.
pub open spec fn inside_repository(reply: core::result::Result<OutputView, Error>) -> bool {
    match reply {
        Ok(o) => o.status == 0 && trim(o.stdout) == "true"@,
        Err(_) => false,
    }
}

pub fn inside_repository_check<R: Runner>(runner: &mut R) -> (b: bool)
    ensures
        crate::process::same_probes(*old(runner), *final(runner)),
        one_more(old(runner).invocations(), final(runner).invocations()),
        git_call(final(runner).invocations().last(), seq!["rev-parse"@, "--is-inside-work-tree"@]),
        b == inside_repository(final(runner).invocations().last().reply),
{
    let out = runner.run("git", &["rev-parse", "--is-inside-work-tree"], None);
    proof {
        assert(arg_views(seq!["rev-parse", "--is-inside-work-tree"]) =~= seq![
            "rev-parse"@,
            "--is-inside-work-tree"@,
        ]);
        assert(final(runner).invocations().drop_last() =~= old(runner).invocations());
    }
    match out {
        Ok(o) => {
            if !o.ok() {
                return false;
            }
            let value = trimmed(o.stdout.as_str());
            str_eq(value.as_str(), "true")
        },
        Err(_) => false,
    }
}

/// Runs git commands through a [`Runner`].
pub struct Git<'r, R: Runner> {
    pub runner: &'r mut R,
}

impl<'r, R: Runner> Git<'r, R> {
    pub fn new(runner: &'r mut R) -> (g: Self)
        ensures
            *g.runner == *old(runner),
            *final(g.runner) == *final(runner),
    {
        Git { runner }
    }

    /// Commands handed to the runner so far.
    pub open spec fn log(&self) -> Seq<Invocation> {
        (*self.runner).invocations()
    }

    /// Whether git can be started; the lookup joins the runner's probes.
    pub fn is_installed(&mut self) -> (b: bool)
        ensures
            *final(final(self).runner) == *final(old(self).runner),
            final(self).log() == old(self).log(),
            (*final(self).runner).probes() == (*old(self).runner).probes().push(("git"@, b)),
    {
        self.runner.is_available("git")
    }

    pub fn version(&mut self) -> (r: Result<String>)
        ensures
            crate::process::same_probes(*old(self).runner, *final(self).runner),
            *final(final(self).runner) == *final(old(self).runner),
            one_more(old(self).log(), final(self).log()),
            git_call(final(self).log().last(), seq!["--version"@]),
            string_result(r, version_step(final(self).log().last().reply)),
    {
        git_version(self.runner)
    }

    /// Effective identity, honouring the local repository when there is one.
    pub fn identity(&mut self) -> (r: Result<Identity>)
        ensures
            crate::process::same_probes(*old(self).runner, *final(self).runner),
            *final(final(self).runner) == *final(old(self).runner),
            final(self).log().subrange(0, old(self).log().len() as int) == old(self).log(),
            git_call(final(self).log()[old(self).log().len() as int], get_args(None, "user.name"@)),
            identity_result(r, final(self).log(), old(self).log().len() as int),
            ({
                let log = final(self).log();
                let start = old(self).log().len() as int;
                if config_step(log[start].reply) is Value {
                    log.len() == start + 2 && git_call(log[start + 1], get_args(None, "user.email"@))
                } else {
                    log.len() == start + 1
                }
            }),
    {
        read_identity(self.runner, None)
    }

    pub fn identity_in(&mut self, scope: Scope) -> (r: Result<Identity>)
        ensures
            crate::process::same_probes(*old(self).runner, *final(self).runner),
            *final(final(self).runner) == *final(old(self).runner),
            final(self).log().subrange(0, old(self).log().len() as int) == old(self).log(),
            git_call(
                final(self).log()[old(self).log().len() as int],
                get_args(Some(scope), "user.name"@),
            ),
            identity_result(r, final(self).log(), old(self).log().len() as int),
            ({
                let log = final(self).log();
                let start = old(self).log().len() as int;
                if config_step(log[start].reply) is Value {
                    log.len() == start + 2 && git_call(log[start + 1], get_args(Some(scope), "user.email"@))
                } else {
                    log.len() == start + 1
                }
            }),
    {
        read_identity(self.runner, Some(scope))
    }

    pub fn set_identity(&mut self, scope: Scope, name: &str, email: &str) -> (r: Result<()>)
        ensures
            crate::process::same_probes(*old(self).runner, *final(self).runner),
            *final(final(self).runner) == *final(old(self).runner),
            ({
                let before = old(self).log();
                let log = final(self).log();
                let start = before.len() as int;
                let first = checked_step(log[start].reply, git_label(set_args(scope, "user.name"@, name@)));
                &&& log.subrange(0, start) == before
                &&& git_call(log[start], set_args(scope, "user.name"@, name@))
                &&& if first is Value {
                    &&& log.len() == start + 2
                    &&& git_call(log[start + 1], set_args(scope, "user.email"@, email@))
                    &&& unit_result(
                        r,
                        checked_step(
                            log[start + 1].reply,
                            git_label(set_args(scope, "user.email"@, email@)),
                        ),
                    )
                } else {
                    log.len() == start + 1 && unit_result(r, first)
                }
            }),
    {
        write_identity(self.runner, scope, name, email)
    }

    pub fn is_inside_repository(&mut self) -> (b: bool)
        ensures
            crate::process::same_probes(*old(self).runner, *final(self).runner),
            *final(final(self).runner) == *final(old(self).runner),
            one_more(old(self).log(), final(self).log()),
            b == inside_repository(final(self).log().last().reply),
    {
        inside_repository_check(self.runner)
    }
}

} // verus!
