//! External commands: their results, the interface that runs them, and the
//! redaction that every captured string passes through.
use vstd::prelude::*;

use crate::error::{Error, Result};
use crate::text::{chars_of, is_ascii_alnum, is_ascii_alphanumeric, matches_at, occurs_at, trim, trimmed};

verus! {

/// Result of an external command invocation.
#[derive(Debug, Clone, PartialEq, Eq)]
pub struct Output {
    pub status: i32,
    pub stdout: String,
    pub stderr: String,
}

/// The text of an [`Output`].
pub struct OutputView {
    pub status: i32,
    pub stdout: Seq<char>,
    pub stderr: Seq<char>,
}

impl View for Output {
    type V = OutputView;

    open spec fn view(&self) -> OutputView {
        OutputView { status: self.status, stdout: self.stdout@, stderr: self.stderr@ }
    }
}

/// What [`Output::message`] shows: the trimmed error stream when it has
/// anything, the trimmed standard output otherwise, redacted either way.
pub open spec fn output_message(o: OutputView) -> Seq<char> {
    if trim(o.stderr).len() != 0 {
        redact_spec(trim(o.stderr))
    } else {
        redact_spec(trim(o.stdout))
    }
}

impl Output {
    pub fn ok(&self) -> (b: bool)
        ensures
            b == (self.status == 0),
    {
        self.status == 0
    }

    /// Combined output with the most useful stream first, used for messages.
    pub fn message(&self) -> (m: String)
        ensures
            m@ == output_message(self@),
    {
        let stderr = trimmed(self.stderr.as_str());
        if !stderr.as_str().is_empty() {
            return redact(stderr.as_str());
        }
        let stdout = trimmed(self.stdout.as_str());
        redact(stdout.as_str())
    }

    /// A field-by-field copy.
    pub fn duplicate(&self) -> (o: Output)
        ensures
            o@ == self@,
    {
        Output {
            status: self.status,
            stdout: self.stdout.as_str().to_string(),
            stderr: self.stderr.as_str().to_string(),
        }
    }
}

/// One command handed to a [`Runner`], and what came back. For an
/// interactive command only the exit status is kept, with empty streams.
pub struct Invocation {
    pub program: Seq<char>,
    pub args: Seq<Seq<char>>,
    pub stdin: Option<Seq<char>>,
    pub interactive: bool,
    pub reply: core::result::Result<OutputView, Error>,
}

pub open spec fn reply_view(r: Result<Output>) -> core::result::Result<OutputView, Error> {
    match r {
        Ok(o) => Ok(o@),
        Err(e) => Err(e),
    }
}

pub open spec fn status_reply(r: Result<i32>) -> core::result::Result<OutputView, Error> {
    match r {
        Ok(s) => Ok(OutputView { status: s, stdout: Seq::empty(), stderr: Seq::empty() }),
        Err(e) => Err(e),
    }
}

pub open spec fn arg_views(args: Seq<&str>) -> Seq<Seq<char>> {
    args.map_values(|a: &str| a@)
}

pub open spec fn stdin_view(stdin: Option<&str>) -> Option<Seq<char>> {
    match stdin {
        Some(s) => Some(s@),
        None => None,
    }
}

pub open spec fn invocation(
    program: Seq<char>,
    args: Seq<Seq<char>>,
    stdin: Option<Seq<char>>,
    interactive: bool,
    reply: core::result::Result<OutputView, Error>,
) -> Invocation {
    Invocation { program, args, stdin, interactive, reply }
}

/// Abstraction over process execution so Git and GitHub CLI interactions can be
/// exercised in tests without touching the real system.
///
/// What a command prints is up to the implementation; the contract is about
/// what is handed over and what is handed back: every call is recorded in
/// [`Runner::invocations`], with its program, its arguments, the data piped
/// to it and the reply, and every lookup of a program in
/// [`Runner::probes`], with its answer.
pub trait Runner {
    /// Every command handed over so far, in order.
    spec fn invocations(&self) -> Seq<Invocation>;

    /// Every program looked up so far, with whether it was found, in order.
    spec fn probes(&self) -> Seq<(Seq<char>, bool)>;

    fn run(&mut self, program: &str, args: &[&str], stdin: Option<&str>) -> (r: Result<Output>)
        ensures
            final(self).invocations() == old(self).invocations().push(
                invocation(program@, arg_views(args@), stdin_view(stdin), false, reply_view(r)),
            ),
            final(self).probes() == old(self).probes(),
    ;

    /// Runs a command attached to the current terminal (interactive login).
    fn run_interactive(&mut self, program: &str, args: &[&str]) -> (r: Result<i32>)
        ensures
            final(self).invocations() == old(self).invocations().push(
                invocation(program@, arg_views(args@), None, true, status_reply(r)),
            ),
            final(self).probes() == old(self).probes(),
    ;

    /// Whether `program` can be started on this machine.
    fn is_available(&mut self, program: &str) -> (b: bool)
        ensures
            final(self).invocations() == old(self).invocations(),
            final(self).probes() == old(self).probes().push((program@, b)),
    ;
}

/// `b` has looked up the same programs as `a`, with the same answers.
pub open spec fn same_probes<R: Runner>(a: R, b: R) -> bool {
    b.probes() == a.probes()
}

/// A command handed to a [`Spawner`]: the program, its arguments and the
/// data to pipe to it.
pub struct Request {
    pub program: String,
    pub args: Vec<String>,
    pub stdin: Option<String>,
}

/// The text of a [`Request`].
pub struct RequestView {
    pub program: Seq<char>,
    pub args: Seq<Seq<char>>,
    pub stdin: Option<Seq<char>>,
}

impl View for Request {
    type V = RequestView;

    open spec fn view(&self) -> RequestView {
        RequestView {
            program: self.program@,
            args: self.args@.map_values(|a: String| a@),
            stdin: match self.stdin {
                Some(t) => Some(t@),
                None => None,
            },
        }
    }
}

impl Request {
    /// The request to start `program` with `args`, piping `stdin` to it.
    pub fn new(program: &str, args: &[&str], stdin: Option<&str>) -> (q: Request)
        ensures
            q@ == (RequestView { program: program@, args: arg_views(args@), stdin: stdin_view(stdin) }),
    {
        let mut owned: Vec<String> = Vec::new();
        let mut i: usize = 0;
        while i < args.len()
            invariant
                i <= args@.len(),
                owned@.map_values(|a: String| a@) == arg_views(args@.take(i as int)),
            decreases args@.len() - i,
        {
            let a = args[i].to_string();
            let ghost prev = owned@;
            owned.push(a);
            proof {
                assert(owned@ == prev.push(a));
                assert(args@.take(i + 1) =~= args@.take(i as int).push(args@[i as int]));
                assert(arg_views(args@.take(i + 1)) =~= arg_views(args@.take(i as int)).push(args@[i as int]@));
                assert(owned@.map_values(|a: String| a@) =~= prev.map_values(|a: String| a@).push(a@));
            }
            i = i + 1;
        }
        proof {
            assert(args@.take(args@.len() as int) =~= args@);
        }
        let stdin = match stdin {
            Some(t) => Some(t.to_string()),
            None => None,
        };
        Request { program: program.to_string(), args: owned, stdin }
    }
}

/// What starts processes on the machine. A [`Recorder`] hands every request
/// to it and keeps the account of what was asked and answered.
pub trait Spawner {
    /// Starts the request's program, pipes its `stdin` to it when there is
    /// some, and waits for its exit status and captured output.
    fn spawn(&mut self, request: &Request) -> Result<Output>;

    /// Starts the request's program attached to the current terminal and
    /// waits for its exit status.
    fn spawn_interactive(&mut self, request: &Request) -> Result<i32>;

    /// Whether `program` can be found on this machine.
    fn locate(&self, program: &str) -> bool;
}

/// A [`Runner`] over a [`Spawner`]: it builds one [`Request`] per command,
/// hands that request to the spawner and records that same request with its
/// reply.
pub struct Recorder<P: Spawner> {
    spawner: P,
    log: Ghost<Seq<Invocation>>,
    lookups: Ghost<Seq<(Seq<char>, bool)>>,
}

/// The record of `request` handed over and answered with `reply`.
pub open spec fn handed(request: RequestView, interactive: bool, reply: core::result::Result<OutputView, Error>) -> Invocation {
    invocation(request.program, request.args, request.stdin, interactive, reply)
}

impl<P: Spawner> Recorder<P> {
    pub fn new(spawner: P) -> (r: Self)
        ensures
            r.invocations() == Seq::<Invocation>::empty(),
            r.probes() == Seq::<(Seq<char>, bool)>::empty(),
    {
        Recorder { spawner, log: Ghost(Seq::empty()), lookups: Ghost(Seq::empty()) }
    }
}

impl<P: Spawner> Runner for Recorder<P> {
    closed spec fn invocations(&self) -> Seq<Invocation> {
        self.log@
    }

    closed spec fn probes(&self) -> Seq<(Seq<char>, bool)> {
        self.lookups@
    }

    fn run(&mut self, program: &str, args: &[&str], stdin: Option<&str>) -> (r: Result<Output>) {
        let request = Request::new(program, args, stdin);
        let r = self.spawner.spawn(&request);
        self.log = Ghost(self.log@.push(handed(request@, false, reply_view(r))));
        r
    }

    fn run_interactive(&mut self, program: &str, args: &[&str]) -> (r: Result<i32>) {
        let request = Request::new(program, args, None);
        let r = self.spawner.spawn_interactive(&request);
        self.log = Ghost(self.log@.push(handed(request@, true, status_reply(r))));
        r
    }

    fn is_available(&mut self, program: &str) -> (b: bool) {
        let b = self.spawner.locate(program);
        self.lookups = Ghost(self.lookups@.push((program@, b)));
        b
    }
}

/// The error for a program that could not be started: a missing `git` or
/// `gh` is a dependency problem, anything else a spawn failure.
pub open spec fn spawn_error_matches(e: Error, program: Seq<char>, not_found: bool, message: Seq<char>) -> bool {
    if not_found && program == "git"@ {
        e matches Error::MissingDependency(p) && p@ == "git"@
    } else if not_found && program == "gh"@ {
        e matches Error::MissingDependency(p) && p@ == "gh"@
    } else {
        e matches Error::Spawn { program: p, message: m } && p@ == program && m@ == message
    }
}

/// Maps a failure to start `program` to an error. `not_found` says whether the
/// operating system reported the program as missing.
pub fn map_spawn_error(program: &str, not_found: bool, message: String) -> (e: Error)
    ensures
        spawn_error_matches(e, program@, not_found, message@),
{
    if not_found {
        if crate::text::str_eq(program, "git") {
            return Error::MissingDependency("git");
        }
        if crate::text::str_eq(program, "gh") {
            return Error::MissingDependency("gh");
        }
    }
    Error::Spawn { program: program.to_string(), message }
}

// ---------------------------------------------------------------------------
// Redaction
// ---------------------------------------------------------------------------

/// Characters that may continue a token: ASCII letters, digits and `_`.
pub open spec fn is_token_char(c: char) -> bool {
    is_ascii_alnum(c) || c == '_'
}

pub open spec fn ghp() -> Seq<char> {
    seq!['g', 'h', 'p', '_']
}

pub open spec fn gho() -> Seq<char> {
    seq!['g', 'h', 'o', '_']
}

pub open spec fn ghu() -> Seq<char> {
    seq!['g', 'h', 'u', '_']
}

pub open spec fn ghs() -> Seq<char> {
    seq!['g', 'h', 's', '_']
}

pub open spec fn ghr() -> Seq<char> {
    seq!['g', 'h', 'r', '_']
}

pub open spec fn github_pat() -> Seq<char> {
    seq!['g', 'i', 't', 'h', 'u', 'b', '_', 'p', 'a', 't', '_']
}

/// Length of the GitHub token prefix (`ghp_`, `gho_`, `ghu_`, `ghs_`, `ghr_`,
/// `github_pat_`) that starts at `i`, if any.
pub open spec fn prefix_len_at(s: Seq<char>, i: int) -> Option<nat> {
    if occurs_at(s, ghp(), i) {
        Some(4)
    } else if occurs_at(s, gho(), i) {
        Some(4)
    } else if occurs_at(s, ghu(), i) {
        Some(4)
    } else if occurs_at(s, ghs(), i) {
        Some(4)
    } else if occurs_at(s, ghr(), i) {
        Some(4)
    } else if occurs_at(s, github_pat(), i) {
        Some(11)
    } else {
        None
    }
}

/// First position at or after `i` that does not continue a token.
pub open spec fn run_end(s: Seq<char>, i: int) -> int
    decreases s.len() - i,
{
    if 0 <= i < s.len() && is_token_char(s[i]) {
        run_end(s, i + 1)
    } else {
        i
    }
}

/// A token prefix at `i` followed by token characters, more than eight
/// characters in all: this is what counts as a secret.
pub open spec fn token_at(s: Seq<char>, i: int) -> bool {
    &&& prefix_len_at(s, i) is Some
    &&& run_end(s, i + prefix_len_at(s, i)->0) - i > 8
}

/// Where the token that starts at `i` ends.
pub open spec fn token_end(s: Seq<char>, i: int) -> int {
    run_end(s, i + prefix_len_at(s, i)->0)
}

pub open spec fn redacted_marker() -> Seq<char> {
    "[redacted]"@
}

/// `s[i..]` with every token replaced by `[redacted]`, scanning left to right.
pub open spec fn redact_from(s: Seq<char>, i: int) -> Seq<char>
    decreases s.len() - i,
{
    if i < 0 || i >= s.len() {
        Seq::empty()
    } else if token_at(s, i) && i < token_end(s, i) <= s.len() {
        redacted_marker() + redact_from(s, token_end(s, i))
    } else {
        seq![s[i]] + redact_from(s, i + 1)
    }
}

pub open spec fn redact_spec(s: Seq<char>) -> Seq<char> {
    redact_from(s, 0)
}

/// No token left anywhere in `s`.
pub open spec fn token_free(s: Seq<char>) -> bool {
    forall|j: int| 0 <= j < s.len() ==> !token_at(s, j)
}

fn token_prefix_len(cs: &Vec<char>, i: usize) -> (r: Option<usize>)
    ensures
        r matches Some(n) ==> prefix_len_at(cs@, i as int) == Some(n as nat),
        r is None ==> prefix_len_at(cs@, i as int) is None,
{
    let p1 = vec!['g', 'h', 'p', '_'];
    let p2 = vec!['g', 'h', 'o', '_'];
    let p3 = vec!['g', 'h', 'u', '_'];
    let p4 = vec!['g', 'h', 's', '_'];
    let p5 = vec!['g', 'h', 'r', '_'];
    let p6 = vec!['g', 'i', 't', 'h', 'u', 'b', '_', 'p', 'a', 't', '_'];
    proof {
        assert(p1@ =~= ghp());
        assert(p2@ =~= gho());
        assert(p3@ =~= ghu());
        assert(p4@ =~= ghs());
        assert(p5@ =~= ghr());
        assert(p6@ =~= github_pat());
    }
    if matches_at(cs, &p1, i) {
        Some(4)
    } else if matches_at(cs, &p2, i) {
        Some(4)
    } else if matches_at(cs, &p3, i) {
        Some(4)
    } else if matches_at(cs, &p4, i) {
        Some(4)
    } else if matches_at(cs, &p5, i) {
        Some(4)
    } else if matches_at(cs, &p6, i) {
        Some(11)
    } else {
        None
    }
}

fn token_run_end(cs: &Vec<char>, i: usize) -> (e: usize)
    requires
        i <= cs@.len(),
    ensures
        e == run_end(cs@, i as int),
        i <= e <= cs@.len(),
{
    proof {
        lemma_run_end(cs@, i as int);
    }
    let mut e = i;
    while e < cs.len() && (is_ascii_alphanumeric(cs[e]) || cs[e] == '_')
        invariant
            i <= e <= cs@.len(),
            run_end(cs@, e as int) == run_end(cs@, i as int),
        decreases cs@.len() - e,
    {
        e = e + 1;
    }
    e
}

pub proof fn lemma_run_end(s: Seq<char>, i: int)
    requires
        0 <= i <= s.len(),
    ensures
        i <= run_end(s, i) <= s.len(),
        forall|k: int| i <= k < run_end(s, i) ==> is_token_char(#[trigger] s[k]),
        run_end(s, i) < s.len() ==> !is_token_char(s[run_end(s, i)]),
        forall|k: int| i <= k <= run_end(s, i) ==> run_end(s, k) == run_end(s, i),
    decreases s.len() - i,
{
    if i < s.len() && is_token_char(s[i]) {
        lemma_run_end(s, i + 1);
    }
}

proof fn lemma_prefix_bounds(s: Seq<char>, i: int)
    requires
        prefix_len_at(s, i) is Some,
    ensures
        0 <= i,
        i + prefix_len_at(s, i)->0 <= s.len(),
        forall|k: int| i <= k < i + prefix_len_at(s, i)->0 ==> is_token_char(#[trigger] s[k]),
        s[i] == 'g',
{
    let n = prefix_len_at(s, i)->0;
    let p = s.subrange(i, i + n);
    assert forall|k: int| i <= k < i + n implies is_token_char(#[trigger] s[k]) by {
        assert(s[k] == p[k - i]);
    }
    assert(s[i] == p[0]);
}

/// Replaces anything that looks like a GitHub token so it can never reach the
/// terminal, a log line or an error message.
pub fn redact(input: &str) -> (out: String)
    ensures
        out@ == redact_spec(input@),
{
    let cs = chars_of(input);
    let mut out = String::new();
    let mut i: usize = 0;
    while i < cs.len()
        invariant
            cs@ == input@,
            i <= cs@.len(),
            out@ + redact_from(cs@, i as int) == redact_from(cs@, 0),
        decreases cs@.len() - i,
    {
        let ghost before = out@;
        if let Some(n) = token_prefix_len(&cs, i) {
            proof {
                lemma_prefix_bounds(cs@, i as int);
            }
            let end = token_run_end(&cs, i + n);
            if end - i > 8 {
                out.append("[redacted]");
                proof {
                    assert(redact_from(cs@, i as int) == redacted_marker() + redact_from(cs@, end as int));
                    assert(before + redact_from(cs@, i as int) =~= out@ + redact_from(cs@, end as int));
                }
                i = end;
                continue;
            }
        }
        out.push(cs[i]);
        proof {
            assert(redact_from(cs@, i as int) == seq![cs@[i as int]] + redact_from(cs@, i + 1));
            assert(before + redact_from(cs@, i as int) =~= out@ + redact_from(cs@, i + 1));
        }
        i = i + 1;
    }
    proof {
        assert(out@ + redact_from(cs@, i as int) =~= out@);
    }
    out
}

// ---------------------------------------------------------------------------
// What redaction guarantees
// ---------------------------------------------------------------------------

proof fn lemma_token_bounds(s: Seq<char>, i: int)
    requires
        token_at(s, i),
    ensures
        0 <= i < token_end(s, i) <= s.len(),
{
    lemma_prefix_bounds(s, i);
    lemma_run_end(s, i + prefix_len_at(s, i)->0);
}

/// The run of token characters from `i` ends exactly at `m`.
proof fn lemma_run_end_exact(s: Seq<char>, i: int, m: int)
    requires
        0 <= i <= m <= s.len(),
        forall|k: int| i <= k < m ==> is_token_char(#[trigger] s[k]),
        m == s.len() || !is_token_char(s[m]),
    ensures
        run_end(s, i) == m,
    decreases m - i,
{
    if i < m {
        lemma_run_end_exact(s, i + 1, m);
    }
}

/// A run of token characters from `i` reaches at least `m`.
proof fn lemma_run_end_reaches(s: Seq<char>, i: int, m: int)
    requires
        0 <= i <= m <= s.len(),
        forall|k: int| i <= k < m ==> is_token_char(#[trigger] s[k]),
    ensures
        m <= run_end(s, i),
        run_end(s, m) == run_end(s, i),
    decreases m - i,
{
    if i < m {
        assert(is_token_char(s[i]));
        lemma_run_end_reaches(s, i + 1, m);
    } else {
        lemma_run_end(s, m);
    }
}

/// Copying: positions where no token starts are carried over one by one.
proof fn lemma_copy(s: Seq<char>, i: int, m: int)
    requires
        0 <= i <= m <= s.len(),
        forall|k: int| i <= k < m ==> !token_at(s, k),
    ensures
        redact_from(s, i) == s.subrange(i, m) + redact_from(s, m),
    decreases m - i,
{
    if i < m {
        lemma_copy(s, i + 1, m);
        assert(redact_from(s, i) == seq![s[i]] + redact_from(s, i + 1));
        assert(s.subrange(i, m) =~= seq![s[i]] + s.subrange(i + 1, m));
        assert(seq![s[i]] + (s.subrange(i + 1, m) + redact_from(s, m)) =~= s.subrange(i, m)
            + redact_from(s, m));
    } else {
        assert(s.subrange(i, m) =~= Seq::<char>::empty());
        assert(Seq::<char>::empty() + redact_from(s, m) =~= redact_from(s, m));
    }
}

proof fn lemma_occurs_shift(a: Seq<char>, b: Seq<char>, p: Seq<char>, j: int)
    requires
        0 <= j,
    ensures
        occurs_at(a + b, p, a.len() + j) == occurs_at(b, p, j),
{
    if occurs_at(b, p, j) {
        assert((a + b).subrange(a.len() + j, a.len() + j + p.len()) =~= b.subrange(j, j + p.len()));
    }
    if occurs_at(a + b, p, a.len() + j) {
        assert((a + b).subrange(a.len() + j, a.len() + j + p.len()) =~= b.subrange(j, j + p.len()));
    }
}

proof fn lemma_run_end_shift(a: Seq<char>, b: Seq<char>, j: int)
    requires
        0 <= j <= b.len(),
    ensures
        run_end(a + b, a.len() + j) == a.len() + run_end(b, j),
    decreases b.len() - j,
{
    if j < b.len() {
        assert((a + b)[a.len() + j] == b[j]);
        if is_token_char(b[j]) {
            lemma_run_end_shift(a, b, j + 1);
        }
    }
}

proof fn lemma_token_shift(a: Seq<char>, b: Seq<char>, j: int)
    requires
        0 <= j < b.len(),
    ensures
        token_at(a + b, a.len() + j) == token_at(b, j),
{
    lemma_occurs_shift(a, b, ghp(), j);
    lemma_occurs_shift(a, b, gho(), j);
    lemma_occurs_shift(a, b, ghu(), j);
    lemma_occurs_shift(a, b, ghs(), j);
    lemma_occurs_shift(a, b, ghr(), j);
    lemma_occurs_shift(a, b, github_pat(), j);
    if prefix_len_at(b, j) is Some {
        lemma_prefix_bounds(b, j);
        lemma_run_end_shift(a, b, j + prefix_len_at(b, j)->0);
    }
}

/// No prefix, and so no token, starts at a position holding `c != 'g'`.
proof fn lemma_no_prefix_at(s: Seq<char>, j: int)
    requires
        0 <= j < s.len(),
        s[j] != 'g',
    ensures
        prefix_len_at(s, j) is None,
        !token_at(s, j),
{
    if prefix_len_at(s, j) is Some {
        lemma_prefix_bounds(s, j);
    }
}

/// First position at or after `i` where copying stops: the end of the text,
/// a character that cannot continue a token, or the start of a token.
spec fn copy_stop(s: Seq<char>, i: int) -> int
    decreases s.len() - i,
{
    if 0 <= i < s.len() && is_token_char(s[i]) && !token_at(s, i) {
        copy_stop(s, i + 1)
    } else {
        i
    }
}

proof fn lemma_copy_stop(s: Seq<char>, i: int)
    requires
        0 <= i <= s.len(),
    ensures
        i <= copy_stop(s, i) <= s.len(),
        forall|k: int| i <= k < copy_stop(s, i) ==> is_token_char(#[trigger] s[k]) && !token_at(s, k),
        copy_stop(s, i) < s.len() ==> !is_token_char(s[copy_stop(s, i)]) || token_at(
            s,
            copy_stop(s, i),
        ),
    decreases s.len() - i,
{
    if i < s.len() && is_token_char(s[i]) && !token_at(s, i) {
        lemma_copy_stop(s, i + 1);
    }
}

/// The output from position `m` is empty or starts with a character that
/// cannot continue a token, when `m` is where copying stops.
proof fn lemma_after_stop(s: Seq<char>, m: int)
    requires
        0 <= m <= s.len(),
        m < s.len() ==> !is_token_char(s[m]) || token_at(s, m),
    ensures
        redact_from(s, m).len() > 0 ==> !is_token_char(redact_from(s, m)[0]),
{
    reveal_strlit("[redacted]");
    if m < s.len() {
        if token_at(s, m) {
            lemma_token_bounds(s, m);
            assert(redact_from(s, m) == redacted_marker() + redact_from(s, token_end(s, m)));
            assert(redact_from(s, m)[0] == '[');
        } else {
            assert(redact_from(s, m) == seq![s[m]] + redact_from(s, m + 1));
        }
    }
}

/// The first position of a copied character never starts a token in the output.
proof fn lemma_copied_head(s: Seq<char>, i: int)
    requires
        0 <= i < s.len(),
        !token_at(s, i),
    ensures
        !token_at(redact_from(s, i), 0),
{
    let o = redact_from(s, i);
    lemma_copy_stop(s, i);
    let m = copy_stop(s, i);
    if prefix_len_at(o, 0) is Some {
        let n = prefix_len_at(o, 0)->0 as int;
        lemma_prefix_bounds(o, 0);
        // The character at 0 is a `g`, so it is a token character and copying goes past it.
        if m == i {
            lemma_after_stop(s, i);
            assert(false);
        }
        assert forall|k: int| i <= k < m implies !token_at(s, k) by {}
        lemma_copy(s, i, m);
        lemma_after_stop(s, m);
        let rest = redact_from(s, m);
        assert(o == s.subrange(i, m) + rest);
        // The prefix fits inside the copied characters.
        if n > m - i {
            assert(o[m - i] == rest[0]);
            assert(is_token_char(o[m - i]));
            assert(false);
        }
        assert(o.subrange(0, m - i) =~= s.subrange(i, m));
        assert forall|p: Seq<char>| p.len() <= m - i implies occurs_at(o, p, 0) == occurs_at(s, p, i) by {
            if p.len() <= m - i {
                assert(o.subrange(0, p.len() as int) =~= s.subrange(i, i + p.len()));
            }
        }
        assert(prefix_len_at(s, i) == Some(n as nat)) by {
            if n == 4 {
                assert(ghp().len() == 4 && gho().len() == 4 && ghu().len() == 4);
                assert(ghs().len() == 4 && ghr().len() == 4);
            } else {
                assert(github_pat().len() == 11);
                assert(ghp().len() == 4 && gho().len() == 4 && ghu().len() == 4);
                assert(ghs().len() == 4 && ghr().len() == 4);
            }
        }
        // In the input, the run from i reaches past the copied stretch.
        lemma_run_end_reaches(s, i, m);
        lemma_prefix_bounds(s, i);
        lemma_run_end_reaches(s, i, i + n);
        assert(run_end(s, i + n) - i <= 8);
        // In the output, the run stops where copying stopped.
        assert forall|k: int| n <= k < m - i implies is_token_char(#[trigger] o[k]) by {
            assert(o[k] == s[i + k]);
        }
        if m - i < o.len() {
            assert(o[m - i] == rest[0]);
        }
        lemma_run_end_exact(o, n, m - i);
    }
}

/// Redaction leaves nothing token-shaped behind: scanning the output again
/// finds no token anywhere.
pub proof fn lemma_redact_from_token_free(s: Seq<char>, i: int)
    requires
        0 <= i <= s.len(),
    ensures
        token_free(redact_from(s, i)),
    decreases s.len() - i,
{
    reveal_strlit("[redacted]");
    if i < s.len() {
        let o = redact_from(s, i);
        if token_at(s, i) {
            lemma_token_bounds(s, i);
            let e = token_end(s, i);
            lemma_redact_from_token_free(s, e);
            let rest = redact_from(s, e);
            assert(o == redacted_marker() + rest);
            assert forall|j: int| 0 <= j < o.len() implies !token_at(o, j) by {
                if j < 10 {
                    assert(o[j] == redacted_marker()[j]);
                    lemma_no_prefix_at(o, j);
                } else {
                    lemma_token_shift(redacted_marker(), rest, j - 10);
                }
            }
        } else {
            lemma_redact_from_token_free(s, i + 1);
            let rest = redact_from(s, i + 1);
            assert(o == seq![s[i]] + rest);
            assert forall|j: int| 0 <= j < o.len() implies !token_at(o, j) by {
                if j == 0 {
                    lemma_copied_head(s, i);
                } else {
                    lemma_token_shift(seq![s[i]], rest, j - 1);
                }
            }
        }
    }
}

/// Law: whatever goes in, nothing shaped like a GitHub token comes out of
/// [`redact`].
pub proof fn lemma_redact_is_token_free(s: Seq<char>)
    ensures
        token_free(redact_spec(s)),
{
    lemma_redact_from_token_free(s, 0);
}

/// Law: text that holds no token passes through [`redact`] unchanged.
pub proof fn lemma_redact_keeps_token_free_text(s: Seq<char>)
    requires
        token_free(s),
    ensures
        redact_spec(s) == s,
{
    lemma_copy(s, 0, s.len() as int);
    assert(s.subrange(0, s.len() as int) =~= s);
    assert(redact_from(s, s.len() as int) =~= Seq::<char>::empty());
    assert(s + Seq::<char>::empty() =~= s);
}

/// Law: redacting twice is the same as redacting once.
pub proof fn lemma_redact_idempotent(s: Seq<char>)
    ensures
        redact_spec(redact_spec(s)) == redact_spec(s),
{
    lemma_redact_is_token_free(s);
    lemma_redact_keeps_token_free_text(redact_spec(s));
}

} // verus!
