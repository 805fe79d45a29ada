//! The GitHub CLI side of an account: who `gh` is logged in as, and the
//! commands that change it.
use vstd::prelude::*;

use crate::error::{Error, Result};
use crate::git::{checked_step, command_failed, one_more, opt_view, step_error, Step};
use crate::process::{arg_views, output_message, redact, redact_spec, Invocation, Output, OutputView, Runner};
use crate::text::{
    chars_of, char_eq_ignore_case, contains, contains_chars, eq_ignore_case, find, find_from,
    is_whitespace, is_ws, lemma_find_contains, lemma_find_from, matches_at, occurs_at,
    skip_whitespace, skip_ws, starts_with, string_of_range, trim, trim_bounds, trimmed,
};

verus! {

/// One entry from `gh auth status`.
#[derive(Debug, Clone, PartialEq, Eq)]
pub struct GhAccount {
    pub host: String,
    pub login: String,
    pub active: bool,
}

pub struct GhAccountView {
    pub host: Seq<char>,
    pub login: Seq<char>,
    pub active: bool,
}

impl View for GhAccount {
    type V = GhAccountView;

    open spec fn view(&self) -> GhAccountView {
        GhAccountView { host: self.host@, login: self.login@, active: self.active }
    }
}

pub open spec fn accounts_view(v: Seq<GhAccount>) -> Seq<GhAccountView> {
    v.map_values(|a: GhAccount| a@)
}

// ---------------------------------------------------------------------------
// Reading `gh auth status`
// ---------------------------------------------------------------------------

/// End of the line that starts at `pos`: the next `\n`, or the end of the text.
pub open spec fn line_end(s: Seq<char>, pos: int) -> int
    decreases s.len() - pos,
{
    if pos < 0 || pos >= s.len() || s[pos] == '\n' {
        pos
    } else {
        line_end(s, pos + 1)
    }
}

/// The line that starts at `pos`, as `str::lines` yields it: without its
/// `\n`, and without a `\r` right before that `\n`.
pub open spec fn line_at(s: Seq<char>, pos: int) -> Seq<char> {
    let e = line_end(s, pos);
    if e < s.len() && e > pos && s[e - 1] == '\r' {
        s.subrange(pos, e - 1)
    } else {
        s.subrange(pos, e)
    }
}

/// The first whitespace-separated word of `s`, as `split_whitespace().next()`.
pub open spec fn first_word(s: Seq<char>) -> Option<Seq<char>> {
    let a = skip_ws(s, 0);
    if a >= s.len() {
        None
    } else {
        Some(s.subrange(a, word_end(s, a)))
    }
}

/// End of the run of non-whitespace characters starting at `i`.
pub open spec fn word_end(s: Seq<char>, i: int) -> int
    decreases s.len() - i,
{
    if 0 <= i < s.len() && !is_ws(s[i]) {
        word_end(s, i + 1)
    } else {
        i
    }
}

/// The login on a `Logged in to <host> account <login>` line, redacted
/// like every captured string.
pub open spec fn login_from_spec(t: Seq<char>) -> Option<Seq<char>> {
    match find_from(t, "account "@, 0) {
        None => None,
        Some(i) => if !contains(t, "Logged in to"@) {
            None
        } else {
            match first_word(t.subrange(i + "account "@.len(), t.len() as int)) {
                Some(w) => Some(redact_spec(w)),
                None => None,
            }
        },
    }
}

/// The host on a `Logged in to <host> ...` line.
pub open spec fn host_from_spec(t: Seq<char>) -> Option<Seq<char>> {
    match find_from(t, "Logged in to "@, 0) {
        None => None,
        Some(i) => first_word(t.subrange(i + "Logged in to "@.len(), t.len() as int)),
    }
}

/// `s` without any `:` at its end.
pub open spec fn strip_colons(s: Seq<char>) -> Seq<char>
    decreases s.len(),
{
    if s.len() > 0 && s.last() == ':' {
        strip_colons(s.drop_last())
    } else {
        s
    }
}

/// Host headers are the only unindented, non-bulleted lines without spaces.
pub open spec fn is_host_header(line: Seq<char>, t: Seq<char>) -> bool {
    &&& !(line.len() > 0 && is_ws(line[0]))
    &&& !starts_with(t, seq!['-'])
    &&& !contains(t, seq![' '])
}

/// The state of the parser: the current host header and the accounts so far.
pub struct ParseState {
    pub host: Seq<char>,
    pub accounts: Seq<GhAccountView>,
}

/// How one line changes the parser state.
pub open spec fn parse_step(st: ParseState, line: Seq<char>) -> ParseState {
    let t = trim(line);
    if t.len() == 0 {
        st
    } else if is_host_header(line, t) {
        ParseState { host: strip_colons(t), accounts: st.accounts }
    } else if login_from_spec(t) is Some {
        let host = match host_from_spec(t) {
            Some(h) => h,
            None => st.host,
        };
        ParseState {
            host: st.host,
            accounts: st.accounts.push(
                GhAccountView { host, login: login_from_spec(t)->0, active: false },
            ),
        }
    } else if starts_with(t, "- Active account:"@) && st.accounts.len() > 0 {
        let rest = t.subrange("- Active account:"@.len() as int, t.len() as int);
        ParseState {
            host: st.host,
            accounts: st.accounts.update(
                st.accounts.len() - 1,
                GhAccountView { active: eq_ignore_case(trim(rest), "true"@), ..st.accounts.last() },
            ),
        }
    } else {
        st
    }
}

/// The parser state after every line from `pos` on.
pub open spec fn parse_from(s: Seq<char>, pos: int, st: ParseState) -> ParseState
    decreases s.len() + 1 - pos,
{
    if pos < 0 || pos >= s.len() {
        st
    } else {
        proof {
            lemma_line_end(s, pos);
        }
        parse_from(s, line_end(s, pos) + 1, parse_step(st, line_at(s, pos)))
    }
}

/// Number of accounts on `host`.
pub open spec fn host_count(accounts: Seq<GhAccountView>, host: Seq<char>) -> nat
    decreases accounts.len(),
{
    if accounts.len() == 0 {
        0
    } else {
        host_count(accounts.drop_last(), host) + if accounts.last().host == host {
            1nat
        } else {
            0nat
        }
    }
}

/// Older gh versions omit the "Active account" line when only one account
/// exists on a host; that single account is the active one.
pub open spec fn mark_lone_accounts(accounts: Seq<GhAccountView>) -> Seq<GhAccountView> {
    Seq::new(
        accounts.len(),
        |k: int|
            GhAccountView {
                active: accounts[k].active || host_count(accounts, accounts[k].host) == 1,
                ..accounts[k]
            },
    )
}

/// The accounts that `gh auth status` reports in `text`.
pub open spec fn parse_status_spec(text: Seq<char>) -> Seq<GhAccountView> {
    mark_lone_accounts(
        parse_from(text, 0, ParseState { host: Seq::empty(), accounts: Seq::empty() }).accounts,
    )
}

pub proof fn lemma_line_end(s: Seq<char>, pos: int)
    requires
        0 <= pos <= s.len(),
    ensures
        pos <= line_end(s, pos) <= s.len(),
        line_end(s, pos) < s.len() ==> s[line_end(s, pos)] == '\n',
        forall|k: int| pos <= k < line_end(s, pos) ==> s[k] != '\n',
    decreases s.len() - pos,
{
    if pos < s.len() && s[pos] != '\n' {
        lemma_line_end(s, pos + 1);
    }
}

proof fn lemma_word_end(s: Seq<char>, i: int)
    requires
        0 <= i <= s.len(),
    ensures
        i <= word_end(s, i) <= s.len(),
    decreases s.len() - i,
{
    if i < s.len() && !is_ws(s[i]) {
        lemma_word_end(s, i + 1);
    }
}

proof fn lemma_strip_colons(s: Seq<char>)
    ensures
        strip_colons(s).len() <= s.len(),
        strip_colons(s) == s.subrange(0, strip_colons(s).len() as int),
    decreases s.len(),
{
    if s.len() > 0 && s.last() == ':' {
        lemma_strip_colons(s.drop_last());
        assert(s.drop_last().subrange(0, strip_colons(s).len() as int) =~= s.subrange(
            0,
            strip_colons(s).len() as int,
        ));
    } else {
        assert(s.subrange(0, s.len() as int) =~= s);
    }
}

/// End of the line starting at `pos`.
fn next_newline(cs: &Vec<char>, pos: usize) -> (e: usize)
    requires
        pos <= cs@.len(),
    ensures
        e == line_end(cs@, pos as int),
        pos <= e <= cs@.len(),
{
    proof {
        lemma_line_end(cs@, pos as int);
    }
    let mut e = pos;
    while e < cs.len() && cs[e] != '\n'
        invariant
            pos <= e <= cs@.len(),
            line_end(cs@, e as int) == line_end(cs@, pos as int),
        decreases cs@.len() - e,
    {
        e = e + 1;
    }
    e
}

/// Bounds of the first whitespace-separated word of `cs[from..]`.
fn first_word_bounds(cs: &Vec<char>, from: usize) -> (r: Option<(usize, usize)>)
    requires
        from <= cs@.len(),
    ensures
        match first_word(cs@.subrange(from as int, cs@.len() as int)) {
            Some(w) => r matches Some((a, b)) && from <= a <= b <= cs@.len() && cs@.subrange(
                a as int,
                b as int,
            ) == w,
            None => r is None,
        },
{
    let ghost s = cs@.subrange(from as int, cs@.len() as int);
    let a = skip_whitespace(cs, from);
    proof {
        lemma_skip_shift(cs@, from as int, 0);
    }
    if a >= cs.len() {
        return None;
    }
    let mut b = a;
    proof {
        lemma_word_end(s, a - from);
    }
    while b < cs.len() && !is_whitespace(cs[b])
        invariant
            s == cs@.subrange(from as int, cs@.len() as int),
            from <= a <= b <= cs@.len(),
            word_end(s, b - from) == word_end(s, a - from),
        decreases cs@.len() - b,
    {
        assert(s[b - from] == cs@[b as int]);
        b = b + 1;
    }
    proof {
        if b < cs@.len() {
            assert(s[b - from] == cs@[b as int]);
        }
        assert(s.subrange(a - from, b - from) =~= cs@.subrange(a as int, b as int));
    }
    Some((a, b))
}

/// `skip_ws` on a suffix is `skip_ws` on the whole shifted back.
proof fn lemma_skip_shift(s: Seq<char>, from: int, i: int)
    requires
        0 <= from <= s.len(),
        0 <= i <= s.len() - from,
    ensures
        skip_ws(s.subrange(from, s.len() as int), i) + from == skip_ws(s, from + i),
    decreases s.len() - from - i,
{
    let t = s.subrange(from, s.len() as int);
    if i < t.len() {
        assert(t[i] == s[from + i]);
        if is_ws(t[i]) {
            lemma_skip_shift(s, from, i + 1);
        }
    }
}

/// The word following `marker` in `t`, when `marker` occurs.
fn word_after(t: &Vec<char>, marker: &str) -> (r: Option<String>)
    ensures
        match find_from(t@, marker@, 0) {
            None => r is None,
            Some(i) => opt_view(r) == first_word(t@.subrange(i + marker@.len(), t@.len() as int)),
        },
{
    let m = chars_of(marker);
    match find(t, &m, 0) {
        None => None,
        Some(i) => {
            proof {
                lemma_find_from(t@, m@, 0);
            }
            assert(i + m@.len() <= t@.len());
            assert(i + m.len() <= t.len());
            match first_word_bounds(t, i + m.len()) {
                Some((a, b)) => Some(string_of_range(t, a, b)),
                None => None,
            }
        },
    }
}

fn login_from(t: &Vec<char>) -> (r: Option<String>)
    ensures
        opt_view(r) == login_from_spec(t@),
{
    let marker = chars_of("Logged in to");
    let logged_in = contains_chars(t, &marker);
    let found = find(t, &chars_of("account "), 0);
    if found.is_none() || !logged_in {
        return None;
    }
    match word_after(t, "account ") {
        Some(w) => Some(redact(w.as_str())),
        None => None,
    }
}

fn host_from(t: &Vec<char>) -> (r: Option<String>)
    ensures
        opt_view(r) == host_from_spec(t@),
{
    word_after(t, "Logged in to ")
}

/// `t` without its trailing colons.
fn strip_trailing_colons(t: &Vec<char>) -> (s: String)
    ensures
        s@ == strip_colons(t@),
{
    let mut e = t.len();
    proof {
        assert(t@.subrange(0, e as int) =~= t@);
    }
    while e > 0 && t[e - 1] == ':'
        invariant
            e <= t@.len(),
            strip_colons(t@.subrange(0, e as int)) == strip_colons(t@),
        decreases e,
    {
        proof {
            assert(t@.subrange(0, e as int).drop_last() =~= t@.subrange(0, e - 1));
        }
        e = e - 1;
    }
    string_of_range(t, 0, e)
}

fn copy_account(a: &GhAccount) -> (b: GhAccount)
    ensures
        b@ == a@,
{
    GhAccount {
        host: a.host.as_str().to_string(),
        login: a.login.as_str().to_string(),
        active: a.active,
    }
}

/// Parses the human readable `gh auth status` report.
///
/// Token lines are ignored on purpose - gitswitch never reads or displays them.
pub fn parse_status(text: &str) -> (accounts: Vec<GhAccount>)
    ensures
        accounts_view(accounts@) == parse_status_spec(text@),
{
    let cs = chars_of(text);
    let mut accounts: Vec<GhAccount> = Vec::new();
    let mut host = String::new();
    let mut pos: usize = 0;
    let ghost init = ParseState { host: Seq::empty(), accounts: Seq::empty() };
    proof {
        assert(accounts_view(accounts@) =~= Seq::<GhAccountView>::empty());
    }
    while pos < cs.len()
        invariant
            cs@ == text@,
            pos <= cs@.len(),
            parse_from(cs@, pos as int, ParseState { host: host@, accounts: accounts_view(accounts@) })
                == parse_from(cs@, 0, init),
        decreases cs@.len() - pos,
    {
        let e = next_newline(&cs, pos);
        let line_hi = if e < cs.len() && e > pos && cs[e - 1] == '\r' {
            e - 1
        } else {
            e
        };
        let ghost line = line_at(cs@, pos as int);
        let ghost st = ParseState { host: host@, accounts: accounts_view(accounts@) };
        proof {
            assert(line == cs@.subrange(pos as int, line_hi as int));
        }
        let line_chars = slice_chars(&cs, pos, line_hi);
        let (lo, hi) = trim_bounds(&line_chars);
        let t = slice_chars(&line_chars, lo, hi);
        proof {
            assert(t@ == trim(line));
        }
        if t.len() == 0 {
            // blank line
        } else {
            let starts_ws = is_whitespace(line_chars[0]);
            let dash = vec!['-'];
            let space = vec![' '];
            let starts_dash = matches_at(&t, &dash, 0);
            let has_space = contains_chars(&t, &space);
            proof {
                assert(dash@ =~= seq!['-']);
                assert(space@ =~= seq![' ']);
            }
            if !starts_ws && !starts_dash && !has_space {
                host = strip_trailing_colons(&t);
            } else {
                let login = login_from(&t);
                match login {
                    Some(login) => {
                        let entry_host = match host_from(&t) {
                            Some(h) => h,
                            None => host.as_str().to_string(),
                        };
                        let ghost entry = GhAccountView {
                            host: entry_host@,
                            login: login@,
                            active: false,
                        };
                        accounts.push(GhAccount { host: entry_host, login, active: false });
                        proof {
                            assert(accounts_view(accounts@) =~= st.accounts.push(entry));
                        }
                    },
                    None => {
                        let marker = chars_of("- Active account:");
                        if matches_at(&t, &marker, 0) && accounts.len() > 0 {
                            let rest = string_of_range(&t, marker.len(), t.len());
                            let value = trimmed(rest.as_str());
                            let active = crate::text::eq_ignore_ascii_case(value.as_str(), "true");
                            let last = accounts.len() - 1;
                            let mut entry = copy_account(&accounts[last]);
                            entry.active = active;
                            let ghost new_entry = entry@;
                            accounts.set(last, entry);
                            proof {
                                assert(accounts_view(accounts@) =~= st.accounts.update(
                                    last as int,
                                    new_entry,
                                ));
                            }
                        }
                    },
                }
            }
        }
        proof {
            assert(ParseState { host: host@, accounts: accounts_view(accounts@) } == parse_step(
                st,
                line,
            ));
        }
        let ghost old_pos = pos;
        proof {
            assert(parse_from(cs@, old_pos as int, st) == parse_from(
                cs@,
                e + 1,
                parse_step(st, line),
            ));
        }
        if e >= cs.len() {
            pos = cs.len();
        } else {
            pos = e + 1;
        }
    }
    mark_lone(&mut accounts);
    accounts
}

/// `cs[from..to]` as a new vector.
fn slice_chars(cs: &Vec<char>, from: usize, to: usize) -> (v: Vec<char>)
    requires
        from <= to <= cs@.len(),
    ensures
        v@ == cs@.subrange(from as int, to as int),
{
    let mut v: Vec<char> = Vec::new();
    let mut i = from;
    while i < to
        invariant
            from <= i <= to <= cs@.len(),
            v@ == cs@.subrange(from as int, i as int),
        decreases to - i,
    {
        v.push(cs[i]);
        proof {
            assert(cs@.subrange(from as int, i + 1) =~= cs@.subrange(from as int, i as int).push(
                cs@[i as int],
            ));
        }
        i = i + 1;
    }
    v
}

/// Marks every account that is alone on its host as active.
fn mark_lone(accounts: &mut Vec<GhAccount>)
    ensures
        accounts_view(final(accounts)@) == mark_lone_accounts(accounts_view(old(accounts)@)),
{
    let ghost orig = accounts_view(accounts@);
    let n = accounts.len();
    let mut flags: Vec<bool> = Vec::new();
    let mut k: usize = 0;
    while k < n
        invariant
            n == accounts@.len(),
            orig == accounts_view(accounts@),
            k <= n,
            flags@.len() == k,
            forall|j: int| 0 <= j < k ==> #[trigger] flags@[j] == (host_count(orig, orig[j].host) == 1),
        decreases n - k,
    {
        let mut count: usize = 0;
        let mut j: usize = 0;
        while j < n
            invariant
                n == accounts@.len(),
                orig == accounts_view(accounts@),
                k < n,
                j <= n,
                count == host_count(orig.take(j as int), orig[k as int].host),
                count <= j,
            decreases n - j,
        {
            proof {
                assert(orig.take(j + 1).drop_last() =~= orig.take(j as int));
            }
            if crate::text::str_eq(accounts[j].host.as_str(), accounts[k].host.as_str()) {
                count = count + 1;
            }
            j = j + 1;
        }
        proof {
            assert(orig.take(n as int) =~= orig);
        }
        flags.push(count == 1);
        k = k + 1;
    }
    let mut i: usize = 0;
    while i < n
        invariant
            n == accounts@.len(),
            n == orig.len(),
            flags@.len() == n,
            i <= n,
            forall|j: int| 0 <= j < n ==> #[trigger] flags@[j] == (host_count(orig, orig[j].host) == 1),
            forall|j: int|
                0 <= j < i ==> #[trigger] accounts_view(accounts@)[j] == mark_lone_accounts(orig)[j],
            forall|j: int| i <= j < n ==> #[trigger] accounts_view(accounts@)[j] == orig[j],
        decreases n - i,
    {
        let ghost before = accounts_view(accounts@);
        assert(before[i as int] == orig[i as int]);
        assert(before[i as int] == accounts@[i as int]@);
        if flags[i] {
            let mut entry = copy_account(&accounts[i]);
            entry.active = true;
            assert(entry@ == mark_lone_accounts(orig)[i as int]);
            accounts.set(i, entry);
            assert(accounts@[i as int]@ == mark_lone_accounts(orig)[i as int]);
        } else {
            assert(mark_lone_accounts(orig)[i as int] == orig[i as int]);
        }
        proof {
            assert(accounts_view(accounts@)[i as int] == mark_lone_accounts(orig)[i as int]);
            assert forall|j: int| 0 <= j < n && j != i implies #[trigger] accounts_view(accounts@)[j]
                == before[j] by {}
        }
        i = i + 1;
    }
    proof {
        assert(accounts_view(accounts@) =~= mark_lone_accounts(orig));
    }
}

// ---------------------------------------------------------------------------
// Commands
// ---------------------------------------------------------------------------

/// A call of `gh` with these arguments and this piped input, not interactive.
pub open spec fn gh_call(inv: Invocation, args: Seq<Seq<char>>, stdin: Option<Seq<char>>) -> bool {
    inv.program == "gh"@ && inv.args == args && inv.stdin == stdin && !inv.interactive
}

/// The first line of `s`, or nothing when `s` is empty.
pub open spec fn first_line(s: Seq<char>) -> Seq<char> {
    if s.len() == 0 {
        Seq::empty()
    } else {
        line_at(s, 0)
    }
}

/// What `gh --version` yields: its first line, trimmed and redacted.
pub open spec fn gh_version_step(reply: core::result::Result<OutputView, Error>) -> Step<Seq<char>> {
    match checked_step(reply, "gh --version"@) {
        Step::Value(o) => Step::Value(redact_spec(trim(first_line(o.stdout)))),
        Step::RunnerError(e) => Step::RunnerError(e),
        Step::Failed(c, o) => Step::Failed(c, o),
    }
}

/// The text `gh auth status` printed on both streams.
pub open spec fn status_text_of(o: OutputView) -> Seq<char> {
    o.stdout + "\n"@ + o.stderr
}

pub open spec fn is_logged_out(text: Seq<char>) -> bool {
    contains(text, "not logged in"@) || contains(text, "You are not logged into any GitHub hosts"@)
}

/// Accounts `gh` knows about. An unauthenticated CLI yields an empty list
/// rather than an error, because that is a normal first-run state.
pub open spec fn accounts_step(reply: core::result::Result<OutputView, Error>) -> Step<Seq<GhAccountView>> {
    match reply {
        Err(e) => Step::RunnerError(e),
        Ok(o) => {
            let text = status_text_of(o);
            if o.status != 0 && !contains(text, "Logged in to"@) {
                if is_logged_out(text) {
                    Step::Value(Seq::empty())
                } else {
                    Step::Failed("gh auth status"@, o)
                }
            } else {
                Step::Value(parse_status_spec(text))
            }
        },
    }
}

/// The accounts on `host`, in order.
pub open spec fn only_host(accounts: Seq<GhAccountView>, host: Seq<char>) -> Seq<GhAccountView>
    decreases accounts.len(),
{
    if accounts.len() == 0 {
        Seq::empty()
    } else {
        let prev = only_host(accounts.drop_last(), host);
        if accounts.last().host == host {
            prev.push(accounts.last())
        } else {
            prev
        }
    }
}

/// The login of the first active account.
pub open spec fn first_active(accounts: Seq<GhAccountView>) -> Option<Seq<char>>
    decreases accounts.len(),
{
    if accounts.len() == 0 {
        None
    } else if accounts[0].active {
        Some(accounts[0].login)
    } else {
        first_active(accounts.drop_first())
    }
}

/// Some account has `login`, ignoring ASCII case.
pub open spec fn has_login(accounts: Seq<GhAccountView>, login: Seq<char>) -> bool {
    exists|i: int| 0 <= i < accounts.len() && eq_ignore_case(#[trigger] accounts[i].login, login)
}

pub open spec fn map_step<A, B>(step: Step<A>, f: spec_fn(A) -> B) -> Step<B> {
    match step {
        Step::Value(v) => Step::Value(f(v)),
        Step::RunnerError(e) => Step::RunnerError(e),
        Step::Failed(c, o) => Step::Failed(c, o),
    }
}

pub open spec fn accounts_result(r: Result<Vec<GhAccount>>, step: Step<Seq<GhAccountView>>) -> bool {
    match step {
        Step::Value(v) => r matches Ok(x) && accounts_view(x@) == v,
        _ => r matches Err(e) && step_error(e, step),
    }
}

pub open spec fn login_result(r: Result<Option<String>>, step: Step<Option<Seq<char>>>) -> bool {
    match step {
        Step::Value(v) => r matches Ok(x) && opt_view(x) == v,
        _ => r matches Err(e) && step_error(e, step),
    }
}

pub open spec fn bool_result(r: Result<bool>, step: Step<bool>) -> bool {
    match step {
        Step::Value(v) => r matches Ok(x) && x == v,
        _ => r matches Err(e) && step_error(e, step),
    }
}

pub open spec fn switch_args(host: Seq<char>, login: Seq<char>) -> Seq<Seq<char>> {
    seq!["auth"@, "switch"@, "--hostname"@, host, "--user"@, login]
}

pub open spec fn token_login_args(host: Seq<char>) -> Seq<Seq<char>> {
    seq!["auth"@, "login"@, "--hostname"@, host, "--with-token"@]
}

pub open spec fn interactive_login_args(host: Seq<char>) -> Seq<Seq<char>> {
    seq!["auth"@, "login"@, "--hostname"@, host, "--git-protocol"@, "https"@]
}

pub open spec fn logout_args(host: Seq<char>, login: Seq<char>) -> Seq<Seq<char>> {
    seq!["auth"@, "logout"@, "--hostname"@, host, "--user"@, login]
}

pub open spec fn setup_git_args(host: Seq<char>) -> Seq<Seq<char>> {
    seq!["auth"@, "setup-git"@, "--hostname"@, host]
}

pub open spec fn status_args() -> Seq<Seq<char>> {
    seq!["auth"@, "status"@]
}

/// What `gh auth logout` yields: an account that is already logged out is fine.
pub open spec fn logout_step(reply: core::result::Result<OutputView, Error>, login: Seq<char>) -> Step<OutputView> {
    match reply {
        Err(e) => Step::RunnerError(e),
        Ok(o) => if o.status != 0 && !contains(output_message(o), "not logged in"@) {
            Step::Failed("gh auth logout --user "@ + login, o)
        } else {
            Step::Value(o)
        },
    }
}

/// What the interactive `gh auth login` yields from its exit status.
pub open spec fn interactive_login_ok(r: Result<()>, reply: core::result::Result<OutputView, Error>) -> bool {
    match reply {
        Err(e) => r == Err::<(), Error>(e),
        Ok(o) => if o.status != 0 {
            r matches Err(Error::CommandFailed { command, status, message }) && command@
                == "gh auth login"@ && status == o.status && message@
                == "interactive login did not complete"@
        } else {
            r is Ok
        },
    }
}

fn fail(command: String, out: &Output) -> (e: Error)
    ensures
        command_failed(e, command@, out@),
{
    Error::CommandFailed { command, status: out.status, message: out.message() }
}

/// The first line of `s`, trimmed.
fn first_line_trimmed(s: &str) -> (t: String)
    ensures
        t@ == trim(first_line(s@)),
{
    let cs = chars_of(s);
    if cs.len() == 0 {
        return String::new();
    }
    let e = next_newline(&cs, 0);
    let hi = if e < cs.len() && e > 0 && cs[e - 1] == '\r' {
        e - 1
    } else {
        e
    };
    let line = slice_chars(&cs, 0, hi);
    let (lo, h) = trim_bounds(&line);
    string_of_range(&line, lo, h)
}

pub fn gh_version<R: Runner>(runner: &mut R) -> (r: Result<String>)
    ensures
        crate::process::same_probes(*old(runner), *final(runner)),
        one_more(old(runner).invocations(), final(runner).invocations()),
        gh_call(final(runner).invocations().last(), seq!["--version"@], None),
        crate::git::string_result(r, gh_version_step(final(runner).invocations().last().reply)),
{
    let out = runner.run("gh", &["--version"], None);
    proof {
        assert(final(runner).invocations().last().args =~= seq!["--version"@]);
        assert(final(runner).invocations().drop_last() =~= old(runner).invocations());
    }
    let out = out?;
    if !out.ok() {
        return Err(fail("gh --version".to_string(), &out));
    }
    let version = first_line_trimmed(out.stdout.as_str());
    Ok(redact(version.as_str()))
}

pub fn gh_accounts<R: Runner>(runner: &mut R) -> (r: Result<Vec<GhAccount>>)
    ensures
        crate::process::same_probes(*old(runner), *final(runner)),
        one_more(old(runner).invocations(), final(runner).invocations()),
        gh_call(final(runner).invocations().last(), status_args(), None),
        accounts_result(r, accounts_step(final(runner).invocations().last().reply)),
{
    let out = runner.run("gh", &["auth", "status"], None);
    proof {
        assert(final(runner).invocations().last().args =~= status_args());
        assert(final(runner).invocations().drop_last() =~= old(runner).invocations());
    }
    let out = out?;
    let mut text = out.stdout.as_str().to_string();
    text.append("\n");
    text.append(out.stderr.as_str());
    if !out.ok() && !crate::text::str_contains(text.as_str(), "Logged in to") {
        if crate::text::str_contains(text.as_str(), "not logged in") || crate::text::str_contains(
            text.as_str(),
            "You are not logged into any GitHub hosts",
        ) {
            let empty: Vec<GhAccount> = Vec::new();
            proof {
                assert(accounts_view(empty@) =~= Seq::<GhAccountView>::empty());
            }
            return Ok(empty);
        }
        return Err(fail("gh auth status".to_string(), &out));
    }
    Ok(parse_status(text.as_str()))
}

/// The accounts on `host`, in order.
pub fn filter_host(accounts: Vec<GhAccount>, host: &str) -> (v: Vec<GhAccount>)
    ensures
        accounts_view(v@) == only_host(accounts_view(accounts@), host@),
{
    let mut v: Vec<GhAccount> = Vec::new();
    let mut i: usize = 0;
    let ghost all = accounts_view(accounts@);
    proof {
        assert(accounts_view(v@) =~= only_host(all.take(0), host@));
    }
    while i < accounts.len()
        invariant
            all == accounts_view(accounts@),
            i <= accounts@.len(),
            accounts_view(v@) == only_host(all.take(i as int), host@),
        decreases accounts@.len() - i,
    {
        proof {
            assert(all.take(i + 1).drop_last() =~= all.take(i as int));
        }
        if crate::text::str_eq(accounts[i].host.as_str(), host) {
            let ghost before = accounts_view(v@);
            v.push(copy_account(&accounts[i]));
            proof {
                assert(accounts_view(v@) =~= before.push(all[i as int]));
            }
        }
        i = i + 1;
    }
    proof {
        assert(all.take(accounts@.len() as int) =~= all);
    }
    v
}

proof fn lemma_first_active_split(a: Seq<GhAccountView>, i: int)
    requires
        0 <= i < a.len(),
        forall|k: int| 0 <= k < i ==> !(#[trigger] a[k]).active,
    ensures
        first_active(a) == first_active(a.subrange(i, a.len() as int)),
    decreases i,
{
    if i > 0 {
        assert(!a[0].active);
        assert(a.drop_first().subrange(i - 1, a.drop_first().len() as int) =~= a.subrange(
            i,
            a.len() as int,
        ));
        assert forall|k: int| 0 <= k < i - 1 implies !(#[trigger] a.drop_first()[k]).active by {
            assert(a.drop_first()[k] == a[k + 1]);
        }
        lemma_first_active_split(a.drop_first(), i - 1);
    } else {
        assert(a.subrange(0, a.len() as int) =~= a);
    }
}

proof fn lemma_first_active_none(a: Seq<GhAccountView>)
    requires
        forall|k: int| 0 <= k < a.len() ==> !(#[trigger] a[k]).active,
    ensures
        first_active(a) is None,
    decreases a.len(),
{
    if a.len() > 0 {
        assert(!a[0].active);
        assert forall|k: int| 0 <= k < a.len() - 1 implies !(#[trigger] a.drop_first()[k]).active by {
            assert(a.drop_first()[k] == a[k + 1]);
        }
        lemma_first_active_none(a.drop_first());
    }
}

/// The login of the first active account.
pub fn active_of(accounts: &Vec<GhAccount>) -> (r: Option<String>)
    ensures
        opt_view(r) == first_active(accounts_view(accounts@)),
{
    let ghost all = accounts_view(accounts@);
    let mut i: usize = 0;
    while i < accounts.len()
        invariant
            all == accounts_view(accounts@),
            i <= accounts@.len(),
            forall|k: int| 0 <= k < i ==> !(#[trigger] all[k]).active,
        decreases accounts@.len() - i,
    {
        if accounts[i].active {
            proof {
                lemma_first_active_split(all, i as int);
                let rest = all.subrange(i as int, all.len() as int);
                assert(rest[0] == all[i as int]);
            }
            return Some(accounts[i].login.as_str().to_string());
        }
        i = i + 1;
    }
    proof {
        lemma_first_active_none(all);
    }
    None
}

/// Whether some account has `login`, ignoring ASCII case.
pub fn knows_login(accounts: &Vec<GhAccount>, login: &str) -> (b: bool)
    ensures
        b == has_login(accounts_view(accounts@), login@),
{
    let ghost all = accounts_view(accounts@);
    let mut i: usize = 0;
    while i < accounts.len()
        invariant
            all == accounts_view(accounts@),
            i <= accounts@.len(),
            forall|k: int| 0 <= k < i ==> !eq_ignore_case(#[trigger] all[k].login, login@),
        decreases accounts@.len() - i,
    {
        if crate::text::eq_ignore_ascii_case(accounts[i].login.as_str(), login) {
            assert(eq_ignore_case(all[i as int].login, login@));
            return true;
        }
        i = i + 1;
    }
    false
}

fn run_checked<R: Runner>(runner: &mut R, args: &[&str], stdin: Option<&str>, label: String) -> (r: Result<()>)
    ensures
        crate::process::same_probes(*old(runner), *final(runner)),
        one_more(old(runner).invocations(), final(runner).invocations()),
        gh_call(
            final(runner).invocations().last(),
            arg_views(args@),
            crate::process::stdin_view(stdin),
        ),
        crate::git::unit_result(r, checked_step(final(runner).invocations().last().reply, label@)),
{
    let out = runner.run("gh", args, stdin);
    proof {
        assert(final(runner).invocations().drop_last() =~= old(runner).invocations());
    }
    let out = out?;
    if !out.ok() {
        return Err(fail(label, &out));
    }
    Ok(())
}

/// Makes an already authenticated account the active one.
pub fn gh_switch<R: Runner>(runner: &mut R, host: &str, login: &str) -> (r: Result<()>)
    ensures
        crate::process::same_probes(*old(runner), *final(runner)),
        one_more(old(runner).invocations(), final(runner).invocations()),
        gh_call(final(runner).invocations().last(), switch_args(host@, login@), None),
        crate::git::unit_result(
            r,
            checked_step(
                final(runner).invocations().last().reply,
                "gh auth switch --user "@ + login@,
            ),
        ),
{
    let mut label = "gh auth switch --user ".to_string();
    label.append(login);
    let r = run_checked(runner, &["auth", "switch", "--hostname", host, "--user", login], None, label);
    proof {
        assert(final(runner).invocations().last().args =~= switch_args(host@, login@));
    }
    r
}

/// Authenticates using a token supplied by the user. The token is passed on
/// stdin, trimmed, so it never appears in the process list.
pub fn gh_login_with_token<R: Runner>(runner: &mut R, host: &str, token: &str) -> (r: Result<()>)
    ensures
        crate::process::same_probes(*old(runner), *final(runner)),
        one_more(old(runner).invocations(), final(runner).invocations()),
        gh_call(final(runner).invocations().last(), token_login_args(host@), Some(trim(token@))),
        crate::git::unit_result(
            r,
            checked_step(final(runner).invocations().last().reply, "gh auth login --with-token"@),
        ),
{
    let secret = trimmed(token);
    let r = run_checked(
        runner,
        &["auth", "login", "--hostname", host, "--with-token"],
        Some(secret.as_str()),
        "gh auth login --with-token".to_string(),
    );
    proof {
        assert(final(runner).invocations().last().args =~= token_login_args(host@));
    }
    r
}

/// Hands the terminal to `gh` for its interactive browser/device flow.
pub fn gh_login_interactive<R: Runner>(runner: &mut R, host: &str) -> (r: Result<()>)
    ensures
        crate::process::same_probes(*old(runner), *final(runner)),
        one_more(old(runner).invocations(), final(runner).invocations()),
        final(runner).invocations().last().program == "gh"@,
        final(runner).invocations().last().args == interactive_login_args(host@),
        final(runner).invocations().last().interactive,
        interactive_login_ok(r, final(runner).invocations().last().reply),
{
    let status = runner.run_interactive(
        "gh",
        &["auth", "login", "--hostname", host, "--git-protocol", "https"],
    );
    proof {
        assert(final(runner).invocations().last().args =~= interactive_login_args(host@));
        assert(final(runner).invocations().drop_last() =~= old(runner).invocations());
    }
    let status = status?;
    if status != 0 {
        return Err(
            Error::CommandFailed {
                command: "gh auth login".to_string(),
                status,
                message: "interactive login did not complete".to_string(),
            },
        );
    }
    Ok(())
}

pub fn gh_logout<R: Runner>(runner: &mut R, host: &str, login: &str) -> (r: Result<()>)
    ensures
        crate::process::same_probes(*old(runner), *final(runner)),
        one_more(old(runner).invocations(), final(runner).invocations()),
        gh_call(final(runner).invocations().last(), logout_args(host@, login@), None),
        crate::git::unit_result(r, logout_step(final(runner).invocations().last().reply, login@)),
{
    let out = runner.run("gh", &["auth", "logout", "--hostname", host, "--user", login], None);
    proof {
        assert(final(runner).invocations().last().args =~= logout_args(host@, login@));
        assert(final(runner).invocations().drop_last() =~= old(runner).invocations());
    }
    let out = out?;
    let message = out.message();
    if !out.ok() && !crate::text::str_contains(message.as_str(), "not logged in") {
        let mut label = "gh auth logout --user ".to_string();
        label.append(login);
        return Err(fail(label, &out));
    }
    Ok(())
}

/// Points git's credential helper at `gh` so pushes use the active account.
pub fn gh_setup_git<R: Runner>(runner: &mut R, host: &str) -> (r: Result<()>)
    ensures
        crate::process::same_probes(*old(runner), *final(runner)),
        one_more(old(runner).invocations(), final(runner).invocations()),
        gh_call(final(runner).invocations().last(), setup_git_args(host@), None),
        crate::git::unit_result(
            r,
            checked_step(final(runner).invocations().last().reply, "gh auth setup-git"@),
        ),
{
    let r = run_checked(
        runner,
        &["auth", "setup-git", "--hostname", host],
        None,
        "gh auth setup-git".to_string(),
    );
    proof {
        assert(final(runner).invocations().last().args =~= setup_git_args(host@));
    }
    r
}

/// The login `gh` has active on `host`, if any.
pub fn gh_active_login<R: Runner>(runner: &mut R, host: &str) -> (r: Result<Option<String>>)
    ensures
        crate::process::same_probes(*old(runner), *final(runner)),
        one_more(old(runner).invocations(), final(runner).invocations()),
        gh_call(final(runner).invocations().last(), status_args(), None),
        login_result(
            r,
            map_step(
                accounts_step(final(runner).invocations().last().reply),
                |a: Seq<GhAccountView>| first_active(only_host(a, host@)),
            ),
        ),
{
    let all = gh_accounts(runner)?;
    let on_host = filter_host(all, host);
    Ok(active_of(&on_host))
}

/// Thin wrapper over the official GitHub CLI. gitswitch deliberately delegates
/// all authentication to `gh` instead of implementing its own OAuth flow.
pub struct Gh<'r, R: Runner> {
    pub runner: &'r mut R,
}

impl<'r, R: Runner> Gh<'r, R> {
    pub fn new(runner: &'r mut R) -> (g: Self)
        ensures
            *g.runner == *old(runner),
            *final(g.runner) == *final(runner),
    {
        Gh { runner }
    }

    /// Commands handed to the runner so far.
    pub open spec fn log(&self) -> Seq<Invocation> {
        (*self.runner).invocations()
    }

    /// Whether gh can be started; the lookup joins the runner's probes.
    pub fn is_installed(&mut self) -> (b: bool)
        ensures
            *final(final(self).runner) == *final(old(self).runner),
            final(self).log() == old(self).log(),
            (*final(self).runner).probes() == (*old(self).runner).probes().push(("gh"@, b)),
    {
        self.runner.is_available("gh")
    }

    pub fn version(&mut self) -> (r: Result<String>)
        ensures
            crate::process::same_probes(*old(self).runner, *final(self).runner),
            *final(final(self).runner) == *final(old(self).runner),
            one_more(old(self).log(), final(self).log()),
            gh_call(final(self).log().last(), seq!["--version"@], None),
            crate::git::string_result(r, gh_version_step(final(self).log().last().reply)),
    {
        gh_version(self.runner)
    }

    pub fn accounts(&mut self) -> (r: Result<Vec<GhAccount>>)
        ensures
            crate::process::same_probes(*old(self).runner, *final(self).runner),
            *final(final(self).runner) == *final(old(self).runner),
            one_more(old(self).log(), final(self).log()),
            gh_call(final(self).log().last(), status_args(), None),
            accounts_result(r, accounts_step(final(self).log().last().reply)),
    {
        gh_accounts(self.runner)
    }

    pub fn accounts_for(&mut self, host: &str) -> (r: Result<Vec<GhAccount>>)
        ensures
            crate::process::same_probes(*old(self).runner, *final(self).runner),
            *final(final(self).runner) == *final(old(self).runner),
            one_more(old(self).log(), final(self).log()),
            gh_call(final(self).log().last(), status_args(), None),
            accounts_result(
                r,
                map_step(
                    accounts_step(final(self).log().last().reply),
                    |a: Seq<GhAccountView>| only_host(a, host@),
                ),
            ),
    {
        let all = gh_accounts(self.runner)?;
        Ok(filter_host(all, host))
    }

    pub fn active_login(&mut self, host: &str) -> (r: Result<Option<String>>)
        ensures
            crate::process::same_probes(*old(self).runner, *final(self).runner),
            *final(final(self).runner) == *final(old(self).runner),
            one_more(old(self).log(), final(self).log()),
            gh_call(final(self).log().last(), status_args(), None),
            login_result(
                r,
                map_step(
                    accounts_step(final(self).log().last().reply),
                    |a: Seq<GhAccountView>| first_active(only_host(a, host@)),
                ),
            ),
    {
        gh_active_login(self.runner, host)
    }

    pub fn is_known(&mut self, host: &str, login: &str) -> (r: Result<bool>)
        ensures
            crate::process::same_probes(*old(self).runner, *final(self).runner),
            *final(final(self).runner) == *final(old(self).runner),
            one_more(old(self).log(), final(self).log()),
            gh_call(final(self).log().last(), status_args(), None),
            bool_result(
                r,
                map_step(
                    accounts_step(final(self).log().last().reply),
                    |a: Seq<GhAccountView>| has_login(only_host(a, host@), login@),
                ),
            ),
    {
        let all = gh_accounts(self.runner)?;
        let on_host = filter_host(all, host);
        Ok(knows_login(&on_host, login))
    }

    /// Makes an already authenticated account the active one.
    pub fn switch(&mut self, host: &str, login: &str) -> (r: Result<()>)
        ensures
            crate::process::same_probes(*old(self).runner, *final(self).runner),
            *final(final(self).runner) == *final(old(self).runner),
            one_more(old(self).log(), final(self).log()),
            gh_call(final(self).log().last(), switch_args(host@, login@), None),
            crate::git::unit_result(
                r,
                checked_step(final(self).log().last().reply, "gh auth switch --user "@ + login@),
            ),
    {
        gh_switch(self.runner, host, login)
    }

    /// Authenticates using a token supplied by the user. The token is passed on
    /// stdin so it never appears in the process list.
    pub fn login_with_token(&mut self, host: &str, token: &str) -> (r: Result<()>)
        ensures
            crate::process::same_probes(*old(self).runner, *final(self).runner),
            *final(final(self).runner) == *final(old(self).runner),
            one_more(old(self).log(), final(self).log()),
            gh_call(final(self).log().last(), token_login_args(host@), Some(trim(token@))),
            crate::git::unit_result(
                r,
                checked_step(final(self).log().last().reply, "gh auth login --with-token"@),
            ),
    {
        gh_login_with_token(self.runner, host, token)
    }

    /// Hands the terminal to `gh` for its interactive browser/device flow.
    pub fn login_interactive(&mut self, host: &str) -> (r: Result<()>)
        ensures
            crate::process::same_probes(*old(self).runner, *final(self).runner),
            *final(final(self).runner) == *final(old(self).runner),
            one_more(old(self).log(), final(self).log()),
            final(self).log().last().program == "gh"@,
            final(self).log().last().args == interactive_login_args(host@),
            final(self).log().last().interactive,
            interactive_login_ok(r, final(self).log().last().reply),
    {
        gh_login_interactive(self.runner, host)
    }

    pub fn logout(&mut self, host: &str, login: &str) -> (r: Result<()>)
        ensures
            crate::process::same_probes(*old(self).runner, *final(self).runner),
            *final(final(self).runner) == *final(old(self).runner),
            one_more(old(self).log(), final(self).log()),
            gh_call(final(self).log().last(), logout_args(host@, login@), None),
            crate::git::unit_result(r, logout_step(final(self).log().last().reply, login@)),
    {
        gh_logout(self.runner, host, login)
    }

    /// Points git's credential helper at `gh` so pushes use the active account.
    pub fn setup_git(&mut self, host: &str) -> (r: Result<()>)
        ensures
            crate::process::same_probes(*old(self).runner, *final(self).runner),
            *final(final(self).runner) == *final(old(self).runner),
            one_more(old(self).log(), final(self).log()),
            gh_call(final(self).log().last(), setup_git_args(host@), None),
            crate::git::unit_result(
                r,
                checked_step(final(self).log().last().reply, "gh auth setup-git"@),
            ),
    {
        gh_setup_git(self.runner, host)
    }
}

} // verus!
