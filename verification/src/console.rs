//! What the command line prints, and the small rules it applies to what the
//! user types.
use vstd::prelude::*;

use crate::error::{decimal, digit_char, hint_of, message_of, Error, Result};
use crate::git::{label_of, opt_view, Scope};
use crate::model::{token_error, validate_token, Account, AccountView};
use crate::service::{texts, GhOutcome, GhOutcomeView, Status, SwitchOptions, SwitchReport};
use crate::text::{chars_of, trim, trimmed, utf8_len};

verus! {

/// The success mark: a green tick on a colour terminal, `OK` otherwise.
pub fn ok_mark(colored: bool) -> (m: &'static str)
    ensures
        m@ == if colored {
            "\u{1b}[32m\u{2713}\u{1b}[0m"@
        } else {
            "OK"@
        },
{
    if colored {
        "\u{1b}[32m\u{2713}\u{1b}[0m"
    } else {
        "OK"
    }
}

/// The warning mark: a yellow `!` on a colour terminal, a plain one otherwise.
pub fn warn_mark(colored: bool) -> (m: &'static str)
    ensures
        m@ == if colored {
            "\u{1b}[33m!\u{1b}[0m"@
        } else {
            "!"@
        },
{
    if colored {
        "\u{1b}[33m!\u{1b}[0m"
    } else {
        "!"
    }
}

/// A flag that non-interactive mode cannot do without.
pub fn require_flag(value: Option<String>, flag: &str) -> (r: Result<String>)
    ensures
        match value {
            Some(v) => r == Ok::<String, Error>(v),
            None => r matches Err(Error::InvalidInput(m)) && m@ == flag@
                + " is required in non-interactive mode"@,
        },
{
    match value {
        Some(v) => Ok(v),
        None => {
            let mut m = flag.to_string();
            m.append(" is required in non-interactive mode");
            Err(Error::InvalidInput(m))
        },
    }
}

/// A token read from standard input: trimmed, then checked. Using stdin keeps
/// the secret out of the process list and out of the shell history.
pub fn token_from_input(buffer: &str) -> (r: Result<String>)
    ensures
        match token_error(buffer@) {
            Some(m) => r matches Err(Error::InvalidInput(x)) && x@ == m,
            None => r matches Ok(t) && t@ == trim(buffer@),
        },
{
    let token = trimmed(buffer);
    let checked = validate_token(token.as_str());
    proof {
        crate::text::lemma_trim_idempotent(buffer@);
    }
    match checked {
        Ok(()) => Ok(token),
        Err(e) => Err(e),
    }
}

/// `c` with ASCII capitals made small.
pub open spec fn lower(c: char) -> char {
    if 'A' <= c && c <= 'Z' {
        ((c as u32) + 32) as char
    } else {
        c
    }
}

/// Whether an answer to a yes/no question says yes: `y` or `yes` in any
/// ASCII case, around any whitespace.
pub open spec fn says_yes(answer: Seq<char>) -> bool {
    let t = trim(answer).map_values(|c: char| lower(c));
    t == "y"@ || t == "yes"@
}

pub fn is_confirmation(answer: &str) -> (b: bool)
    ensures
        b == says_yes(answer@),
{
    let t = trimmed(answer);
    let cs = chars_of(t.as_str());
    let mut low: Vec<char> = Vec::new();
    let mut i: usize = 0;
    while i < cs.len()
        invariant
            i <= cs@.len(),
            low@ == cs@.take(i as int).map_values(|c: char| lower(c)),
        decreases cs@.len() - i,
    {
        let c = cs[i];
        let l = if 'A' <= c && c <= 'Z' {
            ((c as u8) + 32) as char
        } else {
            c
        };
        low.push(l);
        proof {
            assert(cs@.take(i + 1).map_values(|c: char| lower(c)) =~= cs@.take(i as int).map_values(
                |c: char| lower(c),
            ).push(lower(c)));
        }
        i = i + 1;
    }
    proof {
        assert(cs@.take(cs@.len() as int) =~= cs@);
    }
    let b = if low.len() == 1 {
        low[0] == 'y'
    } else if low.len() == 3 {
        low[0] == 'y' && low[1] == 'e' && low[2] == 's'
    } else {
        false
    };
    proof {
        reveal_strlit("y");
        reveal_strlit("yes");
        assert(low@ == trim(answer@).map_values(|c: char| lower(c)));
        if b {
            if low@.len() == 1 {
                assert(low@ =~= "y"@);
            } else {
                assert(low@ =~= "yes"@);
            }
        } else {
            if low@ == "y"@ {
                assert(low@[0] == 'y');
            }
            if low@ == "yes"@ {
                assert(low@[0] == 'y' && low@[1] == 'e' && low@[2] == 's');
            }
        }
    }
    b
}

/// The options the `switch` flags ask for.
pub fn switch_options(local: bool, skip_check: bool) -> (o: SwitchOptions)
    ensures
        o.scope == (if local {
            Scope::Local
        } else {
            Scope::Global
        }),
        o.verify == !skip_check,
{
    SwitchOptions {
        scope: if local {
            Scope::Local
        } else {
            Scope::Global
        },
        verify: !skip_check,
    }
}

// ---------------------------------------------------------------------------
// Padding
// ---------------------------------------------------------------------------

/// `n` spaces, none when `n` is not positive.
pub open spec fn spaces(n: int) -> Seq<char> {
    Seq::new(
        if n > 0 {
            n as nat
        } else {
            0
        },
        |i: int| ' ',
    )
}

/// `s` left-aligned in a column `w` characters wide, as `{:w$}` prints it.
pub open spec fn pad(s: Seq<char>, w: int) -> Seq<char> {
    s + spaces(w - s.len())
}

/// A byte count, or the largest `usize` when it does not fit.
pub open spec fn capped(n: nat) -> int {
    if n > usize::MAX {
        usize::MAX as int
    } else {
        n as int
    }
}

fn push_spaces(out: &mut String, n: usize)
    ensures
        final(out)@ == old(out)@ + spaces(n as int),
{
    let mut i: usize = 0;
    while i < n
        invariant
            i <= n,
            out@ == old(out)@ + spaces(i as int),
        decreases n - i,
    {
        out.push(' ');
        proof {
            assert(out@ =~= old(out)@ + spaces(i + 1));
        }
        i = i + 1;
    }
}

pub(crate) fn push_padded(out: &mut String, s: &str, width: usize)
    ensures
        final(out)@ == old(out)@ + pad(s@, width as int),
{
    let count = chars_of(s).len();
    out.append(s);
    if count < width {
        push_spaces(out, width - count);
    } else {
        proof {
            assert(spaces(width - s@.len()) =~= Seq::<char>::empty());
        }
    }
    proof {
        assert(out@ =~= old(out)@ + pad(s@, width as int));
    }
}

/// The UTF-8 length of `s`, which is what `str::len` reports.
fn byte_width(s: &str) -> (w: usize)
    ensures
        w == capped(utf8_len(s@)),
{
    let cs = chars_of(s);
    let mut total: usize = 0;
    let mut i: usize = 0;
    while i < cs.len()
        invariant
            cs@ == s@,
            i <= cs@.len(),
            total == utf8_len(cs@.take(i as int)),
        decreases cs@.len() - i,
    {
        let c = cs[i];
        let w: usize = if (c as u32) < 0x80 {
            1
        } else if (c as u32) < 0x800 {
            2
        } else if (c as u32) < 0x10000 {
            3
        } else {
            4
        };
        proof {
            assert(cs@.take(i + 1).drop_last() =~= cs@.take(i as int));
        }
        if w > usize::MAX - total {
            proof {
                crate::text::lemma_utf8_len_prefix(cs@, i + 1, cs@.len() as int);
                assert(cs@.take(cs@.len() as int) =~= cs@);
            }
            return usize::MAX;
        }
        total = total + w;
        i = i + 1;
    }
    proof {
        assert(cs@.take(cs@.len() as int) =~= cs@);
    }
    total
}

// ---------------------------------------------------------------------------
// `list`
// ---------------------------------------------------------------------------

/// The widest name, in bytes.
pub open spec fn widest(accounts: Seq<AccountView>) -> int
    decreases accounts.len(),
{
    if accounts.len() == 0 {
        0
    } else {
        let w = widest(accounts.drop_last());
        let l = capped(utf8_len(accounts.last().name));
        if l > w {
            l
        } else {
            w
        }
    }
}

/// One row of `list`: a star on the active account, then the name, the
/// login and the email in columns.
pub open spec fn list_row(a: AccountView, width: int, active: Option<Seq<char>>) -> Seq<char> {
    (if active == Some(a.name) {
        "*"@
    } else {
        " "@
    }) + " "@ + pad(a.name, width) + "  "@ + pad(a.username, 20) + " "@ + a.git_email
}

/// What `list` prints.
pub open spec fn list_text(accounts: Seq<AccountView>, active: Option<Seq<char>>) -> Seq<Seq<char>> {
    if accounts.len() == 0 {
        seq!["No accounts saved yet. Run `gitswitch add` to create one."@]
    } else {
        accounts.map_values(|a: AccountView| list_row(a, widest(accounts), active))
    }
}

pub fn list_lines(accounts: &[Account], active: Option<&str>) -> (lines: Vec<String>)
    ensures
        texts(lines@) == list_text(
            accounts@.map_values(|a: Account| a@),
            crate::service::str_opt(active),
        ),
{
    let ghost v = accounts@.map_values(|a: Account| a@);
    let ghost act = crate::service::str_opt(active);
    let mut lines: Vec<String> = Vec::new();
    if accounts.len() == 0 {
        lines.push("No accounts saved yet. Run `gitswitch add` to create one.".to_string());
        proof {
            assert(texts(lines@) =~= list_text(v, act));
        }
        return lines;
    }
    let mut width: usize = 0;
    let mut i: usize = 0;
    while i < accounts.len()
        invariant
            v == accounts@.map_values(|a: Account| a@),
            i <= accounts@.len(),
            width == widest(v.take(i as int)),
        decreases accounts@.len() - i,
    {
        let w = byte_width(accounts[i].name.as_str());
        proof {
            assert(v.take(i + 1).drop_last() =~= v.take(i as int));
            assert(v.take(i + 1).last() == accounts@[i as int]@);
        }
        if w > width {
            width = w;
        }
        i = i + 1;
    }
    proof {
        assert(v.take(accounts@.len() as int) =~= v);
    }
    let mut k: usize = 0;
    while k < accounts.len()
        invariant
            v == accounts@.map_values(|a: Account| a@),
            k <= accounts@.len(),
            accounts@.len() > 0,
            act == crate::service::str_opt(active),
            width == widest(v),
            texts(lines@) == v.take(k as int).map_values(|a: AccountView| list_row(a, widest(v), act)),
        decreases accounts@.len() - k,
    {
        let a = &accounts[k];
        let is_active = match active {
            Some(n) => crate::text::str_eq(a.name.as_str(), n),
            None => false,
        };
        let mut line = if is_active {
            "*".to_string()
        } else {
            " ".to_string()
        };
        proof {
            assert(line@ == (if act == Some(a@.name) {
                "*"@
            } else {
                " "@
            }));
        }
        line.append(" ");
        push_padded(&mut line, a.name.as_str(), width);
        line.append("  ");
        push_padded(&mut line, a.username.as_str(), 20);
        line.append(" ");
        line.append(a.git_email.as_str());
        let ghost before = texts(lines@);
        lines.push(line);
        proof {
            assert(v[k as int] == a@);
            assert(line@ == list_row(a@, widest(v), act));
            assert(texts(lines@) =~= before.push(line@));
            assert(v.take(k + 1).map_values(|a: AccountView| list_row(a, widest(v), act)) =~= v.take(
                k as int,
            ).map_values(|a: AccountView| list_row(a, widest(v), act)).push(list_row(v[k as int], widest(v), act)));
        }
        k = k + 1;
    }
    proof {
        assert(v.take(accounts@.len() as int) =~= v);
    }
    lines
}

// ---------------------------------------------------------------------------
// `current`, `switch`, `add`, `doctor` and errors
// ---------------------------------------------------------------------------

/// `o`, or `d` when there is nothing.
pub open spec fn or_else(o: Option<Seq<char>>, d: Seq<char>) -> Seq<char> {
    match o {
        Some(x) => x,
        None => d,
    }
}

fn text_or<'a>(o: &'a Option<String>, d: &'a str) -> (t: &'a str)
    ensures
        t@ == or_else(opt_view(*o), d@),
{
    match o {
        Some(x) => x.as_str(),
        None => d,
    }
}

/// What `current` prints for the active account `a`.
pub open spec fn current_text(
    a: AccountView,
    name: Option<Seq<char>>,
    email: Option<Seq<char>>,
    login: Option<Seq<char>>,
    agree: bool,
    warn: Seq<char>,
) -> Seq<Seq<char>> {
    let lines = seq![
        a.name + "  ("@ + a.username + ")"@,
        "  git       "@ + or_else(name, "unset"@) + " <"@ + or_else(email, "unset"@) + ">"@,
        "  gh        "@ + or_else(login, "not authenticated"@),
    ];
    if agree {
        lines
    } else {
        lines.push("  "@ + warn + " git and gh disagree - run `gitswitch switch "@ + a.name + "`"@)
    }
}

/// The lines `current` prints, or the error when no account is active.
pub fn current_lines(status: &Status, warn: &str) -> (r: Result<Vec<String>>)
    ensures
        match status.active_account {
            None => r matches Err(Error::NoActiveAccount),
            Some(a) => r matches Ok(v) && texts(v@) == current_text(
                a@,
                opt_view(status.identity.name),
                opt_view(status.identity.email),
                opt_view(status.gh_login),
                crate::service::consistent(
                    crate::service::account_opt(status.active_account),
                    opt_view(status.gh_login),
                ),
                warn@,
            ),
        },
{
    let account = match &status.active_account {
        Some(a) => a,
        None => {
            return Err(Error::NoActiveAccount);
        },
    };
    let mut lines: Vec<String> = Vec::new();
    let mut first = account.name.as_str().to_string();
    first.append("  (");
    first.append(account.username.as_str());
    first.append(")");
    lines.push(first);
    let mut git = "  git       ".to_string();
    git.append(text_or(&status.identity.name, "unset"));
    git.append(" <");
    git.append(text_or(&status.identity.email, "unset"));
    git.append(">");
    lines.push(git);
    let mut gh = "  gh        ".to_string();
    gh.append(text_or(&status.gh_login, "not authenticated"));
    lines.push(gh);
    let agree = status.is_consistent();
    if !agree {
        let mut w = "  ".to_string();
        w.append(warn);
        w.append(" git and gh disagree - run `gitswitch switch ");
        w.append(account.name.as_str());
        w.append("`");
        lines.push(w);
    }
    proof {
        let expected = current_text(
            account@,
            opt_view(status.identity.name),
            opt_view(status.identity.email),
            opt_view(status.gh_login),
            agree,
            warn@,
        );
        assert(texts(lines@) =~= expected);
    }
    Ok(lines)
}

/// How the `gh` half of a switch reads after `switch`.
pub open spec fn gh_detail(gh: GhOutcomeView, username: Seq<char>) -> Seq<char> {
    match gh {
        GhOutcomeView::AlreadyActive => "already authenticated"@,
        GhOutcomeView::Switched => "switched to "@ + username,
        GhOutcomeView::ReAuthenticated => "re-authenticated from the credential store"@,
        GhOutcomeView::Skipped(reason) => "skipped - "@ + reason,
    }
}

/// What `switch` prints after a successful switch.
pub open spec fn switch_text(rep: SwitchReport, ok: Seq<char>, warn: Seq<char>) -> Seq<Seq<char>> {
    let a = rep.account@;
    seq![
        ok + " switched to "@ + a.name + " ("@ + a.username + ")"@,
        "  git       "@ + a.git_name + " <"@ + a.git_email + "> ["@ + label_of(rep.scope) + "]"@,
        "  gh        "@ + gh_detail(rep.gh@, a.username),
    ] + texts(rep.warnings@).map_values(|w: Seq<char>| "  "@ + warn + " "@ + w)
}

pub fn switch_lines(report: &SwitchReport, ok: &str, warn: &str) -> (lines: Vec<String>)
    ensures
        texts(lines@) == switch_text(*report, ok@, warn@),
{
    let a = &report.account;
    let mut lines: Vec<String> = Vec::new();
    let mut first = ok.to_string();
    first.append(" switched to ");
    first.append(a.name.as_str());
    first.append(" (");
    first.append(a.username.as_str());
    first.append(")");
    lines.push(first);
    let mut git = "  git       ".to_string();
    git.append(a.git_name.as_str());
    git.append(" <");
    git.append(a.git_email.as_str());
    git.append("> [");
    git.append(report.scope.label());
    git.append("]");
    lines.push(git);
    let mut gh = "  gh        ".to_string();
    match &report.gh {
        GhOutcome::AlreadyActive => gh.append("already authenticated"),
        GhOutcome::Switched => {
            gh.append("switched to ");
            gh.append(a.username.as_str());
        },
        GhOutcome::ReAuthenticated => gh.append("re-authenticated from the credential store"),
        GhOutcome::Skipped(reason) => {
            gh.append("skipped - ");
            gh.append(reason.as_str());
        },
    }
    proof {
        assert(gh@ == "  gh        "@ + gh_detail(report.gh@, a@.username));
    }
    lines.push(gh);
    let ghost head = texts(lines@);
    let ghost ws = texts(report.warnings@);
    proof {
        let v = report.account@;
        assert(head =~= seq![
            ok@ + " switched to "@ + v.name + " ("@ + v.username + ")"@,
            "  git       "@ + v.git_name + " <"@ + v.git_email + "> ["@ + label_of(report.scope) + "]"@,
            "  gh        "@ + gh_detail(report.gh@, v.username),
        ]);
    }
    let mut i: usize = 0;
    while i < report.warnings.len()
        invariant
            i <= report.warnings@.len(),
            ws == texts(report.warnings@),
            texts(lines@) == head + ws.take(i as int).map_values(|w: Seq<char>| "  "@ + warn@ + " "@ + w),
        decreases report.warnings@.len() - i,
    {
        let mut w = "  ".to_string();
        w.append(warn);
        w.append(" ");
        w.append(report.warnings[i].as_str());
        let ghost before = texts(lines@);
        lines.push(w);
        proof {
            assert(ws[i as int] == report.warnings@[i as int]@);
            assert(texts(lines@) =~= before.push(w@));
            assert(ws.take(i + 1).map_values(|w: Seq<char>| "  "@ + warn@ + " "@ + w) =~= ws.take(
                i as int,
            ).map_values(|w: Seq<char>| "  "@ + warn@ + " "@ + w).push("  "@ + warn@ + " "@ + ws[i as int]));
        }
        i = i + 1;
    }
    proof {
        assert(ws.take(ws.len() as int) =~= ws);
        assert(texts(lines@) =~= switch_text(*report, ok@, warn@));
    }
    lines
}

/// What `add` prints after an account was saved.
pub open spec fn added_text(saved: AccountView, token_given: bool, ok: Seq<char>, warn: Seq<char>) -> Seq<Seq<char>> {
    seq![
        ok + " saved `"@ + saved.name + "` ("@ + saved.username + ")"@,
        if saved.has_stored_token {
            "  token stored in the OS credential store"@
        } else if token_given {
            "  "@ + warn + " no OS credential store available - the token was not cached"@
        } else {
            "  sign it in with `gitswitch auth "@ + saved.name + "` (opens your browser)"@
        },
    ]
}

pub fn added_lines(saved: &Account, token_given: bool, ok: &str, warn: &str) -> (lines: Vec<String>)
    ensures
        texts(lines@) == added_text(saved@, token_given, ok@, warn@),
{
    let mut lines: Vec<String> = Vec::new();
    let mut first = ok.to_string();
    first.append(" saved `");
    first.append(saved.name.as_str());
    first.append("` (");
    first.append(saved.username.as_str());
    first.append(")");
    lines.push(first);
    let second = if saved.has_stored_token {
        "  token stored in the OS credential store".to_string()
    } else if token_given {
        let mut t = "  ".to_string();
        t.append(warn);
        t.append(" no OS credential store available - the token was not cached");
        t
    } else {
        let mut t = "  sign it in with `gitswitch auth ".to_string();
        t.append(saved.name.as_str());
        t.append("` (opens your browser)");
        t
    };
    lines.push(second);
    proof {
        assert(texts(lines@) =~= added_text(saved@, token_given, ok@, warn@));
    }
    lines
}

/// Appends the decimal notation of `n` to `out`.
pub(crate) fn push_count(out: &mut String, n: usize)
    ensures
        final(out)@ == old(out)@ + decimal(n as nat),
    decreases n,
{
    if n >= 10 {
        push_count(out, n / 10);
    }
    let d = (n % 10) as u8;
    out.push((d + 48) as char);
    proof {
        assert(((d + 48) as char) == digit_char((n % 10) as nat));
        if n >= 10 {
            assert(decimal(n as nat) == decimal((n / 10) as nat).push(digit_char((n % 10) as nat)));
        } else {
            assert(decimal(n as nat) == seq![digit_char(n as nat)]);
        }
    }
}

/// What `doctor` prints: the tools found, the credential store, where the
/// accounts are kept and how many, then every problem, or that there is none.
pub open spec fn doctor_text(
    version: Seq<char>,
    git_version: Option<Seq<char>>,
    gh_version: Option<Seq<char>>,
    keychain: bool,
    path: Seq<char>,
    count: nat,
    problems: Seq<Seq<char>>,
    ok: Seq<char>,
    warn: Seq<char>,
) -> Seq<Seq<char>> {
    seq![
        "gitswitch "@ + version,
        "  git       "@ + or_else(git_version, "NOT FOUND"@),
        "  gh        "@ + or_else(gh_version, "NOT FOUND"@),
        "  keychain  "@ + if keychain {
            "available"@
        } else {
            "unavailable - tokens will not be cached"@
        },
        "  config    "@ + path,
        "  accounts  "@ + decimal(count),
        Seq::<char>::empty(),
    ] + if problems.len() == 0 {
        seq![ok + " everything looks good"@]
    } else {
        problems.map_values(|p: Seq<char>| warn + " "@ + p)
    }
}

pub fn doctor_lines(
    version: &str,
    status: &Status,
    keychain: bool,
    path: &str,
    count: usize,
    ok: &str,
    warn: &str,
) -> (lines: Vec<String>)
    ensures
        texts(lines@) == doctor_text(
            version@,
            opt_view(status.git_version),
            opt_view(status.gh_version),
            keychain,
            path@,
            count as nat,
            texts(status.problems@),
            ok@,
            warn@,
        ),
{
    let mut lines: Vec<String> = Vec::new();
    let mut l0 = "gitswitch ".to_string();
    l0.append(version);
    lines.push(l0);
    let mut l1 = "  git       ".to_string();
    l1.append(text_or(&status.git_version, "NOT FOUND"));
    lines.push(l1);
    let mut l2 = "  gh        ".to_string();
    l2.append(text_or(&status.gh_version, "NOT FOUND"));
    lines.push(l2);
    let mut l3 = "  keychain  ".to_string();
    if keychain {
        l3.append("available");
    } else {
        l3.append("unavailable - tokens will not be cached");
    }
    lines.push(l3);
    let mut l4 = "  config    ".to_string();
    l4.append(path);
    lines.push(l4);
    let mut l5 = "  accounts  ".to_string();
    push_count(&mut l5, count);
    lines.push(l5);
    lines.push(String::new());
    let ghost head = texts(lines@);
    let ghost ps = texts(status.problems@);
    if status.problems.len() == 0 {
        let mut l = ok.to_string();
        l.append(" everything looks good");
        lines.push(l);
        proof {
            assert(texts(lines@) =~= head.push(l@));
        }
    } else {
        let mut i: usize = 0;
        while i < status.problems.len()
            invariant
                i <= status.problems@.len(),
                ps == texts(status.problems@),
                texts(lines@) == head + ps.take(i as int).map_values(|p: Seq<char>| warn@ + " "@ + p),
            decreases status.problems@.len() - i,
        {
            let mut l = warn.to_string();
            l.append(" ");
            l.append(status.problems[i].as_str());
            let ghost before = texts(lines@);
            lines.push(l);
            proof {
                assert(ps[i as int] == status.problems@[i as int]@);
                assert(texts(lines@) =~= before.push(l@));
                assert(ps.take(i + 1).map_values(|p: Seq<char>| warn@ + " "@ + p) =~= ps.take(
                    i as int,
                ).map_values(|p: Seq<char>| warn@ + " "@ + p).push(warn@ + " "@ + ps[i as int]));
            }
            i = i + 1;
        }
        proof {
            assert(ps.take(ps.len() as int) =~= ps);
        }
    }
    proof {
        assert(texts(lines@) =~= doctor_text(
            version@,
            opt_view(status.git_version),
            opt_view(status.gh_version),
            keychain,
            path@,
            count as nat,
            ps,
            ok@,
            warn@,
        ));
    }
    lines
}

/// What is printed for an error: its message, then its next step when it
/// has one, with colour codes on a colour terminal.
pub open spec fn error_text(e: Error, colored: bool) -> Seq<Seq<char>> {
    let red = if colored {
        "\u{1b}[31m"@
    } else {
        Seq::empty()
    };
    let dim = if colored {
        "\u{1b}[2m"@
    } else {
        Seq::empty()
    };
    let reset = if colored {
        "\u{1b}[0m"@
    } else {
        Seq::empty()
    };
    seq![red + "error:"@ + reset + " "@ + message_of(e)] + match hint_of(e) {
        Some(h) => seq![dim + "hint:"@ + reset + " "@ + h],
        None => Seq::empty(),
    }
}

pub fn error_lines(err: &Error, colored: bool) -> (lines: Vec<String>)
    ensures
        texts(lines@) == error_text(*err, colored),
{
    let (red, dim, reset) = if colored {
        ("\u{1b}[31m", "\u{1b}[2m", "\u{1b}[0m")
    } else {
        ("", "", "")
    };
    proof {
        reveal_strlit("");
    }
    let mut lines: Vec<String> = Vec::new();
    let mut first = red.to_string();
    first.append("error:");
    first.append(reset);
    first.append(" ");
    let message = err.message();
    first.append(message.as_str());
    lines.push(first);
    match err.hint() {
        Some(h) => {
            let mut second = dim.to_string();
            second.append("hint:");
            second.append(reset);
            second.append(" ");
            second.append(h.as_str());
            lines.push(second);
        },
        None => {},
    }
    proof {
        assert(texts(lines@) =~= error_text(*err, colored));
    }
    lines
}

} // verus!
