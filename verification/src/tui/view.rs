//! What each part of the interface says, as pieces of text with a tone; the
//! terminal front end only lays them out and colours them.
use vstd::prelude::*;

use crate::console::{or_else, pad, push_count, push_padded};
use crate::error::decimal;
use crate::git::{label_of, opt_view, Scope};
use crate::model::{Account, AccountView};
use crate::service::{account_opt, consistent, Status};
use crate::tui::app::{shown, Confirm, Field, Form, Level, Screen, Toast};

verus! {

/// How a piece of text is meant to look.
#[derive(Debug, Clone, Copy, PartialEq, Eq, Structural)]
pub enum Tone {
    /// No style of its own.
    Plain,
    /// Headings.
    Title,
    /// Secondary text.
    Label,
    /// Ordinary values.
    Value,
    /// A value set in bold.
    BoldValue,
    /// The main text colour.
    Text,
    /// The main text colour, in bold.
    Strong,
    /// Key names in hints.
    Key,
    /// The accent colour.
    Info,
    Good,
    Warn,
    Bad,
    /// Dimmed text.
    Muted,
    /// Placeholder text in an empty field.
    Placeholder,
    /// The accent colour, in bold.
    Accent,
}

#[derive(Debug, Clone, PartialEq, Eq)]
pub struct Piece {
    pub text: String,
    pub tone: Tone,
}

pub struct PieceView {
    pub text: Seq<char>,
    pub tone: Tone,
}

impl View for Piece {
    type V = PieceView;

    open spec fn view(&self) -> PieceView {
        PieceView { text: self.text@, tone: self.tone }
    }
}

pub open spec fn pv(text: Seq<char>, tone: Tone) -> PieceView {
    PieceView { text, tone }
}

pub open spec fn line_view(l: Vec<Piece>) -> Seq<PieceView> {
    l@.map_values(|p: Piece| p@)
}

pub open spec fn lines_view(ls: Seq<Vec<Piece>>) -> Seq<Seq<PieceView>> {
    ls.map_values(|l: Vec<Piece>| line_view(l))
}

fn piece(text: String, tone: Tone) -> (p: Piece)
    ensures
        p@ == pv(text@, tone),
{
    Piece { text, tone }
}

fn line1(a: Piece) -> (l: Vec<Piece>)
    ensures
        line_view(l) == seq![a@],
{
    let mut l: Vec<Piece> = Vec::new();
    l.push(a);
    proof {
        assert(line_view(l) =~= seq![a@]);
    }
    l
}

fn line2(a: Piece, b: Piece) -> (l: Vec<Piece>)
    ensures
        line_view(l) == seq![a@, b@],
{
    let mut l: Vec<Piece> = Vec::new();
    l.push(a);
    l.push(b);
    proof {
        assert(line_view(l) =~= seq![a@, b@]);
    }
    l
}

fn line3(a: Piece, b: Piece, c: Piece) -> (l: Vec<Piece>)
    ensures
        line_view(l) == seq![a@, b@, c@],
{
    let mut l: Vec<Piece> = Vec::new();
    l.push(a);
    l.push(b);
    l.push(c);
    proof {
        assert(line_view(l) =~= seq![a@, b@, c@]);
    }
    l
}

fn blank() -> (l: Vec<Piece>)
    ensures
        line_view(l) == seq![pv(Seq::empty(), Tone::Plain)],
{
    line1(piece(String::new(), Tone::Plain))
}

fn push_line(ls: &mut Vec<Vec<Piece>>, l: Vec<Piece>)
    ensures
        lines_view(final(ls)@) == lines_view(old(ls)@).push(line_view(l)),
{
    ls.push(l);
    proof {
        assert(lines_view(ls@) =~= lines_view(old(ls)@).push(line_view(l)));
    }
}

/// A row of the header: a label in a column ten wide, then the value.
pub open spec fn field_row(label: Seq<char>, value: PieceView) -> Seq<PieceView> {
    seq![pv(pad(label, 10), Tone::Label), value]
}

fn field_line(label: &str, value: Piece) -> (l: Vec<Piece>)
    ensures
        line_view(l) == field_row(label@, value@),
{
    let mut t = String::new();
    push_padded(&mut t, label, 10);
    line2(piece(t, Tone::Label), value)
}

// ---------------------------------------------------------------------------
// Header
// ---------------------------------------------------------------------------

/// Who the active account is, in the header.
pub open spec fn account_piece(active: Option<AccountView>) -> PieceView {
    match active {
        Some(a) => pv(a.name + "  ("@ + a.username + ")"@, Tone::Strong),
        None => pv("no account selected"@, Tone::Warn),
    }
}

/// What `gh` says, in the header.
pub open spec fn gh_piece(installed: bool, login: Option<Seq<char>>, agree: bool) -> PieceView {
    if !installed {
        pv("gh is not installed"@, Tone::Bad)
    } else {
        match login {
            Some(l) => if agree {
                pv("\u{2713} authenticated as "@ + l, Tone::Good)
            } else {
                pv(
                    "\u{26a0} authenticated as "@ + l + " - does not match the active profile"@,
                    Tone::Warn,
                )
            },
            None => pv("\u{26a0} not authenticated"@, Tone::Warn),
        }
    }
}

/// The session row: where identities go, how many accounts, whether tokens
/// can be cached.
pub open spec fn session_text(scope: Scope, count: nat, keychain: bool) -> Seq<char> {
    label_of(scope) + " config \u{2022} "@ + decimal(count) + " accounts \u{2022} keychain "@ + if keychain {
        "on"@
    } else {
        "off"@
    }
}

pub open spec fn header_text(status: Status, scope: Scope, count: nat, keychain: bool) -> Seq<Seq<PieceView>> {
    let active = account_opt(status.active_account);
    let login = opt_view(status.gh_login);
    seq![
        field_row("Account"@, account_piece(active)),
        field_row(
            "Git"@,
            pv(
                or_else(opt_view(status.identity.name), "unset"@) + " <"@ + or_else(
                    opt_view(status.identity.email),
                    "unset"@,
                ) + ">"@,
                Tone::Value,
            ),
        ),
        field_row("GitHub"@, gh_piece(status.gh_installed, login, consistent(active, login))),
        field_row("Session"@, pv(session_text(scope, count, keychain), Tone::Label)),
    ]
}

/// The header: the active account, the git identity, the state of `gh` and
/// the session.
pub fn header_lines(status: &Status, scope: Scope, count: usize, keychain: bool) -> (ls: Vec<Vec<Piece>>)
    ensures
        lines_view(ls@) == header_text(*status, scope, count as nat, keychain),
{
    let mut ls: Vec<Vec<Piece>> = Vec::new();
    let account = match &status.active_account {
        Some(a) => {
            let mut t = a.name.as_str().to_string();
            t.append("  (");
            t.append(a.username.as_str());
            t.append(")");
            piece(t, Tone::Strong)
        },
        None => piece("no account selected".to_string(), Tone::Warn),
    };
    push_line(&mut ls, field_line("Account", account));
    let mut identity = String::new();
    identity.append(
        match &status.identity.name {
            Some(n) => n.as_str(),
            None => "unset",
        },
    );
    identity.append(" <");
    identity.append(
        match &status.identity.email {
            Some(e) => e.as_str(),
            None => "unset",
        },
    );
    identity.append(">");
    push_line(&mut ls, field_line("Git", piece(identity, Tone::Value)));
    let gh = if !status.gh_installed {
        piece("gh is not installed".to_string(), Tone::Bad)
    } else {
        match &status.gh_login {
            Some(login) => if status.is_consistent() {
                let mut t = "\u{2713} authenticated as ".to_string();
                t.append(login.as_str());
                piece(t, Tone::Good)
            } else {
                let mut t = "\u{26a0} authenticated as ".to_string();
                t.append(login.as_str());
                t.append(" - does not match the active profile");
                piece(t, Tone::Warn)
            },
            None => piece("\u{26a0} not authenticated".to_string(), Tone::Warn),
        }
    };
    push_line(&mut ls, field_line("GitHub", gh));
    let mut session = scope.label().to_string();
    session.append(" config \u{2022} ");
    push_count(&mut session, count);
    session.append(" accounts \u{2022} keychain ");
    session.append(if keychain { "on" } else { "off" });
    push_line(&mut ls, field_line("Session", piece(session, Tone::Label)));
    proof {
        assert(lines_view(ls@) =~= header_text(*status, scope, count as nat, keychain));
    }
    ls
}

// ---------------------------------------------------------------------------
// Account list and details
// ---------------------------------------------------------------------------

/// One row of the account list: its number, a filled dot on the active
/// account, the name in a column sixteen wide and the login.
pub open spec fn row_text(index: nat, a: AccountView, active: Option<Seq<char>>) -> Seq<PieceView> {
    let on = active == Some(a.name);
    seq![
        pv(decimal(index + 1) + " "@, Tone::Label),
        pv(
            (if on {
                "\u{25cf}"@
            } else {
                "\u{25cb}"@
            }) + " "@,
            if on {
                Tone::Good
            } else {
                Tone::Muted
            },
        ),
        pv(pad(a.name, 16), Tone::Value),
        pv(a.username, Tone::Label),
    ]
}

pub fn account_row(index: usize, account: &Account, active: Option<&str>) -> (l: Vec<Piece>)
    requires
        index < usize::MAX,
    ensures
        line_view(l) == row_text(index as nat, account@, crate::service::str_opt(active)),
{
    let on = match active {
        Some(n) => crate::text::str_eq(account.name.as_str(), n),
        None => false,
    };
    let mut number = String::new();
    push_count(&mut number, index + 1);
    number.append(" ");
    let mut marker = if on {
        "\u{25cf}".to_string()
    } else {
        "\u{25cb}".to_string()
    };
    marker.append(" ");
    let mut name = String::new();
    push_padded(&mut name, account.name.as_str(), 16);
    let mut l: Vec<Piece> = Vec::new();
    l.push(piece(number, Tone::Label));
    l.push(piece(marker, if on { Tone::Good } else { Tone::Muted }));
    l.push(piece(name, Tone::Value));
    l.push(piece(account.username.as_str().to_string(), Tone::Label));
    proof {
        assert(line_view(l) =~= row_text(index as nat, account@, crate::service::str_opt(active)));
    }
    l
}

/// The details panel for the selected account, if any.
pub open spec fn details_text(account: Option<AccountView>, active: Option<Seq<char>>) -> Seq<Seq<PieceView>> {
    match account {
        None => seq![seq![pv("No account selected."@, Tone::Label)]],
        Some(a) => seq![
            field_row("Profile"@, pv(a.name, Tone::BoldValue)),
            field_row("GitHub"@, pv(a.username, Tone::Value)),
            field_row("Host"@, pv(a.host, Tone::Value)),
            field_row("Git name"@, pv(a.git_name, Tone::Value)),
            field_row("Git email"@, pv(a.git_email, Tone::Value)),
            field_row(
                "Token"@,
                if a.has_stored_token {
                    pv("cached in the OS keychain"@, Tone::Good)
                } else {
                    pv("not cached"@, Tone::Label)
                },
            ),
            seq![pv(Seq::empty(), Tone::Plain)],
            seq![
                if active == Some(a.name) {
                    pv("This profile is active."@, Tone::Good)
                } else {
                    pv("Press \u{21b5} to switch to it."@, Tone::Label)
                },
            ],
        ],
    }
}

pub fn details_lines(account: Option<&Account>, active: Option<&str>) -> (ls: Vec<Vec<Piece>>)
    ensures
        lines_view(ls@) == details_text(
            match account {
                Some(a) => Some(a@),
                None => None,
            },
            crate::service::str_opt(active),
        ),
{
    let mut ls: Vec<Vec<Piece>> = Vec::new();
    let a = match account {
        Some(a) => a,
        None => {
            push_line(&mut ls, line1(piece("No account selected.".to_string(), Tone::Label)));
            proof {
                assert(lines_view(ls@) =~= details_text(None, crate::service::str_opt(active)));
            }
            return ls;
        },
    };
    push_line(&mut ls, field_line("Profile", piece(a.name.as_str().to_string(), Tone::BoldValue)));
    push_line(&mut ls, field_line("GitHub", piece(a.username.as_str().to_string(), Tone::Value)));
    push_line(&mut ls, field_line("Host", piece(a.host.as_str().to_string(), Tone::Value)));
    push_line(&mut ls, field_line("Git name", piece(a.git_name.as_str().to_string(), Tone::Value)));
    push_line(&mut ls, field_line("Git email", piece(a.git_email.as_str().to_string(), Tone::Value)));
    let token = if a.has_stored_token {
        piece("cached in the OS keychain".to_string(), Tone::Good)
    } else {
        piece("not cached".to_string(), Tone::Label)
    };
    push_line(&mut ls, field_line("Token", token));
    push_line(&mut ls, blank());
    let on = match active {
        Some(n) => crate::text::str_eq(a.name.as_str(), n),
        None => false,
    };
    let last = if on {
        piece("This profile is active.".to_string(), Tone::Good)
    } else {
        piece("Press \u{21b5} to switch to it.".to_string(), Tone::Label)
    };
    push_line(&mut ls, line1(last));
    proof {
        assert(lines_view(ls@) =~= details_text(Some(a@), crate::service::str_opt(active)));
    }
    ls
}

// ---------------------------------------------------------------------------
// Welcome screen
// ---------------------------------------------------------------------------

/// A requirement and whether it is met: a tick or a cross, the name in a
/// column twenty-two wide, then the detail.
pub open spec fn dependency_text(name: Seq<char>, ok: bool, detail: Option<Seq<char>>) -> Seq<PieceView> {
    seq![
        pv(
            "  "@ + (if ok {
                "\u{2713}"@
            } else {
                "\u{2717}"@
            }) + " "@,
            if ok {
                Tone::Good
            } else {
                Tone::Bad
            },
        ),
        pv(pad(name, 22), Tone::Value),
        pv(
            or_else(
                detail,
                if ok {
                    "found"@
                } else {
                    "missing"@
                },
            ),
            Tone::Label,
        ),
    ]
}

pub fn dependency_line(name: &str, ok: bool, detail: Option<&str>) -> (l: Vec<Piece>)
    ensures
        line_view(l) == dependency_text(name@, ok, crate::service::str_opt(detail)),
{
    let mut mark = "  ".to_string();
    mark.append(if ok { "\u{2713}" } else { "\u{2717}" });
    mark.append(" ");
    let mut padded = String::new();
    push_padded(&mut padded, name, 22);
    let d = match detail {
        Some(d) => d.to_string(),
        None => if ok {
            "found".to_string()
        } else {
            "missing".to_string()
        },
    };
    line3(piece(mark, if ok { Tone::Good } else { Tone::Bad }), piece(padded, Tone::Value), piece(d, Tone::Label))
}

/// The welcome screen: what the tool does, what it needs and how to start.
pub open spec fn onboarding_text(status: Status, keychain: bool) -> Seq<Seq<PieceView>> {
    let empty = seq![pv(Seq::empty(), Tone::Plain)];
    seq![
        seq![pv("Welcome to gitswitch"@, Tone::Title)],
        empty,
        seq![
            pv(
                "Save your GitHub accounts once, then switch git and the GitHub CLI together in a single keystroke."@,
                Tone::Value,
            ),
        ],
        empty,
        seq![
            pv(
                "Signing in happens in your browser through the GitHub CLI - there is no token to copy unless you want one."@,
                Tone::Label,
            ),
        ],
        empty,
        seq![pv("Requirements"@, Tone::Title)],
        dependency_text("git"@, status.git_installed, opt_view(status.git_version)),
        dependency_text("gh"@, status.gh_installed, opt_view(status.gh_version)),
        dependency_text("OS credential store"@, keychain, Some("used to cache tokens"@)),
        empty,
    ] + (if status.git_installed {
        Seq::empty()
    } else {
        seq![seq![pv("Install git from https://git-scm.com/downloads"@, Tone::Warn)]]
    }) + (if status.gh_installed {
        Seq::empty()
    } else {
        seq![seq![pv("Install the GitHub CLI from https://cli.github.com"@, Tone::Warn)]]
    }) + seq![
        seq![
            pv("Press "@, Tone::Label),
            pv("a"@, Tone::Key),
            pv(" to add your first account, "@, Tone::Label),
            pv("?"@, Tone::Key),
            pv(" for help, "@, Tone::Label),
            pv("q"@, Tone::Key),
            pv(" to quit."@, Tone::Label),
        ],
    ]
}

fn text_line(text: &str, tone: Tone) -> (l: Vec<Piece>)
    ensures
        line_view(l) == seq![pv(text@, tone)],
{
    line1(piece(text.to_string(), tone))
}

fn opt_str(o: &Option<String>) -> (r: Option<&str>)
    ensures
        crate::service::str_opt(r) == opt_view(*o),
{
    match o {
        Some(s) => Some(s.as_str()),
        None => None,
    }
}

pub fn onboarding_lines(status: &Status, keychain: bool) -> (ls: Vec<Vec<Piece>>)
    ensures
        lines_view(ls@) == onboarding_text(*status, keychain),
{
    let mut ls: Vec<Vec<Piece>> = Vec::new();
    push_line(&mut ls, text_line("Welcome to gitswitch", Tone::Title));
    push_line(&mut ls, blank());
    push_line(
        &mut ls,
        text_line(
            "Save your GitHub accounts once, then switch git and the GitHub CLI together in a single keystroke.",
            Tone::Value,
        ),
    );
    push_line(&mut ls, blank());
    push_line(
        &mut ls,
        text_line(
            "Signing in happens in your browser through the GitHub CLI - there is no token to copy unless you want one.",
            Tone::Label,
        ),
    );
    push_line(&mut ls, blank());
    push_line(&mut ls, text_line("Requirements", Tone::Title));
    push_line(&mut ls, dependency_line("git", status.git_installed, opt_str(&status.git_version)));
    push_line(&mut ls, dependency_line("gh", status.gh_installed, opt_str(&status.gh_version)));
    push_line(&mut ls, dependency_line("OS credential store", keychain, Some("used to cache tokens")));
    push_line(&mut ls, blank());
    let ghost head = lines_view(ls@);
    if !status.git_installed {
        push_line(&mut ls, text_line("Install git from https://git-scm.com/downloads", Tone::Warn));
    }
    let ghost mid = lines_view(ls@);
    if !status.gh_installed {
        push_line(&mut ls, text_line("Install the GitHub CLI from https://cli.github.com", Tone::Warn));
    }
    let ghost tail = lines_view(ls@);
    let mut last: Vec<Piece> = Vec::new();
    last.push(piece("Press ".to_string(), Tone::Label));
    last.push(piece("a".to_string(), Tone::Key));
    last.push(piece(" to add your first account, ".to_string(), Tone::Label));
    last.push(piece("?".to_string(), Tone::Key));
    last.push(piece(" for help, ".to_string(), Tone::Label));
    last.push(piece("q".to_string(), Tone::Key));
    last.push(piece(" to quit.".to_string(), Tone::Label));
    let ghost last_view = line_view(last);
    push_line(&mut ls, last);
    proof {
        let t = onboarding_text(*status, keychain);
        let empty = seq![pv(Seq::empty(), Tone::Plain)];
        let opt1: Seq<Seq<PieceView>> = if status.git_installed {
            Seq::empty()
        } else {
            seq![seq![pv("Install git from https://git-scm.com/downloads"@, Tone::Warn)]]
        };
        let opt2: Seq<Seq<PieceView>> = if status.gh_installed {
            Seq::empty()
        } else {
            seq![seq![pv("Install the GitHub CLI from https://cli.github.com"@, Tone::Warn)]]
        };
        assert(mid =~= head + opt1);
        assert(tail =~= head + opt1 + opt2);
        assert(last_view =~= t.last());
        assert(t =~= head + opt1 + opt2 + seq![last_view]);
        assert(lines_view(ls@) =~= t);
    }
    ls
}

// ---------------------------------------------------------------------------
// Notices, forms, the removal question, help and the busy marker
// ---------------------------------------------------------------------------

/// The tone of a notice of this level.
pub open spec fn level_tone(level: Level) -> Tone {
    match level {
        Level::Info => Tone::Info,
        Level::Success => Tone::Good,
        Level::Warning => Tone::Warn,
        Level::Error => Tone::Bad,
    }
}

pub open spec fn level_mark(level: Level) -> Seq<char> {
    match level {
        Level::Info => "\u{2022}"@,
        Level::Success => "\u{2713}"@,
        Level::Warning => "\u{26a0}"@,
        Level::Error => "\u{2717}"@,
    }
}

pub fn toast_tone(level: Level) -> (t: Tone)
    ensures
        t == level_tone(level),
{
    match level {
        Level::Info => Tone::Info,
        Level::Success => Tone::Good,
        Level::Warning => Tone::Warn,
        Level::Error => Tone::Bad,
    }
}

/// A notice: its mark and text in its tone, then the hint after a dash.
pub open spec fn toast_text(t: Toast) -> Seq<PieceView> {
    let tone = level_tone(t.level);
    seq![pv(level_mark(t.level) + " "@, tone), pv(t.text@, tone)] + match t.hint {
        Some(h) => seq![pv("  \u{2014} "@ + h@, Tone::Label)],
        None => Seq::empty(),
    }
}

pub fn toast_pieces(t: &Toast) -> (l: Vec<Piece>)
    ensures
        line_view(l) == toast_text(*t),
{
    let tone = toast_tone(t.level);
    let mut mark = match t.level {
        Level::Info => "\u{2022}".to_string(),
        Level::Success => "\u{2713}".to_string(),
        Level::Warning => "\u{26a0}".to_string(),
        Level::Error => "\u{2717}".to_string(),
    };
    mark.append(" ");
    let mut l = line2(piece(mark, tone), piece(t.text.as_str().to_string(), tone));
    let ghost head = line_view(l);
    match &t.hint {
        Some(h) => {
            let mut text = "  \u{2014} ".to_string();
            text.append(h.as_str());
            l.push(piece(text, Tone::Label));
        },
        None => {},
    }
    proof {
        assert(line_view(l) =~= toast_text(*t));
    }
    l
}

/// A key and what it does, as the footer shows it.
pub open spec fn key_hint(key: Seq<char>, label: Seq<char>) -> Seq<PieceView> {
    seq![pv(" "@ + key + " "@, Tone::Key), pv(label + "  "@, Tone::Label)]
}

pub open spec fn hints(pairs: Seq<(Seq<char>, Seq<char>)>) -> Seq<PieceView>
    decreases pairs.len(),
{
    if pairs.len() == 0 {
        Seq::empty()
    } else {
        hints(pairs.drop_last()) + key_hint(pairs.last().0, pairs.last().1)
    }
}

pub open spec fn pair_views(pairs: Seq<(&str, &str)>) -> Seq<(Seq<char>, Seq<char>)> {
    pairs.map_values(|p: (&str, &str)| (p.0@, p.1@))
}

/// Every shortcut of the account list.
pub open spec fn full_hints() -> Seq<(Seq<char>, Seq<char>)> {
    seq![
        ("\u{2191}\u{2193}"@, "move"@),
        ("\u{21b5}"@, "switch"@),
        ("a"@, "add"@),
        ("r"@, "rename"@),
        ("t"@, "token"@),
        ("A"@, "gh login"@),
        ("d"@, "remove"@),
        ("L"@, "scope"@),
        ("g"@, "refresh"@),
        ("?"@, "help"@),
        ("q"@, "quit"@),
    ]
}

/// The shortcuts kept on a narrow terminal; the rest stay in the help.
pub open spec fn compact_hints() -> Seq<(Seq<char>, Seq<char>)> {
    seq![
        ("\u{2191}\u{2193}"@, "move"@),
        ("\u{21b5}"@, "switch"@),
        ("a"@, "add"@),
        ("d"@, "remove"@),
        ("?"@, "help"@),
        ("q"@, "quit"@),
    ]
}

/// How many characters a row of pieces takes.
pub open spec fn width_of(ps: Seq<PieceView>) -> int
    decreases ps.len(),
{
    if ps.len() == 0 {
        0
    } else {
        width_of(ps.drop_last()) + ps.last().text.len()
    }
}

/// The footer for `screen` on a terminal `width` columns wide: the
/// shortcuts of the screen shown, the compact set on the account list when
/// the full one does not fit.
pub open spec fn footer_text(screen: Screen, width: int) -> Seq<PieceView> {
    match screen {
        Screen::Form(_) => hints(
            seq![
                ("\u{21b5}"@, "next / save"@),
                ("\u{21e5}"@, "field"@),
                ("^U"@, "clear"@),
                ("Esc"@, "cancel"@),
            ],
        ),
        Screen::Confirm(_) => hints(seq![("y"@, "confirm"@), ("l"@, "toggle gh logout"@), ("n"@, "cancel"@)]),
        Screen::Help => hints(seq![("any key"@, "back"@)]),
        Screen::Onboarding => hints(seq![("a"@, "add your first account"@), ("?"@, "help"@), ("q"@, "quit"@)]),
        Screen::Accounts => if width_of(hints(full_hints())) <= width {
            hints(full_hints())
        } else {
            hints(compact_hints())
        },
    }
}

fn hint_pieces(pairs: &[(&str, &str)]) -> (l: Vec<Piece>)
    ensures
        line_view(l) == hints(pair_views(pairs@)),
{
    let mut l: Vec<Piece> = Vec::new();
    let mut i: usize = 0;
    while i < pairs.len()
        invariant
            i <= pairs@.len(),
            line_view(l) == hints(pair_views(pairs@.take(i as int))),
        decreases pairs@.len() - i,
    {
        let (key, label) = pairs[i];
        let mut k = " ".to_string();
        k.append(key);
        k.append(" ");
        let mut t = label.to_string();
        t.append("  ");
        let ghost before = line_view(l);
        l.push(piece(k, Tone::Key));
        l.push(piece(t, Tone::Label));
        proof {
            let next = pair_views(pairs@.take(i + 1));
            assert(next.drop_last() =~= pair_views(pairs@.take(i as int)));
            assert(next.last() == (key@, label@));
            assert(line_view(l) =~= before + key_hint(key@, label@));
        }
        i = i + 1;
    }
    proof {
        assert(pairs@.take(pairs@.len() as int) =~= pairs@);
    }
    l
}

/// Whether a row of pieces fits in `width` columns.
fn fits(l: &Vec<Piece>, width: usize) -> (b: bool)
    ensures
        b == (width_of(line_view(*l)) <= width),
{
    let ghost v = line_view(*l);
    let mut total: usize = 0;
    let mut i: usize = 0;
    while i < l.len()
        invariant
            v == line_view(*l),
            i <= l@.len(),
            total == width_of(v.take(i as int)),
            total <= width,
        decreases l@.len() - i,
    {
        let n = chars_of_len(l[i].text.as_str());
        proof {
            assert(v.take(i + 1).drop_last() =~= v.take(i as int));
            assert(v.take(i + 1).last() == l@[i as int]@);
        }
        if n > width - total {
            proof {
                lemma_width_prefix(v, i + 1, v.len() as int);
                assert(v.take(v.len() as int) =~= v);
            }
            return false;
        }
        total = total + n;
        i = i + 1;
    }
    proof {
        assert(v.take(v.len() as int) =~= v);
    }
    true
}

proof fn lemma_width_prefix(v: Seq<PieceView>, i: int, j: int)
    requires
        0 <= i <= j <= v.len(),
    ensures
        width_of(v.take(i)) <= width_of(v.take(j)),
    decreases j - i,
{
    if i < j {
        assert(v.take(j).drop_last() =~= v.take(j - 1));
        lemma_width_prefix(v, i, j - 1);
    }
}

fn chars_of_len(s: &str) -> (n: usize)
    ensures
        n == s@.len(),
{
    crate::text::chars_of(s).len()
}

pub fn footer_pieces(screen: &Screen, width: usize) -> (l: Vec<Piece>)
    ensures
        line_view(l) == footer_text(*screen, width as int),
{
    match screen {
        Screen::Form(_) => {
            let l = hint_pieces(&[("\u{21b5}", "next / save"), ("\u{21e5}", "field"), ("^U", "clear"), ("Esc", "cancel")]);
            proof {
                assert(pair_views(seq![("\u{21b5}", "next / save"), ("\u{21e5}", "field"), ("^U", "clear"), ("Esc", "cancel")]) =~= seq![
                    ("\u{21b5}"@, "next / save"@),
                    ("\u{21e5}"@, "field"@),
                    ("^U"@, "clear"@),
                    ("Esc"@, "cancel"@),
                ]);
                let p4 = seq![
                    ("\u{21b5}"@, "next / save"@),
                    ("\u{21e5}"@, "field"@),
                    ("^U"@, "clear"@),
                    ("Esc"@, "cancel"@),
                ];
                assert(line_view(l) == hints(p4));
                assert(footer_text(*screen, width as int) == hints(p4));
            }
            return l;
        },
        Screen::Confirm(_) => {
            let l = hint_pieces(&[("y", "confirm"), ("l", "toggle gh logout"), ("n", "cancel")]);
            proof {
                assert(pair_views(seq![("y", "confirm"), ("l", "toggle gh logout"), ("n", "cancel")]) =~= seq![
                    ("y"@, "confirm"@),
                    ("l"@, "toggle gh logout"@),
                    ("n"@, "cancel"@),
                ]);
                assert(footer_text(*screen, width as int) == hints(seq![("y"@, "confirm"@), ("l"@, "toggle gh logout"@), ("n"@, "cancel"@)]));
            }
            return l;
        },
        Screen::Help => {
            let mut k = " ".to_string();
            k.append("any key");
            k.append(" ");
            let mut t = "back".to_string();
            t.append("  ");
            let l = line2(piece(k, Tone::Key), piece(t, Tone::Label));
            proof {
                let p1 = seq![("any key"@, "back"@)];
                assert(p1.drop_last() =~= Seq::<(Seq<char>, Seq<char>)>::empty());
                reveal_with_fuel(hints, 2);
                assert(hints(p1) =~= key_hint("any key"@, "back"@));
                assert(line_view(l) =~= key_hint("any key"@, "back"@));
                assert(footer_text(*screen, width as int) == hints(p1));
            }
            return l;
        },
        Screen::Onboarding => {
            let l = hint_pieces(&[("a", "add your first account"), ("?", "help"), ("q", "quit")]);
            proof {
                assert(pair_views(seq![("a", "add your first account"), ("?", "help"), ("q", "quit")]) =~= seq![
                    ("a"@, "add your first account"@),
                    ("?"@, "help"@),
                    ("q"@, "quit"@),
                ]);
                assert(footer_text(*screen, width as int) == hints(seq![("a"@, "add your first account"@), ("?"@, "help"@), ("q"@, "quit"@)]));
            }
            return l;
        },
        Screen::Accounts => {
            let full = hint_pieces(
                &[
                    ("\u{2191}\u{2193}", "move"),
                    ("\u{21b5}", "switch"),
                    ("a", "add"),
                    ("r", "rename"),
                    ("t", "token"),
                    ("A", "gh login"),
                    ("d", "remove"),
                    ("L", "scope"),
                    ("g", "refresh"),
                    ("?", "help"),
                    ("q", "quit"),
                ],
            );
            proof {
                assert(pair_views(
                    seq![
                        ("\u{2191}\u{2193}", "move"),
                        ("\u{21b5}", "switch"),
                        ("a", "add"),
                        ("r", "rename"),
                        ("t", "token"),
                        ("A", "gh login"),
                        ("d", "remove"),
                        ("L", "scope"),
                        ("g", "refresh"),
                        ("?", "help"),
                        ("q", "quit"),
                    ],
                ) =~= full_hints());
            }
            if fits(&full, width) {
                full
            } else {
                let compact = hint_pieces(
                    &[
                        ("\u{2191}\u{2193}", "move"),
                        ("\u{21b5}", "switch"),
                        ("a", "add"),
                        ("d", "remove"),
                        ("?", "help"),
                        ("q", "quit"),
                    ],
                );
                proof {
                    assert(pair_views(
                        seq![
                            ("\u{2191}\u{2193}", "move"),
                            ("\u{21b5}", "switch"),
                            ("a", "add"),
                            ("d", "remove"),
                            ("?", "help"),
                            ("q", "quit"),
                        ],
                    ) =~= compact_hints());
                }
                compact
            }
        },
    }
}

/// A field of an open form: its label, brighter when focused, then its
/// value, with a cursor block when focused and the hint when empty.
pub open spec fn field_text(f: Field, focused: bool) -> Seq<Seq<PieceView>> {
    let value = shown(f);
    seq![
        seq![
            pv(
                f.label@,
                if focused {
                    Tone::Key
                } else {
                    Tone::Label
                },
            ),
        ],
        seq![
            pv("  "@, Tone::Label),
            pv(
                if focused {
                    value + "\u{2588}"@
                } else if value.len() == 0 {
                    f.hint@
                } else {
                    value
                },
                if !focused && f.value@.len() == 0 {
                    Tone::Placeholder
                } else {
                    Tone::Value
                },
            ),
        ],
    ]
}

/// The first `n` fields of a form whose focus is on `cursor`.
pub open spec fn fields_text(fields: Seq<Field>, cursor: int, n: int) -> Seq<Seq<PieceView>>
    decreases n,
{
    if n <= 0 {
        Seq::empty()
    } else {
        fields_text(fields, cursor, n - 1) + field_text(fields[n - 1], n - 1 == cursor)
    }
}

pub fn form_lines(form: &Form) -> (ls: Vec<Vec<Piece>>)
    ensures
        lines_view(ls@) == fields_text(form.fields@, form.cursor as int, form.fields@.len() as int),
{
    let mut ls: Vec<Vec<Piece>> = Vec::new();
    let mut i: usize = 0;
    while i < form.fields.len()
        invariant
            i <= form.fields@.len(),
            lines_view(ls@) == fields_text(form.fields@, form.cursor as int, i as int),
        decreases form.fields@.len() - i,
    {
        let field = &form.fields[i];
        let focused = i == form.cursor;
        let ghost before = lines_view(ls@);
        push_line(
            &mut ls,
            line1(piece(field.label.to_string(), if focused { Tone::Key } else { Tone::Label })),
        );
        let value = field.display();
        let empty = value.as_str().is_empty();
        let text = if focused {
            let mut t = value;
            t.append("\u{2588}");
            t
        } else if empty {
            field.hint.to_string()
        } else {
            value
        };
        let tone = if !focused && field.value.as_str().is_empty() {
            Tone::Placeholder
        } else {
            Tone::Value
        };
        push_line(&mut ls, line2(piece("  ".to_string(), Tone::Label), piece(text, tone)));
        proof {
            assert(lines_view(ls@) =~= before + field_text(*field, focused));
        }
        i = i + 1;
    }
    ls
}

/// The removal question: what is removed, whether `gh` is logged out too,
/// and that it cannot be undone.
pub open spec fn confirm_text(c: Confirm) -> Seq<Seq<PieceView>> {
    let empty = seq![pv(Seq::empty(), Tone::Plain)];
    seq![
        seq![pv(c.message@, Tone::Text)],
        empty,
        seq![
            pv("Also run `gh auth logout`: "@, Tone::Label),
            if c.logout {
                pv("yes"@, Tone::Warn)
            } else {
                pv("no"@, Tone::Muted)
            },
            pv("  (press l to toggle)"@, Tone::Label),
        ],
        empty,
        seq![pv("This cannot be undone."@, Tone::Bad)],
    ]
}

pub fn confirm_lines(c: &Confirm) -> (ls: Vec<Vec<Piece>>)
    ensures
        lines_view(ls@) == confirm_text(*c),
{
    let mut ls: Vec<Vec<Piece>> = Vec::new();
    push_line(&mut ls, text_line(c.message.as_str(), Tone::Text));
    push_line(&mut ls, blank());
    let answer = if c.logout {
        piece("yes".to_string(), Tone::Warn)
    } else {
        piece("no".to_string(), Tone::Muted)
    };
    push_line(
        &mut ls,
        line3(
            piece("Also run `gh auth logout`: ".to_string(), Tone::Label),
            answer,
            piece("  (press l to toggle)".to_string(), Tone::Label),
        ),
    );
    push_line(&mut ls, blank());
    push_line(&mut ls, text_line("This cannot be undone.", Tone::Bad));
    proof {
        assert(lines_view(ls@) =~= confirm_text(*c));
    }
    ls
}

/// A row of the help: the keys in a column eighteen wide, then what they do.
pub open spec fn help_row(keys: Seq<char>, what: Seq<char>) -> Seq<PieceView> {
    seq![pv("  "@ + pad(keys, 18), Tone::Key), pv(what, Tone::Value)]
}

/// Every shortcut, as the help lists them.
pub open spec fn help_rows() -> Seq<(Seq<char>, Seq<char>)> {
    seq![
        ("\u{2191} \u{2193} / k j"@, "move through the account list"@),
        ("1 - 9"@, "switch to an account by number"@),
        ("Enter"@, "switch to the selected account"@),
        ("a"@, "add a new account"@),
        ("r"@, "rename the selected account"@),
        ("t"@, "store a new token for the account"@),
        ("A"@, "sign in with your browser (gh auth login)"@),
        ("d / Del"@, "remove the selected account"@),
        ("L"@, "write the git identity globally or per repository"@),
        ("g / F5"@, "re-read git and gh state"@),
        ("?"@, "this help"@),
        ("q / Esc / Ctrl-C"@, "quit"@),
    ]
}

pub open spec fn help_text() -> Seq<Seq<PieceView>> {
    seq![
        seq![
            pv(
                "Switching updates git user.name, user.email and the active GitHub CLI account."@,
                Tone::Label,
            ),
        ],
        seq![pv(Seq::empty(), Tone::Plain)],
    ] + help_rows().map_values(|r: (Seq<char>, Seq<char>)| help_row(r.0, r.1))
}

pub fn help_lines() -> (ls: Vec<Vec<Piece>>)
    ensures
        lines_view(ls@) == help_text(),
{
    let rows: [(&str, &str); 12] = [
        ("\u{2191} \u{2193} / k j", "move through the account list"),
        ("1 - 9", "switch to an account by number"),
        ("Enter", "switch to the selected account"),
        ("a", "add a new account"),
        ("r", "rename the selected account"),
        ("t", "store a new token for the account"),
        ("A", "sign in with your browser (gh auth login)"),
        ("d / Del", "remove the selected account"),
        ("L", "write the git identity globally or per repository"),
        ("g / F5", "re-read git and gh state"),
        ("?", "this help"),
        ("q / Esc / Ctrl-C", "quit"),
    ];
    let ghost rv = rows@.map_values(|p: (&str, &str)| (p.0@, p.1@));
    proof {
        assert(rv =~= help_rows());
    }
    let mut ls: Vec<Vec<Piece>> = Vec::new();
    push_line(
        &mut ls,
        text_line(
            "Switching updates git user.name, user.email and the active GitHub CLI account.",
            Tone::Label,
        ),
    );
    push_line(&mut ls, blank());
    let ghost head = lines_view(ls@);
    let mut i: usize = 0;
    while i < 12
        invariant
            i <= 12,
            rv == rows@.map_values(|p: (&str, &str)| (p.0@, p.1@)),
            rv.len() == 12,
            lines_view(ls@) == head + rv.take(i as int).map_values(
                |r: (Seq<char>, Seq<char>)| help_row(r.0, r.1),
            ),
        decreases 12 - i,
    {
        let (keys, what) = rows[i];
        let mut k = "  ".to_string();
        push_padded(&mut k, keys, 18);
        let ghost before = lines_view(ls@);
        push_line(&mut ls, line2(piece(k, Tone::Key), piece(what.to_string(), Tone::Value)));
        proof {
            assert(rv[i as int] == (keys@, what@));
            assert(rv.take(i + 1).map_values(|r: (Seq<char>, Seq<char>)| help_row(r.0, r.1)) =~= rv.take(
                i as int,
            ).map_values(|r: (Seq<char>, Seq<char>)| help_row(r.0, r.1)).push(help_row(keys@, what@)));
        }
        i = i + 1;
    }
    proof {
        assert(rv.take(12) =~= rv);
        assert(lines_view(ls@) =~= help_text());
    }
    ls
}

/// The busy marker: what is being done, and a request to wait.
pub open spec fn busy_text(message: Seq<char>) -> Seq<Seq<PieceView>> {
    seq![seq![pv(message + "\u{2026}"@, Tone::Accent)], seq![pv("please wait"@, Tone::Label)]]
}

pub fn busy_lines(message: &str) -> (ls: Vec<Vec<Piece>>)
    ensures
        lines_view(ls@) == busy_text(message@),
{
    let mut t = message.to_string();
    t.append("\u{2026}");
    let mut ls: Vec<Vec<Piece>> = Vec::new();
    push_line(&mut ls, line1(piece(t, Tone::Accent)));
    push_line(&mut ls, text_line("please wait", Tone::Label));
    proof {
        assert(lines_view(ls@) =~= busy_text(message@));
    }
    ls
}

} // verus!
