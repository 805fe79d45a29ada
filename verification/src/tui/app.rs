//! State of the interactive interface and the rules by which keys change it.
use vstd::prelude::*;

use crate::error::{hint_of, message_of, Error, Result};
use crate::git::{label_of, opt_view, Scope};
use crate::model::{Account, AccountView, DEFAULT_HOST};
use crate::process::Runner;
use crate::secrets::SecretStore;
use crate::service::{GhOutcome, Service, Status, SwitchOptions};
use crate::text::{chars_of, trim, trimmed};

verus! {

// ---------------------------------------------------------------------------
// Keys
// ---------------------------------------------------------------------------

/// A key as the terminal reports it.
#[derive(Debug, Clone, Copy, PartialEq, Eq, Structural)]
pub enum KeyCode {
    Char(char),
    Enter,
    Esc,
    Tab,
    BackTab,
    Up,
    Down,
    Left,
    Right,
    Home,
    End,
    Delete,
    Backspace,
    F(u8),
    /// Any other key; none of them does anything.
    Other,
}

/// Whether a key went down, repeats or was let go.
#[derive(Debug, Clone, Copy, PartialEq, Eq, Structural)]
pub enum KeyEventKind {
    Press,
    Repeat,
    Release,
}

/// The modifier keys held with a key; only Control changes what a key does.
#[derive(Debug, Clone, Copy, PartialEq, Eq, Structural)]
pub struct KeyModifiers {
    pub control: bool,
}

impl KeyModifiers {
    /// No modifier held.
    pub fn none() -> (m: Self)
        ensures
            !m.control,
    {
        KeyModifiers { control: false }
    }

    /// Control held.
    pub fn control() -> (m: Self)
        ensures
            m.control,
    {
        KeyModifiers { control: true }
    }
}

#[derive(Debug, Clone, Copy, PartialEq, Eq, Structural)]
pub struct KeyEvent {
    pub code: KeyCode,
    pub modifiers: KeyModifiers,
    pub kind: KeyEventKind,
}

impl KeyEvent {
    /// A key press.
    pub fn new(code: KeyCode, modifiers: KeyModifiers) -> (k: Self)
        ensures
            k.code == code,
            k.modifiers == modifiers,
            k.kind == KeyEventKind::Press,
    {
        KeyEvent { code, modifiers, kind: KeyEventKind::Press }
    }
}

// ---------------------------------------------------------------------------
// What the screen shows
// ---------------------------------------------------------------------------

#[derive(Debug, Clone, Copy, PartialEq, Eq, Structural)]
pub enum Level {
    Info,
    Success,
    Warning,
    Error,
}

#[derive(Debug, Clone, PartialEq, Eq)]
pub struct Toast {
    pub level: Level,
    pub text: String,
    /// Optional second line with a suggested next step.
    pub hint: Option<String>,
}

impl Toast {
    fn new(level: Level, text: String) -> (t: Toast)
        ensures
            t.level == level,
            t.text@ == text@,
            t.hint is None,
    {
        Toast { level, text, hint: None }
    }

    fn from_error(err: &Error) -> (t: Toast)
        ensures
            t.level == Level::Error,
            t.text@ == message_of(*err),
            opt_view(t.hint) == hint_of(*err),
    {
        Toast { level: Level::Error, text: err.message(), hint: err.hint() }
    }
}

#[derive(Debug, Clone, Copy, PartialEq, Eq, Structural)]
pub enum FormKind {
    Add,
    Rename,
    Token,
}

#[derive(Debug, Clone, PartialEq, Eq)]
pub struct Field {
    pub label: &'static str,
    pub value: String,
    pub masked: bool,
    pub hint: &'static str,
}

/// `n` bullets, which is what a masked field shows for `n` characters.
pub open spec fn bullets(n: nat) -> Seq<char> {
    Seq::new(n, |i: int| '\u{2022}')
}

/// What a field shows: its value, or a bullet per character when masked.
pub open spec fn shown(f: Field) -> Seq<char> {
    if f.masked {
        bullets(f.value@.len())
    } else {
        f.value@
    }
}

impl Field {
    fn new(label: &'static str, hint: &'static str) -> (f: Field)
        ensures
            f.label == label,
            f.hint == hint,
            f.value@ == Seq::<char>::empty(),
            !f.masked,
    {
        Field { label, value: String::new(), masked: false, hint }
    }

    fn with_value(self, value: &str) -> (f: Field)
        ensures
            f.label == self.label,
            f.hint == self.hint,
            f.value@ == value@,
            f.masked == self.masked,
    {
        let mut f = self;
        f.value = value.to_string();
        f
    }

    fn masked(self) -> (f: Field)
        ensures
            f.label == self.label,
            f.hint == self.hint,
            f.value@ == self.value@,
            f.masked,
    {
        let mut f = self;
        f.masked = true;
        f
    }

    /// What the widget prints: secrets are never echoed back.
    pub fn display(&self) -> (d: String)
        ensures
            d@ == shown(*self),
    {
        if self.masked {
            let cs = chars_of(self.value.as_str());
            let mut d = String::new();
            let mut i: usize = 0;
            while i < cs.len()
                invariant
                    i <= cs@.len(),
                    d@ == bullets(i as nat),
                decreases cs@.len() - i,
            {
                d.push('\u{2022}');
                proof {
                    assert(d@ =~= bullets((i + 1) as nat));
                }
                i = i + 1;
            }
            proof {
                assert(cs@.len() == self.value@.len());
            }
            d
        } else {
            self.value.as_str().to_string()
        }
    }
}

#[derive(Debug, Clone, PartialEq, Eq)]
pub struct Form {
    pub kind: FormKind,
    pub title: String,
    pub fields: Vec<Field>,
    pub cursor: usize,
    /// Account the form acts on, for rename and re-authentication.
    pub target: Option<String>,
}

pub open spec fn field_is(f: Field, label: Seq<char>, hint: Seq<char>, value: Seq<char>, masked: bool) -> bool {
    f.label@ == label && f.hint@ == hint && f.value@ == value && f.masked == masked
}

/// The empty form for a new account, on its first field.
pub open spec fn is_add_form(f: Form) -> bool {
    &&& f.kind == FormKind::Add
    &&& f.title@ == "Add account"@
    &&& f.cursor == 0
    &&& f.target is None
    &&& f.fields@.len() == 6
    &&& field_is(f.fields@[0], "Profile name"@, "personal, work, open-source"@, Seq::empty(), false)
    &&& field_is(f.fields@[1], "GitHub username"@, "your GitHub login"@, Seq::empty(), false)
    &&& field_is(f.fields@[2], "Git name"@, "shown on your commits"@, Seq::empty(), false)
    &&& field_is(f.fields@[3], "Git email"@, "used for commit authorship"@, Seq::empty(), false)
    &&& field_is(f.fields@[4], "Host"@, "github.com or a GitHub Enterprise host"@, DEFAULT_HOST@, false)
    &&& field_is(f.fields@[5], "Token (optional)"@, "paste a PAT, or leave empty"@, Seq::empty(), true)
}

/// The form that renames `current`, holding the current name.
pub open spec fn is_rename_form(f: Form, current: Seq<char>) -> bool {
    &&& f.kind == FormKind::Rename
    &&& f.title@ == "Rename `"@ + current + "`"@
    &&& f.cursor == 0
    &&& opt_view(f.target) == Some(current)
    &&& f.fields@.len() == 1
    &&& field_is(f.fields@[0], "New name"@, "letters, digits, - _ ."@, current, false)
}

/// The form that takes a fresh token for `account`.
pub open spec fn is_token_form(f: Form, account: Seq<char>) -> bool {
    &&& f.kind == FormKind::Token
    &&& f.title@ == "Re-authenticate `"@ + account + "`"@
    &&& f.cursor == 0
    &&& opt_view(f.target) == Some(account)
    &&& f.fields@.len() == 1
    &&& field_is(f.fields@[0], "Token"@, "a personal access token"@, Seq::empty(), true)
}

/// The trimmed value of field `index`, or nothing past the last field.
pub open spec fn form_value(f: Form, index: int) -> Seq<char> {
    if 0 <= index < f.fields@.len() {
        trim(f.fields@[index].value@)
    } else {
        Seq::empty()
    }
}

impl Form {
    fn add() -> (f: Form)
        ensures
            is_add_form(f),
    {
        let mut fields: Vec<Field> = Vec::new();
        fields.push(Field::new("Profile name", "personal, work, open-source"));
        fields.push(Field::new("GitHub username", "your GitHub login"));
        fields.push(Field::new("Git name", "shown on your commits"));
        fields.push(Field::new("Git email", "used for commit authorship"));
        fields.push(
            Field::new("Host", "github.com or a GitHub Enterprise host").with_value(DEFAULT_HOST),
        );
        fields.push(Field::new("Token (optional)", "paste a PAT, or leave empty").masked());
        Form { kind: FormKind::Add, title: "Add account".to_string(), fields, cursor: 0, target: None }
    }

    fn rename(current: &str) -> (f: Form)
        ensures
            is_rename_form(f, current@),
    {
        let mut title = "Rename `".to_string();
        title.append(current);
        title.append("`");
        let mut fields: Vec<Field> = Vec::new();
        fields.push(Field::new("New name", "letters, digits, - _ .").with_value(current));
        Form { kind: FormKind::Rename, title, fields, cursor: 0, target: Some(current.to_string()) }
    }

    fn token(account: &str) -> (f: Form)
        ensures
            is_token_form(f, account@),
    {
        let mut title = "Re-authenticate `".to_string();
        title.append(account);
        title.append("`");
        let mut fields: Vec<Field> = Vec::new();
        fields.push(Field::new("Token", "a personal access token").masked());
        Form { kind: FormKind::Token, title, fields, cursor: 0, target: Some(account.to_string()) }
    }

    fn value(&self, index: usize) -> (v: String)
        ensures
            v@ == form_value(*self, index as int),
    {
        if index < self.fields.len() {
            trimmed(self.fields[index].value.as_str())
        } else {
            String::new()
        }
    }
}

#[derive(Debug, Clone, PartialEq, Eq)]
pub struct Confirm {
    pub title: String,
    pub message: String,
    pub account: String,
    /// Whether `gh auth logout` runs as part of the removal.
    pub logout: bool,
}

#[derive(Debug, Clone, PartialEq, Eq)]
pub enum Screen {
    Onboarding,
    Accounts,
    Form(Form),
    Confirm(Confirm),
    Help,
}

/// Work that is slow enough to deserve a visible "working" frame. The event
/// loop paints first and executes afterwards.
#[derive(Debug, Clone, PartialEq, Eq)]
pub enum Pending {
    Switch(String),
    Refresh,
    Submit,
    Remove,
}

pub open spec fn pending_label(p: Pending) -> Seq<char> {
    match p {
        Pending::Switch(_) => "Switching account"@,
        Pending::Refresh => "Refreshing"@,
        Pending::Submit => "Talking to GitHub CLI"@,
        Pending::Remove => "Removing account"@,
    }
}

impl Pending {
    pub fn label(&self) -> (l: &'static str)
        ensures
            l@ == pending_label(*self),
    {
        match self {
            Pending::Switch(_) => "Switching account",
            Pending::Refresh => "Refreshing",
            Pending::Submit => "Talking to GitHub CLI",
            Pending::Remove => "Removing account",
        }
    }
}

/// Side effects the event loop must perform outside the alternate screen.
#[derive(Debug, Clone, PartialEq, Eq)]
pub enum Effect {
    /// Nothing to do outside the interface.
    Nothing,
    Quit,
    /// Hand the terminal to `gh auth login` for the given host.
    InteractiveLogin(String),
}

// ---------------------------------------------------------------------------
// The application state
// ---------------------------------------------------------------------------

/// Position of the first account named exactly `name`, looking from `i` on.
pub open spec fn position_from(accounts: Seq<AccountView>, name: Seq<char>, i: int) -> Option<int>
    decreases accounts.len() - i,
{
    if i < 0 || i >= accounts.len() {
        None
    } else if accounts[i].name == name {
        Some(i)
    } else {
        position_from(accounts, name, i + 1)
    }
}

/// The selection that shows the active account: its position in the list
/// when it is there, `otherwise` when not.
pub open spec fn selection_of_active(status: Status, accounts: Seq<AccountView>, otherwise: int) -> int {
    match status.active_account {
        Some(a) => match position_from(accounts, a@.name, 0) {
            Some(i) => i,
            None => otherwise,
        },
        None => otherwise,
    }
}

/// A selection kept inside a list of `len` accounts.
pub open spec fn clamped(selected: int, len: int) -> int {
    if len == 0 {
        0
    } else if selected >= len {
        len - 1
    } else {
        selected
    }
}

/// The screen to return to: onboarding for an empty list, the list otherwise.
pub open spec fn home_screen(len: int) -> Screen {
    if len == 0 {
        Screen::Onboarding
    } else {
        Screen::Accounts
    }
}

/// The first position at or after `i` whose account is named exactly `name`.
fn position_named(accounts: &[Account], name: &str) -> (p: Option<usize>)
    ensures
        match p {
            Some(k) => position_from(accounts@.map_values(|a: Account| a@), name@, 0) == Some(k as int),
            None => position_from(accounts@.map_values(|a: Account| a@), name@, 0) is None,
        },
{
    let ghost v = accounts@.map_values(|a: Account| a@);
    let mut i: usize = 0;
    while i < accounts.len()
        invariant
            v == accounts@.map_values(|a: Account| a@),
            i <= accounts@.len(),
            position_from(v, name@, i as int) == position_from(v, name@, 0),
        decreases accounts@.len() - i,
    {
        if crate::text::str_eq(accounts[i].name.as_str(), name) {
            assert(v[i as int] == accounts@[i as int]@);
            return Some(i);
        }
        assert(v[i as int] == accounts@[i as int]@);
        i = i + 1;
    }
    None
}

/// What a key does on the account list.
pub enum ListKey {
    Quit,
    /// Move the selection to this position.
    Select(int),
    /// Select this position and queue a switch to its account.
    Switch(int),
    Add,
    Rename,
    Token,
    Login,
    Remove,
    ToggleScope,
    Refresh,
    Help,
    Ignore,
}

/// The selection one step up, stopping at the top.
pub open spec fn up(selected: int) -> int {
    if selected > 0 {
        selected - 1
    } else {
        0
    }
}

/// The selection one step down, stopping at the bottom; nothing to move in an empty list.
pub open spec fn down(selected: int, len: int) -> ListKey {
    if len > 0 {
        ListKey::Select(
            if selected < len - 1 {
                selected + 1
            } else {
                len - 1
            },
        )
    } else {
        ListKey::Ignore
    }
}

/// A key that acts on the selected account does nothing when none is selected.
pub open spec fn on_selected(selected: int, len: int, k: ListKey) -> ListKey {
    if selected < len {
        k
    } else {
        ListKey::Ignore
    }
}

pub open spec fn list_char(c: char, selected: int, len: int) -> ListKey {
    if c == 'q' {
        ListKey::Quit
    } else if c == 'k' {
        ListKey::Select(up(selected))
    } else if c == 'j' {
        down(selected, len)
    } else if '1' <= c && c <= '9' {
        let index = c as int - '1' as int;
        if index < len {
            ListKey::Switch(index)
        } else {
            ListKey::Ignore
        }
    } else if c == 'a' {
        ListKey::Add
    } else if c == 'r' {
        on_selected(selected, len, ListKey::Rename)
    } else if c == 't' {
        on_selected(selected, len, ListKey::Token)
    } else if c == 'A' {
        on_selected(selected, len, ListKey::Login)
    } else if c == 'd' {
        on_selected(selected, len, ListKey::Remove)
    } else if c == 'L' {
        ListKey::ToggleScope
    } else if c == 'g' {
        ListKey::Refresh
    } else if c == '?' {
        ListKey::Help
    } else {
        ListKey::Ignore
    }
}

/// The key map of the account list, for a list of `len` accounts with
/// `selected` selected.
pub open spec fn list_key(code: KeyCode, selected: int, len: int) -> ListKey {
    match code {
        KeyCode::Esc => ListKey::Quit,
        KeyCode::Up => ListKey::Select(up(selected)),
        KeyCode::Down => down(selected, len),
        KeyCode::Home => ListKey::Select(0),
        KeyCode::End => ListKey::Select(
            if len > 0 {
                len - 1
            } else {
                0
            },
        ),
        KeyCode::Enter => on_selected(selected, len, ListKey::Switch(selected)),
        KeyCode::Delete => on_selected(selected, len, ListKey::Remove),
        KeyCode::Backspace => on_selected(selected, len, ListKey::Remove),
        KeyCode::F(n) => if n == 5 {
            ListKey::Refresh
        } else {
            ListKey::Ignore
        },
        KeyCode::Char(c) => list_char(c, selected, len),
        _ => ListKey::Ignore,
    }
}

pub open spec fn flipped(scope: Scope) -> Scope {
    match scope {
        Scope::Global => Scope::Local,
        Scope::Local => Scope::Global,
    }
}

/// The question asked before `a` is removed.
pub open spec fn is_remove_confirm(c: Confirm, a: AccountView) -> bool {
    &&& c.title@ == "Remove account"@
    &&& c.message@ == "Remove `"@ + a.name + "` ("@ + a.username
        + ")? This deletes the saved profile and its cached token."@
    &&& c.account@ == a.name
    &&& !c.logout
}

pub struct App<'s, R: Runner, S: SecretStore> {
    /// The service every action goes through.
    pub service: &'s mut Service<R, S>,
    pub screen: Screen,
    pub status: Status,
    pub selected: usize,
    pub scope: Scope,
    pub toast: Option<Toast>,
    pub pending: Option<Pending>,
    pub busy: Option<String>,
}

impl<'s, R: Runner, S: SecretStore> App<'s, R, S> {
    /// The service as it stands.
    pub open spec fn svc(&self) -> Service<R, S> {
        *self.service
    }

    /// The saved accounts.
    pub open spec fn list(&self) -> Seq<AccountView> {
        self.svc().config().accounts
    }

    /// A form on screen has a focused field.
    pub open spec fn form_ok(&self) -> bool {
        self.screen matches Screen::Form(f) ==> f.cursor < f.fields@.len()
    }

    pub fn new(service: &'s mut Service<R, S>) -> (app: Self)
        ensures
            app.svc().store_state() == old(service).store_state(),
            app.svc().ops() == old(service).ops(),
            crate::service::status_done(*old(service), app.svc(), app.status),
            app.screen == home_screen(old(service).config().accounts.len() as int),
            app.selected == selection_of_active(app.status, app.list(), 0),
            app.scope == Scope::Global,
            app.toast is None,
            app.pending is None,
            app.busy is None,
    {
        let status = service.status();
        let screen = if service.store().is_empty() {
            Screen::Onboarding
        } else {
            Screen::Accounts
        };
        let mut app = App {
            service,
            screen,
            status,
            selected: 0,
            scope: Scope::Global,
            toast: None,
            pending: None,
            busy: None,
        };
        app.select_active();
        app
    }

    /// Starts directly on the add form, used by `gitswitch add`.
    pub fn new_with_add_form(service: &'s mut Service<R, S>) -> (app: Self)
        ensures
            app.svc().store_state() == old(service).store_state(),
            app.svc().ops() == old(service).ops(),
            crate::service::status_done(*old(service), app.svc(), app.status),
            app.screen matches Screen::Form(f) && is_add_form(f),
            app.selected == selection_of_active(app.status, app.list(), 0),
            app.scope == Scope::Global,
            app.toast is None,
            app.pending is None,
            app.busy is None,
    {
        let mut app = Self::new(service);
        app.screen = Screen::Form(Form::add());
        app
    }

    pub fn accounts(&self) -> (a: &[Account])
        ensures
            a@.map_values(|x: Account| x@) == self.list(),
    {
        self.service.store().accounts()
    }

    pub fn selected_account(&self) -> (a: Option<&Account>)
        ensures
            if self.selected < self.list().len() {
                a matches Some(x) && x@ == self.list()[self.selected as int]
            } else {
                a is None
            },
    {
        let accounts = self.accounts();
        if self.selected < accounts.len() {
            assert(accounts@.map_values(|x: Account| x@)[self.selected as int] == accounts@[self.selected as int]@);
            Some(&accounts[self.selected])
        } else {
            None
        }
    }

    pub fn active_name(&self) -> (n: Option<&str>)
        ensures
            match self.status.active_account {
                Some(a) => n matches Some(x) && x@ == a.name@,
                None => n is None,
            },
    {
        match &self.status.active_account {
            Some(a) => Some(a.name.as_str()),
            None => None,
        }
    }

    /// Where the account list is saved.
    pub fn config_path(&self) -> (p: String)
        ensures
            p@ == self.svc().store_state().path_view(),
    {
        self.service.store().path().to_string()
    }

    /// Whether the credential store can keep tokens on this machine. The
    /// answer is the store's own.
    pub fn keychain_available(&self) -> (b: bool)
        ensures
            self.svc().secrets_state().fixed_availability() matches Some(a) ==> b == a,
    {
        self.service.secrets().available()
    }

    fn select_active(&mut self)
        ensures
            final(self).selected == selection_of_active(old(self).status, old(self).list(), old(self).selected as int),
            final(self).svc() == old(self).svc(),
            final(self).screen == old(self).screen,
            final(self).status == old(self).status,
            final(self).scope == old(self).scope,
            final(self).toast == old(self).toast,
            final(self).pending == old(self).pending,
            final(self).busy == old(self).busy,
    {
        let accounts = self.service.store().accounts();
        proof {
            assert(accounts@.map_values(|a: Account| a@) =~= self.list());
        }
        let found = match &self.status.active_account {
            Some(active) => position_named(accounts, active.name.as_str()),
            None => None,
        };
        if let Some(index) = found {
            self.selected = index;
        }
    }

    fn clamp_selection(&mut self)
        ensures
            final(self).selected == clamped(old(self).selected as int, old(self).list().len() as int),
            final(self).svc() == old(self).svc(),
            final(self).screen == old(self).screen,
            final(self).status == old(self).status,
            final(self).scope == old(self).scope,
            final(self).toast == old(self).toast,
            final(self).pending == old(self).pending,
            final(self).busy == old(self).busy,
    {
        let len = self.service.store().accounts().len();
        if len == 0 {
            self.selected = 0;
        } else if self.selected >= len {
            self.selected = len - 1;
        }
    }

    fn default_screen(&self) -> (s: Screen)
        ensures
            s == home_screen(self.list().len() as int),
    {
        if self.service.store().is_empty() {
            Screen::Onboarding
        } else {
            Screen::Accounts
        }
    }

    /// Re-reads the state of git and `gh`, and keeps the selection and the
    /// screen in step with the list.
    pub fn refresh(&mut self)
        ensures
            final(self).svc().store_state() == old(self).svc().store_state(),
            final(self).svc().ops() == old(self).svc().ops(),
            crate::service::status_done(old(self).svc(), final(self).svc(), final(self).status),
            final(self).selected == clamped(old(self).selected as int, old(self).list().len() as int),
            final(self).screen == if old(self).list().len() == 0 && old(self).screen is Accounts {
                Screen::Onboarding
            } else {
                old(self).screen
            },
            final(self).scope == old(self).scope,
            final(self).toast == old(self).toast,
            final(self).pending == old(self).pending,
            final(self).busy == old(self).busy,
    {
        self.status = self.service.status();
        self.clamp_selection();
        if self.service.store().is_empty() && matches!(self.screen, Screen::Accounts) {
            self.screen = Screen::Onboarding;
        }
    }
}

/// Nothing a key press changes: the service, the status snapshot and the
/// busy marker.
pub open spec fn steady<'s, R: Runner, S: SecretStore>(b: App<'s, R, S>, a: App<'s, R, S>) -> bool {
    a.svc() == b.svc() && a.status == b.status && a.busy == b.busy
}

/// Past the screen, only the notice changed: it is gone.
pub open spec fn only_screen<'s, R: Runner, S: SecretStore>(b: App<'s, R, S>, a: App<'s, R, S>) -> bool {
    a.selected == b.selected && a.scope == b.scope && a.toast is None && a.pending == b.pending
}

/// Nothing shown changed but that the notice is gone.
pub open spec fn unchanged<'s, R: Runner, S: SecretStore>(b: App<'s, R, S>, a: App<'s, R, S>) -> bool {
    only_screen(b, a) && a.screen == b.screen
}

/// What a key did on the account list.
pub open spec fn list_key_done<'s, R: Runner, S: SecretStore>(
    b: App<'s, R, S>,
    a: App<'s, R, S>,
    key: KeyEvent,
    e: Effect,
) -> bool {
    let len = b.list().len() as int;
    let sel = b.selected as int;
    &&& steady(b, a)
    &&& match list_key(key.code, sel, len) {
        ListKey::Quit => e == Effect::Quit && unchanged(b, a),
        ListKey::Select(k) => e == Effect::Nothing && a.selected == k && a.screen == b.screen
            && a.scope == b.scope && a.toast is None && a.pending == b.pending,
        ListKey::Switch(k) => e == Effect::Nothing && a.selected == k && a.screen == b.screen
            && a.scope == b.scope && a.toast is None && (a.pending matches Some(Pending::Switch(n))
            && n@ == b.list()[k].name),
        ListKey::Add => e == Effect::Nothing && only_screen(b, a) && (a.screen matches Screen::Form(f)
            && is_add_form(f)),
        ListKey::Rename => e == Effect::Nothing && only_screen(b, a) && (a.screen matches Screen::Form(
            f,
        ) && is_rename_form(f, b.list()[sel].name)),
        ListKey::Token => e == Effect::Nothing && only_screen(b, a) && (a.screen matches Screen::Form(
            f,
        ) && is_token_form(f, b.list()[sel].name)),
        ListKey::Login => unchanged(b, a) && (e matches Effect::InteractiveLogin(h) && h@ == b.list()[sel].host),
        ListKey::Remove => e == Effect::Nothing && only_screen(b, a) && (a.screen matches Screen::Confirm(
            c,
        ) && is_remove_confirm(c, b.list()[sel])),
        ListKey::ToggleScope => e == Effect::Nothing && a.screen == b.screen && a.selected == b.selected
            && a.pending == b.pending && a.scope == flipped(b.scope) && (a.toast matches Some(t)
            && t.level == Level::Info && t.hint is None && t.text@ == "Git identity will be written to the "@
            + label_of(flipped(b.scope)) + " config"@),
        ListKey::Refresh => e == Effect::Nothing && a.screen == b.screen && a.selected == b.selected
            && a.scope == b.scope && a.toast is None && a.pending == Some(Pending::Refresh),
        ListKey::Help => e == Effect::Nothing && only_screen(b, a) && a.screen == Screen::Help,
        ListKey::Ignore => e == Effect::Nothing && unchanged(b, a),
    }
}

impl<'s, R: Runner, S: SecretStore> App<'s, R, S> {
    fn selected_name(&self) -> (n: String)
        requires
            self.selected < self.list().len(),
        ensures
            n@ == self.list()[self.selected as int].name,
    {
        let accounts = self.service.store().accounts();
        proof {
            assert(accounts@.map_values(|x: Account| x@)[self.selected as int] == accounts@[self.selected as int]@);
        }
        accounts[self.selected].name.as_str().to_string()
    }

    fn on_list_char(&mut self, c: char, len: usize) -> (e: Effect)
        requires
            len == old(self).list().len(),
            old(self).toast is None,
        ensures
            ({
                let k = KeyEvent { code: KeyCode::Char(c), modifiers: KeyModifiers { control: false }, kind: KeyEventKind::Press };
                list_key_done(*old(self), *final(self), k, e)
            }),
    {
        let sel = self.selected;
        if c == 'q' {
            Effect::Quit
        } else if c == 'k' {
            self.selected = if sel > 0 { sel - 1 } else { 0 };
            Effect::Nothing
        } else if c == 'j' {
            if len > 0 {
                self.selected = if sel < len - 1 { sel + 1 } else { len - 1 };
            }
            Effect::Nothing
        } else if '1' <= c && c <= '9' {
            let index = (c as u32 - '1' as u32) as usize;
            if index < len {
                self.selected = index;
                let name = self.selected_name();
                self.pending = Some(Pending::Switch(name));
            }
            Effect::Nothing
        } else if c == 'a' {
            self.screen = Screen::Form(Form::add());
            Effect::Nothing
        } else if c == 'r' {
            if sel < len {
                let name = self.selected_name();
                self.screen = Screen::Form(Form::rename(name.as_str()));
            }
            Effect::Nothing
        } else if c == 't' {
            if sel < len {
                let name = self.selected_name();
                self.screen = Screen::Form(Form::token(name.as_str()));
            }
            Effect::Nothing
        } else if c == 'A' {
            if sel < len {
                let accounts = self.service.store().accounts();
                proof {
                    assert(accounts@.map_values(|x: Account| x@)[sel as int] == accounts@[sel as int]@);
                }
                return Effect::InteractiveLogin(accounts[sel].host.as_str().to_string());
            }
            Effect::Nothing
        } else if c == 'd' {
            self.open_remove(len);
            Effect::Nothing
        } else if c == 'L' {
            self.toggle_scope();
            Effect::Nothing
        } else if c == 'g' {
            self.pending = Some(Pending::Refresh);
            Effect::Nothing
        } else if c == '?' {
            self.screen = Screen::Help;
            Effect::Nothing
        } else {
            Effect::Nothing
        }
    }

    fn open_remove(&mut self, len: usize)
        requires
            len == old(self).list().len(),
            old(self).toast is None,
        ensures
            steady(*old(self), *final(self)),
            only_screen(*old(self), *final(self)),
            if old(self).selected < len {
                final(self).screen matches Screen::Confirm(c) && is_remove_confirm(c, old(self).list()[old(self).selected as int])
            } else {
                final(self).screen == old(self).screen
            },
    {
        if self.selected < len {
            let accounts = self.service.store().accounts();
            let sel = self.selected;
            proof {
                assert(accounts@.map_values(|x: Account| x@)[sel as int] == accounts@[sel as int]@);
            }
            let account = &accounts[sel];
            let mut message = "Remove `".to_string();
            message.append(account.name.as_str());
            message.append("` (");
            message.append(account.username.as_str());
            message.append(")? This deletes the saved profile and its cached token.");
            let confirm = Confirm {
                title: "Remove account".to_string(),
                message,
                account: account.name.as_str().to_string(),
                logout: false,
            };
            self.screen = Screen::Confirm(confirm);
        }
    }

    fn toggle_scope(&mut self)
        ensures
            steady(*old(self), *final(self)),
            final(self).screen == old(self).screen,
            final(self).selected == old(self).selected,
            final(self).pending == old(self).pending,
            final(self).scope == flipped(old(self).scope),
            final(self).toast matches Some(t) && t.level == Level::Info && t.hint is None && t.text@
                == "Git identity will be written to the "@ + label_of(flipped(old(self).scope)) + " config"@,
    {
        self.scope = match self.scope {
            Scope::Global => Scope::Local,
            Scope::Local => Scope::Global,
        };
        let mut text = "Git identity will be written to the ".to_string();
        text.append(self.scope.label());
        text.append(" config");
        self.toast = Some(Toast::new(Level::Info, text));
    }

    fn on_accounts_key(&mut self, key: KeyEvent) -> (e: Effect)
        requires
            old(self).toast is None,
        ensures
            list_key_done(*old(self), *final(self), key, e),
    {
        let len = self.service.store().accounts().len();
        let sel = self.selected;
        match key.code {
            KeyCode::Esc => Effect::Quit,
            KeyCode::Up => {
                self.selected = if sel > 0 { sel - 1 } else { 0 };
                Effect::Nothing
            },
            KeyCode::Down => {
                if len > 0 {
                    self.selected = if sel < len - 1 { sel + 1 } else { len - 1 };
                }
                Effect::Nothing
            },
            KeyCode::Home => {
                self.selected = 0;
                Effect::Nothing
            },
            KeyCode::End => {
                self.selected = if len > 0 { len - 1 } else { 0 };
                Effect::Nothing
            },
            KeyCode::Enter => {
                if sel < len {
                    let name = self.selected_name();
                    self.pending = Some(Pending::Switch(name));
                }
                Effect::Nothing
            },
            KeyCode::Delete | KeyCode::Backspace => {
                self.open_remove(len);
                Effect::Nothing
            },
            KeyCode::F(n) => {
                if n == 5 {
                    self.pending = Some(Pending::Refresh);
                }
                Effect::Nothing
            },
            KeyCode::Char(c) => {
                let e = self.on_list_char(c, len);
                e
            },
            _ => Effect::Nothing,
        }
    }
}

/// What a key does in a form with `len` fields, the focus on `cursor`.
pub enum FormKey {
    Close,
    Next,
    Previous,
    Erase,
    Clear,
    Type(char),
    Advance,
    Submit,
    Ignore,
}

pub open spec fn form_key(key: KeyEvent, cursor: int, len: int) -> FormKey {
    match key.code {
        KeyCode::Esc => FormKey::Close,
        KeyCode::Tab => FormKey::Next,
        KeyCode::Down => FormKey::Next,
        KeyCode::BackTab => FormKey::Previous,
        KeyCode::Up => FormKey::Previous,
        KeyCode::Backspace => FormKey::Erase,
        // Ctrl-U clears the focused field, the usual terminal shortcut.
        KeyCode::Char(c) => if key.modifiers.control {
            if c == 'u' {
                FormKey::Clear
            } else {
                FormKey::Ignore
            }
        } else {
            FormKey::Type(c)
        },
        KeyCode::Enter => if cursor + 1 < len {
            FormKey::Advance
        } else {
            FormKey::Submit
        },
        _ => FormKey::Ignore,
    }
}

/// `g` is `f` with the focus on `cursor`.
pub open spec fn refocused(f: Form, g: Form, cursor: int) -> bool {
    g.kind == f.kind && g.title == f.title && g.target == f.target && g.fields == f.fields && g.cursor
        == cursor
}

/// `g` is `f` with `value` in the focused field.
pub open spec fn edited(f: Form, g: Form, value: Seq<char>) -> bool {
    let c = f.cursor as int;
    &&& g.kind == f.kind
    &&& g.title == f.title
    &&& g.target == f.target
    &&& g.cursor == f.cursor
    &&& g.fields@.len() == f.fields@.len()
    &&& forall|i: int| 0 <= i < f.fields@.len() && i != c ==> g.fields@[i] == f.fields@[i]
    &&& g.fields@[c].label == f.fields@[c].label
    &&& g.fields@[c].hint == f.fields@[c].hint
    &&& g.fields@[c].masked == f.fields@[c].masked
    &&& g.fields@[c].value@ == value
}

/// `s` without its last character, if it has one.
pub open spec fn without_last(s: Seq<char>) -> Seq<char> {
    if s.len() == 0 {
        s
    } else {
        s.drop_last()
    }
}

/// What a key did in the form `b` shows.
pub open spec fn form_key_done<'s, R: Runner, S: SecretStore>(
    b: App<'s, R, S>,
    a: App<'s, R, S>,
    key: KeyEvent,
    e: Effect,
) -> bool {
    let f = b.screen->Form_0;
    let len = f.fields@.len() as int;
    let c = f.cursor as int;
    let value = f.fields@[c].value@;
    &&& steady(b, a)
    &&& e == Effect::Nothing
    &&& a.selected == b.selected
    &&& a.scope == b.scope
    &&& a.toast is None
    &&& match form_key(key, c, len) {
        FormKey::Close => a.screen == home_screen(b.list().len() as int) && a.pending == b.pending,
        FormKey::Next => a.pending == b.pending && (a.screen matches Screen::Form(g) && refocused(
            f,
            g,
            if c + 1 == len {
                0
            } else {
                c + 1
            },
        )),
        FormKey::Previous => a.pending == b.pending && (a.screen matches Screen::Form(g) && refocused(
            f,
            g,
            if c == 0 {
                len - 1
            } else {
                c - 1
            },
        )),
        FormKey::Erase => a.pending == b.pending && (a.screen matches Screen::Form(g) && edited(
            f,
            g,
            without_last(value),
        )),
        FormKey::Clear => a.pending == b.pending && (a.screen matches Screen::Form(g) && edited(
            f,
            g,
            Seq::empty(),
        )),
        FormKey::Type(ch) => a.pending == b.pending && (a.screen matches Screen::Form(g) && edited(
            f,
            g,
            value.push(ch),
        )),
        FormKey::Advance => a.pending == b.pending && (a.screen matches Screen::Form(g) && refocused(
            f,
            g,
            c + 1,
        )),
        FormKey::Submit => a.screen == b.screen && a.pending == Some(Pending::Submit),
        FormKey::Ignore => a.screen == b.screen && a.pending == b.pending,
    }
}

/// What a key does on the removal question.
pub enum ConfirmKey {
    Remove,
    ToggleLogout,
    Cancel,
    Ignore,
}

pub open spec fn confirm_key(code: KeyCode) -> ConfirmKey {
    match code {
        KeyCode::Char(c) => if c == 'y' || c == 'Y' {
            ConfirmKey::Remove
        } else if c == 'l' || c == 'L' {
            ConfirmKey::ToggleLogout
        } else if c == 'n' || c == 'N' {
            ConfirmKey::Cancel
        } else {
            ConfirmKey::Ignore
        },
        KeyCode::Esc => ConfirmKey::Cancel,
        _ => ConfirmKey::Ignore,
    }
}

/// What a key did on the removal question `b` shows.
pub open spec fn confirm_key_done<'s, R: Runner, S: SecretStore>(
    b: App<'s, R, S>,
    a: App<'s, R, S>,
    key: KeyEvent,
    e: Effect,
) -> bool {
    let c = b.screen->Confirm_0;
    &&& steady(b, a)
    &&& e == Effect::Nothing
    &&& a.selected == b.selected
    &&& a.scope == b.scope
    &&& match confirm_key(key.code) {
        ConfirmKey::Remove => a.screen == b.screen && a.toast is None && a.pending == Some(Pending::Remove),
        ConfirmKey::ToggleLogout => a.toast is None && a.pending == b.pending && (a.screen matches Screen::Confirm(
            d,
        ) && d.title == c.title && d.message == c.message && d.account == c.account && d.logout
            == !c.logout),
        ConfirmKey::Cancel => a.screen == home_screen(b.list().len() as int) && a.pending == b.pending
            && (a.toast matches Some(t) && t.level == Level::Info && t.text@ == "Cancelled"@
            && t.hint is None),
        ConfirmKey::Ignore => unchanged(b, a),
    }
}

/// What a key does on the welcome screen.
pub enum WelcomeKey {
    Quit,
    Help,
    Add,
    Ignore,
}

pub open spec fn welcome_key(code: KeyCode) -> WelcomeKey {
    match code {
        KeyCode::Char(c) => if c == 'q' {
            WelcomeKey::Quit
        } else if c == '?' {
            WelcomeKey::Help
        } else if c == 'a' {
            WelcomeKey::Add
        } else {
            WelcomeKey::Ignore
        },
        KeyCode::Esc => WelcomeKey::Quit,
        KeyCode::Enter => WelcomeKey::Add,
        _ => WelcomeKey::Ignore,
    }
}

pub open spec fn welcome_key_done<'s, R: Runner, S: SecretStore>(
    b: App<'s, R, S>,
    a: App<'s, R, S>,
    key: KeyEvent,
    e: Effect,
) -> bool {
    &&& steady(b, a)
    &&& only_screen(b, a)
    &&& match welcome_key(key.code) {
        WelcomeKey::Quit => e == Effect::Quit && a.screen == b.screen,
        WelcomeKey::Help => e == Effect::Nothing && a.screen == Screen::Help,
        WelcomeKey::Add => e == Effect::Nothing && (a.screen matches Screen::Form(f) && is_add_form(f)),
        WelcomeKey::Ignore => e == Effect::Nothing && a.screen == b.screen,
    }
}

/// Nothing shown changed at all.
pub open spec fn same_view<'s, R: Runner, S: SecretStore>(b: App<'s, R, S>, a: App<'s, R, S>) -> bool {
    a.screen == b.screen && a.selected == b.selected && a.scope == b.scope && a.toast == b.toast
        && a.pending == b.pending
}

/// What a key did: released keys and Ctrl-C change nothing (Ctrl-C quits);
/// any other key clears the notice and acts on the screen shown.
pub open spec fn key_done<'s, R: Runner, S: SecretStore>(
    b: App<'s, R, S>,
    a: App<'s, R, S>,
    key: KeyEvent,
    e: Effect,
) -> bool {
    if key.kind == KeyEventKind::Release {
        e == Effect::Nothing && steady(b, a) && same_view(b, a)
    } else if key.modifiers.control && key.code == KeyCode::Char('c') {
        e == Effect::Quit && steady(b, a) && same_view(b, a)
    } else {
        match b.screen {
            Screen::Help => e == Effect::Nothing && steady(b, a) && only_screen(b, a) && a.screen
                == home_screen(b.list().len() as int),
            Screen::Onboarding => welcome_key_done(b, a, key, e),
            Screen::Accounts => list_key_done(b, a, key, e),
            Screen::Form(_) => form_key_done(b, a, key, e),
            Screen::Confirm(_) => confirm_key_done(b, a, key, e),
        }
    }
}

/// `form` with `value` in the focused field.
fn with_focused_value(form: Form, value: String) -> (g: Form)
    requires
        form.cursor < form.fields@.len(),
    ensures
        edited(form, g, value@),
{
    let mut form = form;
    let c = form.cursor;
    let label = form.fields[c].label;
    let masked = form.fields[c].masked;
    let hint = form.fields[c].hint;
    let ghost before = form.fields@;
    form.fields.set(c, Field { label, value, masked, hint });
    proof {
        assert forall|i: int| 0 <= i < before.len() && i != c implies form.fields@[i] == before[i] by {}
    }
    form
}

impl<'s, R: Runner, S: SecretStore> App<'s, R, S> {
    fn on_form_key(&mut self, key: KeyEvent) -> (e: Effect)
        requires
            old(self).screen matches Screen::Form(f) && f.cursor < f.fields@.len(),
            old(self).toast is None,
        ensures
            form_key_done(*old(self), *final(self), key, e),
            final(self).form_ok(),
    {
        let home = self.default_screen();
        let mut screen = Screen::Help;
        std::mem::swap(&mut screen, &mut self.screen);
        let mut form = match screen {
            Screen::Form(form) => form,
            other => {
                self.screen = other;
                return Effect::Nothing;
            },
        };
        let len = form.fields.len();
        let c = form.cursor;
        match key.code {
            KeyCode::Esc => {
                self.screen = home;
                return Effect::Nothing;
            },
            KeyCode::Tab | KeyCode::Down => {
                form.cursor = if c + 1 == len { 0 } else { c + 1 };
            },
            KeyCode::BackTab | KeyCode::Up => {
                form.cursor = if c == 0 { len - 1 } else { c - 1 };
            },
            KeyCode::Backspace => {
                let mut value = form.fields[c].value.clone();
                value.pop();
                form = with_focused_value(form, value);
            },
            KeyCode::Char(ch) => {
                if key.modifiers.control {
                    if ch == 'u' {
                        form = with_focused_value(form, String::new());
                    }
                } else {
                    let mut value = form.fields[c].value.clone();
                    value.push(ch);
                    form = with_focused_value(form, value);
                }
            },
            KeyCode::Enter => {
                if c + 1 < len {
                    form.cursor = c + 1;
                } else {
                    self.pending = Some(Pending::Submit);
                }
            },
            _ => {},
        }
        self.screen = Screen::Form(form);
        Effect::Nothing
    }

    fn on_confirm_key(&mut self, key: KeyEvent) -> (e: Effect)
        requires
            old(self).screen is Confirm,
            old(self).toast is None,
        ensures
            confirm_key_done(*old(self), *final(self), key, e),
    {
        let action = match key.code {
            KeyCode::Char(c) => if c == 'y' || c == 'Y' {
                0u8
            } else if c == 'l' || c == 'L' {
                1u8
            } else if c == 'n' || c == 'N' {
                2u8
            } else {
                3u8
            },
            KeyCode::Esc => 2u8,
            _ => 3u8,
        };
        if action == 0 {
            self.pending = Some(Pending::Remove);
        } else if action == 1 {
            let mut screen = Screen::Help;
            std::mem::swap(&mut screen, &mut self.screen);
            match screen {
                Screen::Confirm(mut confirm) => {
                    confirm.logout = !confirm.logout;
                    self.screen = Screen::Confirm(confirm);
                },
                other => {
                    self.screen = other;
                },
            }
        } else if action == 2 {
            self.screen = self.default_screen();
            self.toast = Some(Toast::new(Level::Info, "Cancelled".to_string()));
        }
        Effect::Nothing
    }

    fn on_onboarding_key(&mut self, key: KeyEvent) -> (e: Effect)
        requires
            old(self).toast is None,
        ensures
            welcome_key_done(*old(self), *final(self), key, e),
    {
        match key.code {
            KeyCode::Char(c) => {
                if c == 'q' {
                    Effect::Quit
                } else if c == '?' {
                    self.screen = Screen::Help;
                    Effect::Nothing
                } else if c == 'a' {
                    self.screen = Screen::Form(Form::add());
                    Effect::Nothing
                } else {
                    Effect::Nothing
                }
            },
            KeyCode::Esc => Effect::Quit,
            KeyCode::Enter => {
                self.screen = Screen::Form(Form::add());
                Effect::Nothing
            },
            _ => Effect::Nothing,
        }
    }

    /// Routes a key press. Slow work is queued in [`App::pending`] so the event
    /// loop can render a loading frame first: see [`key_done`].
    pub fn on_key(&mut self, key: KeyEvent) -> (e: Effect)
        requires
            old(self).form_ok(),
        ensures
            key_done(*old(self), *final(self), key, e),
            final(self).form_ok(),
    {
        if key.kind == KeyEventKind::Release {
            return Effect::Nothing;
        }
        if key.modifiers.control && key.code == KeyCode::Char('c') {
            return Effect::Quit;
        }
        self.toast = None;
        match &self.screen {
            Screen::Help => {
                self.screen = self.default_screen();
                Effect::Nothing
            },
            Screen::Onboarding => self.on_onboarding_key(key),
            Screen::Accounts => self.on_accounts_key(key),
            Screen::Form(_) => self.on_form_key(key),
            Screen::Confirm(_) => self.on_confirm_key(key),
        }
    }
}

// ---------------------------------------------------------------------------
// Queued work
// ---------------------------------------------------------------------------

/// A [`Toast`] with its text as characters.
pub struct ToastView {
    pub level: Level,
    pub text: Seq<char>,
    pub hint: Option<Seq<char>>,
}

pub open spec fn toast_view(t: Toast) -> ToastView {
    ToastView { level: t.level, text: t.text@, hint: opt_view(t.hint) }
}

/// The notice for an error: its message, and its next step as the hint.
pub open spec fn error_view(e: Error) -> ToastView {
    ToastView { level: Level::Error, text: message_of(e), hint: hint_of(e) }
}

/// How the outcome for `gh` reads on screen.
pub open spec fn outcome_detail(o: crate::service::GhOutcomeView) -> Seq<char> {
    match o {
        crate::service::GhOutcomeView::AlreadyActive => "gh was already on this account"@,
        crate::service::GhOutcomeView::Switched => "gh switched too"@,
        crate::service::GhOutcomeView::ReAuthenticated => "gh re-authenticated"@,
        crate::service::GhOutcomeView::Skipped(reason) => reason,
    }
}

/// The notice a switch leaves: what was switched, a warning level and the
/// first warning when there were any, or the error.
pub open spec fn switch_notice(r: Result<crate::service::SwitchReport>) -> ToastView {
    match r {
        Ok(rep) => {
            let warnings = crate::service::texts(rep.warnings@);
            ToastView {
                level: if warnings.len() == 0 {
                    Level::Success
                } else {
                    Level::Warning
                },
                text: "Now using "@ + rep.account@.name + " ("@ + rep.account@.username + ") - "@
                    + outcome_detail(rep.gh@),
                hint: if warnings.len() > 0 {
                    Some(warnings[0])
                } else {
                    None
                },
            }
        },
        Err(e) => error_view(e),
    }
}

pub open spec fn switch_options(scope: Scope) -> SwitchOptions {
    SwitchOptions { scope, verify: true }
}

/// The account the add form describes: the host defaults to the public one.
pub open spec fn add_request(f: Form) -> AccountView {
    AccountView {
        name: form_value(f, 0),
        username: form_value(f, 1),
        git_name: form_value(f, 2),
        git_email: form_value(f, 3),
        host: if form_value(f, 4).len() == 0 {
            DEFAULT_HOST@
        } else {
            form_value(f, 4)
        },
        has_stored_token: false,
    }
}

/// The token the add form holds, if any.
pub open spec fn add_token(f: Form) -> Option<Seq<char>> {
    if form_value(f, 5).len() == 0 {
        None
    } else {
        Some(form_value(f, 5))
    }
}

/// The notice after an account was saved.
pub open spec fn added_notice(saved: AccountView, token_given: bool) -> ToastView {
    if saved.has_stored_token {
        ToastView {
            level: Level::Success,
            text: "Saved `"@ + saved.name + "` and authenticated gh"@,
            hint: None,
        }
    } else if token_given {
        ToastView {
            level: Level::Warning,
            text: "Saved `"@ + saved.name + "` - gh is authenticated"@,
            hint: Some("No OS credential store found, so the token was not cached"@),
        }
    } else {
        ToastView {
            level: Level::Success,
            text: "Saved `"@ + saved.name + "`"@,
            hint: Some("Press A to authenticate it with gh, or t to paste a token"@),
        }
    }
}

/// The account a form acts on, or nothing.
pub open spec fn target_of(f: Form) -> Seq<char> {
    match f.target {
        Some(t) => t@,
        None => Seq::empty(),
    }
}

/// What submitting `f` asks of the service, and the notice it leaves: the
/// notice on success, the error otherwise.
pub open spec fn submit_done<R: Runner, S: SecretStore>(
    before: Service<R, S>,
    after: Service<R, S>,
    f: Form,
    outcome: core::result::Result<ToastView, Error>,
) -> bool {
    match f.kind {
        FormKind::Add => exists|r: Result<Account>|
            crate::service::add_done(before, after, add_request(f), add_token(f), r) && outcome
                == match r {
                Ok(x) => Ok(added_notice(x@, add_token(f) is Some)),
                Err(e) => Err(e),
            },
        FormKind::Rename => exists|r: Result<()>|
            crate::service::rename_done(before, after, target_of(f), form_value(f, 0), r) && outcome
                == match r {
                Ok(_) => Ok(
                    ToastView {
                        level: Level::Success,
                        text: "Renamed `"@ + target_of(f) + "` to `"@ + form_value(f, 0) + "`"@,
                        hint: None,
                    },
                ),
                Err(e) => Err(e),
            },
        FormKind::Token => exists|r: Result<()>|
            crate::service::reauth_done(before, after, target_of(f), form_value(f, 0), r) && outcome
                == match r {
                Ok(_) => Ok(
                    ToastView {
                        level: Level::Success,
                        text: "`"@ + target_of(f) + "` re-authenticated"@,
                        hint: None,
                    },
                ),
                Err(e) => Err(e),
            },
    }
}

/// The account to select after a form succeeded: the one it acted on, or
/// the one it added.
pub open spec fn select_after(f: Form) -> Seq<char> {
    match f.target {
        Some(t) => t@,
        None => form_value(f, 0),
    }
}

/// Whether `t` is what `v` describes.
pub open spec fn shows(t: Option<Toast>, v: ToastView) -> bool {
    t matches Some(x) && toast_view(x) == v
}

/// What the queued work starts from: the service and what is on screen.
pub struct Shown<R: Runner, S: SecretStore> {
    pub svc: Service<R, S>,
    pub status: Status,
    pub screen: Screen,
    pub selected: usize,
    pub scope: Scope,
}

pub open spec fn shown_of<'s, R: Runner, S: SecretStore>(b: App<'s, R, S>) -> Shown<R, S> {
    Shown { svc: b.svc(), status: b.status, screen: b.screen, selected: b.selected, scope: b.scope }
}

/// A switch to `name`, then a refresh.
pub open spec fn switch_done_ui<'s, R: Runner, S: SecretStore>(b: Shown<R, S>, a: App<'s, R, S>, name: Seq<char>) -> bool {
    &&& a.scope == b.scope
    &&& a.list() == b.svc.config().accounts
    &&& a.selected == clamped(b.selected as int, b.svc.config().accounts.len() as int)
    &&& a.screen == if b.svc.config().accounts.len() == 0 && b.screen is Accounts {
        Screen::Onboarding
    } else {
        b.screen
    }
    &&& exists|mid: Service<R, S>, r: Result<crate::service::SwitchReport>|
        crate::service::switch_done(b.svc, mid, name, switch_options(b.scope), r)
            && crate::service::status_done(mid, a.svc(), a.status) && shows(a.toast, switch_notice(r))
}

/// The form `b` shows, submitted; on success the list is shown again,
/// refreshed, with the account the form was about selected; on failure the
/// form stays open under an error notice.
pub open spec fn submit_done_ui<'s, R: Runner, S: SecretStore>(b: Shown<R, S>, a: App<'s, R, S>) -> bool {
    let f = b.screen->Form_0;
    &&& a.scope == b.scope
    &&& exists|mid: Service<R, S>, outcome: core::result::Result<ToastView, Error>|
        submit_done(b.svc, mid, f, outcome) && match outcome {
            Ok(v) => {
                let len = mid.config().accounts.len() as int;
                &&& crate::service::status_done(mid, a.svc(), a.status)
                &&& a.screen == home_screen(len)
                &&& a.selected == match position_from(mid.config().accounts, select_after(f), 0) {
                    Some(i) => i,
                    None => clamped(b.selected as int, len),
                }
                &&& shows(a.toast, v)
            },
            Err(e) => {
                &&& a.svc() == mid
                &&& a.status == b.status
                &&& a.screen == b.screen
                &&& a.selected == b.selected
                &&& shows(a.toast, error_view(e))
            },
        }
}

/// The removal `b` asks about, carried out, then a refresh.
pub open spec fn remove_done_ui<'s, R: Runner, S: SecretStore>(b: Shown<R, S>, a: App<'s, R, S>) -> bool {
    let c = b.screen->Confirm_0;
    &&& a.scope == b.scope
    &&& exists|mid: Service<R, S>, r: Result<Account>|
        crate::service::remove_done(b.svc, mid, c.account@, c.logout, r) && {
            let len = mid.config().accounts.len() as int;
            &&& crate::service::status_done(mid, a.svc(), a.status)
            &&& a.screen == home_screen(len)
            &&& a.selected == clamped(b.selected as int, len)
            &&& shows(
                a.toast,
                match r {
                    Ok(x) => ToastView {
                        level: Level::Success,
                        text: "Removed `"@ + x@.name + "`"@,
                        hint: None,
                    },
                    Err(e) => error_view(e),
                },
            )
        }
}

/// What running the queued work did: nothing when nothing was queued;
/// otherwise the queue and the busy marker are cleared and the work done.
pub open spec fn pending_done<'s, R: Runner, S: SecretStore>(b: App<'s, R, S>, a: App<'s, R, S>) -> bool {
    match b.pending {
        None => steady(b, a) && same_view(b, a),
        Some(p) => {
            &&& a.pending is None
            &&& a.busy is None
            &&& match p {
                Pending::Refresh => {
                    &&& a.scope == b.scope
                    &&& crate::service::status_done(b.svc(), a.svc(), a.status)
                    &&& a.selected == clamped(b.selected as int, b.list().len() as int)
                    &&& a.screen == if b.list().len() == 0 && b.screen is Accounts {
                        Screen::Onboarding
                    } else {
                        b.screen
                    }
                    &&& shows(a.toast, ToastView { level: Level::Info, text: "Refreshed"@, hint: None })
                },
                Pending::Switch(name) => switch_done_ui(shown_of(b), a, name@),
                Pending::Submit => if b.screen is Form {
                    submit_done_ui(shown_of(b), a)
                } else {
                    a.svc() == b.svc() && a.status == b.status && a.screen == b.screen && a.selected
                        == b.selected && a.scope == b.scope && a.toast == b.toast
                },
                Pending::Remove => if b.screen is Confirm {
                    remove_done_ui(shown_of(b), a)
                } else {
                    a.svc() == b.svc() && a.status == b.status && a.screen == b.screen && a.selected
                        == b.selected && a.scope == b.scope && a.toast == b.toast
                },
            }
        },
    }
}

fn switch_toast(report: &crate::service::SwitchReport) -> (t: Toast)
    ensures
        toast_view(t) == switch_notice(Ok(*report)),
{
    let detail = match &report.gh {
        GhOutcome::AlreadyActive => "gh was already on this account".to_string(),
        GhOutcome::Switched => "gh switched too".to_string(),
        GhOutcome::ReAuthenticated => "gh re-authenticated".to_string(),
        GhOutcome::Skipped(reason) => reason.clone(),
    };
    let level = if report.warnings.len() == 0 {
        Level::Success
    } else {
        Level::Warning
    };
    let mut text = "Now using ".to_string();
    text.append(report.account.name.as_str());
    text.append(" (");
    text.append(report.account.username.as_str());
    text.append(") - ");
    text.append(detail.as_str());
    let hint = if report.warnings.len() > 0 {
        proof {
            assert(crate::service::texts(report.warnings@)[0] == report.warnings@[0]@);
        }
        Some(report.warnings[0].clone())
    } else {
        None
    };
    Toast { level, text, hint }
}

pub open spec fn outcome_of<T>(r: core::result::Result<Toast, Error>) -> core::result::Result<ToastView, Error> {
    match r {
        Ok(t) => Ok(toast_view(t)),
        Err(e) => Err(e),
    }
}

impl<'s, R: Runner, S: SecretStore> App<'s, R, S> {
    fn submit_add(service: &mut Service<R, S>, form: &Form) -> (r: Result<Toast>)
        requires
            form.kind == FormKind::Add,
        ensures
            submit_done(*old(service), *final(service), *form, outcome_of::<Toast>(r)),
    {
        let host_value = form.value(4);
        let host = if host_value.as_str().is_empty() {
            DEFAULT_HOST.to_string()
        } else {
            host_value
        };
        let name = form.value(0);
        let username = form.value(1);
        let git_name = form.value(2);
        let git_email = form.value(3);
        let account = Account::new(name.as_str(), username.as_str(), git_name.as_str(), git_email.as_str()).with_host(
            host.as_str(),
        );
        let token_value = form.value(5);
        let given = !token_value.as_str().is_empty();
        let token = if given {
            Some(token_value.as_str())
        } else {
            None
        };
        let saved = service.add_account(account, token);
        let ghost s = saved;
        match saved {
            Ok(saved) => {
                let t = if saved.has_stored_token {
                    let mut text = "Saved `".to_string();
                    text.append(saved.name.as_str());
                    text.append("` and authenticated gh");
                    Toast::new(Level::Success, text)
                } else if given {
                    let mut text = "Saved `".to_string();
                    text.append(saved.name.as_str());
                    text.append("` - gh is authenticated");
                    Toast {
                        level: Level::Warning,
                        text,
                        hint: Some("No OS credential store found, so the token was not cached".to_string()),
                    }
                } else {
                    let mut text = "Saved `".to_string();
                    text.append(saved.name.as_str());
                    text.append("`");
                    Toast {
                        level: Level::Success,
                        text,
                        hint: Some("Press A to authenticate it with gh, or t to paste a token".to_string()),
                    }
                };
                proof {
                    assert(crate::service::add_done(*old(service), *service, add_request(*form), add_token(*form), s));
                }
                Ok(t)
            },
            Err(e) => {
                proof {
                    assert(crate::service::add_done(*old(service), *service, add_request(*form), add_token(*form), s));
                }
                Err(e)
            },
        }
    }

    fn submit_rename(service: &mut Service<R, S>, form: &Form) -> (r: Result<Toast>)
        requires
            form.kind == FormKind::Rename,
        ensures
            submit_done(*old(service), *final(service), *form, outcome_of::<Toast>(r)),
    {
        let from = match &form.target {
            Some(t) => t.clone(),
            None => String::new(),
        };
        let to = form.value(0);
        let done = service.rename_account(from.as_str(), to.as_str());
        let ghost s = done;
        proof {
            assert(crate::service::rename_done(*old(service), *service, target_of(*form), form_value(*form, 0), s));
        }
        match done {
            Ok(()) => {
                let mut text = "Renamed `".to_string();
                text.append(from.as_str());
                text.append("` to `");
                text.append(to.as_str());
                text.append("`");
                Ok(Toast::new(Level::Success, text))
            },
            Err(e) => Err(e),
        }
    }

    fn submit_token(service: &mut Service<R, S>, form: &Form) -> (r: Result<Toast>)
        requires
            form.kind == FormKind::Token,
        ensures
            submit_done(*old(service), *final(service), *form, outcome_of::<Toast>(r)),
    {
        let name = match &form.target {
            Some(t) => t.clone(),
            None => String::new(),
        };
        let token = form.value(0);
        let done = service.reauthenticate(name.as_str(), token.as_str());
        let ghost s = done;
        proof {
            assert(crate::service::reauth_done(*old(service), *service, target_of(*form), form_value(*form, 0), s));
        }
        match done {
            Ok(()) => {
                let mut text = "`".to_string();
                text.append(name.as_str());
                text.append("` re-authenticated");
                Ok(Toast::new(Level::Success, text))
            },
            Err(e) => Err(e),
        }
    }
}

impl<'s, R: Runner, S: SecretStore> App<'s, R, S> {
    fn do_switch(&mut self, name: &str)
        ensures
            switch_done_ui(shown_of(*old(self)), *final(self), name@),
            final(self).pending == old(self).pending,
            final(self).busy == old(self).busy,
    {
        let ghost b = *self;
        let options = SwitchOptions { scope: self.scope, verify: true };
        let r = self.service.switch(name, options);
        let ghost mid = *self.service;
        let ghost rr = r;
        let toast = match &r {
            Ok(report) => switch_toast(report),
            Err(err) => Toast::from_error(err),
        };
        self.toast = Some(toast);
        self.refresh();
        proof {
            assert(crate::service::switch_done(b.svc(), mid, name@, switch_options(b.scope), rr));
            assert(crate::service::status_done(mid, self.svc(), self.status));
            assert(shows(self.toast, switch_notice(rr)));
        }
    }

    fn submit_form(&mut self)
        requires
            old(self).screen is Form,
        ensures
            submit_done_ui(shown_of(*old(self)), *final(self)),
            final(self).pending == old(self).pending,
            final(self).busy == old(self).busy,
    {
        let ghost b = *self;
        let (result, select) = match &self.screen {
            Screen::Form(form) => {
                let select = match &form.target {
                    Some(t) => t.clone(),
                    None => form.value(0),
                };
                let result = match form.kind {
                    FormKind::Add => Self::submit_add(self.service, form),
                    FormKind::Rename => Self::submit_rename(self.service, form),
                    FormKind::Token => Self::submit_token(self.service, form),
                };
                (result, select)
            },
            _ => {
                return;
            },
        };
        let ghost mid = *self.service;
        let ghost outcome = outcome_of::<Toast>(result);
        match result {
            Ok(toast) => {
                self.screen = self.default_screen();
                self.refresh();
                let accounts = self.service.store().accounts();
                proof {
                    assert(accounts@.map_values(|a: Account| a@) =~= mid.config().accounts);
                }
                let found = position_named(accounts, select.as_str());
                if let Some(i) = found {
                    self.selected = i;
                }
                self.toast = Some(toast);
            },
            Err(err) => {
                self.toast = Some(Toast::from_error(&err));
            },
        }
        proof {
            let sb = shown_of(b);
            assert(submit_done(sb.svc, mid, sb.screen->Form_0, outcome));
        }
    }

    fn do_remove(&mut self)
        requires
            old(self).screen is Confirm,
        ensures
            remove_done_ui(shown_of(*old(self)), *final(self)),
            final(self).pending == old(self).pending,
            final(self).busy == old(self).busy,
    {
        let ghost b = *self;
        let (account, logout) = match &self.screen {
            Screen::Confirm(c) => (c.account.clone(), c.logout),
            _ => {
                return;
            },
        };
        let r = self.service.remove_account(account.as_str(), logout);
        let ghost mid = *self.service;
        let ghost rr = r;
        let toast = match &r {
            Ok(removed) => {
                let mut text = "Removed `".to_string();
                text.append(removed.name.as_str());
                text.append("`");
                Toast::new(Level::Success, text)
            },
            Err(err) => Toast::from_error(err),
        };
        self.toast = Some(toast);
        self.screen = self.default_screen();
        self.refresh();
        proof {
            let sb = shown_of(b);
            assert(crate::service::remove_done(sb.svc, mid, (sb.screen->Confirm_0).account@, (sb.screen->Confirm_0).logout, rr));
            assert(crate::service::status_done(mid, self.svc(), self.status));
        }
    }

    /// Executes the queued operation. Called after a loading frame is drawn:
    /// see [`pending_done`].
    pub fn run_pending(&mut self)
        ensures
            pending_done(*old(self), *final(self)),
    {
        let mut pending: Option<Pending> = None;
        std::mem::swap(&mut pending, &mut self.pending);
        let pending = match pending {
            Some(p) => p,
            None => {
                return;
            },
        };
        self.busy = None;
        match pending {
            Pending::Refresh => {
                self.refresh();
                self.toast = Some(Toast::new(Level::Info, "Refreshed".to_string()));
            },
            Pending::Switch(name) => {
                self.do_switch(name.as_str());
            },
            Pending::Submit => {
                if matches!(self.screen, Screen::Form(_)) {
                    self.submit_form();
                }
            },
            Pending::Remove => {
                if matches!(self.screen, Screen::Confirm(_)) {
                    self.do_remove();
                }
            },
        }
    }

    /// Called after an interactive `gh auth login` returns: a success
    /// refreshes the state, a failure is shown.
    pub fn after_interactive_login(&mut self, result: Result<()>)
        ensures
            final(self).pending == old(self).pending,
            final(self).busy == old(self).busy,
            final(self).scope == old(self).scope,
            match result {
                Ok(_) => {
                    &&& crate::service::status_done(old(self).svc(), final(self).svc(), final(self).status)
                    &&& final(self).selected == clamped(old(self).selected as int, old(self).list().len() as int)
                    &&& final(self).screen == if old(self).list().len() == 0 && old(self).screen is Accounts {
                        Screen::Onboarding
                    } else {
                        old(self).screen
                    }
                    &&& shows(
                        final(self).toast,
                        ToastView {
                            level: Level::Success,
                            text: "GitHub CLI authentication finished"@,
                            hint: None,
                        },
                    )
                },
                Err(e) => {
                    &&& final(self).svc() == old(self).svc()
                    &&& final(self).status == old(self).status
                    &&& final(self).screen == old(self).screen
                    &&& final(self).selected == old(self).selected
                    &&& shows(final(self).toast, error_view(e))
                },
            },
    {
        match result {
            Ok(()) => {
                self.refresh();
                self.toast = Some(Toast::new(Level::Success, "GitHub CLI authentication finished".to_string()));
            },
            Err(err) => {
                self.toast = Some(Toast::from_error(&err));
            },
        }
    }

    /// Hands the terminal to `gh auth login` for `host`.
    pub fn login_interactively(&mut self, host: &str) -> (r: Result<()>)
        ensures
            final(self).svc().store_state() == old(self).svc().store_state(),
            final(self).svc().ops() == old(self).svc().ops(),
            crate::git::one_more(old(self).svc().log(), final(self).svc().log()),
            final(self).svc().log().last().program == "gh"@,
            final(self).svc().log().last().args == crate::gh::interactive_login_args(host@),
            final(self).svc().log().last().interactive,
            crate::gh::interactive_login_ok(r, final(self).svc().log().last().reply),
    {
        self.service.login_interactive(host)
    }
}

/// Law: on the account list `k` does what Up does and `j` what Down does;
/// Up moves the selection one row up and Down one row down, each stopping
/// at the end of the list.
pub proof fn lemma_vim_keys_move_like_arrows(selected: int, len: int)
    ensures
        list_key(KeyCode::Char('k'), selected, len) == list_key(KeyCode::Up, selected, len),
        list_key(KeyCode::Char('j'), selected, len) == list_key(KeyCode::Down, selected, len),
        0 <= selected < len ==> list_key(KeyCode::Up, selected, len) == ListKey::Select(
            if selected == 0 {
                0
            } else {
                selected - 1
            },
        ),
        0 <= selected < len ==> list_key(KeyCode::Down, selected, len) == ListKey::Select(
            if selected + 1 == len {
                selected
            } else {
                selected + 1
            },
        ),
{
}

} // verus!
