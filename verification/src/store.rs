//! The saved account list, and the rules every change to it follows.
use vstd::prelude::*;

use crate::error::{Error, Result};
use crate::model::{account_error, checked, name_error, validate_name, Account, AccountView};
use crate::text::{char_eq_ignore_case, eq_ignore_ascii_case, eq_ignore_case, trim, trimmed};

verus! {

/// Schema version written to disk. Bump whenever the on-disk shape changes and
/// add the corresponding migration step.
pub const SCHEMA_VERSION: u32 = 1;

#[derive(Debug, Clone, PartialEq, Eq)]
pub struct Config {
    pub version: u32,
    /// Name of the profile gitswitch last activated.
    pub active: Option<String>,
    pub accounts: Vec<Account>,
}

pub struct ConfigView {
    pub version: u32,
    pub active: Option<Seq<char>>,
    pub accounts: Seq<AccountView>,
}

pub open spec fn opt_view(s: Option<String>) -> Option<Seq<char>> {
    match s {
        Some(t) => Some(t@),
        None => None,
    }
}

pub open spec fn accounts_view(v: Seq<Account>) -> Seq<AccountView> {
    v.map_values(|a: Account| a@)
}

impl View for Config {
    type V = ConfigView;

    open spec fn view(&self) -> ConfigView {
        ConfigView {
            version: self.version,
            active: opt_view(self.active),
            accounts: accounts_view(self.accounts@),
        }
    }
}

/// A profile as the layout before version 1 kept it: everything but its
/// name, which was the key it was stored under.
pub struct LegacyAccount {
    pub username: String,
    pub git_name: String,
    pub git_email: String,
    pub host: String,
    pub has_stored_token: bool,
}

/// The profile stored under `name` in the layout before version 1.
pub open spec fn legacy_named(name: Seq<char>, a: LegacyAccount) -> AccountView {
    AccountView {
        name,
        username: a.username@,
        git_name: a.git_name@,
        git_email: a.git_email@,
        host: a.host@,
        has_stored_token: a.has_stored_token,
    }
}

/// The profiles of a layout before version 1, keyed by name, in order.
pub open spec fn legacy_view(accounts: Seq<(String, LegacyAccount)>) -> Seq<AccountView> {
    accounts.map_values(|e: (String, LegacyAccount)| legacy_named(e.0@, e.1))
}

/// The profile a document in the layout before version 1 selects, from its
/// `current` and `active` entries, each as read when the document has it:
/// `current` whenever the document has that entry, otherwise `active`.
pub fn legacy_active(
    current: Option<Result<Option<String>>>,
    active: Option<Result<Option<String>>>,
) -> (r: Result<Option<String>>)
    ensures
        match current {
            Some(c) => r == c,
            None => match active {
                Some(a) => r == a,
                None => r == Ok::<Option<String>, Error>(None),
            },
        },
{
    match current {
        Some(c) => c,
        None => match active {
            Some(a) => a,
            None => Ok(None),
        },
    }
}

/// Rewrites the layout before version 1 into the current one: the profiles
/// keyed by name become a list, each carrying its key as its name, and the
/// selected profile, once called `current`, becomes the active one.
pub fn migrate_legacy(current: Option<String>, accounts: Vec<(String, LegacyAccount)>) -> (c: Config)
    ensures
        c@.version == SCHEMA_VERSION,
        c@.active == opt_view(current),
        c@.accounts == legacy_view(accounts@),
{
    let mut list: Vec<Account> = Vec::new();
    let mut i: usize = 0;
    while i < accounts.len()
        invariant
            i <= accounts@.len(),
            accounts_view(list@) == legacy_view(accounts@.take(i as int)),
        decreases accounts@.len() - i,
    {
        let e = &accounts[i];
        let ghost prev = list@;
        list.push(Account {
            name: e.0.as_str().to_string(),
            username: e.1.username.as_str().to_string(),
            git_name: e.1.git_name.as_str().to_string(),
            git_email: e.1.git_email.as_str().to_string(),
            host: e.1.host.as_str().to_string(),
            has_stored_token: e.1.has_stored_token,
        });
        proof {
            assert(accounts@.take(i + 1) =~= accounts@.take(i as int).push(accounts@[i as int]));
            assert(accounts_view(list@) =~= accounts_view(prev).push(list@.last()@));
        }
        i = i + 1;
    }
    proof {
        assert(accounts@.take(accounts@.len() as int) =~= accounts@);
    }
    Config { version: SCHEMA_VERSION, active: current, accounts: list }
}

impl Config {
    /// A configuration with no accounts, at the current schema version.
    pub fn empty() -> (c: Config)
        ensures
            c@.version == SCHEMA_VERSION,
            c@.active is None,
            c@.accounts.len() == 0,
    {
        let c = Config { version: SCHEMA_VERSION, active: None, accounts: Vec::new() };
        proof {
            assert(accounts_view(c.accounts@) =~= Seq::<AccountView>::empty());
        }
        c
    }
}

/// Position of the first account whose name matches `name`, ignoring ASCII case.
pub open spec fn find_name(accounts: Seq<AccountView>, name: Seq<char>) -> Option<int> {
    find_name_from(accounts, name, 0)
}

pub open spec fn find_name_from(accounts: Seq<AccountView>, name: Seq<char>, i: int) -> Option<int>
    decreases accounts.len() - i,
{
    if i < 0 || i >= accounts.len() {
        None
    } else if eq_ignore_case(accounts[i].name, name) {
        Some(i)
    } else {
        find_name_from(accounts, name, i + 1)
    }
}

/// No two accounts share a name, ignoring ASCII case.
pub open spec fn names_unique(accounts: Seq<AccountView>) -> bool {
    forall|i: int, j: int|
        0 <= i < j < accounts.len() ==> !eq_ignore_case(accounts[i].name, accounts[j].name)
}

/// The account that is active: the one the recorded name matches.
pub open spec fn active_index(c: ConfigView) -> Option<int> {
    match c.active {
        Some(n) => find_name(c.accounts, n),
        None => None,
    }
}

/// Reads and writes the account list. Persisting it is the caller's part;
/// every change here is made in memory and is complete when the call returns.
#[derive(Debug, Clone)]
pub struct Store {
    path: String,
    config: Config,
}

impl View for Store {
    type V = ConfigView;

    closed spec fn view(&self) -> ConfigView {
        self.config@
    }
}

pub proof fn lemma_find_name_from(accounts: Seq<AccountView>, name: Seq<char>, i: int)
    requires
        0 <= i,
    ensures
        find_name_from(accounts, name, i) matches Some(k) ==> i <= k < accounts.len() && eq_ignore_case(
            accounts[k].name,
            name,
        ) && forall|m: int| i <= m < k ==> !eq_ignore_case(#[trigger] accounts[m].name, name),
        find_name_from(accounts, name, i) is None ==> forall|m: int|
            i <= m < accounts.len() ==> !eq_ignore_case(#[trigger] accounts[m].name, name),
    decreases accounts.len() - i,
{
    if i < accounts.len() && !eq_ignore_case(accounts[i].name, name) {
        lemma_find_name_from(accounts, name, i + 1);
    }
}

pub proof fn lemma_find_name(accounts: Seq<AccountView>, name: Seq<char>)
    ensures
        find_name(accounts, name) matches Some(k) ==> 0 <= k < accounts.len() && eq_ignore_case(
            accounts[k].name,
            name,
        ) && forall|m: int| 0 <= m < k ==> !eq_ignore_case(#[trigger] accounts[m].name, name),
        find_name(accounts, name) is None ==> forall|m: int|
            0 <= m < accounts.len() ==> !eq_ignore_case(#[trigger] accounts[m].name, name),
{
    lemma_find_name_from(accounts, name, 0);
}

proof fn lemma_char_eq_ignore_case(a: char, b: char, c: char)
    ensures
        char_eq_ignore_case(a, a),
        char_eq_ignore_case(a, b) ==> char_eq_ignore_case(b, a),
        char_eq_ignore_case(a, b) && char_eq_ignore_case(b, c) ==> char_eq_ignore_case(a, c),
{
    if char_eq_ignore_case(a, b) && char_eq_ignore_case(b, c) {
        if a == b {
        } else if crate::text::is_ascii_upper(a) && a as u32 + 32 == b as u32 {
            if b == c {
            } else if crate::text::is_ascii_upper(b) && b as u32 + 32 == c as u32 {
                assert(false);
            } else {
                assert(c as u32 == a as u32);
            }
        } else {
            assert(crate::text::is_ascii_upper(b) && b as u32 + 32 == a as u32);
            if b == c {
            } else if crate::text::is_ascii_upper(b) && b as u32 + 32 == c as u32 {
                assert(c as u32 == a as u32);
            } else {
                assert(crate::text::is_ascii_upper(c) && c as u32 + 32 == b as u32);
                assert(false);
            }
        }
    }
}

/// Ignoring ASCII case is an equivalence.
pub proof fn lemma_eq_ignore_case(a: Seq<char>, b: Seq<char>, c: Seq<char>)
    ensures
        eq_ignore_case(a, a),
        eq_ignore_case(a, b) ==> eq_ignore_case(b, a),
        eq_ignore_case(a, b) && eq_ignore_case(b, c) ==> eq_ignore_case(a, c),
{
    assert forall|i: int| 0 <= i < a.len() implies char_eq_ignore_case(#[trigger] a[i], a[i]) by {}
    if eq_ignore_case(a, b) {
        assert forall|i: int| 0 <= i < b.len() implies char_eq_ignore_case(#[trigger] b[i], a[i]) by {
            assert(char_eq_ignore_case(a[i], b[i]));
            lemma_char_eq_ignore_case(a[i], b[i], a[i]);
        }
    }
    if eq_ignore_case(a, b) && eq_ignore_case(b, c) {
        assert forall|i: int| 0 <= i < a.len() implies char_eq_ignore_case(#[trigger] a[i], c[i]) by {
            assert(char_eq_ignore_case(a[i], b[i]));
            assert(char_eq_ignore_case(b[i], c[i]));
            lemma_char_eq_ignore_case(a[i], b[i], c[i]);
        }
    }
}

/// The account a name finds is found again by its own name.
pub proof fn lemma_find_own_name(accounts: Seq<AccountView>, name: Seq<char>)
    requires
        find_name(accounts, name) is Some,
    ensures
        find_name(accounts, accounts[find_name(accounts, name)->0].name) == find_name(accounts, name),
{
    let k = find_name(accounts, name)->0;
    let n = accounts[k].name;
    lemma_find_name(accounts, name);
    lemma_eq_ignore_case(n, n, n);
    assert forall|m: int| 0 <= m < k implies !eq_ignore_case(#[trigger] accounts[m].name, n) by {
        lemma_eq_ignore_case(accounts[m].name, n, name);
    }
    lemma_find_name(accounts, n);
}

/// The first account whose name matches, by position.
fn position_of(accounts: &Vec<Account>, name: &str) -> (p: Option<usize>)
    ensures
        match p {
            Some(k) => find_name(accounts_view(accounts@), name@) == Some(k as int) && k
                < accounts@.len(),
            None => find_name(accounts_view(accounts@), name@) is None,
        },
{
    let ghost v = accounts_view(accounts@);
    let mut i: usize = 0;
    while i < accounts.len()
        invariant
            v == accounts_view(accounts@),
            i <= accounts@.len(),
            find_name_from(v, name@, i as int) == find_name(v, name@),
        decreases accounts@.len() - i,
    {
        if eq_ignore_ascii_case(accounts[i].name.as_str(), name) {
            assert(v[i as int] == accounts@[i as int]@);
            return Some(i);
        }
        assert(v[i as int] == accounts@[i as int]@);
        i = i + 1;
    }
    None
}

/// What adding an account does to the list.
pub open spec fn add_outcome(before: Seq<AccountView>, a: AccountView) -> Option<Seq<AccountView>> {
    if account_error(a) is None && find_name(before, a.name) is None {
        Some(before.push(a))
    } else {
        None
    }
}

impl Store {
    /// A store for `path` holding `config`.
    pub fn with_config(path: &str, config: Config) -> (s: Store)
        ensures
            s@ == config@,
            s.path_view() == path@,
    {
        Store { path: path.to_string(), config }
    }

    /// A store for `path` with no accounts, as for a missing file.
    pub fn empty(path: &str) -> (s: Store)
        ensures
            s@.version == SCHEMA_VERSION,
            s@.active is None,
            s@.accounts.len() == 0,
            s.path_view() == path@,
    {
        Store::with_config(path, Config::empty())
    }

    pub closed spec fn path_view(&self) -> Seq<char> {
        self.path@
    }

    pub fn path(&self) -> (p: &str)
        ensures
            p@ == self.path_view(),
    {
        self.path.as_str()
    }

    /// The configuration as it stands, for writing to disk.
    pub fn config(&self) -> (c: &Config)
        ensures
            c@ == self@,
    {
        &self.config
    }

    pub fn accounts(&self) -> (a: &[Account])
        ensures
            a@.map_values(|x: Account| x@) == self@.accounts,
    {
        self.config.accounts.as_slice()
    }

    pub fn is_empty(&self) -> (b: bool)
        ensures
            b == (self@.accounts.len() == 0),
    {
        self.config.accounts.len() == 0
    }

    /// The account whose name matches `name`, ignoring ASCII case.
    pub fn get(&self, name: &str) -> (a: Option<&Account>)
        ensures
            match find_name(self@.accounts, name@) {
                Some(k) => a matches Some(x) && x@ == self@.accounts[k],
                None => a is None,
            },
    {
        match position_of(&self.config.accounts, name) {
            Some(k) => Some(&self.config.accounts[k]),
            None => None,
        }
    }

    pub fn require(&self, name: &str) -> (r: Result<&Account>)
        ensures
            match find_name(self@.accounts, name@) {
                Some(k) => r matches Ok(x) && x@ == self@.accounts[k],
                None => r matches Err(Error::UnknownAccount(n)) && n@ == name@,
            },
    {
        match self.get(name) {
            Some(a) => Ok(a),
            None => Err(Error::UnknownAccount(name.to_string())),
        }
    }

    /// The account last activated, when it still exists.
    pub fn active(&self) -> (a: Option<&Account>)
        ensures
            match active_index(self@) {
                Some(k) => a matches Some(x) && x@ == self@.accounts[k],
                None => a is None,
            },
    {
        match &self.config.active {
            Some(name) => self.get(name.as_str()),
            None => None,
        }
    }

    /// Adds a valid account whose name is not taken yet.
    pub fn add(&mut self, account: Account) -> (r: Result<()>)
        ensures
            final(self)@ == apply_op(old(self)@, StoreOp::Add(account@)),
            final(self).path_view() == old(self).path_view(),
            final(self)@.version == old(self)@.version,
            final(self)@.active == old(self)@.active,
            match add_outcome(old(self)@.accounts, account@) {
                Some(list) => r is Ok && final(self)@.accounts == list,
                None => final(self)@ == old(self)@ && if account_error(account@) is Some {
                    r matches Err(Error::InvalidInput(m)) && account_error(account@) == Some(m@)
                } else {
                    r matches Err(Error::DuplicateAccount(n)) && n@ == account@.name
                },
            },
    {
        let v = account.validate();
        if let Err(e) = v {
            return Err(e);
        }
        if position_of(&self.config.accounts, account.name.as_str()).is_some() {
            return Err(Error::DuplicateAccount(account.name));
        }
        let ghost before = self@.accounts;
        let ghost a = account@;
        self.config.accounts.push(account);
        proof {
            assert(self@.accounts =~= before.push(a));
        }
        Ok(())
    }

    /// Replaces the stored account with the same name.
    pub fn update(&mut self, account: Account) -> (r: Result<()>)
        ensures
            final(self)@ == apply_op(old(self)@, StoreOp::Update(account@)),
            final(self).path_view() == old(self).path_view(),
            final(self)@.version == old(self)@.version,
            final(self)@.active == old(self)@.active,
            if account_error(account@) is Some {
                final(self)@ == old(self)@ && (r matches Err(Error::InvalidInput(m))
                    && account_error(account@) == Some(m@))
            } else {
                match find_name(old(self)@.accounts, account@.name) {
                    Some(k) => r is Ok && final(self)@.accounts == old(self)@.accounts.update(
                        k,
                        account@,
                    ),
                    None => final(self)@ == old(self)@ && (r matches Err(Error::UnknownAccount(n))
                        && n@ == account@.name),
                }
            },
    {
        let v = account.validate();
        if let Err(e) = v {
            return Err(e);
        }
        match position_of(&self.config.accounts, account.name.as_str()) {
            None => Err(Error::UnknownAccount(account.name)),
            Some(k) => {
                let ghost before = self@.accounts;
                let ghost a = account@;
                self.config.accounts.set(k, account);
                proof {
                    assert(self@.accounts =~= before.update(k as int, a));
                }
                Ok(())
            },
        }
    }

    pub fn remove(&mut self, name: &str) -> (r: Result<Account>)
        ensures
            final(self)@ == apply_op(old(self)@, StoreOp::Remove(name@)),
            final(self).path_view() == old(self).path_view(),
            final(self)@.version == old(self)@.version,
            match find_name(old(self)@.accounts, name@) {
                Some(k) => {
                    &&& r matches Ok(a) && a@ == old(self)@.accounts[k]
                    &&& final(self)@.accounts == old(self)@.accounts.remove(k)
                    &&& final(self)@.active == match old(self)@.active {
                        Some(n) => if eq_ignore_case(n, name@) {
                            None
                        } else {
                            Some(n)
                        },
                        None => None,
                    }
                },
                None => final(self)@ == old(self)@ && (r matches Err(Error::UnknownAccount(n)) && n@
                    == name@),
            },
    {
        let index = match position_of(&self.config.accounts, name) {
            Some(k) => k,
            None => {
                return Err(Error::UnknownAccount(name.to_string()));
            },
        };
        let ghost before = self@.accounts;
        let removed = self.config.accounts.remove(index);
        proof {
            assert(self@.accounts =~= before.remove(index as int));
        }
        let clear = match &self.config.active {
            Some(active) => eq_ignore_ascii_case(active.as_str(), name),
            None => false,
        };
        if clear {
            self.config.active = None;
        }
        Ok(removed)
    }

    pub fn rename(&mut self, from: &str, to: &str) -> (r: Result<()>)
        ensures
            final(self)@ == apply_op(old(self)@, StoreOp::Rename(from@, to@)),
            final(self).path_view() == old(self).path_view(),
            final(self)@.version == old(self)@.version,
            r is Err ==> final(self)@ == old(self)@,
            match rename_outcome(old(self)@, from@, to@) {
                RenameOutcome::Invalid(m) => r matches Err(Error::InvalidInput(x)) && x@ == m,
                RenameOutcome::Taken => r matches Err(Error::DuplicateAccount(n)) && n@ == to@,
                RenameOutcome::Unknown => r matches Err(Error::UnknownAccount(n)) && n@ == from@,
                RenameOutcome::Renamed(c) => r is Ok && final(self)@ == c,
            },
    {
        let v = validate_name(to);
        if let Err(e) = v {
            return Err(e);
        }
        if position_of(&self.config.accounts, to).is_some() && !eq_ignore_ascii_case(from, to) {
            return Err(Error::DuplicateAccount(to.to_string()));
        }
        let index = match position_of(&self.config.accounts, from) {
            Some(k) => k,
            None => {
                return Err(Error::UnknownAccount(from.to_string()));
            },
        };
        let ghost before = self@;
        let mut account = self.config.accounts[index].duplicate();
        account.name = to.to_string();
        let ghost renamed = account@;
        self.config.accounts.set(index, account);
        proof {
            assert(self@.accounts =~= before.accounts.update(index as int, renamed));
        }
        let moved = match &self.config.active {
            Some(active) => eq_ignore_ascii_case(active.as_str(), from),
            None => false,
        };
        if moved {
            self.config.active = Some(to.to_string());
        }
        Ok(())
    }

    pub fn set_active(&mut self, name: &str) -> (r: Result<()>)
        ensures
            final(self)@ == apply_op(old(self)@, StoreOp::SetActive(name@)),
            final(self).path_view() == old(self).path_view(),
            final(self)@.version == old(self)@.version,
            final(self)@.accounts == old(self)@.accounts,
            match find_name(old(self)@.accounts, name@) {
                Some(k) => r is Ok && final(self)@.active == Some(old(self)@.accounts[k].name),
                None => final(self)@ == old(self)@ && (r matches Err(Error::UnknownAccount(n)) && n@
                    == name@),
            },
    {
        let index = match position_of(&self.config.accounts, name) {
            Some(k) => k,
            None => {
                return Err(Error::UnknownAccount(name.to_string()));
            },
        };
        let chosen = self.config.accounts[index].name.as_str().to_string();
        self.config.active = Some(chosen);
        Ok(())
    }
}

impl Store {
    /// The configuration as it is written to disk: at the current schema version.
    pub fn saved_config(&self) -> (c: Config)
        ensures
            c@ == (ConfigView { version: SCHEMA_VERSION, ..self@ }),
    {
        let mut accounts: Vec<Account> = Vec::new();
        let mut i: usize = 0;
        while i < self.config.accounts.len()
            invariant
                i <= self.config.accounts@.len(),
                accounts_view(accounts@) == accounts_view(self.config.accounts@).take(i as int),
            decreases self.config.accounts@.len() - i,
        {
            let a = self.config.accounts[i].duplicate();
            let ghost before = accounts_view(accounts@);
            accounts.push(a);
            proof {
                assert(accounts_view(accounts@) =~= before.push(a@));
                assert(accounts_view(self.config.accounts@).take(i + 1) =~= accounts_view(
                    self.config.accounts@,
                ).take(i as int).push(self.config.accounts@[i as int]@));
            }
            i = i + 1;
        }
        proof {
            assert(accounts_view(self.config.accounts@).take(self.config.accounts@.len() as int)
                =~= accounts_view(self.config.accounts@));
        }
        let active = match &self.config.active {
            Some(a) => Some(a.as_str().to_string()),
            None => None,
        };
        Config { version: SCHEMA_VERSION, active, accounts }
    }
}

/// Whether a configuration file holds nothing but whitespace, which counts
/// as no accounts at all.
pub fn blank_document(raw: &str) -> (b: bool)
    ensures
        b == (trim(raw@).len() == 0),
{
    let t = trimmed(raw);
    t.as_str().is_empty()
}

/// The schema version a document declares, missing meaning the first,
/// unversioned one; a version newer than this build understands is refused,
/// reported as found at most as `u32::MAX`.
pub fn schema_version(path: &str, found: Option<u64>) -> (r: Result<u32>)
    ensures
        ({
            let v: int = match found {
                Some(n) => n as int,
                None => 0,
            };
            if v > SCHEMA_VERSION {
                r matches Err(Error::ConfigTooNew { path: p, found: f, supported }) && p@ == path@
                    && f == (if v > u32::MAX {
                    u32::MAX as int
                } else {
                    v
                }) && supported == SCHEMA_VERSION
            } else {
                r == Ok::<u32, Error>(v as u32)
            }
        }),
{
    let n: u64 = match found {
        Some(n) => n,
        None => 0u64,
    };
    if n > SCHEMA_VERSION as u64 {
        let shown: u32 = if n > u32::MAX as u64 {
            u32::MAX
        } else {
            n as u32
        };
        return Err(Error::ConfigTooNew { path: path.to_string(), found: shown, supported: SCHEMA_VERSION });
    }
    Ok(n as u32)
}

/// What renaming yields, in the order the checks are made.
pub enum RenameOutcome {
    Invalid(Seq<char>),
    Taken,
    Unknown,
    Renamed(ConfigView),
}

pub open spec fn rename_outcome(c: ConfigView, from: Seq<char>, to: Seq<char>) -> RenameOutcome {
    if name_error(to) is Some {
        RenameOutcome::Invalid(name_error(to)->0)
    } else if find_name(c.accounts, to) is Some && !eq_ignore_case(from, to) {
        RenameOutcome::Taken
    } else {
        match find_name(c.accounts, from) {
            None => RenameOutcome::Unknown,
            Some(k) => RenameOutcome::Renamed(
                ConfigView {
                    version: c.version,
                    active: match c.active {
                        Some(n) => if eq_ignore_case(n, from) {
                            Some(to)
                        } else {
                            Some(n)
                        },
                        None => None,
                    },
                    accounts: c.accounts.update(k, AccountView { name: to, ..c.accounts[k] }),
                },
            ),
        }
    }
}

// ---------------------------------------------------------------------------
// Laws of the account list
// ---------------------------------------------------------------------------

/// Law: an account that was added is what a lookup of its name finds.
pub proof fn lemma_add_then_get(before: Seq<AccountView>, a: AccountView)
    requires
        add_outcome(before, a) is Some,
    ensures
        find_name(add_outcome(before, a)->0, a.name) == Some(before.len() as int),
{
    let list = before.push(a);
    lemma_find_name(before, a.name);
    lemma_eq_ignore_case(a.name, a.name, a.name);
    assert forall|m: int| 0 <= m < before.len() implies !eq_ignore_case(#[trigger] list[m].name, a.name) by {
        assert(list[m] == before[m]);
    }
    lemma_find_name(list, a.name);
    if find_name(list, a.name) is None {
        assert(list[before.len() as int] == a);
    }
}

/// Law: adding keeps account names unique.
pub proof fn lemma_add_keeps_names_unique(before: Seq<AccountView>, a: AccountView)
    requires
        names_unique(before),
        add_outcome(before, a) is Some,
    ensures
        names_unique(add_outcome(before, a)->0),
{
    let list = before.push(a);
    lemma_find_name(before, a.name);
    assert forall|i: int, j: int| 0 <= i < j < list.len() implies !eq_ignore_case(
        list[i].name,
        list[j].name,
    ) by {
        if j == before.len() {
            assert(list[i] == before[i]);
            assert(!eq_ignore_case(before[i].name, a.name));
        } else {
            assert(list[i] == before[i] && list[j] == before[j]);
        }
    }
}

/// Law: removing the account that was just added gives the list back.
pub proof fn lemma_add_then_remove(before: Seq<AccountView>, a: AccountView)
    requires
        add_outcome(before, a) is Some,
    ensures
        add_outcome(before, a)->0.remove(before.len() as int) == before,
{
    assert(before.push(a).remove(before.len() as int) =~= before);
}

/// Law: with unique names, an account that was removed is not found any more.
pub proof fn lemma_remove_then_get(accounts: Seq<AccountView>, name: Seq<char>)
    requires
        names_unique(accounts),
        find_name(accounts, name) is Some,
    ensures
        find_name(accounts.remove(find_name(accounts, name)->0), name) is None,
        names_unique(accounts.remove(find_name(accounts, name)->0)),
{
    let k = find_name(accounts, name)->0;
    lemma_find_name(accounts, name);
    let rest = accounts.remove(k);
    assert forall|m: int| 0 <= m < rest.len() implies !eq_ignore_case(#[trigger] rest[m].name, name) by {
        let orig = if m < k {
            m
        } else {
            m + 1
        };
        assert(rest[m] == accounts[orig]);
        if eq_ignore_case(accounts[orig].name, name) {
            lemma_eq_ignore_case(accounts[orig].name, name, accounts[k].name);
            lemma_eq_ignore_case(name, accounts[k].name, accounts[k].name);
            lemma_eq_ignore_case(accounts[k].name, accounts[orig].name, accounts[orig].name);
            if orig < k {
                assert(!eq_ignore_case(accounts[orig].name, accounts[k].name));
            } else {
                assert(!eq_ignore_case(accounts[k].name, accounts[orig].name));
            }
        }
    }
    lemma_find_name(rest, name);
    assert forall|i: int, j: int| 0 <= i < j < rest.len() implies !eq_ignore_case(
        rest[i].name,
        rest[j].name,
    ) by {
        let oi = if i < k {
            i
        } else {
            i + 1
        };
        let oj = if j < k {
            j
        } else {
            j + 1
        };
        assert(rest[i] == accounts[oi] && rest[j] == accounts[oj]);
    }
}

/// Law: with unique names, after a rename the account is found under its new
/// name, keeps every other field, names stay unique, and an active marker on
/// it moves along.
pub proof fn lemma_rename(c: ConfigView, from: Seq<char>, to: Seq<char>)
    requires
        names_unique(c.accounts),
        rename_outcome(c, from, to) is Renamed,
    ensures
        ({
            let k = find_name(c.accounts, from)->0;
            let after = rename_outcome(c, from, to)->Renamed_0;
            &&& find_name(after.accounts, to) == Some(k)
            &&& after.accounts[k] == (AccountView { name: to, ..c.accounts[k] })
            &&& names_unique(after.accounts)
            &&& active_index(c) == Some(k) ==> active_index(after) == Some(k)
        }),
{
    let k = find_name(c.accounts, from)->0;
    let after = rename_outcome(c, from, to)->Renamed_0;
    let list = after.accounts;
    lemma_find_name(c.accounts, from);
    lemma_find_name(c.accounts, to);
    lemma_eq_ignore_case(to, to, to);
    // No other account matches the new name.
    assert forall|m: int| 0 <= m < list.len() && m != k implies !eq_ignore_case(
        #[trigger] list[m].name,
        to,
    ) by {
        assert(list[m] == c.accounts[m]);
        if eq_ignore_case(c.accounts[m].name, to) {
            // `to` is taken only by the renamed account itself.
            assert(find_name(c.accounts, to) is Some);
            assert(eq_ignore_case(from, to));
            lemma_eq_ignore_case(c.accounts[m].name, to, from);
            lemma_eq_ignore_case(to, from, from);
            lemma_eq_ignore_case(c.accounts[k].name, from, c.accounts[m].name);
            lemma_eq_ignore_case(from, c.accounts[m].name, c.accounts[m].name);
            lemma_eq_ignore_case(c.accounts[k].name, c.accounts[m].name, c.accounts[m].name);
            lemma_eq_ignore_case(c.accounts[m].name, c.accounts[k].name, c.accounts[k].name);
            if m < k {
                assert(!eq_ignore_case(c.accounts[m].name, c.accounts[k].name));
            } else {
                assert(!eq_ignore_case(c.accounts[k].name, c.accounts[m].name));
            }
        }
    }
    assert(list[k].name == to);
    lemma_find_name(list, to);
    assert forall|i: int, j: int| 0 <= i < j < list.len() implies !eq_ignore_case(
        list[i].name,
        list[j].name,
    ) by {
        if i == k {
            lemma_eq_ignore_case(list[j].name, to, to);
        } else if j == k {
            lemma_eq_ignore_case(list[i].name, to, to);
        } else {
            assert(list[i] == c.accounts[i] && list[j] == c.accounts[j]);
        }
    }
    if active_index(c) == Some(k) {
        let n = c.active->0;
        assert(find_name(c.accounts, n) == Some(k));
        lemma_find_name(c.accounts, n);
        if !eq_ignore_case(n, from) {
            // The marker names the account under its old name, which matches `from`.
            lemma_eq_ignore_case(c.accounts[k].name, n, n);
            lemma_eq_ignore_case(n, c.accounts[k].name, from);
            assert(false);
        }
        assert(after.active == Some(to));
    }
}

/// Law: with unique names, the account made active is the one the store
/// reports as active.
pub proof fn lemma_set_active_then_active(accounts: Seq<AccountView>, name: Seq<char>, version: u32)
    requires
        names_unique(accounts),
        find_name(accounts, name) is Some,
    ensures
        active_index(
            ConfigView {
                version,
                active: Some(accounts[find_name(accounts, name)->0].name),
                accounts,
            },
        ) == find_name(accounts, name),
{
    let k = find_name(accounts, name)->0;
    lemma_find_name(accounts, name);
    let n = accounts[k].name;
    lemma_eq_ignore_case(n, n, n);
    assert forall|m: int| 0 <= m < k implies !eq_ignore_case(#[trigger] accounts[m].name, n) by {
        assert(!eq_ignore_case(accounts[m].name, n));
    }
    lemma_find_name(accounts, n);
}

/// Law: adding a profile leaves the active profile active.
pub proof fn lemma_add_keeps_active(c: ConfigView, a: AccountView)
    requires
        add_outcome(c.accounts, a) is Some,
    ensures
        active_index(c) matches Some(j) ==> active_index(
            ConfigView { accounts: add_outcome(c.accounts, a)->0, ..c },
        ) == Some(j),
{
    if active_index(c) is Some {
        let n = c.active->0;
        let list = c.accounts.push(a);
        lemma_find_name(c.accounts, n);
        lemma_find_name(list, n);
        let j = active_index(c)->0;
        assert(list[j] == c.accounts[j]);
        assert forall|m: int| 0 <= m < j implies !eq_ignore_case(#[trigger] list[m].name, n) by {
            assert(list[m] == c.accounts[m]);
        }
    }
}

/// Law: replacing a profile's details leaves the active profile active.
pub proof fn lemma_update_keeps_active(c: ConfigView, a: AccountView)
    requires
        find_name(c.accounts, a.name) is Some,
    ensures
        active_index(c) matches Some(j) ==> active_index(
            ConfigView { accounts: c.accounts.update(find_name(c.accounts, a.name)->0, a), ..c },
        ) == Some(j),
{
    if active_index(c) is Some {
        let n = c.active->0;
        let k = find_name(c.accounts, a.name)->0;
        let j = active_index(c)->0;
        let list = c.accounts.update(k, a);
        lemma_find_name(c.accounts, n);
        lemma_find_name(c.accounts, a.name);
        // The new entry's name matches `n` exactly when the old one did.
        lemma_eq_ignore_case(a.name, c.accounts[k].name, n);
        lemma_eq_ignore_case(c.accounts[k].name, a.name, n);
        lemma_eq_ignore_case(c.accounts[k].name, a.name, a.name);
        assert(eq_ignore_case(list[j].name, n));
        assert forall|m: int| 0 <= m < j implies !eq_ignore_case(#[trigger] list[m].name, n) by {
            if m == k {
                assert(!eq_ignore_case(c.accounts[k].name, n));
            } else {
                assert(list[m] == c.accounts[m]);
            }
        }
        lemma_find_name(list, n);
    }
}

/// The account list after removing the profile at `k` named `name`.
pub open spec fn removed(c: ConfigView, k: int, name: Seq<char>) -> ConfigView {
    ConfigView {
        accounts: c.accounts.remove(k),
        active: match c.active {
            Some(n) => if eq_ignore_case(n, name) {
                None
            } else {
                Some(n)
            },
            None => None,
        },
        ..c
    }
}

/// Law: with unique names, removing a profile other than the active one
/// leaves the active profile active, and removing the active one leaves
/// none active.
pub proof fn lemma_remove_keeps_other_active(c: ConfigView, name: Seq<char>)
    requires
        names_unique(c.accounts),
        find_name(c.accounts, name) is Some,
    ensures
        ({
            let k = find_name(c.accounts, name)->0;
            let after = removed(c, k, name);
            &&& active_index(c) == Some(k) ==> after.active is None
            &&& (active_index(c) is Some && active_index(c) != Some(k)) ==> (active_index(after) is Some
                && after.accounts[active_index(after)->0] == c.accounts[active_index(c)->0])
        }),
{
    let k = find_name(c.accounts, name)->0;
    let after = removed(c, k, name);
    lemma_find_name(c.accounts, name);
    if active_index(c) is Some {
        let n = c.active->0;
        let j = active_index(c)->0;
        lemma_find_name(c.accounts, n);
        if j == k {
            lemma_eq_ignore_case(n, c.accounts[k].name, name);
            lemma_eq_ignore_case(c.accounts[k].name, n, n);
        } else {
            if eq_ignore_case(n, name) {
                lemma_eq_ignore_case(c.accounts[j].name, n, name);
                lemma_eq_ignore_case(c.accounts[k].name, name, name);
                lemma_eq_ignore_case(c.accounts[j].name, name, c.accounts[k].name);
                lemma_eq_ignore_case(c.accounts[k].name, c.accounts[j].name, c.accounts[j].name);
                if j < k {
                    assert(!eq_ignore_case(c.accounts[j].name, c.accounts[k].name));
                } else {
                    assert(!eq_ignore_case(c.accounts[k].name, c.accounts[j].name));
                }
                assert(false);
            }
            let list = c.accounts.remove(k);
            let i = if j < k {
                j
            } else {
                j - 1
            };
            assert(list[i] == c.accounts[j]);
            assert forall|m: int| 0 <= m < i implies !eq_ignore_case(#[trigger] list[m].name, n) by {
                if m < k {
                    assert(list[m] == c.accounts[m]);
                } else {
                    assert(list[m] == c.accounts[m + 1]);
                }
            }
            lemma_find_name(list, n);
        }
    }
}

/// Law: with unique names, renaming a profile keeps whichever profile was
/// active active, at the same place in the list.
pub proof fn lemma_rename_keeps_active(c: ConfigView, from: Seq<char>, to: Seq<char>)
    requires
        names_unique(c.accounts),
        rename_outcome(c, from, to) is Renamed,
    ensures
        active_index(c) matches Some(j) ==> active_index(rename_outcome(c, from, to)->Renamed_0)
            == Some(j),
{
    lemma_rename(c, from, to);
    let k = find_name(c.accounts, from)->0;
    let after = rename_outcome(c, from, to)->Renamed_0;
    if active_index(c) is Some && active_index(c) != Some(k) {
        let n = c.active->0;
        let j = active_index(c)->0;
        lemma_find_name(c.accounts, n);
        lemma_find_name(c.accounts, from);
        if eq_ignore_case(n, from) {
            lemma_eq_ignore_case(c.accounts[j].name, n, from);
            lemma_eq_ignore_case(c.accounts[k].name, from, from);
            lemma_eq_ignore_case(c.accounts[j].name, from, c.accounts[k].name);
            lemma_eq_ignore_case(c.accounts[k].name, c.accounts[j].name, c.accounts[j].name);
            if j < k {
                assert(!eq_ignore_case(c.accounts[j].name, c.accounts[k].name));
            } else {
                assert(!eq_ignore_case(c.accounts[k].name, c.accounts[j].name));
            }
            assert(false);
        }
        assert(after.active == Some(n));
        let list = after.accounts;
        // `after.accounts[k]` is named `to`, which only the renamed profile matches.
        if eq_ignore_case(to, n) {
            assert(list[j] == c.accounts[j]);
            lemma_eq_ignore_case(to, n, n);
            lemma_eq_ignore_case(list[j].name, n, to);
            lemma_eq_ignore_case(list[j].name, to, to);
            assert(list[k].name == to);
            if j < k {
                assert(!eq_ignore_case(list[j].name, list[k].name));
            } else {
                assert(!eq_ignore_case(list[k].name, list[j].name));
            }
            assert(false);
        }
        assert(list[j] == c.accounts[j]);
        assert forall|m: int| 0 <= m < j implies !eq_ignore_case(#[trigger] list[m].name, n) by {
            if m != k {
                assert(list[m] == c.accounts[m]);
            }
        }
        lemma_find_name(list, n);
    }
}

/// A change a [`Store`] can be asked for, by its method.
pub enum StoreOp {
    Add(AccountView),
    Update(AccountView),
    Remove(Seq<char>),
    Rename(Seq<char>, Seq<char>),
    SetActive(Seq<char>),
}

/// The account list after `op`; a refused change leaves it as it was.
pub open spec fn apply_op(c: ConfigView, op: StoreOp) -> ConfigView {
    match op {
        StoreOp::Add(a) => match add_outcome(c.accounts, a) {
            Some(list) => ConfigView { accounts: list, ..c },
            None => c,
        },
        StoreOp::Update(a) => if account_error(a) is Some {
            c
        } else {
            match find_name(c.accounts, a.name) {
                Some(k) => ConfigView { accounts: c.accounts.update(k, a), ..c },
                None => c,
            }
        },
        StoreOp::Remove(name) => match find_name(c.accounts, name) {
            Some(k) => removed(c, k, name),
            None => c,
        },
        StoreOp::Rename(from, to) => match rename_outcome(c, from, to) {
            RenameOutcome::Renamed(d) => d,
            _ => c,
        },
        StoreOp::SetActive(name) => match find_name(c.accounts, name) {
            Some(k) => ConfigView { active: Some(c.accounts[k].name), ..c },
            None => c,
        },
    }
}

/// The account list after each of `ops` in turn.
pub open spec fn apply_ops(c: ConfigView, ops: Seq<StoreOp>) -> ConfigView
    decreases ops.len(),
{
    if ops.len() == 0 {
        c
    } else {
        apply_op(apply_ops(c, ops.drop_last()), ops.last())
    }
}

/// No profile is marked active, or the marked one is saved.
pub open spec fn active_known(c: ConfigView) -> bool {
    c.active is Some ==> active_index(c) is Some
}

/// Replacing a profile's details under a name that matches its own keeps
/// names unique.
proof fn lemma_update_keeps_names_unique(accounts: Seq<AccountView>, a: AccountView)
    requires
        names_unique(accounts),
        find_name(accounts, a.name) is Some,
    ensures
        names_unique(accounts.update(find_name(accounts, a.name)->0, a)),
{
    let k = find_name(accounts, a.name)->0;
    let list = accounts.update(k, a);
    lemma_find_name(accounts, a.name);
    assert forall|i: int, j: int| 0 <= i < j < list.len() implies !eq_ignore_case(
        list[i].name,
        list[j].name,
    ) by {
        if i == k {
            if eq_ignore_case(a.name, list[j].name) {
                lemma_eq_ignore_case(accounts[k].name, a.name, list[j].name);
                assert(list[j] == accounts[j]);
                assert(false);
            }
        } else if j == k {
            if eq_ignore_case(list[i].name, a.name) {
                lemma_eq_ignore_case(a.name, accounts[k].name, accounts[k].name);
                lemma_eq_ignore_case(list[i].name, a.name, accounts[k].name);
                assert(list[i] == accounts[i]);
                assert(false);
            }
        } else {
            assert(list[i] == accounts[i] && list[j] == accounts[j]);
        }
    }
}

/// One change keeps names unique and the active mark on a saved profile.
proof fn lemma_op_keeps_active_known(c: ConfigView, op: StoreOp)
    requires
        names_unique(c.accounts),
        active_known(c),
    ensures
        names_unique(apply_op(c, op).accounts),
        active_known(apply_op(c, op)),
{
    match op {
        StoreOp::Add(a) => {
            if add_outcome(c.accounts, a) is Some {
                lemma_add_keeps_names_unique(c.accounts, a);
                lemma_add_keeps_active(c, a);
            }
        },
        StoreOp::Update(a) => {
            if account_error(a) is None && find_name(c.accounts, a.name) is Some {
                lemma_update_keeps_names_unique(c.accounts, a);
                lemma_update_keeps_active(c, a);
            }
        },
        StoreOp::Remove(name) => {
            if find_name(c.accounts, name) is Some {
                lemma_remove_then_get(c.accounts, name);
                lemma_remove_keeps_other_active(c, name);
            }
        },
        StoreOp::Rename(from, to) => {
            if rename_outcome(c, from, to) is Renamed {
                lemma_rename(c, from, to);
                lemma_rename_keeps_active(c, from, to);
            }
        },
        StoreOp::SetActive(name) => {
            if find_name(c.accounts, name) is Some {
                lemma_set_active_then_active(c.accounts, name, c.version);
            }
        },
    }
}

/// Law: from a list with unique names whose active mark, if any, names a
/// saved profile, every sequence of changes keeps both: the active profile
/// is always none or one of the saved profiles. Which profile it is follows
/// [`lemma_add_keeps_active`], [`lemma_update_keeps_active`],
/// [`lemma_remove_keeps_other_active`], [`lemma_rename_keeps_active`] and
/// [`lemma_set_active_then_active`].
pub proof fn lemma_ops_keep_active_known(c: ConfigView, ops: Seq<StoreOp>)
    requires
        names_unique(c.accounts),
        active_known(c),
    ensures
        names_unique(apply_ops(c, ops).accounts),
        active_known(apply_ops(c, ops)),
    decreases ops.len(),
{
    if ops.len() > 0 {
        lemma_ops_keep_active_known(c, ops.drop_last());
        lemma_op_keeps_active_known(apply_ops(c, ops.drop_last()), ops.last());
    }
}

} // verus!
