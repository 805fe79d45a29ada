//! Storage for GitHub tokens: the OS credential store, a store that refuses
//! everything, and an in-memory store for tests.
use vstd::prelude::*;

use crate::error::{Error, Result};
use crate::process::{redact, redact_spec};
use keyring::Error as KeyringError;

verus! {

/// Service name used for every entry gitswitch creates in the OS keychain.
pub const SERVICE: &'static str = "gitswitch";

/// One request made of a [`SecretStore`], and its answer.
pub enum SecretOp {
    Store { key: Seq<char>, token: Seq<char>, reply: core::result::Result<(), Error> },
    Fetch { key: Seq<char>, reply: core::result::Result<Option<Seq<char>>, Error> },
    Erase { key: Seq<char>, reply: core::result::Result<(), Error> },
}

pub open spec fn token_reply(r: Result<Option<String>>) -> core::result::Result<Option<Seq<char>>, Error> {
    match r {
        Ok(Some(t)) => Ok(Some(t@)),
        Ok(None) => Ok(None),
        Err(e) => Err(e),
    }
}

/// Storage for GitHub tokens. Implemented by the OS credential store in
/// production and by an in-memory double in tests.
///
/// Tokens are the only secret gitswitch handles; passwords are never accepted
/// or stored. What a store answers is up to it; every request and its answer
/// is recorded in [`SecretStore::operations`].
pub trait SecretStore {
    spec fn operations(&self) -> Seq<SecretOp>;

    fn set(&mut self, key: &str, token: &str) -> (r: Result<()>)
        ensures
            final(self).operations() == old(self).operations().push(
                SecretOp::Store { key: key@, token: token@, reply: r },
            ),
    ;

    fn get(&mut self, key: &str) -> (r: Result<Option<String>>)
        ensures
            final(self).operations() == old(self).operations().push(
                SecretOp::Fetch { key: key@, reply: token_reply(r) },
            ),
    ;

    fn delete(&mut self, key: &str) -> (r: Result<()>)
        ensures
            final(self).operations() == old(self).operations().push(
                SecretOp::Erase { key: key@, reply: r },
            ),
    ;

    /// The answer [`SecretStore::available`] gives whatever the machine, for
    /// a store whose answer does not depend on it; `None` for one whose does.
    spec fn fixed_availability(&self) -> Option<bool>;

    /// Whether the backend is usable on this machine.
    fn available(&self) -> (b: bool)
        ensures
            self.fixed_availability() matches Some(a) ==> b == a,
    ;
}

// ---------------------------------------------------------------------------
// The OS credential store
// ---------------------------------------------------------------------------

#[verifier::external_type_specification]
#[verifier::external_body]
pub struct ExKeyringEntry(keyring::Entry);

#[verifier::external_type_specification]
#[verifier::external_body]
pub struct ExKeyringError(KeyringError);

/// `keyring::Entry::new`: opens the platform credential entry for `service`
/// and `user`. Whether that succeeds depends on the platform, so nothing is
/// claimed of the result; the second part is a ghost copy of the service and
/// user that were handed over.
#[verifier::external_body]
fn keyring_entry(service: &str, user: &str) -> (r: (
    core::result::Result<keyring::Entry, KeyringError>,
    Ghost<(Seq<char>, Seq<char>)>,
))
    ensures
        r.1@ == (service@, user@),
{
    (keyring::Entry::new(service, user), Ghost((service@, user@)))
}

/// `keyring::Entry::set_password`: stores the secret. The outcome depends on
/// the platform store; nothing is claimed of it. The second part is a ghost
/// copy of the password that was handed over.
#[verifier::external_body]
fn keyring_set_password(entry: &keyring::Entry, password: &str) -> (r: (
    core::result::Result<(), KeyringError>,
    Ghost<Seq<char>>,
))
    ensures
        r.1@ == password@,
{
    (entry.set_password(password), Ghost(password@))
}

/// `keyring::Entry::get_password`: reads the secret back. What comes back
/// depends on the platform store; nothing is claimed of it.
#[verifier::external_body]
fn keyring_get_password(entry: &keyring::Entry) -> core::result::Result<String, KeyringError> {
    entry.get_password()
}

/// `keyring::Entry::delete_credential`: removes the secret. The outcome
/// depends on the platform store; nothing is claimed of it.
#[verifier::external_body]
fn keyring_delete_credential(entry: &keyring::Entry) -> core::result::Result<(), KeyringError> {
    entry.delete_credential()
}

/// Whether a `keyring::Error` is the `NoEntry` variant (no credential stored).
/// The variant is not visible to the verifier, so nothing is claimed.
#[verifier::external_body]
fn keyring_error_is_no_entry(err: &KeyringError) -> bool {
    match err {
        KeyringError::NoEntry => true,
        _ => false,
    }
}

/// The `Display` text of a `keyring::Error`. The crate's messages never hold
/// the secret; nothing is claimed of the text.
#[verifier::external_body]
fn keyring_error_text(err: &KeyringError) -> String {
    err.to_string()
}

/// A credential store failure as the user sees it: the platform's message,
/// redacted as a second line of defence.
pub fn secret_error(message: &str) -> (e: Error)
    ensures
        e matches Error::Secret(m) && m@ == redact_spec(message@),
{
    Error::Secret(redact(message))
}

fn map_err(err: &KeyringError) -> (e: Error)
    ensures
        e matches Error::Secret(m) && exists|text: Seq<char>| m@ == redact_spec(text),
{
    let text = keyring_error_text(err);
    secret_error(text.as_str())
}

/// How a keychain request failed: no credential is stored under the key,
/// or another failure with the platform's message.
pub enum KeychainFailure {
    NoEntry,
    Other(String),
}

/// The keychain failure behind `err`.
fn failure_of(err: &KeyringError) -> KeychainFailure {
    if keyring_error_is_no_entry(err) {
        KeychainFailure::NoEntry
    } else {
        KeychainFailure::Other(keyring_error_text(err))
    }
}

/// What reading a token answers for each keychain outcome: the token, nothing
/// when none is stored, and a redacted credential store error otherwise.
pub fn fetch_reply(outcome: core::result::Result<String, KeychainFailure>) -> (r: Result<Option<String>>)
    ensures
        match outcome {
            Ok(t) => r matches Ok(Some(x)) && x@ == t@,
            Err(KeychainFailure::NoEntry) => r matches Ok(None),
            Err(KeychainFailure::Other(m)) => r matches Err(Error::Secret(x)) && x@ == redact_spec(m@),
        },
{
    match outcome {
        Ok(t) => Ok(Some(t)),
        Err(KeychainFailure::NoEntry) => Ok(None),
        Err(KeychainFailure::Other(m)) => Err(secret_error(m.as_str())),
    }
}

/// What erasing a token answers for each keychain outcome: nothing stored is
/// already erased; any other failure is a redacted credential store error.
pub fn erase_reply(outcome: core::result::Result<(), KeychainFailure>) -> (r: Result<()>)
    ensures
        match outcome {
            Ok(()) => r is Ok,
            Err(KeychainFailure::NoEntry) => r is Ok,
            Err(KeychainFailure::Other(m)) => r matches Err(Error::Secret(x)) && x@ == redact_spec(m@),
        },
{
    match outcome {
        Ok(()) => Ok(()),
        Err(KeychainFailure::NoEntry) => Ok(()),
        Err(KeychainFailure::Other(m)) => Err(secret_error(m.as_str())),
    }
}

/// A failure that came from the credential store, with a redacted message.
pub open spec fn is_store_failure(e: Error) -> bool {
    e matches Error::Secret(m) && exists|text: Seq<char>| m@ == redact_spec(text)
}

/// What one request handed to the platform keychain: the service and user
/// of the entry it asked for, whether the entry opened, and the password it
/// wrote, if it wrote one.
pub struct KeychainRequest {
    pub service: Seq<char>,
    pub user: Seq<char>,
    pub opened: bool,
    pub password: Option<Seq<char>>,
}

/// The user name of the entry that [`KeyringStore::probe`] opens.
pub open spec fn probe_user() -> Seq<char> {
    "gitswitch-probe"@
}

/// Backed by the platform keychain: Keychain on macOS, Credential Manager on
/// Windows, Secret Service or the kernel keyring on Linux. Every entry it
/// opens is under the service [`SERVICE`], with the key as the user.
pub struct KeyringStore {
    log: Ghost<Seq<SecretOp>>,
    handed: Ghost<Seq<KeychainRequest>>,
}

impl KeyringStore {
    pub fn new() -> (s: Self)
        ensures
            s.operations().len() == 0,
            s.requests().len() == 0,
    {
        KeyringStore { log: Ghost(Seq::empty()), handed: Ghost(Seq::empty()) }
    }

    /// What was handed to the platform keychain so far, in order.
    pub closed spec fn requests(&self) -> Seq<KeychainRequest> {
        self.handed@
    }

    /// Opens the entry that tells whether the keychain works, under
    /// [`SERVICE`] and [`probe_user`]; the answer is whether that succeeded.
    /// The second part is the request that was handed over.
    pub fn probe(&self) -> (r: (bool, Ghost<KeychainRequest>))
        ensures
            r.1@ == (KeychainRequest { service: SERVICE@, user: probe_user(), opened: r.0, password: None }),
    {
        let (opened, sent) = keyring_entry(SERVICE, "gitswitch-probe");
        proof {
            reveal_strlit("gitswitch-probe");
        }
        let found = opened.is_ok();
        (found, Ghost(KeychainRequest { service: sent@.0, user: sent@.1, opened: found, password: None }))
    }
}

/// `after` is `before` with one more request: the entry under [`SERVICE`]
/// for `key`, and, once it opened, `token` written as its password when
/// there is one to write.
pub open spec fn one_request(
    before: Seq<KeychainRequest>,
    after: Seq<KeychainRequest>,
    key: Seq<char>,
    token: Option<Seq<char>>,
) -> bool {
    &&& after.len() == before.len() + 1
    &&& after.drop_last() == before
    &&& after.last().service == SERVICE@
    &&& after.last().user == key
    &&& after.last().password == if after.last().opened {
        token
    } else {
        None
    }
}

impl SecretStore for KeyringStore {
    closed spec fn operations(&self) -> Seq<SecretOp> {
        self.log@
    }

    /// Opens the entry under [`SERVICE`] and `key`, and writes `token` as its
    /// password when it opened.
    fn set(&mut self, key: &str, token: &str) -> (r: Result<()>)
        ensures
            r matches Err(e) ==> is_store_failure(e),
            one_request(old(self).requests(), final(self).requests(), key@, Some(token@)),
    {
        let (opened, sent) = keyring_entry(SERVICE, key);
        let is_open = opened.is_ok();
        let (r, password) = match opened {
            Err(err) => (Err(map_err(&err)), None),
            Ok(entry) => {
                let (written, copy) = keyring_set_password(&entry, token);
                let r = match written {
                    Ok(()) => Ok(()),
                    Err(err) => Err(map_err(&err)),
                };
                (r, Some(copy))
            },
        };
        self.handed = Ghost(self.handed@.push(KeychainRequest {
            service: sent@.0,
            user: sent@.1,
            opened: is_open,
            password: match password {
                Some(p) => Some(p@),
                None => None,
            },
        }));
        proof {
            assert(self.handed@.drop_last() =~= old(self).handed@);
        }
        self.log = Ghost(self.log@.push(SecretOp::Store { key: key@, token: token@, reply: r }));
        r
    }

    /// Opens the entry under [`SERVICE`] and `key` and reads its password.
    fn get(&mut self, key: &str) -> (r: Result<Option<String>>)
        ensures
            r matches Err(e) ==> is_store_failure(e),
            one_request(old(self).requests(), final(self).requests(), key@, None),
    {
        let (opened, sent) = keyring_entry(SERVICE, key);
        let is_open = opened.is_ok();
        self.handed = Ghost(
            self.handed@.push(KeychainRequest { service: sent@.0, user: sent@.1, opened: is_open, password: None }),
        );
        proof {
            assert(self.handed@.drop_last() =~= old(self).handed@);
        }
        let r = match opened {
            Err(err) => Err(map_err(&err)),
            Ok(entry) => fetch_reply(
                match keyring_get_password(&entry) {
                    Ok(token) => Ok(token),
                    Err(err) => Err(failure_of(&err)),
                },
            ),
        };
        self.log = Ghost(self.log@.push(SecretOp::Fetch { key: key@, reply: token_reply(r) }));
        r
    }

    /// Opens the entry under [`SERVICE`] and `key` and removes its password.
    fn delete(&mut self, key: &str) -> (r: Result<()>)
        ensures
            r matches Err(e) ==> is_store_failure(e),
            one_request(old(self).requests(), final(self).requests(), key@, None),
    {
        let (opened, sent) = keyring_entry(SERVICE, key);
        let is_open = opened.is_ok();
        self.handed = Ghost(
            self.handed@.push(KeychainRequest { service: sent@.0, user: sent@.1, opened: is_open, password: None }),
        );
        proof {
            assert(self.handed@.drop_last() =~= old(self).handed@);
        }
        let r = match opened {
            Err(err) => Err(map_err(&err)),
            Ok(entry) => erase_reply(
                match keyring_delete_credential(&entry) {
                    Ok(()) => Ok(()),
                    Err(err) => Err(failure_of(&err)),
                },
            ),
        };
        self.log = Ghost(self.log@.push(SecretOp::Erase { key: key@, reply: r }));
        r
    }

    /// Whether the platform keychain can be opened depends on the machine.
    open spec fn fixed_availability(&self) -> Option<bool> {
        None
    }

    /// The answer of [`KeyringStore::probe`].
    fn available(&self) -> bool {
        let (found, _request) = self.probe();
        found
    }
}

// ---------------------------------------------------------------------------
// No store at all
// ---------------------------------------------------------------------------

pub open spec fn no_store_message() -> Seq<char> {
    "no OS credential store is available on this system"@
}

/// Discards every token. Used when the platform has no usable credential store
/// so that gitswitch keeps working without ever falling back to plaintext.
pub struct NullStore {
    log: Ghost<Seq<SecretOp>>,
}

impl NullStore {
    pub fn new() -> (s: Self)
        ensures
            s.operations().len() == 0,
    {
        NullStore { log: Ghost(Seq::empty()) }
    }
}

impl SecretStore for NullStore {
    closed spec fn operations(&self) -> Seq<SecretOp> {
        self.log@
    }

    fn set(&mut self, key: &str, token: &str) -> (r: Result<()>)
        ensures
            r matches Err(Error::Secret(m)) && m@ == no_store_message(),
    {
        let r = Err(Error::Secret("no OS credential store is available on this system".to_string()));
        self.log = Ghost(self.log@.push(SecretOp::Store { key: key@, token: token@, reply: r }));
        r
    }

    fn get(&mut self, key: &str) -> (r: Result<Option<String>>)
        ensures
            r matches Ok(None),
    {
        let r = Ok(None);
        self.log = Ghost(self.log@.push(SecretOp::Fetch { key: key@, reply: token_reply(r) }));
        r
    }

    fn delete(&mut self, key: &str) -> (r: Result<()>)
        ensures
            r is Ok,
    {
        let r = Ok(());
        self.log = Ghost(self.log@.push(SecretOp::Erase { key: key@, reply: r }));
        r
    }

    open spec fn fixed_availability(&self) -> Option<bool> {
        Some(false)
    }

    fn available(&self) -> (b: bool)
        ensures
            !b,
    {
        false
    }
}

// ---------------------------------------------------------------------------
// In memory
// ---------------------------------------------------------------------------

/// The token stored under `key`: the first entry with that key.
pub open spec fn lookup(keys: Seq<Seq<char>>, tokens: Seq<Seq<char>>, key: Seq<char>, i: int) -> Option<Seq<char>>
    decreases keys.len() - i,
{
    if i < 0 || i >= keys.len() {
        None
    } else if keys[i] == key {
        Some(tokens[i])
    } else {
        lookup(keys, tokens, key, i + 1)
    }
}

/// In-memory credential store used by the test suite and by contributors who
/// want to exercise gitswitch without touching their real keychain.
pub struct MemoryStore {
    keys: Vec<String>,
    tokens: Vec<String>,
    log: Ghost<Seq<SecretOp>>,
}

impl MemoryStore {
    pub closed spec fn key_views(&self) -> Seq<Seq<char>> {
        self.keys@.map_values(|k: String| k@)
    }

    pub closed spec fn token_views(&self) -> Seq<Seq<char>> {
        self.tokens@.map_values(|t: String| t@)
    }

    /// The token stored under `key`, if any.
    pub open spec fn stored(&self, key: Seq<char>) -> Option<Seq<char>> {
        lookup(self.key_views(), self.token_views(), key, 0)
    }

    /// One token per key, and no key twice.
    pub closed spec fn wf(&self) -> bool {
        &&& self.keys@.len() == self.tokens@.len()
        &&& forall|i: int, j: int|
            0 <= i < j < self.keys@.len() ==> self.keys@[i]@ != self.keys@[j]@
    }

    pub fn new() -> (s: Self)
        ensures
            s.wf(),
            forall|k: Seq<char>| s.stored(k) is None,
            s.operations().len() == 0,
    {
        MemoryStore { keys: Vec::new(), tokens: Vec::new(), log: Ghost(Seq::empty()) }
    }

    fn position(&self, key: &str) -> (p: Option<usize>)
        requires
            self.keys@.len() == self.tokens@.len(),
        ensures
            match p {
                Some(i) => i < self.keys@.len() && self.key_views()[i as int] == key@
                    && self.stored(key@) == Some(self.token_views()[i as int]) && forall|m: int|
                    0 <= m < i ==> self.key_views()[m] != key@,
                None => self.stored(key@) is None,
            },
    {
        let mut i: usize = 0;
        while i < self.keys.len()
            invariant
                self.keys@.len() == self.tokens@.len(),
                i <= self.keys@.len(),
                lookup(self.key_views(), self.token_views(), key@, i as int) == self.stored(key@),
                forall|m: int| 0 <= m < i ==> self.key_views()[m] != key@,
            decreases self.keys@.len() - i,
        {
            if crate::text::str_eq(self.keys[i].as_str(), key) {
                return Some(i);
            }
            i = i + 1;
        }
        None
    }
}

proof fn lemma_lookup_update(keys: Seq<Seq<char>>, tokens: Seq<Seq<char>>, i: int, t: Seq<char>, k: Seq<char>, j: int)
    requires
        keys.len() == tokens.len(),
        0 <= i < keys.len(),
        0 <= j <= keys.len(),
        forall|m: int| j <= m < i ==> keys[m] != keys[i],
    ensures
        lookup(keys, tokens.update(i, t), k, j) == if k == keys[i] && j <= i {
            Some(t)
        } else {
            lookup(keys, tokens, k, j)
        },
    decreases keys.len() - j,
{
    if j < keys.len() {
        lemma_lookup_update(keys, tokens, i, t, k, j + 1);
    }
}

proof fn lemma_lookup_push(keys: Seq<Seq<char>>, tokens: Seq<Seq<char>>, key: Seq<char>, t: Seq<char>, k: Seq<char>, j: int)
    requires
        keys.len() == tokens.len(),
        0 <= j <= keys.len(),
        forall|m: int| j <= m < keys.len() ==> keys[m] != key,
    ensures
        lookup(keys.push(key), tokens.push(t), k, j) == if k == key && lookup(keys, tokens, k, j) is None {
            Some(t)
        } else {
            lookup(keys, tokens, k, j)
        },
    decreases keys.len() - j,
{
    let ks = keys.push(key);
    let ts = tokens.push(t);
    if j < keys.len() {
        lemma_lookup_push(keys, tokens, key, t, k, j + 1);
        assert(ks[j] == keys[j]);
        assert(ts[j] == tokens[j]);
    } else {
        assert(ks[j] == key);
        assert(ts[j] == t);
        assert(lookup(ks, ts, k, j + 1) is None);
    }
}

proof fn lemma_lookup_remove(keys: Seq<Seq<char>>, tokens: Seq<Seq<char>>, i: int, k: Seq<char>, j: int)
    requires
        keys.len() == tokens.len(),
        0 <= i < keys.len(),
        0 <= j <= keys.len() - 1,
        forall|a: int, b: int| 0 <= a < b < keys.len() ==> keys[a] != keys[b],
    ensures
        lookup(keys.remove(i), tokens.remove(i), k, j) == if k == keys[i] {
            None
        } else if j < i {
            lookup(keys, tokens, k, j)
        } else {
            lookup(keys, tokens, k, j + 1)
        },
    decreases keys.len() - j,
{
    let ks = keys.remove(i);
    let ts = tokens.remove(i);
    if j < ks.len() {
        lemma_lookup_remove(keys, tokens, i, k, j + 1);
        if j < i {
            assert(ks[j] == keys[j]);
            assert(ts[j] == tokens[j]);
            if j + 1 == i {
                // lookup from i in the full list skips the removed key
                if k != keys[i] {
                    assert(lookup(keys, tokens, k, i) == lookup(keys, tokens, k, i + 1));
                }
            }
        } else {
            assert(ks[j] == keys[j + 1]);
            assert(ts[j] == tokens[j + 1]);
        }
    } else {
        if k == keys[i] {
        } else if j < i {
        } else {
            assert(lookup(keys, tokens, k, j + 1) is None);
        }
    }
}

proof fn lemma_lookup_absent(keys: Seq<Seq<char>>, tokens: Seq<Seq<char>>, k: Seq<char>, j: int)
    requires
        0 <= j,
        forall|m: int| j <= m < keys.len() ==> keys[m] != k,
    ensures
        lookup(keys, tokens, k, j) is None,
    decreases keys.len() - j,
{
    if j < keys.len() {
        lemma_lookup_absent(keys, tokens, k, j + 1);
    }
}

proof fn lemma_lookup_found(keys: Seq<Seq<char>>, tokens: Seq<Seq<char>>, k: Seq<char>, j: int)
    requires
        0 <= j,
        lookup(keys, tokens, k, j) is None,
    ensures
        forall|m: int| j <= m < keys.len() ==> keys[m] != k,
    decreases keys.len() - j,
{
    if j < keys.len() {
        lemma_lookup_found(keys, tokens, k, j + 1);
    }
}

impl SecretStore for MemoryStore {
    closed spec fn operations(&self) -> Seq<SecretOp> {
        self.log@
    }

    fn set(&mut self, key: &str, token: &str) -> (r: Result<()>)
        ensures
            r is Ok,
            old(self).wf() ==> final(self).wf() && forall|k: Seq<char>| #[trigger] final(self).stored(k)
                == if k == key@ {
                Some(token@)
            } else {
                old(self).stored(k)
            },
    {
        if self.keys.len() == self.tokens.len() {
            match self.position(key) {
                Some(i) => {
                    let ghost before_tokens = self.token_views();
                    self.tokens.set(i, token.to_string());
                    proof {
                        assert(self.keys@ == old(self).keys@);
                        assert(self.token_views() =~= before_tokens.update(i as int, token@));
                        assert forall|k: Seq<char>| #[trigger] self.stored(k) == if k == key@ {
                            Some(token@)
                        } else {
                            old(self).stored(k)
                        } by {
                            lemma_lookup_update(self.key_views(), before_tokens, i as int, token@, k, 0);
                        }
                    }
                },
                None => {
                    let ghost before_keys = self.key_views();
                    let ghost before_tokens = self.token_views();
                    self.keys.push(key.to_string());
                    self.tokens.push(token.to_string());
                    proof {
                        lemma_lookup_found(before_keys, before_tokens, key@, 0);
                        assert(self.key_views() =~= before_keys.push(key@));
                        assert(self.token_views() =~= before_tokens.push(token@));
                        assert forall|k: Seq<char>| #[trigger] self.stored(k) == if k == key@ {
                            Some(token@)
                        } else {
                            old(self).stored(k)
                        } by {
                            lemma_lookup_push(before_keys, before_tokens, key@, token@, k, 0);
                        }
                        if old(self).wf() {
                            assert forall|a: int, b: int| 0 <= a < b < self.keys@.len() implies self.keys@[a]@
                                != self.keys@[b]@ by {
                                if b == self.keys@.len() - 1 {
                                    assert(self.keys@[a]@ == before_keys[a]);
                                    assert(self.keys@[b]@ == key@);
                                } else {
                                    assert(self.keys@[a] == old(self).keys@[a]);
                                    assert(self.keys@[b] == old(self).keys@[b]);
                                }
                            }
                        }
                    }
                },
            }
        }
        let ghost mid = *self;
        proof {
            if old(self).wf() {
                assert(mid.wf());
                assert(forall|k: Seq<char>| #[trigger] mid.stored(k) == if k == key@ {
                    Some(token@)
                } else {
                    old(self).stored(k)
                });
            }
        }
        let r = Ok(());
        self.log = Ghost(self.log@.push(SecretOp::Store { key: key@, token: token@, reply: r }));
        proof {
            assert(self.keys@ == mid.keys@);
            assert(self.tokens@ == mid.tokens@);
            assert(forall|k: Seq<char>| #[trigger] self.stored(k) == mid.stored(k));
            assert(self.wf() == mid.wf());
        }
        r
    }

    fn get(&mut self, key: &str) -> (r: Result<Option<String>>)
        ensures
            old(self).wf() ==> token_reply(r) == Ok::<Option<Seq<char>>, Error>(old(self).stored(key@)),
            final(self).wf() == old(self).wf(),
            forall|k: Seq<char>| #[trigger] final(self).stored(k) == old(self).stored(k),
    {
        let r = if self.keys.len() == self.tokens.len() {
            match self.position(key) {
                Some(i) => Ok(Some(self.tokens[i].as_str().to_string())),
                None => Ok(None),
            }
        } else {
            Ok(None)
        };
        self.log = Ghost(self.log@.push(SecretOp::Fetch { key: key@, reply: token_reply(r) }));
        r
    }

    fn delete(&mut self, key: &str) -> (r: Result<()>)
        ensures
            r is Ok,
            old(self).wf() ==> final(self).wf() && forall|k: Seq<char>| #[trigger] final(self).stored(k)
                == if k == key@ {
                None
            } else {
                old(self).stored(k)
            },
    {
        if self.keys.len() == self.tokens.len() {
            let found = self.position(key);
            if let Some(i) = found {
                let ghost before_keys = self.key_views();
                let ghost before_tokens = self.token_views();
                self.keys.remove(i);
                self.tokens.remove(i);
                proof {
                    assert(self.key_views() =~= before_keys.remove(i as int));
                    assert(self.token_views() =~= before_tokens.remove(i as int));
                    if old(self).wf() {
                        assert forall|a: int, b: int| 0 <= a < b < before_keys.len() implies before_keys[a]
                            != before_keys[b] by {
                            assert(before_keys[a] == old(self).keys@[a]@);
                            assert(before_keys[b] == old(self).keys@[b]@);
                        }
                        assert forall|k: Seq<char>| #[trigger] self.stored(k) == if k == key@ {
                            None
                        } else {
                            old(self).stored(k)
                        } by {
                            lemma_lookup_remove(before_keys, before_tokens, i as int, k, 0);
                            if k != key@ && i == 0 {
                                assert(lookup(before_keys, before_tokens, k, 0) == lookup(
                                    before_keys,
                                    before_tokens,
                                    k,
                                    1,
                                ));
                            }
                        }
                        assert forall|a: int, b: int| 0 <= a < b < self.keys@.len() implies self.keys@[a]@
                            != self.keys@[b]@ by {
                            assert(self.keys@[a]@ == self.key_views()[a]);
                            assert(self.keys@[b]@ == self.key_views()[b]);
                        }
                    }
                }
            }
        }
        let ghost mid = *self;
        let r = Ok(());
        self.log = Ghost(self.log@.push(SecretOp::Erase { key: key@, reply: r }));
        proof {
            assert(self.keys@ == mid.keys@);
            assert(self.tokens@ == mid.tokens@);
            if old(self).wf() {
                assert(mid.wf());
                assert(forall|k: Seq<char>| #[trigger] mid.stored(k) == if k == key@ {
                    None
                } else {
                    old(self).stored(k)
                });
                assert(self.wf());
                assert(forall|k: Seq<char>| #[trigger] self.stored(k) == mid.stored(k));
            }
        }
        r
    }

    open spec fn fixed_availability(&self) -> Option<bool> {
        Some(true)
    }

    fn available(&self) -> (b: bool)
        ensures
            b,
    {
        true
    }
}

// ---------------------------------------------------------------------------
// What this machine offers
// ---------------------------------------------------------------------------

/// The credential store this machine offers: the keychain when it works,
/// otherwise one that keeps nothing, so tokens never fall back to plaintext.
pub enum PlatformStore {
    Keyring(KeyringStore),
    Null(NullStore),
}

impl SecretStore for PlatformStore {
    closed spec fn operations(&self) -> Seq<SecretOp> {
        match self {
            PlatformStore::Keyring(k) => k.operations(),
            PlatformStore::Null(n) => n.operations(),
        }
    }

    fn set(&mut self, key: &str, token: &str) -> (r: Result<()>) {
        match self {
            PlatformStore::Keyring(k) => k.set(key, token),
            PlatformStore::Null(n) => n.set(key, token),
        }
    }

    fn get(&mut self, key: &str) -> (r: Result<Option<String>>) {
        match self {
            PlatformStore::Keyring(k) => k.get(key),
            PlatformStore::Null(n) => n.get(key),
        }
    }

    fn delete(&mut self, key: &str) -> (r: Result<()>) {
        match self {
            PlatformStore::Keyring(k) => k.delete(key),
            PlatformStore::Null(n) => n.delete(key),
        }
    }

    /// The keychain's answer depends on the machine; the store that keeps
    /// nothing always says no.
    open spec fn fixed_availability(&self) -> Option<bool> {
        match self {
            PlatformStore::Keyring(k) => k.fixed_availability(),
            PlatformStore::Null(n) => n.fixed_availability(),
        }
    }

    fn available(&self) -> (b: bool)
        ensures
            self is Null ==> !b,
    {
        match self {
            PlatformStore::Keyring(k) => k.available(),
            PlatformStore::Null(n) => n.available(),
        }
    }
}

/// The keychain when it works on this machine, otherwise a store that keeps
/// nothing.
pub fn default_store() -> (s: PlatformStore)
    ensures
        s.operations().len() == 0,
{
    let keyring = KeyringStore::new();
    let available = keyring.available();
    choose_store(keyring, available)
}

/// The keychain store when the keychain is `available`, otherwise a store
/// that keeps nothing.
pub fn choose_store(keyring: KeyringStore, available: bool) -> (s: PlatformStore)
    ensures
        available ==> s == PlatformStore::Keyring(keyring),
        !available ==> s is Null && s.operations().len() == 0,
{
    if available {
        PlatformStore::Keyring(keyring)
    } else {
        PlatformStore::Null(NullStore::new())
    }
}

} // verus!
