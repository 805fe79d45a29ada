//! Saved GitHub profiles and the rules their fields follow.
use vstd::prelude::*;

use crate::error::{Error, Result};
use crate::text::{
    chars_of, contains, is_ascii_alnum, is_ascii_alphanumeric, is_whitespace, is_ws, trim,
    trim_bounds, trimmed, utf8_len, utf8_len_exceeds,
};

verus! {

pub const DEFAULT_HOST: &'static str = "github.com";

/// A saved GitHub profile. Never holds a token - those live in the OS
/// credential store, keyed by [`Account::secret_key`].
#[derive(Debug, Clone, PartialEq, Eq)]
pub struct Account {
    /// Profile label chosen by the user, e.g. `work`.
    pub name: String,
    /// GitHub login the profile authenticates as.
    pub username: String,
    /// Value written to `user.name`.
    pub git_name: String,
    /// Value written to `user.email`.
    pub git_email: String,
    pub host: String,
    /// True when a token for this account is cached in the OS credential store.
    pub has_stored_token: bool,
}

/// The fields of an [`Account`] as text.
pub struct AccountView {
    pub name: Seq<char>,
    pub username: Seq<char>,
    pub git_name: Seq<char>,
    pub git_email: Seq<char>,
    pub host: Seq<char>,
    pub has_stored_token: bool,
}

impl View for Account {
    type V = AccountView;

    open spec fn view(&self) -> AccountView {
        AccountView {
            name: self.name@,
            username: self.username@,
            git_name: self.git_name@,
            git_email: self.git_email@,
            host: self.host@,
            has_stored_token: self.has_stored_token,
        }
    }
}

/// Length in bytes, which is what `str::len` measures.
pub open spec fn byte_len(s: Seq<char>) -> nat {
    utf8_len(s)
}

pub open spec fn name_char(c: char) -> bool {
    is_ascii_alnum(c) || c == '-' || c == '_' || c == '.'
}

pub open spec fn username_char(c: char) -> bool {
    is_ascii_alnum(c) || c == '-'
}

/// Why a profile name is refused, or `None` when it is accepted.
pub open spec fn name_error(s: Seq<char>) -> Option<Seq<char>> {
    if s.len() == 0 {
        Some("account name must not be empty"@)
    } else if byte_len(s) > 64 {
        Some("account name must be 64 characters or fewer"@)
    } else if !(forall|i: int| 0 <= i < s.len() ==> name_char(#[trigger] s[i])) {
        Some("account name may only contain letters, digits, '-', '_' and '.'"@)
    } else {
        None
    }
}

/// Why a GitHub login is refused, or `None` when it is accepted.
pub open spec fn username_error(s: Seq<char>) -> Option<Seq<char>> {
    if s.len() == 0 {
        Some("GitHub username must not be empty"@)
    } else if byte_len(s) > 39 {
        Some("GitHub usernames are at most 39 characters"@)
    } else if !(forall|i: int| 0 <= i < s.len() ==> username_char(#[trigger] s[i])) {
        Some("GitHub usernames may only contain letters, digits and '-'"@)
    } else {
        None
    }
}

/// Number of occurrences of `c` in `s`.
pub open spec fn count_char(s: Seq<char>, c: char) -> nat
    decreases s.len(),
{
    if s.len() == 0 {
        0
    } else {
        count_char(s.drop_last(), c) + if s.last() == c {
            1nat
        } else {
            0nat
        }
    }
}

/// Position of the first `c` in `s`, or `s.len()` when there is none.
pub open spec fn index_of(s: Seq<char>, c: char, i: int) -> int
    decreases s.len() - i,
{
    if i >= s.len() || i < 0 {
        s.len() as int
    } else if s[i] == c {
        i
    } else {
        index_of(s, c, i + 1)
    }
}

/// An address with exactly one `@`, something before it and a dotted domain after it.
pub open spec fn email_shape(t: Seq<char>) -> bool {
    let at = index_of(t, '@', 0);
    &&& count_char(t, '@') == 1
    &&& at > 0
    &&& contains(t.subrange(at + 1, t.len() as int), seq!['.'])
}

/// Why an email address is refused, or `None` when it is accepted.
pub open spec fn email_error(s: Seq<char>) -> Option<Seq<char>> {
    let t = trim(s);
    if t.len() == 0 {
        Some("Git email must not be empty"@)
    } else if !email_shape(t) {
        Some("`"@ + t + "` is not a valid email address"@)
    } else {
        None
    }
}

/// Why a pasted token is refused, or `None` when it is accepted. The token
/// itself never appears in the message.
pub open spec fn token_error(s: Seq<char>) -> Option<Seq<char>> {
    let t = trim(s);
    if t.len() == 0 {
        Some("token must not be empty"@)
    } else if byte_len(t) < 20 || (exists|i: int| 0 <= i < t.len() && is_ws(#[trigger] t[i])) {
        Some("that does not look like a GitHub token"@)
    } else {
        None
    }
}

/// Why a whole account is refused: the first field that fails, in field order.
pub open spec fn account_error(a: AccountView) -> Option<Seq<char>> {
    if name_error(a.name) is Some {
        name_error(a.name)
    } else if username_error(a.username) is Some {
        username_error(a.username)
    } else if trim(a.git_name).len() == 0 {
        Some("Git name must not be empty"@)
    } else if email_error(a.git_email) is Some {
        email_error(a.git_email)
    } else if trim(a.host).len() == 0 {
        Some("host must not be empty"@)
    } else {
        None
    }
}

/// The outcome of a check that yields `InvalidInput` with the given message.
pub open spec fn checked(r: Result<()>, problem: Option<Seq<char>>) -> bool {
    match r {
        Ok(_) => problem is None,
        Err(Error::InvalidInput(m)) => problem == Some(m@),
        Err(_) => false,
    }
}

/// The host an account gets when none is given.
pub fn default_host() -> (host: String)
    ensures
        host@ == DEFAULT_HOST@,
{
    DEFAULT_HOST.to_string()
}

fn invalid(message: &str) -> (e: Error)
    ensures
        e matches Error::InvalidInput(m) && m@ == message@,
{
    Error::InvalidInput(message.to_string())
}

impl Account {
    pub fn new(name: &str, username: &str, git_name: &str, git_email: &str) -> (a: Account)
        ensures
            a@.name == name@,
            a@.username == username@,
            a@.git_name == git_name@,
            a@.git_email == git_email@,
            a@.host == DEFAULT_HOST@,
            !a.has_stored_token,
    {
        Account {
            name: name.to_string(),
            username: username.to_string(),
            git_name: git_name.to_string(),
            git_email: git_email.to_string(),
            host: default_host(),
            has_stored_token: false,
        }
    }

    pub fn with_host(self, host: &str) -> (a: Account)
        ensures
            a@ == (AccountView { host: host@, ..self@ }),
    {
        let mut a = self;
        a.host = host.to_string();
        a
    }

    /// A field-by-field copy.
    pub fn duplicate(&self) -> (a: Account)
        ensures
            a@ == self@,
    {
        Account {
            name: self.name.as_str().to_string(),
            username: self.username.as_str().to_string(),
            git_name: self.git_name.as_str().to_string(),
            git_email: self.git_email.as_str().to_string(),
            host: self.host.as_str().to_string(),
            has_stored_token: self.has_stored_token,
        }
    }

    /// Identifier used as the credential store entry name: `host:username`.
    pub fn secret_key(&self) -> (k: String)
        ensures
            k@ == secret_key_of(self@),
    {
        let mut k = self.host.as_str().to_string();
        k.append(":");
        k.append(self.username.as_str());
        k
    }

    pub fn validate(&self) -> (r: Result<()>)
        ensures
            checked(r, account_error(self@)),
    {
        validate_name(self.name.as_str())?;
        validate_username(self.username.as_str())?;
        let git_name = trimmed(self.git_name.as_str());
        if git_name.as_str().is_empty() {
            return Err(invalid("Git name must not be empty"));
        }
        validate_email(self.git_email.as_str())?;
        let host = trimmed(self.host.as_str());
        if host.as_str().is_empty() {
            return Err(invalid("host must not be empty"));
        }
        Ok(())
    }
}

/// The credential store key of an account.
pub open spec fn secret_key_of(a: AccountView) -> Seq<char> {
    a.host + ":"@ + a.username
}

/// Profile labels double as CLI arguments, so keep them shell friendly.
pub fn validate_name(name: &str) -> (r: Result<()>)
    ensures
        checked(r, name_error(name@)),
{
    let cs = chars_of(name);
    if cs.len() == 0 {
        return Err(invalid("account name must not be empty"));
    }
    if utf8_len_exceeds(&cs, 64) {
        return Err(invalid("account name must be 64 characters or fewer"));
    }
    let mut i: usize = 0;
    while i < cs.len()
        invariant
            cs@ == name@,
            name@.len() > 0,
            byte_len(name@) <= 64,
            i <= cs@.len(),
            forall|k: int| 0 <= k < i ==> name_char(#[trigger] cs@[k]),
        decreases cs@.len() - i,
    {
        let c = cs[i];
        if !(is_ascii_alphanumeric(c) || c == '-' || c == '_' || c == '.') {
            assert(!name_char(cs@[i as int]));
            return Err(invalid("account name may only contain letters, digits, '-', '_' and '.'"));
        }
        i = i + 1;
    }
    Ok(())
}

pub fn validate_username(username: &str) -> (r: Result<()>)
    ensures
        checked(r, username_error(username@)),
{
    let cs = chars_of(username);
    if cs.len() == 0 {
        return Err(invalid("GitHub username must not be empty"));
    }
    if utf8_len_exceeds(&cs, 39) {
        return Err(invalid("GitHub usernames are at most 39 characters"));
    }
    let mut i: usize = 0;
    while i < cs.len()
        invariant
            cs@ == username@,
            username@.len() > 0,
            byte_len(username@) <= 39,
            i <= cs@.len(),
            forall|k: int| 0 <= k < i ==> username_char(#[trigger] cs@[k]),
        decreases cs@.len() - i,
    {
        let c = cs[i];
        if !(is_ascii_alphanumeric(c) || c == '-') {
            assert(!username_char(cs@[i as int]));
            return Err(invalid("GitHub usernames may only contain letters, digits and '-'"));
        }
        i = i + 1;
    }
    Ok(())
}

proof fn lemma_count_step(s: Seq<char>, c: char, i: int)
    requires
        0 <= i < s.len(),
    ensures
        count_char(s.take(i + 1), c) == count_char(s.take(i), c) + if s[i] == c {
            1nat
        } else {
            0nat
        },
{
    assert(s.take(i + 1).drop_last() =~= s.take(i));
}

proof fn lemma_index_of(s: Seq<char>, c: char, i: int)
    requires
        0 <= i <= s.len(),
    ensures
        i <= index_of(s, c, i) <= s.len(),
        index_of(s, c, i) < s.len() ==> s[index_of(s, c, i)] == c,
        forall|k: int| i <= k < index_of(s, c, i) ==> s[k] != c,
    decreases s.len() - i,
{
    if i < s.len() && s[i] != c {
        lemma_index_of(s, c, i + 1);
    }
}

pub fn validate_email(email: &str) -> (r: Result<()>)
    ensures
        checked(r, email_error(email@)),
{
    let cs = chars_of(email);
    let (lo, hi) = trim_bounds(&cs);
    let ghost t = trim(email@);
    if lo == hi {
        return Err(invalid("Git email must not be empty"));
    }
    // Count the '@' signs and remember where the first one is.
    let mut count: usize = 0;
    let mut at: usize = hi;
    let mut i: usize = lo;
    proof {
        assert(cs@.subrange(lo as int, lo as int) =~= t.take(0));
    }
    while i < hi
        invariant
            cs@ == email@,
            t == cs@.subrange(lo as int, hi as int),
            lo <= i <= hi <= cs@.len(),
            count == count_char(t.take(i - lo), '@'),
            count <= i - lo,
            count > 0 ==> at < hi,
            at <= hi,
            at == hi ==> forall|k: int| lo <= k < i ==> cs@[k] != '@',
            at < hi ==> lo <= at < i && cs@[at as int] == '@' && forall|k: int|
                lo <= k < at ==> cs@[k] != '@',
        decreases hi - i,
    {
        proof {
            lemma_count_step(t, '@', i - lo);
        }
        if cs[i] == '@' {
            count = count + 1;
            if at == hi {
                at = i;
            }
        }
        i = i + 1;
    }
    proof {
        assert(t.take(t.len() as int) =~= t);
        lemma_index_of(t, '@', 0);
        if at < hi {
            assert(t[at - lo] == '@');
            assert forall|k: int| 0 <= k < at - lo implies t[k] != '@' by {
                assert(t[k] == cs@[k + lo]);
            }
            assert(index_of(t, '@', 0) == at - lo);
        } else {
            assert forall|k: int| 0 <= k < t.len() implies t[k] != '@' by {
                assert(t[k] == cs@[k + lo]);
                assert(lo <= k + lo < hi);
                assert(cs@[k + lo] != '@');
            }
            assert(index_of(t, '@', 0) == t.len());
        }
    }
    let mut ok = count == 1 && at > lo;
    if ok {
        let domain_start = at + 1;
        let dot = vec!['.'];
        let found = crate::text::find(&cs, &dot, domain_start);
        proof {
            crate::text::lemma_find_from(cs@, dot@, domain_start as int);
            assert(dot@ =~= seq!['.']);
        }
        let inside = match found {
            Some(k) => k < hi,
            None => false,
        };
        proof {
            let dom = t.subrange(at - lo + 1, t.len() as int);
            if inside {
                let k = found->0 as int;
                assert(dom.subrange(k - at - 1, k - at) =~= seq!['.']);
                assert(crate::text::occurs_at(dom, seq!['.'], k - at - 1));
            } else {
                assert forall|j: int| !crate::text::occurs_at(dom, seq!['.'], j) by {
                    if crate::text::occurs_at(dom, seq!['.'], j) {
                        assert(dom[j] == '.');
                        assert(cs@[j + at + 1] == '.');
                        assert(cs@.subrange(j + at + 1, j + at + 2) =~= seq!['.']);
                        assert(crate::text::occurs_at(cs@, dot@, j + at + 1));
                    }
                }
            }
        }
        ok = inside;
    }
    if !ok {
        let mut m = String::new();
        m.append("`");
        let t_str = crate::text::string_of_range(&cs, lo, hi);
        m.append(t_str.as_str());
        m.append("` is not a valid email address");
        return Err(Error::InvalidInput(m));
    }
    Ok(())
}

/// Basic sanity check for a pasted personal access token. The value itself is
/// never echoed back.
pub fn validate_token(token: &str) -> (r: Result<()>)
    ensures
        checked(r, token_error(token@)),
{
    let t = trimmed(token);
    let cs = chars_of(t.as_str());
    if cs.len() == 0 {
        return Err(invalid("token must not be empty"));
    }
    if !utf8_len_exceeds(&cs, 19) {
        return Err(invalid("that does not look like a GitHub token"));
    }
    let mut i: usize = 0;
    while i < cs.len()
        invariant
            cs@ == trim(token@),
            cs@.len() > 0,
            byte_len(cs@) >= 20,
            i <= cs@.len(),
            forall|k: int| 0 <= k < i ==> !is_ws(#[trigger] cs@[k]),
        decreases cs@.len() - i,
    {
        if is_whitespace(cs[i]) {
            return Err(invalid("that does not look like a GitHub token"));
        }
        i = i + 1;
    }
    Ok(())
}

/// ASCII letters, digits, `-`, `_` and `.`: what a profile name may hold.
pub open spec fn plain_name_char(c: char) -> bool {
    ||| ('a' <= c && c <= 'z')
    ||| ('A' <= c && c <= 'Z')
    ||| ('0' <= c && c <= '9')
    ||| c == '-'
    ||| c == '_'
    ||| c == '.'
}

/// An ASCII text takes one byte per character.
proof fn lemma_ascii_bytes(s: Seq<char>)
    requires
        forall|k: int| 0 <= k < s.len() ==> (#[trigger] s[k] as u32) < 0x80,
    ensures
        byte_len(s) == s.len(),
    decreases s.len(),
{
    if s.len() > 0 {
        assert(s.drop_last().len() == s.len() - 1);
        assert forall|k: int| 0 <= k < s.drop_last().len() implies (#[trigger] s.drop_last()[k] as u32)
            < 0x80 by {
            assert(s.drop_last()[k] == s[k]);
        }
        lemma_ascii_bytes(s.drop_last());
        assert((s[s.len() - 1] as u32) < 0x80);
    }
}

/// Law: a profile name is accepted exactly when it is not empty, has at most
/// 64 characters and holds only ASCII letters, digits, `-`, `_` and `.`.
pub proof fn lemma_name_rule(s: Seq<char>)
    ensures
        name_error(s) is None <==> (0 < s.len() <= 64 && forall|k: int|
            0 <= k < s.len() ==> plain_name_char(#[trigger] s[k])),
{
    if 0 < s.len() && forall|k: int| 0 <= k < s.len() ==> plain_name_char(#[trigger] s[k]) {
        assert forall|k: int| 0 <= k < s.len() implies (#[trigger] s[k] as u32) < 0x80 by {
            assert(plain_name_char(s[k]));
        }
        lemma_ascii_bytes(s);
        assert forall|k: int| 0 <= k < s.len() implies name_char(#[trigger] s[k]) by {
            assert(plain_name_char(s[k]));
        }
    }
    if name_error(s) is None {
        assert forall|k: int| 0 <= k < s.len() implies plain_name_char(#[trigger] s[k]) by {
            assert(name_char(s[k]));
        }
        assert forall|k: int| 0 <= k < s.len() implies (#[trigger] s[k] as u32) < 0x80 by {
            assert(name_char(s[k]));
        }
        lemma_ascii_bytes(s);
    }
}

/// Law: whether a profile is accepted does not depend on which acceptable
/// name it has.
pub proof fn lemma_any_plain_name_will_do(a: AccountView, n1: Seq<char>, n2: Seq<char>)
    requires
        name_error(n1) is None,
        name_error(n2) is None,
    ensures
        account_error(AccountView { name: n1, ..a }) == account_error(AccountView { name: n2, ..a }),
{
}

} // verus!
