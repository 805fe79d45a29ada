//! Character-level text handling shared by the parsers and validators.
//!
//! Every operation works on the `Seq<char>` view of a string, so contracts
//! elsewhere in the crate can be stated over these spec functions.
use vstd::prelude::*;

verus! {

/// Appends one character to a `String`.
pub assume_specification[ String::push ](s: &mut String, ch: char)
    ensures
        final(s)@ == old(s)@.push(ch),
;

/// `String::pop`: removes the last character and returns it; an empty string
/// stays empty and yields `None`.
pub assume_specification[ String::pop ](s: &mut String) -> (r: Option<char>)
    ensures
        old(s)@.len() == 0 ==> r is None && final(s)@ == old(s)@,
        old(s)@.len() > 0 ==> r == Some(old(s)@.last()) && final(s)@ == old(s)@.drop_last(),
;

/// Unicode `White_Space`, the property that `char::is_whitespace` tests.
pub open spec fn is_ws(c: char) -> bool {
    ||| ('\u{9}' <= c && c <= '\u{d}')
    ||| c == ' '
    ||| c == '\u{85}'
    ||| c == '\u{a0}'
    ||| c == '\u{1680}'
    ||| ('\u{2000}' <= c && c <= '\u{200a}')
    ||| c == '\u{2028}'
    ||| c == '\u{2029}'
    ||| c == '\u{202f}'
    ||| c == '\u{205f}'
    ||| c == '\u{3000}'
}

pub open spec fn is_ascii_digit(c: char) -> bool {
    '0' <= c && c <= '9'
}

pub open spec fn is_ascii_upper(c: char) -> bool {
    'A' <= c && c <= 'Z'
}

pub open spec fn is_ascii_lower(c: char) -> bool {
    'a' <= c && c <= 'z'
}

pub open spec fn is_ascii_alnum(c: char) -> bool {
    is_ascii_digit(c) || is_ascii_upper(c) || is_ascii_lower(c)
}

/// Two characters that are equal once ASCII letters are folded to lower case.
pub open spec fn char_eq_ignore_case(a: char, b: char) -> bool {
    ||| a == b
    ||| (is_ascii_upper(a) && a as u32 + 32 == b as u32)
    ||| (is_ascii_upper(b) && b as u32 + 32 == a as u32)
}

/// What `str::eq_ignore_ascii_case` decides.
pub open spec fn eq_ignore_case(a: Seq<char>, b: Seq<char>) -> bool {
    &&& a.len() == b.len()
    &&& forall|i: int| 0 <= i < a.len() ==> char_eq_ignore_case(#[trigger] a[i], b[i])
}

/// Index of the first character of `s` at or after `i` that is not whitespace.
pub open spec fn skip_ws(s: Seq<char>, i: int) -> int
    decreases s.len() - i,
{
    if 0 <= i < s.len() && is_ws(s[i]) {
        skip_ws(s, i + 1)
    } else {
        i
    }
}

/// End of `s.subrange(lo, j)` once trailing whitespace is dropped.
pub open spec fn drop_trailing_ws(s: Seq<char>, lo: int, j: int) -> int
    decreases j - lo,
{
    if lo < j && j <= s.len() && is_ws(s[j - 1]) {
        drop_trailing_ws(s, lo, j - 1)
    } else {
        j
    }
}

/// `str::trim_start`.
pub open spec fn trim_start(s: Seq<char>) -> Seq<char> {
    s.subrange(skip_ws(s, 0), s.len() as int)
}

/// `str::trim`: leading and trailing whitespace removed.
pub open spec fn trim(s: Seq<char>) -> Seq<char> {
    let lo = skip_ws(s, 0);
    s.subrange(lo, drop_trailing_ws(s, lo, s.len() as int))
}

/// Number of bytes UTF-8 uses for `c`.
pub open spec fn utf8_width(c: char) -> nat {
    if (c as u32) < 0x80 {
        1
    } else if (c as u32) < 0x800 {
        2
    } else if (c as u32) < 0x10000 {
        3
    } else {
        4
    }
}

/// Length of the UTF-8 encoding of `s`, which is what `str::len` measures.
pub open spec fn utf8_len(s: Seq<char>) -> nat
    decreases s.len(),
{
    if s.len() == 0 {
        0
    } else {
        utf8_len(s.drop_last()) + utf8_width(s.last())
    }
}

pub proof fn lemma_utf8_len_prefix(s: Seq<char>, i: int, j: int)
    requires
        0 <= i <= j <= s.len(),
    ensures
        utf8_len(s.take(i)) <= utf8_len(s.take(j)),
    decreases j - i,
{
    if i < j {
        assert(s.take(j).drop_last() =~= s.take(j - 1));
        lemma_utf8_len_prefix(s, i, j - 1);
    }
}

/// `needle` occurs in `hay` at position `i`.
pub open spec fn occurs_at(hay: Seq<char>, needle: Seq<char>, i: int) -> bool {
    0 <= i && i + needle.len() <= hay.len() && hay.subrange(i, i + needle.len()) == needle
}

pub open spec fn contains(hay: Seq<char>, needle: Seq<char>) -> bool {
    exists|i: int| occurs_at(hay, needle, i)
}

pub open spec fn starts_with(hay: Seq<char>, needle: Seq<char>) -> bool {
    occurs_at(hay, needle, 0)
}

/// The first position at or after `i` where `needle` occurs, as `str::find` reports it.
pub open spec fn find_from(hay: Seq<char>, needle: Seq<char>, i: int) -> Option<int>
    decreases hay.len() + 1 - i,
{
    if i < 0 || i + needle.len() > hay.len() {
        None
    } else if occurs_at(hay, needle, i) {
        Some(i)
    } else {
        find_from(hay, needle, i + 1)
    }
}

pub proof fn lemma_skip_ws_bounds(s: Seq<char>, i: int)
    requires
        0 <= i <= s.len(),
    ensures
        i <= skip_ws(s, i) <= s.len(),
        forall|k: int| i <= k < skip_ws(s, i) ==> is_ws(#[trigger] s[k]),
        skip_ws(s, i) < s.len() ==> !is_ws(s[skip_ws(s, i)]),
    decreases s.len() - i,
{
    if i < s.len() && is_ws(s[i]) {
        lemma_skip_ws_bounds(s, i + 1);
    }
}

pub proof fn lemma_drop_trailing_bounds(s: Seq<char>, lo: int, j: int)
    requires
        0 <= lo <= j <= s.len(),
    ensures
        lo <= drop_trailing_ws(s, lo, j) <= j,
        forall|k: int| drop_trailing_ws(s, lo, j) <= k < j ==> is_ws(#[trigger] s[k]),
        lo < drop_trailing_ws(s, lo, j) ==> !is_ws(s[drop_trailing_ws(s, lo, j) - 1]),
    decreases j - lo,
{
    if lo < j && is_ws(s[j - 1]) {
        lemma_drop_trailing_bounds(s, lo, j - 1);
    }
}

/// Trimming twice is trimming once.
pub proof fn lemma_trim_idempotent(s: Seq<char>)
    ensures
        trim(trim(s)) == trim(s),
{
    let lo = skip_ws(s, 0);
    lemma_skip_ws_bounds(s, 0);
    let hi = drop_trailing_ws(s, lo, s.len() as int);
    lemma_drop_trailing_bounds(s, lo, s.len() as int);
    let t = trim(s);
    if t.len() == 0 {
        assert(skip_ws(t, 0) == 0);
        assert(t.subrange(0, 0) =~= t);
    } else {
        assert(t[0] == s[lo]);
        assert(skip_ws(t, 0) == 0);
        assert(t[t.len() - 1] == s[hi - 1]);
        assert(drop_trailing_ws(t, 0, t.len() as int) == t.len());
        assert(t.subrange(0, t.len() as int) =~= t);
    }
}

/// A `find_from` hit is a real occurrence, and nothing occurs earlier.
pub proof fn lemma_find_from(hay: Seq<char>, needle: Seq<char>, i: int)
    requires
        0 <= i,
    ensures
        find_from(hay, needle, i) matches Some(k) ==> i <= k && occurs_at(hay, needle, k) && (
        forall|m: int| i <= m < k ==> !occurs_at(hay, needle, m)),
        find_from(hay, needle, i) is None ==> forall|m: int| i <= m ==> !occurs_at(hay, needle, m),
    decreases hay.len() + 1 - i,
{
    if i + needle.len() > hay.len() {
    } else if occurs_at(hay, needle, i) {
    } else {
        lemma_find_from(hay, needle, i + 1);
    }
}

pub proof fn lemma_find_contains(hay: Seq<char>, needle: Seq<char>)
    ensures
        find_from(hay, needle, 0) is Some <==> contains(hay, needle),
{
    lemma_find_from(hay, needle, 0);
    if find_from(hay, needle, 0) is Some {
        let k = find_from(hay, needle, 0)->0;
        assert(occurs_at(hay, needle, k));
    }
}

/// The characters of a string slice.
pub fn chars_of(s: &str) -> (v: Vec<char>)
    ensures
        v@ == s@,
{
    let mut v: Vec<char> = Vec::new();
    for c in it: s.chars()
        invariant
            v@ == it.seq().take(it.index() as int),
    {
        v.push(c);
    }
    v
}

/// Appends `cs[from..to]` to `out`.
pub fn push_range(out: &mut String, cs: &Vec<char>, from: usize, to: usize)
    requires
        from <= to <= cs@.len(),
    ensures
        final(out)@ == old(out)@ + cs@.subrange(from as int, to as int),
{
    let mut i = from;
    while i < to
        invariant
            from <= i <= to <= cs@.len(),
            out@ == old(out)@ + cs@.subrange(from as int, i as int),
        decreases to - i,
    {
        out.push(cs[i]);
        proof {
            assert(cs@.subrange(from as int, i + 1) == cs@.subrange(from as int, i as int).push(
                cs@[i as int],
            ));
        }
        i = i + 1;
    }
}

/// A `String` holding `cs[from..to]`.
pub fn string_of_range(cs: &Vec<char>, from: usize, to: usize) -> (s: String)
    requires
        from <= to <= cs@.len(),
    ensures
        s@ == cs@.subrange(from as int, to as int),
{
    let mut s = String::new();
    push_range(&mut s, cs, from, to);
    s
}

/// A `String` holding every character of `cs`.
pub fn string_of(cs: &Vec<char>) -> (s: String)
    ensures
        s@ == cs@,
{
    let s = string_of_range(cs, 0, cs.len());
    proof {
        assert(cs@.subrange(0, cs@.len() as int) == cs@);
    }
    s
}

/// Concatenation of two strings.
pub fn concat2(a: &str, b: &str) -> (s: String)
    ensures
        s@ == a@ + b@,
{
    let mut s = a.to_string();
    s.append(b);
    s
}

/// `char::is_whitespace`.
pub fn is_whitespace(c: char) -> (b: bool)
    ensures
        b == is_ws(c),
{
    ('\u{9}' <= c && c <= '\u{d}') || c == ' ' || c == '\u{85}' || c == '\u{a0}' || c == '\u{1680}'
        || ('\u{2000}' <= c && c <= '\u{200a}') || c == '\u{2028}' || c == '\u{2029}' || c
        == '\u{202f}' || c == '\u{205f}' || c == '\u{3000}'
}

/// `char::is_ascii_alphanumeric`.
pub fn is_ascii_alphanumeric(c: char) -> (b: bool)
    ensures
        b == is_ascii_alnum(c),
{
    ('0' <= c && c <= '9') || ('A' <= c && c <= 'Z') || ('a' <= c && c <= 'z')
}

/// Whether the UTF-8 encoding of `cs` is longer than `limit` bytes.
pub fn utf8_len_exceeds(cs: &Vec<char>, limit: usize) -> (b: bool)
    ensures
        b == (utf8_len(cs@) > limit),
{
    let mut total: usize = 0;
    let mut i: usize = 0;
    while i < cs.len()
        invariant
            i <= cs@.len(),
            total == utf8_len(cs@.take(i as int)),
            total <= limit,
        decreases cs@.len() - i,
    {
        let c = cs[i];
        let w: usize = if (c as u32) < 0x80 {
            1
        } else if (c as u32) < 0x800 {
            2
        } else if (c as u32) < 0x10000 {
            3
        } else {
            4
        };
        proof {
            assert(cs@.take(i + 1).drop_last() =~= cs@.take(i as int));
        }
        if w > limit - total {
            proof {
                lemma_utf8_len_prefix(cs@, i + 1, cs@.len() as int);
                assert(cs@.take(cs@.len() as int) =~= cs@);
            }
            return true;
        }
        total = total + w;
        i = i + 1;
    }
    proof {
        assert(cs@.take(cs@.len() as int) =~= cs@);
    }
    false
}

/// Position of the first non-whitespace character at or after `i`.
pub fn skip_whitespace(cs: &Vec<char>, i: usize) -> (k: usize)
    requires
        i <= cs@.len(),
    ensures
        k == skip_ws(cs@, i as int),
        i <= k <= cs@.len(),
{
    proof {
        lemma_skip_ws_bounds(cs@, i as int);
    }
    let mut k = i;
    while k < cs.len() && is_whitespace(cs[k])
        invariant
            i <= k <= cs@.len(),
            skip_ws(cs@, k as int) == skip_ws(cs@, i as int),
        decreases cs@.len() - k,
    {
        k = k + 1;
    }
    k
}

/// Bounds of `cs[lo..hi]` once leading and trailing whitespace is dropped.
pub fn trim_bounds(cs: &Vec<char>) -> (r: (usize, usize))
    ensures
        r.0 == skip_ws(cs@, 0),
        r.1 == drop_trailing_ws(cs@, r.0 as int, cs@.len() as int),
        r.0 <= r.1 <= cs@.len(),
        cs@.subrange(r.0 as int, r.1 as int) == trim(cs@),
{
    let lo = skip_whitespace(cs, 0);
    proof {
        lemma_drop_trailing_bounds(cs@, lo as int, cs@.len() as int);
    }
    let mut hi = cs.len();
    while lo < hi && is_whitespace(cs[hi - 1])
        invariant
            lo <= hi <= cs@.len(),
            drop_trailing_ws(cs@, lo as int, hi as int) == drop_trailing_ws(
                cs@,
                lo as int,
                cs@.len() as int,
            ),
        decreases hi - lo,
    {
        hi = hi - 1;
    }
    (lo, hi)
}

/// `str::trim`, as an owned string.
pub fn trimmed(s: &str) -> (t: String)
    ensures
        t@ == trim(s@),
{
    let cs = chars_of(s);
    let (lo, hi) = trim_bounds(&cs);
    string_of_range(&cs, lo, hi)
}

/// Whether `needle` occurs in `hay` at position `i`.
pub fn matches_at(hay: &Vec<char>, needle: &Vec<char>, i: usize) -> (b: bool)
    ensures
        b == occurs_at(hay@, needle@, i as int),
{
    if i > hay.len() || needle.len() > hay.len() - i {
        return false;
    }
    let mut k: usize = 0;
    while k < needle.len()
        invariant
            i + needle.len() <= hay.len(),
            k <= needle@.len(),
            forall|m: int| 0 <= m < k ==> hay@[i + m] == needle@[m],
        decreases needle@.len() - k,
    {
        assert(i + k < hay@.len());
        if hay[i + k] != needle[k] {
            proof {
                assert(hay@.subrange(i as int, i + needle@.len())[k as int] != needle@[k as int]);
            }
            return false;
        }
        k = k + 1;
    }
    proof {
        assert(hay@.subrange(i as int, i + needle@.len()) =~= needle@);
    }
    true
}

/// `str::find`: the first position at or after `from` where `needle` occurs.
pub fn find(hay: &Vec<char>, needle: &Vec<char>, from: usize) -> (r: Option<usize>)
    ensures
        r matches Some(k) ==> find_from(hay@, needle@, from as int) == Some(k as int),
        r is None ==> find_from(hay@, needle@, from as int) is None,
{
    if needle.len() > hay.len() || from > hay.len() - needle.len() {
        return None;
    }
    let last = hay.len() - needle.len();
    let mut i = from;
    while i <= last
        invariant
            from <= i,
            last + needle@.len() == hay@.len(),
            find_from(hay@, needle@, i as int) == find_from(hay@, needle@, from as int),
        decreases last + 1 - i,
    {
        if matches_at(hay, needle, i) {
            return Some(i);
        }
        if i == last {
            assert(find_from(hay@, needle@, i + 1) is None);
            return None;
        }
        i = i + 1;
    }
    None
}

/// `str::contains`.
pub fn contains_chars(hay: &Vec<char>, needle: &Vec<char>) -> (b: bool)
    ensures
        b == contains(hay@, needle@),
{
    proof {
        lemma_find_contains(hay@, needle@);
    }
    find(hay, needle, 0).is_some()
}

/// `str::contains` on string slices.
pub fn str_contains(hay: &str, needle: &str) -> (b: bool)
    ensures
        b == contains(hay@, needle@),
{
    let h = chars_of(hay);
    let n = chars_of(needle);
    contains_chars(&h, &n)
}

/// `str::starts_with` on string slices.
pub fn str_starts_with(hay: &str, needle: &str) -> (b: bool)
    ensures
        b == starts_with(hay@, needle@),
{
    let h = chars_of(hay);
    let n = chars_of(needle);
    matches_at(&h, &n, 0)
}

/// Exact equality of two string slices.
pub fn str_eq(a: &str, b: &str) -> (r: bool)
    ensures
        r == (a@ == b@),
{
    let x = chars_of(a);
    let y = chars_of(b);
    if x.len() != y.len() {
        return false;
    }
    let r = matches_at(&x, &y, 0);
    proof {
        assert(x@.subrange(0, y@.len() as int) =~= x@);
    }
    r
}

/// `str::eq_ignore_ascii_case`.
pub fn eq_ignore_ascii_case(a: &str, b: &str) -> (r: bool)
    ensures
        r == eq_ignore_case(a@, b@),
{
    let x = chars_of(a);
    let y = chars_of(b);
    if x.len() != y.len() {
        return false;
    }
    let mut i: usize = 0;
    while i < x.len()
        invariant
            x@ == a@,
            y@ == b@,
            x@.len() == y@.len(),
            i <= x@.len(),
            forall|k: int| 0 <= k < i ==> char_eq_ignore_case(#[trigger] x@[k], y@[k]),
        decreases x@.len() - i,
    {
        let c = x[i];
        let d = y[i];
        let same = c == d || ('A' <= c && c <= 'Z' && (c as u32) + 32 == d as u32) || ('A' <= d && d
            <= 'Z' && (d as u32) + 32 == c as u32);
        if !same {
            assert(!char_eq_ignore_case(x@[i as int], y@[i as int]));
            return false;
        }
        i = i + 1;
    }
    true
}

} // verus!
