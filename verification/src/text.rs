//! String utilities shared by the dashboard core: case folding, whitespace
//! trimming, substring search, decimal formatting and truncation.
//!
//! Unicode case folding and the Unicode white-space predicate come from the
//! standard library through two trusted wrappers; everything built on top of
//! them is verified against specs phrased over `lower_of` and `is_space`.

use vstd::prelude::*;
use vstd::string::*;

verus! {

// ---------------------------------------------------------------------------
// Case folding (trusted)
// ---------------------------------------------------------------------------

/// The sequence of characters that Unicode lowercasing produces for `s`.
/// The mapping depends on the characters alone.
pub uninterp spec fn lower_of(s: Seq<char>) -> Seq<char>;

/// Relies on `str::to_lowercase`: returns the Unicode lowercase form of the
/// string; the result depends on the characters alone, and an empty string
/// stays empty.
#[verifier::external_body]
pub(crate) fn to_lower(s: &str) -> (r: String)
    ensures
        r@ == lower_of(s@),
        s@.len() == 0 ==> r@.len() == 0,
{
    s.to_lowercase()
}

// ---------------------------------------------------------------------------
// Whitespace (trusted predicate, verified trimming)
// ---------------------------------------------------------------------------

/// Whether `c` has the Unicode `White_Space` property.
pub uninterp spec fn is_space(c: char) -> bool;

/// Relies on `char::is_whitespace`: true exactly on Unicode `White_Space`
/// characters; the result depends on the character alone.
#[verifier::external_body]
pub(crate) fn ws_char(c: char) -> (r: bool)
    ensures
        r == is_space(c),
{
    c.is_whitespace()
}

/// `s` with its leading white space removed.
pub open spec fn trim_front(s: Seq<char>) -> Seq<char>
    decreases s.len(),
{
    if s.len() > 0 && is_space(s[0]) {
        trim_front(s.drop_first())
    } else {
        s
    }
}

/// `s` with its trailing white space removed.
pub open spec fn trim_back(s: Seq<char>) -> Seq<char>
    decreases s.len(),
{
    if s.len() > 0 && is_space(s.last()) {
        trim_back(s.drop_last())
    } else {
        s
    }
}

/// `s` with surrounding white space removed.
pub open spec fn trim_of(s: Seq<char>) -> Seq<char> {
    trim_back(trim_front(s))
}

pub proof fn lemma_trim_front_is_subrange(s: Seq<char>, i: int)
    requires
        0 <= i <= s.len(),
        forall|k: int| 0 <= k < i ==> is_space(s[k]),
        i < s.len() ==> !is_space(s[i]),
    ensures
        trim_front(s) == s.subrange(i, s.len() as int),
    decreases i,
{
    if i == 0 {
        assert(s.subrange(0, s.len() as int) =~= s);
    } else {
        let t = s.drop_first();
        assert(forall|k: int| 0 <= k < i - 1 ==> is_space(#[trigger] t[k]));
        lemma_trim_front_is_subrange(t, i - 1);
        assert(t.subrange(i - 1, t.len() as int) =~= s.subrange(i, s.len() as int));
    }
}

proof fn lemma_trim_back_range(s: Seq<char>, j: int)
    requires
        0 <= j <= s.len(),
        forall|k: int| j <= k < s.len() ==> is_space(s[k]),
        j > 0 ==> !is_space(s[j - 1]),
    ensures
        trim_back(s) == s.subrange(0, j),
    decreases s.len() - j,
{
    if j == s.len() {
        if j == 0 {
            assert(s.subrange(0, 0) =~= s);
        } else {
            assert(s.subrange(0, j) =~= s);
        }
    } else {
        let t = s.drop_last();
        assert(forall|k: int| j <= k < t.len() ==> is_space(#[trigger] t[k]));
        lemma_trim_back_range(t, j);
        assert(t.subrange(0, j) =~= s.subrange(0, j));
    }
}

/// Removes surrounding white space, as `trim_of` describes.
pub fn trim_ws<'a>(s: &'a str) -> (r: &'a str)
    ensures
        r@ == trim_of(s@),
{
    let n = s.unicode_len();
    let mut i: usize = 0;
    while i < n && ws_char(s.get_char(i))
        invariant
            0 <= i <= n,
            n == s@.len(),
            forall|k: int| 0 <= k < i ==> is_space(s@[k]),
        decreases n - i,
    {
        i = i + 1;
    }
    let mut j: usize = n;
    while j > i && ws_char(s.get_char(j - 1))
        invariant
            i <= j <= n,
            n == s@.len(),
            forall|k: int| j <= k < n ==> is_space(s@[k]),
        decreases j,
    {
        j = j - 1;
    }
    proof {
        lemma_trim_front_is_subrange(s@, i as int);
        let t = s@.subrange(i as int, n as int);
        assert(forall|k: int|
            j - i <= k < t.len() ==> is_space(#[trigger] t[k]) == is_space(s@[k + i]));
        lemma_trim_back_range(t, j - i);
        assert(t.subrange(0, j - i) =~= s@.subrange(i as int, j as int));
    }
    s.substring_char(i, j)
}

// ---------------------------------------------------------------------------
// Substring search
// ---------------------------------------------------------------------------

/// `needle` occurs in `hay` starting at position `i`.
pub open spec fn match_at(hay: Seq<char>, needle: Seq<char>, i: int) -> bool {
    0 <= i && i + needle.len() <= hay.len() && hay.subrange(i, i + needle.len()) == needle
}

/// `needle` occurs somewhere in `hay` as a contiguous run of characters.
pub open spec fn contains_sub(hay: Seq<char>, needle: Seq<char>) -> bool {
    exists|i: int| match_at(hay, needle, i)
}

/// A match in `a` is a match in `a + b` at the same position.
pub proof fn lemma_match_left(a: Seq<char>, b: Seq<char>, m: Seq<char>, i: int)
    requires
        match_at(a, m, i),
    ensures
        match_at(a + b, m, i),
{
    assert((a + b).subrange(i, i + m.len() as int) =~= a.subrange(i, i + m.len() as int));
}

/// A match in `b` is a match in `a + b`, shifted past `a`.
pub proof fn lemma_match_right(a: Seq<char>, b: Seq<char>, m: Seq<char>, i: int)
    requires
        match_at(b, m, i),
    ensures
        match_at(a + b, m, a.len() + i),
{
    assert((a + b).subrange(a.len() + i, a.len() + i + m.len() as int) =~= b.subrange(
        i,
        i + m.len() as int,
    ));
}

/// A match inside a contained sequence is a match in the container.
pub proof fn lemma_contains_within(hay: Seq<char>, mid: Seq<char>, m: Seq<char>, i: int)
    requires
        contains_sub(hay, mid),
        match_at(mid, m, i),
    ensures
        contains_sub(hay, m),
{
    let q = choose|q: int| match_at(hay, mid, q);
    assert(hay.subrange(q + i, q + i + m.len() as int) =~= mid.subrange(i, i + m.len() as int))
        by {
        assert(forall|t: int|
            0 <= t < mid.len() ==> #[trigger] hay.subrange(q, q + mid.len() as int)[t] == hay[q
                + t]);
    }
    assert(match_at(hay, m, q + i));
}

/// The empty sequence occurs in every sequence.
pub proof fn lemma_empty_contained(hay: Seq<char>, needle: Seq<char>)
    requires
        needle.len() == 0,
    ensures
        contains_sub(hay, needle),
{
    assert(hay.subrange(0, 0) =~= needle);
    assert(match_at(hay, needle, 0));
}

fn match_at_exec(hay: &str, needle: &str, i: usize) -> (r: bool)
    requires
        i + needle@.len() <= hay@.len(),
    ensures
        r == match_at(hay@, needle@, i as int),
{
    let n = hay.unicode_len();
    let m = needle.unicode_len();
    let mut k: usize = 0;
    while k < m
        invariant
            0 <= k <= m,
            n == hay@.len(),
            m == needle@.len(),
            i + m <= n,
            forall|t: int| 0 <= t < k ==> hay@[i + t] == needle@[t],
        decreases m - k,
    {
        if hay.get_char(i + k) != needle.get_char(k) {
            proof {
                assert(hay@.subrange(i as int, i + m) != needle@) by {
                    assert(hay@.subrange(i as int, i + m)[k as int] == hay@[i + k]);
                }
            }
            return false;
        }
        k = k + 1;
    }
    proof {
        assert(hay@.subrange(i as int, i + m) =~= needle@);
    }
    true
}

/// Finds the first occurrence of `needle` in `hay`, if any.
pub fn find_sub(hay: &str, needle: &str) -> (r: Option<usize>)
    ensures
        match r {
            Some(i) => match_at(hay@, needle@, i as int) && forall|j: int|
                0 <= j < i ==> !match_at(hay@, needle@, j),
            None => !contains_sub(hay@, needle@),
        },
{
    let n = hay.unicode_len();
    let m = needle.unicode_len();
    if m > n {
        return None;
    }
    if m == 0 {
        proof {
            assert(hay@.subrange(0, 0) =~= needle@);
        }
        return Some(0);
    }
    let mut i: usize = 0;
    while i <= n - m
        invariant
            0 <= i <= n - m + 1,
            1 <= m <= n,
            n == hay@.len(),
            m == needle@.len(),
            forall|j: int| 0 <= j < i ==> !match_at(hay@, needle@, j),
        decreases n - i,
    {
        if match_at_exec(hay, needle, i) {
            return Some(i);
        }
        i = i + 1;
    }
    proof {
        assert(forall|j: int| j > n - m ==> !match_at(hay@, needle@, j));
    }
    None
}

/// Whether two strings hold the same characters.
pub fn str_eq(a: &str, b: &str) -> (r: bool)
    ensures
        r == (a@ == b@),
{
    let n = a.unicode_len();
    let m = b.unicode_len();
    if n != m {
        return false;
    }
    let r = match_at_exec(a, b, 0);
    proof {
        if match_at(a@, b@, 0) {
            assert(a@.subrange(0, m as int) =~= a@);
        } else {
            if a@ == b@ {
                assert(a@.subrange(0, m as int) =~= b@);
            }
        }
    }
    r
}

/// Whether `needle` occurs in `hay`.
pub fn contains_sub_exec(hay: &str, needle: &str) -> (r: bool)
    ensures
        r == contains_sub(hay@, needle@),
{
    let found = find_sub(hay, needle);
    match found {
        Some(_) => true,
        None => false,
    }
}

// ---------------------------------------------------------------------------
// Single characters
// ---------------------------------------------------------------------------

/// `c` occurs in `s`.
pub open spec fn has_char(s: Seq<char>, c: char) -> bool {
    exists|i: int| 0 <= i < s.len() && s[i] == c
}

/// Whether the character `c` occurs in `s`.
pub fn contains_char(s: &str, c: char) -> (r: bool)
    ensures
        r == has_char(s@, c),
{
    let n = s.unicode_len();
    let mut i: usize = 0;
    while i < n
        invariant
            0 <= i <= n,
            n == s@.len(),
            forall|k: int| 0 <= k < i ==> s@[k] != c,
        decreases n - i,
    {
        if s.get_char(i) == c {
            return true;
        }
        i = i + 1;
    }
    false
}

// ---------------------------------------------------------------------------
// Decimal formatting
// ---------------------------------------------------------------------------

/// The decimal digit character for `d` in `0 ..= 9`.
pub open spec fn digit_char(d: int) -> char {
    if d == 0 {
        '0'
    } else if d == 1 {
        '1'
    } else if d == 2 {
        '2'
    } else if d == 3 {
        '3'
    } else if d == 4 {
        '4'
    } else if d == 5 {
        '5'
    } else if d == 6 {
        '6'
    } else if d == 7 {
        '7'
    } else if d == 8 {
        '8'
    } else {
        '9'
    }
}

/// The decimal rendering of `n`, without sign or leading zeros.
pub open spec fn dec_str(n: int) -> Seq<char>
    decreases n,
{
    if n < 10 {
        seq![digit_char(n)]
    } else {
        dec_str(n / 10).push(digit_char(n % 10))
    }
}

pub(crate) fn digit_str(d: u64) -> (r: &'static str)
    requires
        d < 10,
    ensures
        r@ == seq![digit_char(d as int)],
{
    proof {
        reveal_strlit("0");
        reveal_strlit("1");
        reveal_strlit("2");
        reveal_strlit("3");
        reveal_strlit("4");
        reveal_strlit("5");
        reveal_strlit("6");
        reveal_strlit("7");
        reveal_strlit("8");
        reveal_strlit("9");
    }
    let r = match d {
        0 => "0",
        1 => "1",
        2 => "2",
        3 => "3",
        4 => "4",
        5 => "5",
        6 => "6",
        7 => "7",
        8 => "8",
        _ => "9",
    };
    proof {
        assert(r@ =~= seq![digit_char(d as int)]);
    }
    r
}

/// Renders `n` in decimal, as `dec_str` describes.
pub fn u64_str(n: u64) -> (r: String)
    ensures
        r@ == dec_str(n as int),
    decreases n,
{
    if n < 10 {
        digit_str(n).to_owned()
    } else {
        let mut s = u64_str(n / 10);
        s.append(digit_str(n % 10));
        proof {
            assert(dec_str((n / 10) as int).push(digit_char((n % 10) as int)) =~= dec_str(
                (n / 10) as int,
            ) + seq![digit_char((n % 10) as int)]);
        }
        s
    }
}

// ---------------------------------------------------------------------------
// Truncation
// ---------------------------------------------------------------------------

/// `s` unchanged when it fits in `max` characters, else its first `max`
/// characters followed by an ellipsis.
pub open spec fn truncated_of(s: Seq<char>, max: int) -> Seq<char> {
    if s.len() <= max {
        s
    } else {
        s.subrange(0, max) + "..."@
    }
}

/// Caps a display string at `max_len` characters, marking cut content with
/// an ellipsis.
pub fn truncate_string(value: &str, max_len: usize) -> (r: String)
    ensures
        r@ == truncated_of(value@, max_len as int),
{
    let n = value.unicode_len();
    if n <= max_len {
        value.to_owned()
    } else {
        let mut s = value.substring_char(0, max_len).to_owned();
        s.append("...");
        s
    }
}

// ---------------------------------------------------------------------------
// Edit buffers (trusted single-character operations)
// ---------------------------------------------------------------------------

/// Relies on `String::push`: appends the character to the end of the string.
#[verifier::external_body]
pub(crate) fn push_char(s: &mut String, c: char)
    ensures
        final(s)@ == old(s)@.push(c),
{
    s.push(c)
}

/// Relies on `String::pop`: removes and returns the last character, or
/// returns `None` and leaves the string unchanged when it is empty.
#[verifier::external_body]
pub(crate) fn pop_char(s: &mut String) -> (r: Option<char>)
    ensures
        old(s)@.len() == 0 ==> final(s)@ == old(s)@ && r is None,
        old(s)@.len() > 0 ==> final(s)@ == old(s)@.drop_last() && r == Some(old(s)@.last()),
{
    s.pop()
}

} // verus!
