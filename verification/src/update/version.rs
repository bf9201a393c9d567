//! Release versions: `major.minor.patch`, their order, their text, and the
//! version of this build.

use vstd::prelude::*;
use crate::text::{chars_of, push_char};

verus! {

/// A release version.
#[derive(Debug, Clone, Copy, PartialEq, Eq, Structural)]
pub struct Version {
    pub major: u32,
    pub minor: u32,
    pub patch: u32,
}

/// `a` comes strictly before `b`, comparing major, then minor, then patch.
pub open spec fn version_lt(a: Version, b: Version) -> bool {
    ||| a.major < b.major
    ||| (a.major == b.major && a.minor < b.minor)
    ||| (a.major == b.major && a.minor == b.minor && a.patch < b.patch)
}

/// The version of the running build.
pub open spec fn current_version() -> Version {
    Version { major: 1, minor: 16, patch: 0 }
}

/// A decimal digit.
pub open spec fn is_digit(c: char) -> bool {
    '0' <= c && c <= '9'
}

/// The value of a decimal digit.
pub open spec fn digit_value(c: char) -> nat {
    (c as int - '0' as int) as nat
}

/// The character of a digit value below ten.
pub open spec fn digit_char(d: nat) -> char {
    ((d + 48) as u8) as char
}

/// The value of a run of decimal digits (zero for the empty run).
pub open spec fn digits_value(s: Seq<char>) -> nat
    decreases s.len(),
{
    if s.len() == 0 {
        0
    } else {
        digits_value(s.drop_last()) * 10 + digit_value(s.last())
    }
}

/// A non-empty run of decimal digits whose value fits in a `u32`.
pub open spec fn is_number(s: Seq<char>) -> bool {
    &&& s.len() > 0
    &&& forall|i: int| 0 <= i < s.len() ==> is_digit(#[trigger] s[i])
    &&& digits_value(s) <= u32::MAX
}

/// The decimal text of `n`, without leading zeros.
pub open spec fn decimal(n: nat) -> Seq<char>
    decreases n,
{
    if n < 10 {
        seq![digit_char(n)]
    } else {
        decimal(n / 10).push(digit_char(n % 10))
    }
}

/// The index of the first `c` in `s`, or `s.len()` where there is none.
pub open spec fn first_index(s: Seq<char>, c: char) -> int
    decreases s.len(),
{
    if s.len() == 0 {
        0
    } else if s[0] == c {
        0
    } else {
        1 + first_index(s.drop_first(), c)
    }
}

/// The version that `s` spells as `major.minor.patch`: three dot-separated
/// runs of decimal digits, each fitting in a `u32`, and nothing else.
pub open spec fn parse_version(s: Seq<char>) -> Option<Version> {
    let i = first_index(s, '.');
    if i >= s.len() {
        None
    } else {
        let a = s.take(i);
        let rest = s.skip(i + 1);
        let j = first_index(rest, '.');
        if j >= rest.len() {
            None
        } else {
            let b = rest.take(j);
            let c = rest.skip(j + 1);
            if is_number(a) && is_number(b) && is_number(c) {
                Some(
                    Version {
                        major: digits_value(a) as u32,
                        minor: digits_value(b) as u32,
                        patch: digits_value(c) as u32,
                    },
                )
            } else {
                None
            }
        }
    }
}

/// The text of a version, `major.minor.patch` in decimal.
pub open spec fn version_text(v: Version) -> Seq<char> {
    decimal(v.major as nat) + seq!['.'] + decimal(v.minor as nat) + seq!['.'] + decimal(
        v.patch as nat,
    )
}

/// The version of the running build.
pub fn current() -> (v: Version)
    ensures
        v == current_version(),
{
    Version { major: 1, minor: 16, patch: 0 }
}

/// Whether `a` comes strictly before `b`.
pub fn is_before(a: Version, b: Version) -> (r: bool)
    ensures
        r == version_lt(a, b),
{
    a.major < b.major || (a.major == b.major && a.minor < b.minor) || (a.major == b.major
        && a.minor == b.minor && a.patch < b.patch)
}

/// `v` itself where it is newer than the running build, else nothing.
pub fn newer_than_current(v: Version) -> (r: Option<Version>)
    ensures
        r == (if version_lt(current_version(), v) {
            Some(v)
        } else {
            None
        }),
{
    if is_before(current(), v) {
        Some(v)
    } else {
        None
    }
}

proof fn lemma_digit_char(d: nat)
    requires
        d < 10,
    ensures
        is_digit(digit_char(d)),
        digit_value(digit_char(d)) == d,
        digit_char(d) != '.',
{
    assert(((d + 48) as u8) as char == digit_char(d));
    assert((((d + 48) as u8) as char) as int == d + 48);
}

proof fn lemma_decimal(n: nat)
    ensures
        decimal(n).len() > 0,
        forall|i: int| 0 <= i < decimal(n).len() ==> is_digit(#[trigger] decimal(n)[i]),
        digits_value(decimal(n)) == n,
    decreases n,
{
    lemma_digit_char(n % 10);
    if n < 10 {
        assert(decimal(n).drop_last() =~= Seq::<char>::empty());
        assert(decimal(n).last() == digit_char(n));
        assert(digits_value(decimal(n).drop_last()) == 0);
        assert(digits_value(decimal(n)) == digit_value(digit_char(n)));
    } else {
        lemma_decimal(n / 10);
        assert(decimal(n).drop_last() =~= decimal(n / 10));
        assert(decimal(n).last() == digit_char(n % 10));
        assert(n == (n / 10) * 10 + n % 10);
        assert(digits_value(decimal(n)) == digits_value(decimal(n / 10)) * 10 + digit_value(
            digit_char(n % 10),
        ));
    }
}

proof fn lemma_first_index_after_digits(d: Seq<char>, rest: Seq<char>)
    requires
        forall|i: int| 0 <= i < d.len() ==> is_digit(#[trigger] d[i]),
    ensures
        first_index(d + seq!['.'] + rest, '.') == d.len(),
    decreases d.len(),
{
    let s = d + seq!['.'] + rest;
    if d.len() == 0 {
        assert(s[0] == '.');
    } else {
        assert(s[0] == d[0]);
        assert(is_digit(d[0]));
        let t = d.drop_first();
        assert forall|i: int| 0 <= i < t.len() implies is_digit(#[trigger] t[i]) by {
            assert(t[i] == d[i + 1]);
        }
        lemma_first_index_after_digits(t, rest);
        assert(s.drop_first() =~= t + seq!['.'] + rest);
    }
}

/// Reading back the text of a version gives the version: what is persisted
/// as text reloads as the same release.
pub proof fn version_text_parses_back(v: Version)
    ensures
        parse_version(version_text(v)) == Some(v),
{
    lemma_decimal(v.major as nat);
    lemma_decimal(v.minor as nat);
    lemma_decimal(v.patch as nat);
    lemma_parse_of_parts(decimal(v.major as nat), decimal(v.minor as nat), decimal(v.patch as nat));
    assert(version_text(v) =~= decimal(v.major as nat) + seq!['.'] + (decimal(v.minor as nat)
        + seq!['.'] + decimal(v.patch as nat)));
}

proof fn lemma_parse_of_parts(a: Seq<char>, b: Seq<char>, c: Seq<char>)
    requires
        is_number(a),
        is_number(b),
        is_number(c),
    ensures
        parse_version(a + seq!['.'] + (b + seq!['.'] + c)) == Some(
            Version {
                major: digits_value(a) as u32,
                minor: digits_value(b) as u32,
                patch: digits_value(c) as u32,
            },
        ),
{
    let rest = b + seq!['.'] + c;
    let s = a + seq!['.'] + rest;
    lemma_first_index_after_digits(a, rest);
    assert(s.take(a.len() as int) =~= a);
    assert(s.skip(a.len() as int + 1) =~= rest);
    lemma_first_index_after_digits(b, c);
    assert(rest.take(b.len() as int) =~= b);
    assert(rest.skip(b.len() as int + 1) =~= c);
}

proof fn lemma_digits_value_prefix(s: Seq<char>, k: int)
    requires
        0 <= k <= s.len(),
    ensures
        digits_value(s.take(k)) <= digits_value(s),
    decreases s.len(),
{
    if k < s.len() {
        lemma_digits_value_prefix(s.drop_last(), k);
        assert(s.drop_last().take(k) =~= s.take(k));
    } else {
        assert(s.take(k) =~= s);
    }
}

/// The character of the digit `d`.
fn digit_to_char(d: u32) -> (c: char)
    requires
        d < 10,
    ensures
        c == digit_char(d as nat),
{
    ((d as u8) + 48) as char
}

/// Appends the decimal text of `n` to `s`.
fn push_decimal(s: &mut String, n: u32)
    ensures
        final(s)@ == old(s)@ + decimal(n as nat),
    decreases n,
{
    if n >= 10 {
        push_decimal(s, n / 10);
    }
    push_char(s, digit_to_char(n % 10));
    proof {
        if n >= 10 {
            assert(decimal(n as nat) == decimal((n / 10) as nat).push(digit_char((n % 10) as nat)));
        }
    }
}

/// The index of the first `c` in `v[from..to]`, counted from the start of
/// `v`, or `to` where there is none.
pub fn find_between(v: &Vec<char>, from: usize, to: usize, c: char) -> (r: usize)
    requires
        from <= to <= v.len(),
    ensures
        r == from + first_index(v@.subrange(from as int, to as int), c),
        from <= r <= to,
{
    let mut k = from;
    while k < to && v[k] != c
        invariant
            from <= k <= to <= v.len(),
            first_index(v@.subrange(from as int, to as int), c) == (k - from) + first_index(
                v@.subrange(k as int, to as int),
                c,
            ),
        decreases to - k,
    {
        assert(v@.subrange(k as int, to as int).drop_first() =~= v@.subrange(k + 1, to as int));
        k = k + 1;
    }
    proof {
        lemma_first_index_bound(v@.subrange(k as int, to as int), c);
    }
    k
}

pub proof fn lemma_first_index_bound(s: Seq<char>, c: char)
    ensures
        0 <= first_index(s, c) <= s.len(),
        first_index(s, c) < s.len() ==> s[first_index(s, c)] == c,
    decreases s.len(),
{
    if s.len() > 0 && s[0] != c {
        lemma_first_index_bound(s.drop_first(), c);
    }
}

/// The number that `v[lo..hi]` spells, if it is one.
fn number_in(v: &Vec<char>, lo: usize, hi: usize) -> (r: Option<u32>)
    requires
        lo <= hi <= v.len(),
    ensures
        r == (if is_number(v@.subrange(lo as int, hi as int)) {
            Some(digits_value(v@.subrange(lo as int, hi as int)) as u32)
        } else {
            None
        }),
{
    let ghost s = v@.subrange(lo as int, hi as int);
    if lo == hi {
        return None;
    }
    let mut acc: u32 = 0;
    let mut k = lo;
    while k < hi
        invariant
            lo <= k <= hi <= v.len(),
            s == v@.subrange(lo as int, hi as int),
            forall|i: int| lo <= i < k ==> is_digit(#[trigger] v@[i]),
            acc as nat == digits_value(v@.subrange(lo as int, k as int)),
        decreases hi - k,
    {
        let c = v[k];
        if !('0' <= c && c <= '9') {
            assert(s[k - lo] == c);
            return None;
        }
        let d: u32 = (c as u32) - ('0' as u32);
        assert(v@.subrange(lo as int, k + 1).drop_last() =~= v@.subrange(lo as int, k as int));
        if (acc as u64) * 10 + (d as u64) > u32::MAX as u64 {
            proof {
                assert(s.take(k + 1 - lo) =~= v@.subrange(lo as int, k + 1));
                lemma_digits_value_prefix(s, k + 1 - lo);
            }
            return None;
        }
        acc = acc * 10 + d;
        k = k + 1;
    }
    assert(v@.subrange(lo as int, k as int) =~= s);
    assert forall|i: int| 0 <= i < s.len() implies is_digit(#[trigger] s[i]) by {
        assert(s[i] == v@[lo + i]);
    }
    Some(acc)
}

/// Parses the characters `v[lo..hi]` as `major.minor.patch`.
pub fn parse_range(v: &Vec<char>, lo: usize, hi: usize) -> (r: Option<Version>)
    requires
        lo <= hi <= v.len(),
    ensures
        r == parse_version(v@.subrange(lo as int, hi as int)),
{
    let ghost s = v@.subrange(lo as int, hi as int);
    let i = find_between(v, lo, hi, '.');
    if i >= hi {
        return None;
    }
    let j = find_between(v, i + 1, hi, '.');
    let ghost rest = s.skip(i - lo + 1);
    assert(rest =~= v@.subrange(i + 1, hi as int));
    if j >= hi {
        return None;
    }
    assert(s.take(i - lo) =~= v@.subrange(lo as int, i as int));
    assert(rest.take(j - i - 1) =~= v@.subrange(i + 1, j as int));
    assert(rest.skip(j - i) =~= v@.subrange(j + 1, hi as int));
    let a = number_in(v, lo, i);
    let b = number_in(v, i + 1, j);
    let c = number_in(v, j + 1, hi);
    match (a, b, c) {
        (Some(a), Some(b), Some(c)) => Some(Version { major: a, minor: b, patch: c }),
        _ => None,
    }
}

impl Version {
    /// Parses `major.minor.patch`.
    pub fn parse(s: &str) -> (r: Option<Version>)
        ensures
            r == parse_version(s@),
    {
        let v = chars_of(s);
        assert(v@.subrange(0, v@.len() as int) =~= v@);
        parse_range(&v, 0, v.len())
    }

    /// The text of the version, `major.minor.patch`.
    pub fn to_string(&self) -> (s: String)
        ensures
            s@ == version_text(*self),
    {
        let mut s = String::new();
        push_decimal(&mut s, self.major);
        push_char(&mut s, '.');
        push_decimal(&mut s, self.minor);
        push_char(&mut s, '.');
        push_decimal(&mut s, self.patch);
        s
    }
}

/// Versions are ordered as releases are: by major, then minor, then patch.
/// A higher major, or an equal major and a higher minor, or equal major and
/// minor and a higher patch, comes later; the order is strict, transitive
/// and total, so of two different versions exactly one comes first.
pub proof fn versions_are_in_release_order(a: Version, b: Version, c: Version)
    ensures
        a.major < b.major ==> version_lt(a, b),
        a.major == b.major && a.minor < b.minor ==> version_lt(a, b),
        a.major == b.major && a.minor == b.minor && a.patch < b.patch ==> version_lt(a, b),
        !version_lt(a, a),
        version_lt(a, b) ==> !version_lt(b, a),
        version_lt(a, b) && version_lt(b, c) ==> version_lt(a, c),
        a != b ==> version_lt(a, b) || version_lt(b, a),
{
}

} // verus!
