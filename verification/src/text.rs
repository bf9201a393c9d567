//! Character-level helpers shared by the parsers: whitespace trimming in the
//! sense of `str::trim`, access to the characters of a string, and building
//! strings character by character.

use vstd::prelude::*;
use vstd::utf8::{decode_utf8, valid_utf8};

verus! {

/// The Unicode `White_Space` property, which is what `char::is_whitespace`
/// (and therefore `str::trim`) tests.
pub open spec fn is_white_space(c: char) -> bool {
    ||| ('\u{9}' <= c && c <= '\u{d}')
    ||| c == ' '
    ||| c == '\u{85}'
    ||| c == '\u{a0}'
    ||| c == '\u{1680}'
    ||| ('\u{2000}' <= c && c <= '\u{200a}')
    ||| c == '\u{2028}'
    ||| c == '\u{2029}'
    ||| c == '\u{202f}'
    ||| c == '\u{205f}'
    ||| c == '\u{3000}'
}

/// Number of white-space characters at the start of `s`.
pub open spec fn leading_white(s: Seq<char>) -> nat
    decreases s.len(),
{
    if s.len() > 0 && is_white_space(s[0]) {
        1 + leading_white(s.drop_first())
    } else {
        0
    }
}

/// Number of white-space characters at the end of `s`.
pub open spec fn trailing_white(s: Seq<char>) -> nat
    decreases s.len(),
{
    if s.len() > 0 && is_white_space(s.last()) {
        1 + trailing_white(s.drop_last())
    } else {
        0
    }
}

/// `s` without its leading and trailing white space, as `str::trim` gives it.
pub open spec fn trim(s: Seq<char>) -> Seq<char> {
    let t = s.skip(leading_white(s) as int);
    t.take(t.len() - trailing_white(t))
}

/// Whether every character of `s` is white space.
pub open spec fn all_white(s: Seq<char>) -> bool {
    forall|i: int| 0 <= i < s.len() ==> is_white_space(#[trigger] s[i])
}

/// Executable form of [`is_white_space`].
pub fn char_is_white_space(c: char) -> (r: bool)
    ensures
        r == is_white_space(c),
{
    ('\u{9}' <= c && c <= '\u{d}') || c == ' ' || c == '\u{85}' || c == '\u{a0}' || c
        == '\u{1680}' || ('\u{2000}' <= c && c <= '\u{200a}') || c == '\u{2028}' || c
        == '\u{2029}' || c == '\u{202f}' || c == '\u{205f}' || c == '\u{3000}'
}

proof fn lemma_trailing_white_bound(s: Seq<char>)
    ensures
        trailing_white(s) <= s.len(),
    decreases s.len(),
{
    if s.len() > 0 && is_white_space(s.last()) {
        lemma_trailing_white_bound(s.drop_last());
    }
}

/// A run of `k` white-space characters that is followed by a non-white
/// character, or by the end, is exactly the leading white space.
proof fn lemma_leading_white_is(s: Seq<char>, k: int)
    requires
        0 <= k <= s.len(),
        forall|i: int| 0 <= i < k ==> is_white_space(#[trigger] s[i]),
        k == s.len() || !is_white_space(s[k]),
    ensures
        leading_white(s) == k,
    decreases k,
{
    if k > 0 {
        let t = s.drop_first();
        assert forall|i: int| 0 <= i < k - 1 implies is_white_space(#[trigger] t[i]) by {
            assert(t[i] == s[i + 1]);
        }
        if k - 1 < t.len() {
            assert(t[k - 1] == s[k]);
        }
        lemma_leading_white_is(t, k - 1);
    }
}

/// Mirror image of [`lemma_leading_white_is`] for the end of `s`.
proof fn lemma_trailing_white_is(s: Seq<char>, k: int)
    requires
        0 <= k <= s.len(),
        forall|i: int| s.len() - k <= i < s.len() ==> is_white_space(#[trigger] s[i]),
        k == s.len() || !is_white_space(s[s.len() - 1 - k]),
    ensures
        trailing_white(s) == k,
    decreases k,
{
    if k > 0 {
        let t = s.drop_last();
        assert forall|i: int| t.len() - (k - 1) <= i < t.len() implies is_white_space(
            #[trigger] t[i],
        ) by {
            assert(t[i] == s[i]);
        }
        if k - 1 < t.len() {
            assert(t[t.len() - 1 - (k - 1)] == s[s.len() - 1 - k]);
        }
        lemma_trailing_white_is(t, k - 1);
    }
}

proof fn lemma_leading_white_append(w: Seq<char>, t: Seq<char>)
    requires
        all_white(w),
    ensures
        leading_white(w + t) == w.len() + leading_white(t),
    decreases w.len(),
{
    if w.len() > 0 {
        assert((w + t)[0] == w[0]);
        assert((w + t).drop_first() =~= w.drop_first() + t);
        assert forall|i: int| 0 <= i < w.drop_first().len() implies is_white_space(
            #[trigger] w.drop_first()[i],
        ) by {
            assert(w.drop_first()[i] == w[i + 1]);
        }
        lemma_leading_white_append(w.drop_first(), t);
    } else {
        assert(w + t =~= t);
    }
}

proof fn lemma_leading_white_stops(s: Seq<char>, t: Seq<char>)
    requires
        !all_white(s),
    ensures
        leading_white(s) < s.len(),
        leading_white(s + t) == leading_white(s),
    decreases s.len(),
{
    assert(s.len() > 0);
    assert((s + t)[0] == s[0]);
    if is_white_space(s[0]) {
        assert(!all_white(s.drop_first())) by {
            if all_white(s.drop_first()) {
                assert forall|i: int| 0 <= i < s.len() implies is_white_space(#[trigger] s[i]) by {
                    if i > 0 {
                        assert(s[i] == s.drop_first()[i - 1]);
                    }
                }
            }
        }
        assert((s + t).drop_first() =~= s.drop_first() + t);
        lemma_leading_white_stops(s.drop_first(), t);
    }
}

proof fn lemma_trailing_white_append(t: Seq<char>, w: Seq<char>)
    requires
        all_white(w),
    ensures
        trailing_white(t + w) == w.len() + trailing_white(t),
    decreases w.len(),
{
    if w.len() > 0 {
        assert((t + w).last() == w.last());
        assert((t + w).drop_last() =~= t + w.drop_last());
        assert forall|i: int| 0 <= i < w.drop_last().len() implies is_white_space(
            #[trigger] w.drop_last()[i],
        ) by {
            assert(w.drop_last()[i] == w[i]);
        }
        lemma_trailing_white_append(t, w.drop_last());
    } else {
        assert(t + w =~= t);
    }
}

/// White space around a text does not change what the text trims to.
pub proof fn trim_ignores_surrounding_white_space(before: Seq<char>, s: Seq<char>, after: Seq<char>)
    requires
        all_white(before),
        all_white(after),
    ensures
        trim(before + s + after) == trim(s),
{
    let x = before + s + after;
    assert(x =~= before + (s + after));
    lemma_leading_white_append(before, s + after);
    if all_white(s) {
        assert(all_white(s + after)) by {
            assert forall|i: int| 0 <= i < (s + after).len() implies is_white_space(
                #[trigger] (s + after)[i],
            ) by {
                if i < s.len() {
                    assert((s + after)[i] == s[i]);
                } else {
                    assert((s + after)[i] == after[i - s.len()]);
                }
            }
        }
        lemma_leading_white_append(s + after, Seq::<char>::empty());
        assert(s + after + Seq::<char>::empty() =~= s + after);
        lemma_leading_white_append(s, Seq::<char>::empty());
        assert(s + Seq::<char>::empty() =~= s);
        assert(x.skip(leading_white(x) as int).len() == 0);
        assert(s.skip(leading_white(s) as int).len() == 0);
        assert(trim(x) =~= trim(s));
    } else {
        lemma_leading_white_stops(s, after);
        let a = leading_white(s) as int;
        let u = s.skip(a);
        assert(x.skip(leading_white(x) as int) =~= u + after);
        lemma_trailing_white_append(u, after);
        lemma_trailing_white_bound(u);
        assert((u + after).take((u + after).len() - trailing_white(u + after)) =~= u.take(
            u.len() - trailing_white(u),
        ));
    }
}

proof fn lemma_leading_white_facts(s: Seq<char>)
    ensures
        leading_white(s) <= s.len(),
        forall|i: int| 0 <= i < leading_white(s) ==> is_white_space(#[trigger] s[i]),
        leading_white(s) < s.len() ==> !is_white_space(s[leading_white(s) as int]),
    decreases s.len(),
{
    if s.len() > 0 && is_white_space(s[0]) {
        let t = s.drop_first();
        lemma_leading_white_facts(t);
        assert forall|i: int| 0 <= i < leading_white(s) implies is_white_space(#[trigger] s[i]) by {
            if i > 0 {
                assert(s[i] == t[i - 1]);
            }
        }
        if leading_white(s) < s.len() {
            assert(s[leading_white(s) as int] == t[leading_white(t) as int]);
        }
    }
}

proof fn lemma_trailing_white_facts(s: Seq<char>)
    ensures
        trailing_white(s) <= s.len(),
        forall|i: int| s.len() - trailing_white(s) <= i < s.len() ==> is_white_space(#[trigger] s[i]),
        trailing_white(s) < s.len() ==> !is_white_space(s[s.len() - 1 - trailing_white(s)]),
    decreases s.len(),
{
    if s.len() > 0 && is_white_space(s.last()) {
        let t = s.drop_last();
        lemma_trailing_white_facts(t);
        assert forall|i: int| s.len() - trailing_white(s) <= i < s.len() implies is_white_space(
            #[trigger] s[i],
        ) by {
            if i < s.len() - 1 {
                assert(s[i] == t[i]);
            }
        }
        if trailing_white(s) < s.len() {
            assert(s[s.len() - 1 - trailing_white(s)] == t[t.len() - 1 - trailing_white(t)]);
        }
    }
}

/// Trimming removes white space from the two ends and nothing else: the
/// text is its leading white space, the trimmed text and its trailing white
/// space, in that order; and a trimmed text that is not empty neither
/// starts nor ends with white space.
pub proof fn trim_removes_only_end_white_space(s: Seq<char>)
    ensures
        leading_white(s) + trim(s).len() <= s.len(),
        all_white(s.take(leading_white(s) as int)),
        all_white(s.skip((leading_white(s) + trim(s).len()) as int)),
        s == s.take(leading_white(s) as int) + trim(s) + s.skip((leading_white(s) + trim(s).len()) as int),
        trim(s).len() > 0 ==> !is_white_space(trim(s)[0]) && !is_white_space(trim(s).last()),
{
    lemma_leading_white_facts(s);
    let l = leading_white(s) as int;
    let t = s.skip(l);
    lemma_trailing_white_facts(t);
    let n = t.len() - trailing_white(t);
    assert(trim(s) =~= t.take(n));
    assert forall|i: int| 0 <= i < s.take(l).len() implies is_white_space(#[trigger] s.take(l)[i]) by {
        assert(s.take(l)[i] == s[i]);
    }
    assert forall|i: int| 0 <= i < s.skip(l + n).len() implies is_white_space(
        #[trigger] s.skip(l + n)[i],
    ) by {
        assert(s.skip(l + n)[i] == t[n + i]);
    }
    assert(s =~= s.take(l) + trim(s) + s.skip(l + n));
    if n > 0 {
        assert(trim(s)[0] == t[0]);
        assert(t[0] == s[l]);
        assert(trim(s).last() == t[t.len() - 1 - trailing_white(t)]);
    }
}

/// The characters of `s`, one per element.
pub fn chars_of(s: &str) -> (v: Vec<char>)
    ensures
        v@ == s@,
{
    let mut v: Vec<char> = Vec::new();
    for c in it: s.chars()
        invariant
            v@ == it.seq().take(it.index() as int),
    {
        v.push(c);
    }
    v
}

/// The bounds `(a, b)` of the trimmed part of `v[lo..hi]`: `v[a..b]` is
/// `trim(v[lo..hi])`.
pub fn trim_range(v: &Vec<char>, lo: usize, hi: usize) -> (r: (usize, usize))
    requires
        lo <= hi <= v.len(),
    ensures
        lo <= r.0 <= r.1 <= hi,
        v@.subrange(r.0 as int, r.1 as int) == trim(v@.subrange(lo as int, hi as int)),
{
    let ghost s = v@.subrange(lo as int, hi as int);
    let mut a: usize = lo;
    while a < hi && char_is_white_space(v[a])
        invariant
            lo <= a <= hi <= v.len(),
            forall|i: int| lo <= i < a ==> is_white_space(#[trigger] v@[i]),
        decreases hi - a,
    {
        a = a + 1;
    }
    proof {
        assert forall|i: int| 0 <= i < a - lo implies is_white_space(#[trigger] s[i]) by {
            assert(s[i] == v@[lo + i]);
        }
        if a < hi {
            assert(s[a - lo] == v@[a as int]);
        }
        lemma_leading_white_is(s, a - lo);
    }
    let mut b: usize = hi;
    while b > a && char_is_white_space(v[b - 1])
        invariant
            lo <= a <= b <= hi <= v.len(),
            forall|i: int| b <= i < hi ==> is_white_space(#[trigger] v@[i]),
        decreases b,
    {
        b = b - 1;
    }
    proof {
        let t = s.skip(a - lo);
        assert(t =~= v@.subrange(a as int, hi as int));
        let k = (hi - b) as int;
        assert forall|i: int| t.len() - k <= i < t.len() implies is_white_space(#[trigger] t[i]) by {
            assert(t[i] == v@[i + a]);
        }
        if k < t.len() {
            assert(t[t.len() - 1 - k] == v@[b - 1]);
        }
        lemma_trailing_white_is(t, k);
        assert(v@.subrange(a as int, b as int) =~= t.take(t.len() - k));
    }
    (a, b)
}

/// Appends `c` to `s` (`String::push`).
#[verifier::external_body]
pub(crate) fn push_char(s: &mut String, c: char)
    ensures
        final(s)@ == old(s)@.push(c),
{
    s.push(c)
}

/// Decodes `bytes` as UTF-8 (`String::from_utf8`): `None` exactly when the
/// bytes are not valid UTF-8, else the decoded characters.
#[verifier::external_body]
pub(crate) fn utf8_to_string(bytes: Vec<u8>) -> (r: Option<String>)
    ensures
        r is Some <==> valid_utf8(bytes@),
        r matches Some(s) ==> s@ == decode_utf8(bytes@),
{
    String::from_utf8(bytes).ok()
}

/// The string made of the characters `v[lo..hi]`.
pub fn string_of(v: &Vec<char>, lo: usize, hi: usize) -> (s: String)
    requires
        lo <= hi <= v.len(),
    ensures
        s@ == v@.subrange(lo as int, hi as int),
{
    let mut s = String::new();
    let mut i = lo;
    while i < hi
        invariant
            lo <= i <= hi <= v.len(),
            s@ == v@.subrange(lo as int, i as int),
        decreases hi - i,
    {
        push_char(&mut s, v[i]);
        assert(v@.subrange(lo as int, i + 1) =~= v@.subrange(lo as int, i as int).push(v@[i as int]));
        i = i + 1;
    }
    s
}

/// Whether `v[lo..hi]` spells `word`.
pub fn spells(v: &Vec<char>, lo: usize, hi: usize, word: &str) -> (r: bool)
    requires
        lo <= hi <= v.len(),
    ensures
        r == (v@.subrange(lo as int, hi as int) == word@),
{
    let w = chars_of(word);
    if hi - lo != w.len() {
        assert(v@.subrange(lo as int, hi as int).len() != word@.len());
        assert(v@.subrange(lo as int, hi as int) != word@);
        return false;
    }
    let mut i: usize = 0;
    while i < w.len()
        invariant
            lo <= hi <= v.len(),
            hi - lo == w.len(),
            w@ == word@,
            i <= w.len(),
            forall|j: int| 0 <= j < i ==> v@[lo + j] == w@[j],
        decreases w.len() - i,
    {
        if v[lo + i] != w[i] {
            assert(v@.subrange(lo as int, hi as int)[i as int] != w@[i as int]);
            return false;
        }
        i = i + 1;
    }
    assert(v@.subrange(lo as int, hi as int) =~= w@);
    true
}

} // verus!
