//! Release details: which cached details may still be shown, and which
//! sections of a changelog describe the releases between this build and the
//! detected one.

use vstd::prelude::*;
use crate::text::{chars_of, push_char};
use super::version::{
    Version, find_between, first_index, is_before, parse_range, parse_version, version_lt,
    lemma_first_index_bound,
};

verus! {

/// The largest release-details text, in bytes, that is kept and shown.
pub const MAX_DETAILS_BYTES: usize = 65536;

/// Release details tied to the release they were taken for.
#[derive(Debug, PartialEq, Eq)]
pub struct CachedReleaseDetails {
    /// The release the details belong to.
    pub release: Version,
    /// The changelog text shown for that release.
    pub details: String,
}

impl Clone for CachedReleaseDetails {
    fn clone(&self) -> (c: CachedReleaseDetails)
        ensures
            c@ == self@,
    {
        CachedReleaseDetails { release: self.release, details: self.details.clone() }
    }
}

/// Release details, as values.
pub struct CachedReleaseDetailsView {
    pub release: Version,
    pub details: Seq<char>,
}

impl View for CachedReleaseDetails {
    type V = CachedReleaseDetailsView;

    open spec fn view(&self) -> CachedReleaseDetailsView {
        CachedReleaseDetailsView { release: self.release, details: self.details@ }
    }
}

/// What becomes of release details for a detected release.
pub enum CachedReleaseDetailsDecision<'a> {
    /// The cached details belong to the detected release and stay.
    Cached(&'a CachedReleaseDetails),
    /// Nothing newer than this build is detected: no details at all.
    Hidden,
    /// A newer release is detected and no details are held for it.
    Fetch(Version),
}

/// Decides over cached details: `Hidden` when no release newer than
/// `current` is detected, `Cached` when the cached details belong to the
/// detected release, `Fetch` of the detected release otherwise.
pub fn cached_release_details<'a>(
    current: Version,
    detected: Option<Version>,
    cached: Option<&'a CachedReleaseDetails>,
) -> (r: CachedReleaseDetailsDecision<'a>)
    ensures
        (r is Hidden) <==> (detected is None || !version_lt(current, detected->0)),
        r matches CachedReleaseDetailsDecision::Cached(c) ==> cached == Some(c) && detected == Some(
            c.release,
        ),
        r matches CachedReleaseDetailsDecision::Fetch(v) ==> detected == Some(v) && !(
        cached matches Some(c) && c.release == v),
        !(r is Hidden) ==> ((r is Cached) <==> (cached matches Some(c) && detected == Some(
            c.release,
        ))),
{
    match detected {
        None => CachedReleaseDetailsDecision::Hidden,
        Some(d) => {
            if !is_before(current, d) {
                CachedReleaseDetailsDecision::Hidden
            } else {
                match cached {
                    Some(c) => {
                        if c.release == d {
                            CachedReleaseDetailsDecision::Cached(c)
                        } else {
                            CachedReleaseDetailsDecision::Fetch(d)
                        }
                    },
                    None => CachedReleaseDetailsDecision::Fetch(d),
                }
            }
        },
    }
}

/// The start of a section heading: `## [` at the start of a line.
pub open spec fn heading_at(s: Seq<char>, k: int) -> bool {
    &&& 0 <= k
    &&& k + 4 <= s.len()
    &&& (k == 0 || s[k - 1] == '\n')
    &&& s.subrange(k, k + 4) == seq!['#', '#', ' ', '[']
}

/// The first heading at or after `k`, or `s.len()` where there is none.
pub open spec fn next_heading(s: Seq<char>, k: int) -> int
    decreases s.len() - k,
{
    if k >= s.len() {
        s.len() as int
    } else if heading_at(s, k) {
        k
    } else {
        next_heading(s, k + 1)
    }
}

/// The version a section's heading names: the text between `## [` and the
/// first `]`.
pub open spec fn section_version(sec: Seq<char>) -> Option<Version> {
    if sec.len() < 4 {
        None
    } else {
        let r = sec.skip(4);
        let e = first_index(r, ']');
        if e < r.len() {
            parse_version(r.take(e))
        } else {
            None
        }
    }
}

/// A release after `current` and no later than `detected`.
pub open spec fn in_window(current: Version, detected: Version, v: Version) -> bool {
    version_lt(current, v) && !version_lt(detected, v)
}

/// The eligible sections of `s` from the heading at `k` on, concatenated in
/// order. A section runs from its heading to the next heading or the end.
pub open spec fn eligible_from(s: Seq<char>, k: int, current: Version, detected: Version) -> Seq<
    char,
>
    decreases s.len() - k,
{
    if k < 0 || k >= s.len() {
        seq![]
    } else {
        let e = next_heading(s, k + 1);
        proof {
            lemma_next_heading_bounds(s, k + 1);
        }
        let sec = s.subrange(k, e);
        let rest = eligible_from(s, e, current, detected);
        match section_version(sec) {
            Some(v) => if in_window(current, detected, v) {
                sec + rest
            } else {
                rest
            },
            None => rest,
        }
    }
}

/// The changelog sections of the releases after `current` up to and
/// including `detected`, in changelog order, with their exact text.
pub open spec fn eligible_release_text(s: Seq<char>, current: Version, detected: Version) -> Seq<
    char,
> {
    eligible_from(s, next_heading(s, 0), current, detected)
}

pub proof fn lemma_next_heading_bounds(s: Seq<char>, k: int)
    requires
        0 <= k,
    ensures
        k <= next_heading(s, k) || (k > s.len() && next_heading(s, k) == s.len()),
        next_heading(s, k) <= s.len() || k > s.len(),
        next_heading(s, k) < s.len() ==> heading_at(s, next_heading(s, k)),
    decreases s.len() - k,
{
    if k < s.len() && !heading_at(s, k) {
        lemma_next_heading_bounds(s, k + 1);
    }
}

/// Between `j` and the heading found from `j` there is no heading.
proof fn lemma_no_heading_before_next(s: Seq<char>, j: int, i: int)
    requires
        0 <= j <= i < next_heading(s, j),
    ensures
        !heading_at(s, i),
    decreases s.len() - j,
{
    if j < s.len() && !heading_at(s, j) && i > j {
        lemma_no_heading_before_next(s, j + 1, i);
    }
}

/// A position with no heading from `j` up to it, at which there is a heading
/// or the end, is the heading found from `j`.
proof fn lemma_next_heading_is(s: Seq<char>, j: int, m: int)
    requires
        0 <= j <= m <= s.len(),
        forall|i: int| j <= i < m ==> !#[trigger] heading_at(s, i),
        m == s.len() || heading_at(s, m),
    ensures
        next_heading(s, j) == m,
    decreases m - j,
{
    if j < m {
        lemma_next_heading_is(s, j + 1, m);
    }
}

/// A heading spans `## [`, which holds no line break, so no other heading
/// starts within its first four characters.
proof fn lemma_heading_is_not_followed_closely(s: Seq<char>, k: int, i: int)
    requires
        heading_at(s, k),
        k < i < k + 4,
    ensures
        !heading_at(s, i),
{
    assert(s[i - 1] == s.subrange(k, k + 4)[i - 1 - k]);
}

/// Headings after a prefix that ends a line are the headings of the rest,
/// shifted; so are the eligible sections.
proof fn lemma_shift(p: Seq<char>, r: Seq<char>, j: int, current: Version, detected: Version)
    requires
        0 <= j <= r.len(),
        r.len() == 0 || p.len() == 0 || p.last() == '\n',
    ensures
        next_heading(p + r, p.len() + j) == p.len() + next_heading(r, j),
        eligible_from(p + r, p.len() + j, current, detected) == eligible_from(
            r,
            j,
            current,
            detected,
        ),
    decreases r.len() - j,
{
    let t = p + r;
    let k = p.len() + j;
    if j < r.len() {
        lemma_shift(p, r, j + 1, current, detected);
        assert(heading_at(t, k) == heading_at(r, j)) by {
            if k + 4 <= t.len() {
                assert(t.subrange(k, k + 4) =~= r.subrange(j, j + 4));
            }
            if j > 0 {
                assert(t[k - 1] == r[j - 1]);
            } else if p.len() > 0 {
                assert(t[k - 1] == p.last());
            }
        }
        lemma_next_heading_bounds(r, j + 1);
        let e = next_heading(r, j + 1);
        if e <= r.len() {
            lemma_shift(p, r, e, current, detected);
            assert(t.subrange(k, p.len() + e) =~= r.subrange(j, e));
        }
    }
}

/// The eligible sections from a heading (or the end) start with a heading
/// (or are empty), and taking the eligible sections of them again gives
/// them back unchanged.
proof fn lemma_eligible_structure(s: Seq<char>, k: int, current: Version, detected: Version)
    requires
        0 <= k,
        k >= s.len() || heading_at(s, k),
    ensures
        ({
            let t = eligible_from(s, k, current, detected);
            &&& t.len() == 0 || heading_at(t, 0)
            &&& eligible_from(t, 0, current, detected) == t
        }),
    decreases s.len() - k,
{
    if k < s.len() {
        lemma_next_heading_bounds(s, k + 1);
        let e = next_heading(s, k + 1);
        assert(k + 4 <= e) by {
            if e < k + 4 {
                if e < s.len() {
                    lemma_heading_is_not_followed_closely(s, k, e);
                } else {
                    assert(k + 4 <= s.len());
                }
            }
        }
        lemma_eligible_structure(s, e, current, detected);
        let sec = s.subrange(k, e);
        let rest = eligible_from(s, e, current, detected);
        let t = eligible_from(s, k, current, detected);
        if t != rest {
            assert(t == sec + rest);
            assert(sec.subrange(0, 4) =~= s.subrange(k, k + 4));
            assert(t.subrange(0, 4) =~= sec.subrange(0, 4));
            if rest.len() > 0 {
                assert(e < s.len());
                assert(sec.last() == s[e - 1]);
            }
            assert forall|i: int| 1 <= i < sec.len() implies !#[trigger] heading_at(t, i) by {
                if heading_at(t, i) {
                    if i + 4 <= sec.len() {
                        assert(t.subrange(i, i + 4) =~= s.subrange(k + i, k + i + 4));
                        assert(t[i - 1] == s[k + i - 1]);
                        assert(heading_at(s, k + i));
                        lemma_no_heading_before_next(s, k + 1, k + i);
                    } else {
                        let q = sec.len() - 1;
                        assert(t[q] == '\n');
                        assert(t[q] == t.subrange(i, i + 4)[q - i]);
                    }
                }
            }
            if rest.len() > 0 {
                lemma_shift(sec, rest, 0, current, detected);
                assert(heading_at(t, sec.len() as int)) by {
                    assert(t.subrange(sec.len() as int, sec.len() as int + 4) =~= rest.subrange(0, 4));
                    assert(t[sec.len() - 1] == sec.last());
                }
            } else {
                assert(t =~= sec);
                lemma_shift(sec, rest, 0, current, detected);
            }
            lemma_next_heading_is(t, 1, sec.len() as int);
            assert(t.subrange(0, sec.len() as int) =~= sec);
        }
    } else {
        let t = eligible_from(s, k, current, detected);
        assert(t.len() == 0);
    }
}

/// A changelog that starts with one section, naming version `v`, keeps that
/// section, with its exact text, exactly when `v` is after `current` and no
/// later than `detected` in full major, minor and patch order; the sections
/// that follow are kept as they would be on their own.
pub proof fn a_section_is_kept_exactly_in_its_window(
    sec: Seq<char>,
    rest: Seq<char>,
    v: Version,
    current: Version,
    detected: Version,
)
    requires
        heading_at(sec, 0),
        forall|i: int| 1 <= i < sec.len() ==> !#[trigger] heading_at(sec, i),
        section_version(sec) == Some(v),
        rest.len() == 0 || (heading_at(rest, 0) && sec.last() == '\n'),
    ensures
        eligible_release_text(sec + rest, current, detected) == if version_lt(current, v)
            && !version_lt(detected, v) {
            sec + eligible_release_text(rest, current, detected)
        } else {
            eligible_release_text(rest, current, detected)
        },
{
    let t = sec + rest;
    let n = sec.len() as int;
    assert(t.subrange(0, 4) =~= sec.subrange(0, 4));
    assert(heading_at(t, 0));
    assert(next_heading(t, 0) == 0);
    assert forall|i: int| 1 <= i < n implies !#[trigger] heading_at(t, i) by {
        if heading_at(t, i) {
            if i + 4 <= n {
                assert(t.subrange(i, i + 4) =~= sec.subrange(i, i + 4));
                assert(t[i - 1] == sec[i - 1]);
                assert(heading_at(sec, i));
            } else {
                assert(rest.len() > 0);
                assert(t[n - 1] == '\n');
                assert(t[n - 1] == t.subrange(i, i + 4)[n - 1 - i]);
            }
        }
    }
    if rest.len() > 0 {
        assert(heading_at(t, n)) by {
            assert(t.subrange(n, n + 4) =~= rest.subrange(0, 4));
            assert(t[n - 1] == sec.last());
        }
        assert(next_heading(rest, 0) == 0);
    }
    lemma_next_heading_is(t, 1, n);
    assert(t.subrange(0, n) =~= sec);
    lemma_shift(sec, rest, 0, current, detected);
}

/// Taking the eligible sections of eligible sections changes nothing: held
/// details re-project to themselves, with their exact text.
pub proof fn eligible_release_text_is_stable(s: Seq<char>, current: Version, detected: Version)
    ensures
        eligible_release_text(eligible_release_text(s, current, detected), current, detected)
            == eligible_release_text(s, current, detected),
{
    lemma_next_heading_bounds(s, 0);
    let h = next_heading(s, 0);
    lemma_eligible_structure(s, h, current, detected);
    let t = eligible_release_text(s, current, detected);
    if t.len() > 0 {
        lemma_next_heading_is(t, 0, 0);
    } else {
        lemma_next_heading_is(t, 0, 0);
    }
}

fn heading_exec(v: &Vec<char>, k: usize) -> (r: bool)
    requires
        k <= v.len(),
    ensures
        r == heading_at(v@, k as int),
{
    if v.len() - k < 4 {
        return false;
    }
    if k > 0 && v[k - 1] != '\n' {
        return false;
    }
    let r = v[k] == '#' && v[k + 1] == '#' && v[k + 2] == ' ' && v[k + 3] == '[';
    proof {
        let t = v@.subrange(k as int, k + 4);
        if r {
            assert(t =~= seq!['#', '#', ' ', '[']);
        } else {
            assert(t[0] != '#' || t[1] != '#' || t[2] != ' ' || t[3] != '[');
        }
    }
    r
}

fn next_heading_exec(v: &Vec<char>, k: usize) -> (r: usize)
    requires
        k <= v.len(),
    ensures
        r == next_heading(v@, k as int),
        k <= r <= v.len(),
{
    let mut j = k;
    while j < v.len() && !heading_exec(v, j)
        invariant
            k <= j <= v.len(),
            next_heading(v@, k as int) == next_heading(v@, j as int),
        decreases v.len() - j,
    {
        j = j + 1;
    }
    j
}

fn section_version_exec(v: &Vec<char>, lo: usize, hi: usize) -> (r: Option<Version>)
    requires
        lo <= hi <= v.len(),
    ensures
        r == section_version(v@.subrange(lo as int, hi as int)),
{
    let ghost sec = v@.subrange(lo as int, hi as int);
    if hi - lo < 4 {
        return None;
    }
    let start = lo + 4;
    let e = find_between(v, start, hi, ']');
    assert(sec.skip(4) =~= v@.subrange(start as int, hi as int));
    if e >= hi {
        return None;
    }
    assert(sec.skip(4).take(e - start) =~= v@.subrange(start as int, e as int));
    parse_range(v, start, e)
}

fn push_range(out: &mut String, v: &Vec<char>, lo: usize, hi: usize)
    requires
        lo <= hi <= v.len(),
    ensures
        final(out)@ == old(out)@ + v@.subrange(lo as int, hi as int),
{
    let mut i = lo;
    while i < hi
        invariant
            lo <= i <= hi <= v.len(),
            out@ == old(out)@ + v@.subrange(lo as int, i as int),
        decreases hi - i,
    {
        push_char(out, v[i]);
        assert(v@.subrange(lo as int, i + 1) =~= v@.subrange(lo as int, i as int).push(v@[i as int]));
        i = i + 1;
    }
}

/// The changelog sections for the releases after `current` up to and
/// including `detected`, concatenated with their exact text.
pub fn eligible_release_sections(changelog: &str, current: Version, detected: Version) -> (r: String)
    ensures
        r@ == eligible_release_text(changelog@, current, detected),
{
    let v = chars_of(changelog);
    let mut out = String::new();
    let mut k = next_heading_exec(&v, 0);
    while k < v.len()
        invariant
            k <= v.len(),
            v@ == changelog@,
            out@ + eligible_from(v@, k as int, current, detected) == eligible_release_text(
                v@,
                current,
                detected,
            ),
        decreases v.len() - k,
    {
        let e = next_heading_exec(&v, k + 1);
        let ghost rest = eligible_from(v@, e as int, current, detected);
        let ghost old_out = out@;
        match section_version_exec(&v, k, e) {
            Some(ver) => {
                if is_before(current, ver) && !is_before(detected, ver) {
                    push_range(&mut out, &v, k, e);
                    assert(old_out + (v@.subrange(k as int, e as int) + rest) =~= out@ + rest);
                }
            },
            None => {},
        }
        k = e;
    }
    assert(out@ + Seq::<char>::empty() =~= out@);
    out
}

} // verus!
