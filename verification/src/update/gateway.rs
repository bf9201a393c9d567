//! What the remote sources answer, as plain values: an answer or no answer,
//! and the stable release tags that discovery found.

use vstd::prelude::*;
use super::version::{
    Version, find_between, first_index, is_before, lemma_first_index_bound, parse_range,
    parse_version, version_lt,
};
use crate::text::{chars_of, spells, string_of};

verus! {

/// The answer of one remote source: available, or unreachable in time.
#[derive(Debug, Clone, PartialEq, Eq)]
pub enum Source<T> {
    Available(T),
    Unavailable,
}

/// A stable release tag: its version and the object it points at.
#[derive(Debug, Clone, PartialEq, Eq)]
pub struct ReleaseTag {
    pub version: Version,
    pub object_id: String,
}

/// What discovery found: the object at the head of the repository and its
/// stable release tags.
#[derive(Debug, Clone, PartialEq, Eq)]
pub struct ReleaseState {
    pub head_object_id: String,
    pub releases: Vec<ReleaseTag>,
}

impl ReleaseState {
    pub fn new(head_object_id: String, releases: Vec<ReleaseTag>) -> (s: ReleaseState)
        ensures
            s.head_object_id == head_object_id,
            s.releases == releases,
    {
        ReleaseState { head_object_id, releases }
    }

    /// The release with the highest version (the first of equal ones), or
    /// nothing where there is no release.
    pub fn latest_release(&self) -> (r: Option<&ReleaseTag>)
        ensures
            match r {
                Some(t) => max_version(self.releases@) == Some(t.version) && exists|i: int|
                    0 <= i < self.releases@.len() && self.releases@[i] == *t && forall|j: int|
                        0 <= j < i ==> version_lt(
                            #[trigger] self.releases@[j].version,
                            t.version,
                        ),
                None => max_version(self.releases@) is None,
            },
    {
        if self.releases.len() == 0 {
            return None;
        }
        let mut best: usize = 0;
        let mut k: usize = 1;
        assert(self.releases@.take(1).drop_last() =~= Seq::<ReleaseTag>::empty());
        assert(max_version(self.releases@.take(1).drop_last()) is None);
        assert(self.releases@.take(1).last() == self.releases@[0]);
        while k < self.releases.len()
            invariant
                0 <= best < k <= self.releases.len(),
                max_version(self.releases@.take(k as int)) == Some(
                    self.releases@[best as int].version,
                ),
                forall|j: int|
                    0 <= j < best ==> version_lt(
                        #[trigger] self.releases@[j].version,
                        self.releases@[best as int].version,
                    ),
                forall|j: int|
                    0 <= j < k ==> !version_lt(
                        self.releases@[best as int].version,
                        #[trigger] self.releases@[j].version,
                    ),
            decreases self.releases.len() - k,
        {
            assert(self.releases@.take(k + 1).drop_last() =~= self.releases@.take(k as int));
            assert(self.releases@.take(k + 1).last() == self.releases@[k as int]);
            if is_before(self.releases[best].version, self.releases[k].version) {
                best = k;
            }
            k = k + 1;
        }
        assert(self.releases@.take(k as int) =~= self.releases@);
        Some(&self.releases[best])
    }
}

/// The highest version among `tags`, or nothing where there is none.
pub open spec fn max_version(tags: Seq<ReleaseTag>) -> Option<Version>
    decreases tags.len(),
{
    if tags.len() == 0 {
        None
    } else {
        match max_version(tags.drop_last()) {
            None => Some(tags.last().version),
            Some(m) => if version_lt(m, tags.last().version) {
                Some(tags.last().version)
            } else {
                Some(m)
            },
        }
    }
}

/// What a document fetch answered, by its HTTP status: the body on 200, a
/// conclusive absence on 404, and no answer on any other status.
pub fn document_answer(status: u16, body: Vec<u8>) -> (r: Source<Option<Vec<u8>>>)
    ensures
        status == 200 ==> r == Source::Available(Some(body)),
        status == 404 ==> r == Source::<Option<Vec<u8>>>::Available(None),
        status != 200 && status != 404 ==> r == Source::<Option<Vec<u8>>>::Unavailable,
{
    if status == 200 {
        Source::Available(Some(body))
    } else if status == 404 {
        Source::Available(None)
    } else {
        Source::Unavailable
    }
}

/// A lower-case hexadecimal digit.
pub open spec fn is_hex_lower(c: char) -> bool {
    ('0' <= c && c <= '9') || ('a' <= c && c <= 'f')
}

/// A full object id: forty lower-case hexadecimal digits.
pub open spec fn is_object_id(s: Seq<char>) -> bool {
    s.len() == 40 && forall|i: int| 0 <= i < 40 ==> is_hex_lower(#[trigger] s[i])
}

/// One line of a reference listing: an object id and a reference name.
pub struct RefEntry {
    pub object_id: Seq<char>,
    pub name: Seq<char>,
}

/// A line without a trailing carriage return.
pub open spec fn without_cr(line: Seq<char>) -> Seq<char> {
    if line.len() > 0 && line.last() == '\r' {
        line.drop_last()
    } else {
        line
    }
}

/// The entry a listing line holds: `<object id>\t<name>`, the name not
/// empty; any other line holds none.
pub open spec fn ref_entry(line: Seq<char>) -> Option<RefEntry> {
    let l = without_cr(line);
    if l.len() > 41 && l[40] == '\t' && is_object_id(l.take(40)) {
        Some(RefEntry { object_id: l.take(40), name: l.skip(41) })
    } else {
        None
    }
}

/// The entries of the lines of `s` from position `k` on, in order.
pub open spec fn entries_from(s: Seq<char>, k: int) -> Seq<RefEntry>
    decreases s.len() - k,
{
    if k < 0 || k >= s.len() {
        seq![]
    } else {
        let e = k + first_index(s.skip(k), '\n');
        proof {
            lemma_first_index_bound(s.skip(k), '\n');
        }
        let rest = if e < s.len() {
            entries_from(s, e + 1)
        } else {
            seq![]
        };
        match ref_entry(s.subrange(k, e)) {
            Some(x) => seq![x] + rest,
            None => rest,
        }
    }
}

/// The release a reference names: `refs/tags/` and a version, with or
/// without a leading `v`.
pub open spec fn tag_version(name: Seq<char>) -> Option<Version> {
    if name.len() >= 10 && name.take(10) == "refs/tags/"@ {
        let v = name.skip(10);
        if v.len() > 0 && v[0] == 'v' {
            parse_version(v.skip(1))
        } else {
            parse_version(v)
        }
    } else {
        None
    }
}

/// The object id of the first `HEAD` entry.
pub open spec fn head_of(entries: Seq<RefEntry>) -> Option<Seq<char>>
    decreases entries.len(),
{
    if entries.len() == 0 {
        None
    } else if entries[0].name == "HEAD"@ {
        Some(entries[0].object_id)
    } else {
        head_of(entries.drop_first())
    }
}

/// The release tags among the entries, in order, as version and object id.
pub open spec fn tags_of(entries: Seq<RefEntry>) -> Seq<(Version, Seq<char>)>
    decreases entries.len(),
{
    if entries.len() == 0 {
        seq![]
    } else {
        let rest = tags_of(entries.drop_first());
        match tag_version(entries[0].name) {
            Some(v) => seq![(v, entries[0].object_id)] + rest,
            None => rest,
        }
    }
}

/// What a reference listing says: the head's object id and the release
/// tags; nothing where the listing names no head.
pub open spec fn listing_state(s: Seq<char>) -> Option<(Seq<char>, Seq<(Version, Seq<char>)>)> {
    let es = entries_from(s, 0);
    match head_of(es) {
        Some(h) => Some((h, tags_of(es))),
        None => None,
    }
}

/// The release tags of a state, as version and object id.
pub open spec fn release_values(releases: Seq<ReleaseTag>) -> Seq<(Version, Seq<char>)> {
    releases.map_values(|t: ReleaseTag| (t.version, t.object_id@))
}

fn is_object_id_exec(v: &Vec<char>, lo: usize) -> (r: bool)
    requires
        lo + 40 <= v.len(),
    ensures
        r == is_object_id(v@.subrange(lo as int, lo + 40)),
{
    let mut i: usize = 0;
    while i < 40
        invariant
            i <= 40,
            lo + 40 <= v.len(),
            forall|j: int| 0 <= j < i ==> is_hex_lower(#[trigger] v@[lo + j]),
        decreases 40 - i,
    {
        let c = v[lo + i];
        if !(('0' <= c && c <= '9') || ('a' <= c && c <= 'f')) {
            assert(v@.subrange(lo as int, lo + 40)[i as int] == c);
            return false;
        }
        i = i + 1;
    }
    assert forall|j: int| 0 <= j < 40 implies is_hex_lower(
        #[trigger] v@.subrange(lo as int, lo + 40)[j],
    ) by {
        assert(v@.subrange(lo as int, lo + 40)[j] == v@[lo + j]);
    }
    true
}

/// The entry of the line `v[lo..hi]`, as the bounds of its object id and
/// name, if it holds one.
fn entry_bounds(v: &Vec<char>, lo: usize, hi: usize) -> (r: Option<(usize, usize)>)
    requires
        lo <= hi <= v.len(),
    ensures
        match ref_entry(v@.subrange(lo as int, hi as int)) {
            Some(x) => r matches Some((n0, n1)) && lo + 41 <= n0 <= n1 <= hi && x.object_id
                == v@.subrange(lo as int, lo + 40) && x.name == v@.subrange(n0 as int, n1 as int),
            None => r is None,
        },
{
    let ghost line = v@.subrange(lo as int, hi as int);
    let end = if hi > lo && v[hi - 1] == '\r' {
        hi - 1
    } else {
        hi
    };
    assert(without_cr(line) =~= v@.subrange(lo as int, end as int));
    if end - lo <= 41 || v[lo + 40] != '\t' {
        return None;
    }
    let ghost l = v@.subrange(lo as int, end as int);
    assert(l.take(40) =~= v@.subrange(lo as int, lo + 40));
    assert(l[40] == v@[lo + 40]);
    if !is_object_id_exec(v, lo) {
        return None;
    }
    assert(l.skip(41) =~= v@.subrange(lo + 41, end as int));
    Some((lo + 41, end))
}

/// The release that the reference name `v[lo..hi]` names, if any.
fn tag_version_exec(v: &Vec<char>, lo: usize, hi: usize) -> (r: Option<Version>)
    requires
        lo <= hi <= v.len(),
    ensures
        r == tag_version(v@.subrange(lo as int, hi as int)),
{
    let ghost name = v@.subrange(lo as int, hi as int);
    if hi - lo < 10 || !spells(v, lo, lo + 10, "refs/tags/") {
        proof {
            if hi - lo >= 10 {
                assert(name.take(10) =~= v@.subrange(lo as int, lo + 10));
            }
        }
        return None;
    }
    assert(name.take(10) =~= v@.subrange(lo as int, lo + 10));
    let start = lo + 10;
    assert(name.skip(10) =~= v@.subrange(start as int, hi as int));
    if start < hi && v[start] == 'v' {
        assert(name.skip(10).skip(1) =~= v@.subrange(start + 1, hi as int));
        parse_range(v, start + 1, hi)
    } else {
        parse_range(v, start, hi)
    }
}

/// Reads a reference listing, one `<object id>\t<name>` per line: the
/// object id of the first `HEAD` line and every `refs/tags/` line that names
/// a release, in order. Other lines are ignored. Without a `HEAD` line the
/// listing determines nothing.
pub fn parse_ref_listing(listing: &str) -> (r: Option<ReleaseState>)
    ensures
        match listing_state(listing@) {
            Some((h, tags)) => r matches Some(st) && st.head_object_id@ == h && release_values(
                st.releases@,
            ) == tags,
            None => r is None,
        },
{
    let v = chars_of(listing);
    let mut head: Option<String> = None;
    let mut releases: Vec<ReleaseTag> = Vec::new();
    let mut k: usize = 0;
    while k < v.len()
        invariant
            k <= v.len(),
            v@ == listing@,
            match head {
                Some(h) => head_of(entries_from(v@, 0)) == Some(h@),
                None => head_of(entries_from(v@, 0)) == head_of(entries_from(v@, k as int)),
            },
            tags_of(entries_from(v@, 0)) == release_values(releases@) + tags_of(
                entries_from(v@, k as int),
            ),
        decreases v.len() - k,
    {
        let e = find_between(&v, k, v.len(), '\n');
        assert(v@.skip(k as int) =~= v@.subrange(k as int, v.len() as int));
        let ghost rest = if e < v.len() {
            entries_from(v@, e + 1)
        } else {
            Seq::empty()
        };
        let ghost old_values = release_values(releases@);
        match entry_bounds(&v, k, e) {
            Some((n0, n1)) => {
                let ghost x = ref_entry(v@.subrange(k as int, e as int))->0;
                assert((seq![x] + rest)[0] == x);
                assert((seq![x] + rest).drop_first() =~= rest);
                if head.is_none() && spells(&v, n0, n1, "HEAD") {
                    head = Some(string_of(&v, k, k + 40));
                }
                match tag_version_exec(&v, n0, n1) {
                    Some(version) => {
                        let object_id = string_of(&v, k, k + 40);
                        releases.push(ReleaseTag { version, object_id });
                        assert(release_values(releases@) =~= old_values + seq![(version, x.object_id)]);
                    },
                    None => {},
                }
            },
            None => {},
        }
        if e < v.len() {
            k = e + 1;
        } else {
            k = v.len();
        }
    }
    assert(release_values(releases@) + Seq::<(Version, Seq<char>)>::empty() =~= release_values(releases@));
    match head {
        Some(h) => Some(ReleaseState { head_object_id: h, releases }),
        None => None,
    }
}

/// The latest release is a highest version among the tags: it is the
/// version of one of them, and no tag has a later version. There is one
/// exactly when there is a tag.
pub proof fn latest_release_is_a_highest_version(tags: Seq<ReleaseTag>)
    ensures
        max_version(tags) is None <==> tags.len() == 0,
        match max_version(tags) {
            Some(m) => {
                &&& exists|i: int| 0 <= i < tags.len() && #[trigger] tags[i].version == m
                &&& forall|i: int| 0 <= i < tags.len() ==> !version_lt(m, #[trigger] tags[i].version)
            },
            None => true,
        },
    decreases tags.len(),
{
    if tags.len() > 0 {
        let p = tags.drop_last();
        latest_release_is_a_highest_version(p);
        let last = tags.len() - 1;
        assert forall|i: int| 0 <= i < p.len() implies #[trigger] p[i] == tags[i] by {}
        match max_version(p) {
            None => {
                assert(p.len() == 0);
                assert(tags[last].version == tags.last().version);
                assert(0 <= last < tags.len() && tags[last].version == max_version(tags).unwrap());
            },
            Some(m) => {
                let i0 = choose|i: int| 0 <= i < p.len() && #[trigger] p[i].version == m;
                assert(tags[i0].version == m);
                assert(tags[last].version == tags.last().version);
                let r = max_version(tags).unwrap();
                assert forall|i: int| 0 <= i < tags.len() implies !version_lt(
                    r,
                    #[trigger] tags[i].version,
                ) by {
                    if i < last {
                        assert(!version_lt(m, p[i].version));
                    }
                }
                if r == m {
                    assert(0 <= i0 < tags.len() && tags[i0].version == r);
                } else {
                    assert(0 <= last < tags.len() && tags[last].version == r);
                }
            },
        }
    }
}

} // verus!
