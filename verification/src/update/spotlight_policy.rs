//! The project spotlight: which documents are accepted, how fresh a
//! retrieval is, and how one retrieval changes the held spotlight.

use vstd::prelude::*;
use vstd::utf8::{decode_utf8, valid_utf8};
use crate::text::{
    all_white, chars_of, is_white_space, string_of, trim, trim_range,
    trim_removes_only_end_white_space, utf8_to_string,
};
use super::CHECK_INTERVAL_SECS;
use super::version::{find_between, first_index, lemma_first_index_bound};

verus! {

/// An accepted spotlight document: its exact bytes, and the title and body
/// that those bytes hold.
#[derive(Debug)]
pub struct Spotlight {
    source: Vec<u8>,
    title: String,
    body: Vec<u8>,
}

impl Spotlight {
    /// The title and body are what the source holds as a document.
    #[verifier::type_invariant]
    spec fn well_formed(self) -> bool {
        spotlight_document(self.source@) == Some(self@)
    }

    /// The exact bytes of the document.
    pub fn source(&self) -> (b: &Vec<u8>)
        ensures
            b@ == self@.source,
    {
        &self.source
    }

    /// The text of its `# ` heading, trimmed.
    pub fn title(&self) -> (t: &str)
        ensures
            t@ == self@.title,
    {
        self.title.as_str()
    }

    /// The bytes after the heading line.
    pub fn body(&self) -> (b: &[u8])
        ensures
            b@ == self@.body,
    {
        self.body.as_slice()
    }
}

impl Clone for Spotlight {
    fn clone(&self) -> (c: Spotlight)
        ensures
            c@ == self@,
    {
        proof {
            use_type_invariant(self);
        }
        Spotlight { source: self.source.clone(), title: self.title.clone(), body: self.body.clone() }
    }
}

/// What a spotlight is, as values.
pub struct SpotlightView {
    pub source: Seq<u8>,
    pub title: Seq<char>,
    pub body: Seq<u8>,
}

impl View for Spotlight {
    type V = SpotlightView;

    closed spec fn view(&self) -> SpotlightView {
        SpotlightView { source: self.source@, title: self.title@, body: self.body@ }
    }
}

/// The index of the first `x` in `b`, or `b.len()` where there is none.
pub open spec fn first_byte_index(b: Seq<u8>, x: u8) -> int
    decreases b.len(),
{
    if b.len() == 0 {
        0
    } else if b[0] == x {
        0
    } else {
        1 + first_byte_index(b.drop_first(), x)
    }
}

/// The spotlight that `source` is, if it is one: valid UTF-8 whose first
/// line is `# ` followed by a title that is not blank. The title is that
/// text trimmed; the body is every byte after the first line.
pub open spec fn spotlight_document(source: Seq<u8>) -> Option<SpotlightView> {
    if !valid_utf8(source) {
        None
    } else {
        let text = decode_utf8(source);
        let line = text.take(first_index(text, '\n'));
        if line.len() >= 2 && line[0] == '#' && line[1] == ' ' && trim(line.skip(2)).len() > 0 {
            let nl = first_byte_index(source, 10u8);
            Some(
                SpotlightView {
                    source,
                    title: trim(line.skip(2)),
                    body: if nl < source.len() {
                        source.skip(nl + 1)
                    } else {
                        Seq::empty()
                    },
                },
            )
        } else {
            None
        }
    }
}

/// The spotlight state held for a session: the accepted document, if any,
/// and when it was last conclusively retrieved.
#[derive(Debug)]
pub struct SpotlightCache {
    /// The accepted document, absent after a withdrawal or before any.
    pub spotlight: Option<Spotlight>,
    /// When the last conclusive retrieval happened.
    pub retrieved_at_unix: Option<u64>,
}

impl Clone for SpotlightCache {
    fn clone(&self) -> (c: SpotlightCache)
        ensures
            c@ == self@,
    {
        SpotlightCache {
            spotlight: match &self.spotlight {
                Some(s) => Some(s.clone()),
                None => None,
            },
            retrieved_at_unix: self.retrieved_at_unix,
        }
    }
}

/// The spotlight state as values.
pub struct SpotlightCacheView {
    pub spotlight: Option<SpotlightView>,
    pub retrieved_at_unix: Option<u64>,
}

impl View for SpotlightCache {
    type V = SpotlightCacheView;

    open spec fn view(&self) -> SpotlightCacheView {
        SpotlightCacheView {
            spotlight: match self.spotlight {
                Some(s) => Some(s@),
                None => None,
            },
            retrieved_at_unix: self.retrieved_at_unix,
        }
    }
}

/// The state before any retrieval: nothing held, nothing retrieved.
pub open spec fn empty_spotlight_cache() -> SpotlightCacheView {
    SpotlightCacheView { spotlight: None, retrieved_at_unix: None }
}

impl Default for SpotlightCache {
    fn default() -> (c: SpotlightCache)
        ensures
            c@ == empty_spotlight_cache(),
    {
        SpotlightCache { spotlight: None, retrieved_at_unix: None }
    }
}

/// The input of one spotlight retrieval.
pub enum SpotlightInput {
    /// The document's bytes.
    Available(Vec<u8>),
    /// The source answered that there is no document.
    Missing,
    /// The source could not be reached.
    Unavailable,
}

/// What one retrieval concludes.
pub enum SpotlightProjection {
    /// A valid document.
    Accepted(Spotlight),
    /// No valid document: a conclusive withdrawal.
    Withdrawn,
    /// No conclusion.
    Unavailable,
}

/// The change that one retrieval makes to the held spotlight.
pub enum SpotlightCacheDelta {
    Accepted { spotlight: Spotlight, retrieved_at_unix: u64 },
    Withdrawn { retrieved_at_unix: u64 },
    Preserve,
}

/// How a retrieval time relates to the start of a session.
#[derive(Debug, Clone, Copy, PartialEq, Eq, Structural)]
pub enum Freshness {
    /// Less than one check interval old.
    Fresh,
    /// One check interval old or older.
    Stale,
    /// Stamped after the session started.
    Future,
}

/// The freshness of a retrieval at `retrieved` for a session that started at
/// `session_started`.
pub open spec fn freshness_of(session_started: u64, retrieved: u64) -> Freshness {
    if retrieved > session_started {
        Freshness::Future
    } else if session_started - retrieved < CHECK_INTERVAL_SECS {
        Freshness::Fresh
    } else {
        Freshness::Stale
    }
}

/// Classifies a retrieval time against the start of the session; the answer
/// holds for the whole session.
pub fn freshness_at_session_start(session_started_at_unix: u64, retrieved_at_unix: u64) -> (f:
    Freshness)
    ensures
        f == freshness_of(session_started_at_unix, retrieved_at_unix),
{
    if retrieved_at_unix > session_started_at_unix {
        Freshness::Future
    } else if session_started_at_unix - retrieved_at_unix < CHECK_INTERVAL_SECS {
        Freshness::Fresh
    } else {
        Freshness::Stale
    }
}

/// Whether a new retrieval is due: unless a conclusive retrieval is fresh.
pub open spec fn retrieval_due(now: u64, cache: SpotlightCacheView) -> bool {
    !(cache.retrieved_at_unix matches Some(t) && freshness_of(now, t) == Freshness::Fresh)
}

/// Whether the spotlight should be retrieved at `now_unix`.
pub fn should_retrieve(now_unix: u64, cache: &SpotlightCache) -> (r: bool)
    ensures
        r == retrieval_due(now_unix, cache@),
{
    match cache.retrieved_at_unix {
        Some(t) => freshness_at_session_start(now_unix, t) != Freshness::Fresh,
        None => true,
    }
}

fn first_newline(b: &Vec<u8>) -> (r: usize)
    ensures
        r == first_byte_index(b@, 10u8),
        r <= b.len(),
{
    let mut k: usize = 0;
    assert(b@.skip(0) =~= b@);
    while k < b.len() && b[k] != 10u8
        invariant
            k <= b.len(),
            first_byte_index(b@, 10u8) == k + first_byte_index(b@.skip(k as int), 10u8),
        decreases b.len() - k,
    {
        assert(b@.skip(k as int).drop_first() =~= b@.skip(k + 1));
        k = k + 1;
    }
    if k == b.len() {
        assert(b@.skip(k as int).len() == 0);
    }
    k
}

fn copy_bytes(b: &Vec<u8>, lo: usize) -> (r: Vec<u8>)
    requires
        lo <= b.len(),
    ensures
        r@ == b@.skip(lo as int),
{
    let mut r: Vec<u8> = Vec::new();
    let mut i = lo;
    while i < b.len()
        invariant
            lo <= i <= b.len(),
            r@ == b@.subrange(lo as int, i as int),
        decreases b.len() - i,
    {
        r.push(b[i]);
        assert(b@.subrange(lo as int, i + 1) =~= b@.subrange(lo as int, i as int).push(b@[i as int]));
        i = i + 1;
    }
    r
}

/// Accepts `source` as a spotlight document, or rejects it.
pub fn parse_spotlight(source: Vec<u8>) -> (r: Option<Spotlight>)
    ensures
        match spotlight_document(source@) {
            Some(v) => r matches Some(s) && s@ == v,
            None => r is None,
        },
{
    let mut copy: Vec<u8> = Vec::new();
    let mut i: usize = 0;
    while i < source.len()
        invariant
            i <= source.len(),
            copy@ == source@.take(i as int),
        decreases source.len() - i,
    {
        copy.push(source[i]);
        assert(source@.take(i + 1) =~= source@.take(i as int).push(source@[i as int]));
        i = i + 1;
    }
    assert(source@.take(source.len() as int) =~= source@);
    let text = match utf8_to_string(copy) {
        Some(t) => t,
        None => return None,
    };
    let v = chars_of(text.as_str());
    let nl = find_between(&v, 0, v.len(), '\n');
    assert(v@.subrange(0, v.len() as int) =~= v@);
    let ghost line = v@.take(nl as int);
    assert(line =~= v@.subrange(0, nl as int));
    if nl < 2 || v[0] != '#' || v[1] != ' ' {
        return None;
    }
    let (a, b) = trim_range(&v, 2, nl);
    assert(line.skip(2) =~= v@.subrange(2, nl as int));
    if a == b {
        return None;
    }
    let title = string_of(&v, a, b);
    let n = first_newline(&source);
    let body = if n < source.len() {
        copy_bytes(&source, n + 1)
    } else {
        Vec::new()
    };
    Some(Spotlight { source, title, body })
}

/// What one retrieval concludes: a valid document is accepted; a document
/// that is not valid, or an answer that there is none, withdraws; an
/// unreachable source concludes nothing.
pub fn project(input: SpotlightInput) -> (p: SpotlightProjection)
    ensures
        match input {
            SpotlightInput::Available(b) => match spotlight_document(b@) {
                Some(v) => p matches SpotlightProjection::Accepted(s) && s@ == v,
                None => p is Withdrawn,
            },
            SpotlightInput::Missing => p is Withdrawn,
            SpotlightInput::Unavailable => p is Unavailable,
        },
{
    match input {
        SpotlightInput::Available(b) => match parse_spotlight(b) {
            Some(s) => SpotlightProjection::Accepted(s),
            None => SpotlightProjection::Withdrawn,
        },
        SpotlightInput::Missing => SpotlightProjection::Withdrawn,
        SpotlightInput::Unavailable => SpotlightProjection::Unavailable,
    }
}

/// The change that a conclusion at `retrieved_at_unix` makes: a conclusive
/// answer is stamped with that time; no conclusion preserves what is held.
pub fn cache_delta(projection: SpotlightProjection, retrieved_at_unix: u64) -> (d:
    SpotlightCacheDelta)
    ensures
        match projection {
            SpotlightProjection::Accepted(s) => d == SpotlightCacheDelta::Accepted {
                spotlight: s,
                retrieved_at_unix,
            },
            SpotlightProjection::Withdrawn => d == SpotlightCacheDelta::Withdrawn {
                retrieved_at_unix,
            },
            SpotlightProjection::Unavailable => d == SpotlightCacheDelta::Preserve,
        },
{
    match projection {
        SpotlightProjection::Accepted(spotlight) => SpotlightCacheDelta::Accepted {
            spotlight,
            retrieved_at_unix,
        },
        SpotlightProjection::Withdrawn => SpotlightCacheDelta::Withdrawn { retrieved_at_unix },
        SpotlightProjection::Unavailable => SpotlightCacheDelta::Preserve,
    }
}

/// The held spotlight after a change, as values.
pub open spec fn applied(cache: SpotlightCacheView, delta: SpotlightCacheDelta) -> SpotlightCacheView {
    match delta {
        SpotlightCacheDelta::Accepted { spotlight, retrieved_at_unix } => SpotlightCacheView {
            spotlight: Some(spotlight@),
            retrieved_at_unix: Some(retrieved_at_unix),
        },
        SpotlightCacheDelta::Withdrawn { retrieved_at_unix } => SpotlightCacheView {
            spotlight: None,
            retrieved_at_unix: Some(retrieved_at_unix),
        },
        SpotlightCacheDelta::Preserve => cache,
    }
}

impl SpotlightCache {
    /// Applies one retrieval's change.
    pub fn apply(&mut self, delta: SpotlightCacheDelta)
        ensures
            final(self)@ == applied(old(self)@, delta),
    {
        match delta {
            SpotlightCacheDelta::Accepted { spotlight, retrieved_at_unix } => {
                self.spotlight = Some(spotlight);
                self.retrieved_at_unix = Some(retrieved_at_unix);
            },
            SpotlightCacheDelta::Withdrawn { retrieved_at_unix } => {
                self.spotlight = None;
                self.retrieved_at_unix = Some(retrieved_at_unix);
            },
            SpotlightCacheDelta::Preserve => {},
        }
    }

    /// The title for the status row, while a document is held.
    pub fn status_title(&self) -> (t: Option<&str>)
        ensures
            match self.spotlight {
                Some(s) => t matches Some(x) && x@ == s@.title,
                None => t is None,
            },
    {
        match &self.spotlight {
            Some(s) => Some(s.title()),
            None => None,
        }
    }

    /// The body for What's New, while a document is held.
    pub fn whats_new_body(&self) -> (b: Option<&[u8]>)
        ensures
            match self.spotlight {
                Some(s) => b matches Some(x) && x@ == s@.body,
                None => b is None,
            },
    {
        match &self.spotlight {
            Some(s) => Some(s.body()),
            None => None,
        }
    }

    /// When the last conclusive retrieval happened.
    pub fn retrieved_at_unix(&self) -> (t: Option<u64>)
        ensures
            t == self.retrieved_at_unix,
    {
        self.retrieved_at_unix
    }
}

/// A conclusive retrieval at `now`, an acceptance or a withdrawal, holds
/// for the rest of the period: no new retrieval is due at `now`, and the
/// retrieval time is kept. No conclusion changes nothing.
pub proof fn conclusive_retrieval_is_kept(cache: SpotlightCacheView, delta: SpotlightCacheDelta, now: u64)
    ensures
        delta matches SpotlightCacheDelta::Accepted { retrieved_at_unix, .. } && retrieved_at_unix
            == now ==> !retrieval_due(now, applied(cache, delta)) && applied(
            cache,
            delta,
        ).retrieved_at_unix == Some(now),
        delta matches SpotlightCacheDelta::Withdrawn { retrieved_at_unix } && retrieved_at_unix
            == now ==> !retrieval_due(now, applied(cache, delta)) && applied(cache, delta).spotlight
            is None && applied(cache, delta).retrieved_at_unix == Some(now),
        delta is Preserve ==> applied(cache, delta) == cache,
{
}

/// The title of an accepted spotlight is the whole text of its first line
/// after `# `, with only the white space around it removed: that line is
/// `# `, some white space, the title and some white space; the title is not
/// empty and neither starts nor ends with white space.
pub proof fn spotlight_title_is_the_whole_heading(source: Seq<u8>)
    ensures
        match spotlight_document(source) {
            Some(d) => {
                let text = decode_utf8(source);
                let line = text.take(first_index(text, '\n'));
                &&& d.title.len() > 0
                &&& !is_white_space(d.title[0])
                &&& !is_white_space(d.title.last())
                &&& exists|a: Seq<char>, z: Seq<char>|
                    all_white(a) && all_white(z) && line == seq!['#', ' '] + a + d.title + z
            },
            None => true,
        },
{
    if let Some(d) = spotlight_document(source) {
        let text = decode_utf8(source);
        let line = text.take(first_index(text, '\n'));
        let x = line.skip(2);
        trim_removes_only_end_white_space(x);
        let a = x.take(crate::text::leading_white(x) as int);
        let z = x.skip((crate::text::leading_white(x) + trim(x).len()) as int);
        assert(d.title == trim(x));
        assert(line =~= seq!['#', ' '] + x);
        assert(line =~= seq!['#', ' '] + a + d.title + z);
    }
}

} // verus!
