//! Bounded remote notices for newer release details and one project
//! spotlight: the startup decision over the cached notice state, and the
//! decisions of one refresh over what the sources answered.

pub mod cache;
pub mod gateway;
pub mod refresh;
pub mod release_policy;
pub mod spotlight_policy;
pub mod version;

pub use gateway::{ReleaseState, ReleaseTag, Source};
pub use refresh::{changelog_request, complete_refresh};
pub use version::Version;

use vstd::prelude::*;
use vstd::string::StrSliceExecFns;
use vstd::utf8::encode_utf8;
use crate::text::{chars_of, spells};
use cache::{Cache, CacheView, cache_view};
use release_policy::{
    CachedReleaseDetails, CachedReleaseDetailsDecision, CachedReleaseDetailsView,
    MAX_DETAILS_BYTES, eligible_release_sections, eligible_release_text,
};
use spotlight_policy::{
    Freshness, SpotlightCache, SpotlightCacheView, SpotlightInput, empty_spotlight_cache,
    freshness_of, spotlight_document,
};
use version::{current, current_version, newer_than_current, parse_version, version_lt};

verus! {

/// One successful remote check suppresses another for this many seconds.
pub const CHECK_INTERVAL_SECS: u64 = 24 * 60 * 60;

/// The fixed official repository.
pub fn repo_url() -> (u: &'static str)
    ensures
        u@ == official_repository_url(),
{
    "https://github.com/tareqmlx/herdr-file-viewer"
}

/// The text of the official repository's URL.
pub open spec fn official_repository_url() -> Seq<char> {
    "https://github.com/tareqmlx/herdr-file-viewer"@
}

/// `s` without any trailing `c`.
pub open spec fn strip_trailing(s: Seq<char>, c: char) -> Seq<char>
    decreases s.len(),
{
    if s.len() > 0 && s.last() == c {
        strip_trailing(s.drop_last(), c)
    } else {
        s
    }
}

/// `s` with every repeated leading occurrence of a non-empty `p` removed.
pub open spec fn strip_prefixes(s: Seq<char>, p: Seq<char>) -> Seq<char>
    decreases s.len(),
{
    if p.len() > 0 && p.len() <= s.len() && s.take(p.len() as int) == p {
        strip_prefixes(s.skip(p.len() as int), p)
    } else {
        s
    }
}

/// The `owner/repo` slug of a GitHub repository URL.
pub open spec fn slug_of(url: Seq<char>) -> Seq<char> {
    strip_prefixes(
        strip_prefixes(strip_trailing(url, '/'), "https://github.com/"@),
        "http://github.com/"@,
    )
}

/// The start of `v[lo..hi]` after removing every leading `p`.
fn skip_prefixes(v: &Vec<char>, lo: usize, hi: usize, p: &str) -> (r: usize)
    requires
        lo <= hi <= v.len(),
    ensures
        lo <= r <= hi,
        v@.subrange(r as int, hi as int) == strip_prefixes(v@.subrange(lo as int, hi as int), p@),
{
    let n = chars_of(p).len();
    let mut a = lo;
    while n > 0 && n <= hi - a && spells(v, a, a + n, p)
        invariant
            lo <= a <= hi <= v.len(),
            n == p@.len(),
            strip_prefixes(v@.subrange(a as int, hi as int), p@) == strip_prefixes(
                v@.subrange(lo as int, hi as int),
                p@,
            ),
        decreases hi - a,
    {
        let ghost s = v@.subrange(a as int, hi as int);
        assert(s.take(n as int) =~= v@.subrange(a as int, a + n));
        assert(s.skip(n as int) =~= v@.subrange(a + n, hi as int));
        a = a + n;
    }
    proof {
        let s = v@.subrange(a as int, hi as int);
        if n > 0 && n <= hi - a {
            assert(s.take(n as int) =~= v@.subrange(a as int, a + n));
        }
    }
    a
}

/// The official `owner/repo` slug, derived from [`repo_url`].
pub fn repo_slug() -> (s: &'static str)
    ensures
        s@ == slug_of(official_repository_url()),
{
    let url = repo_url();
    let v = chars_of(url);
    let mut hi = v.len();
    assert(v@.take(v@.len() as int) =~= v@);
    while hi > 0 && v[hi - 1] == '/'
        invariant
            hi <= v.len(),
            v@ == url@,
            strip_trailing(v@.take(hi as int), '/') == strip_trailing(v@, '/'),
        decreases hi,
    {
        assert(v@.take(hi as int).drop_last() =~= v@.take(hi - 1));
        hi = hi - 1;
    }
    assert(v@.subrange(0, hi as int) =~= v@.take(hi as int));
    assert(hi > 0 ==> v@.take(hi as int).last() == v@[hi - 1]);
    let a = skip_prefixes(&v, 0, hi, "https://github.com/");
    let b = skip_prefixes(&v, a, hi, "http://github.com/");
    url.substring_char(b, hi)
}

/// The complete remote-notice state visible to one controller frame; it is
/// replaced only as a whole.
#[derive(Debug)]
pub struct NoticeSnapshot {
    /// The latest stable release detected, if it is newer than this build.
    pub detected_release: Option<Version>,
    /// Details, only while they belong to the detected release.
    pub release_details: Option<CachedReleaseDetails>,
    /// The project spotlight state.
    pub spotlight: SpotlightCache,
}

impl Clone for NoticeSnapshot {
    fn clone(&self) -> (c: NoticeSnapshot)
        ensures
            c@ == self@,
    {
        NoticeSnapshot {
            detected_release: self.detected_release,
            release_details: match &self.release_details {
                Some(d) => Some(d.clone()),
                None => None,
            },
            spotlight: self.spotlight.clone(),
        }
    }
}

/// A notice snapshot, as values.
pub struct NoticeSnapshotView {
    pub detected_release: Option<Version>,
    pub release_details: Option<CachedReleaseDetailsView>,
    pub spotlight: SpotlightCacheView,
}

impl View for NoticeSnapshot {
    type V = NoticeSnapshotView;

    open spec fn view(&self) -> NoticeSnapshotView {
        NoticeSnapshotView {
            detected_release: self.detected_release,
            release_details: match self.release_details {
                Some(d) => Some(d@),
                None => None,
            },
            spotlight: self.spotlight@,
        }
    }
}

/// The snapshot with no notice at all.
pub open spec fn empty_snapshot() -> NoticeSnapshotView {
    NoticeSnapshotView {
        detected_release: None,
        release_details: None,
        spotlight: empty_spotlight_cache(),
    }
}

impl Default for NoticeSnapshot {
    fn default() -> (s: NoticeSnapshot)
        ensures
            s@ == empty_snapshot(),
    {
        NoticeSnapshot {
            detected_release: None,
            release_details: None,
            spotlight: SpotlightCache::default(),
        }
    }
}

/// The startup decision: the cached notice snapshot and whether a remote
/// refresh is eligible.
pub struct Decision {
    pub initial: NoticeSnapshot,
    pub should_refresh: bool,
}

/// Whether a check made at `last_check` is old enough at `now` to permit a
/// new one. A check stamped in the future permits one at once.
pub open spec fn refresh_due(now: u64, last_check: u64) -> bool {
    last_check > now || now - last_check >= CHECK_INTERVAL_SECS
}

/// The release that the cache says is newer than this build.
pub open spec fn detected_from(cache: Option<CacheView>) -> Option<Version> {
    match cache {
        Some(c) => match c.latest_seen {
            Some(t) => match parse_version(t) {
                Some(v) => if version_lt(current_version(), v) {
                    Some(v)
                } else {
                    None
                },
                None => None,
            },
            None => None,
        },
        None => None,
    }
}

/// The text shown as details for `release`: the changelog sections after
/// this build up to the release, when there are any and they stay within
/// the byte cap.
pub open spec fn details_text(details: Seq<char>, release: Version) -> Option<Seq<char>> {
    let d = eligible_release_text(details, current_version(), release);
    if d.len() > 0 && encode_utf8(d).len() <= MAX_DETAILS_BYTES {
        Some(d)
    } else {
        None
    }
}

/// The cached details that are still shown for the detected release.
pub open spec fn details_from(cache: Option<CacheView>, detected: Option<Version>) -> Option<
    CachedReleaseDetailsView,
> {
    match (cache, detected) {
        (Some(c), Some(d)) => match c.release_details {
            Some(p) => if parse_version(p.release) == Some(d) && version_lt(current_version(), d) {
                match details_text(p.details, d) {
                    Some(t) => Some(CachedReleaseDetailsView { release: d, details: t }),
                    None => None,
                }
            } else {
                None
            },
            None => None,
        },
        _ => None,
    }
}

/// The spotlight held for a session that starts at `session`: a fresh
/// valid document is shown; a fresh invalid or absent one, or a stale one,
/// is a withdrawal stamped with its retrieval time; a future stamp or no
/// retrieval at all holds nothing.
pub open spec fn spotlight_from(cache: Option<CacheView>, session: u64) -> SpotlightCacheView {
    match cache {
        None => empty_spotlight_cache(),
        Some(c) => match c.spotlight_retrieved_at_unix {
            None => empty_spotlight_cache(),
            Some(t) => match freshness_of(session, t) {
                Freshness::Future => empty_spotlight_cache(),
                Freshness::Fresh => match c.spotlight {
                    Some(b) => match spotlight_document(b) {
                        Some(s) => SpotlightCacheView {
                            spotlight: Some(s),
                            retrieved_at_unix: Some(t),
                        },
                        None => SpotlightCacheView { spotlight: None, retrieved_at_unix: Some(t) },
                    },
                    None => SpotlightCacheView { spotlight: None, retrieved_at_unix: Some(t) },
                },
                Freshness::Stale => SpotlightCacheView { spotlight: None, retrieved_at_unix: Some(t) },
            },
        },
    }
}

/// The snapshot projected from the cache at the start of a session.
pub open spec fn projected_snapshot(cache: Option<CacheView>, session: u64) -> NoticeSnapshotView {
    let detected = detected_from(cache);
    NoticeSnapshotView {
        detected_release: detected,
        release_details: details_from(cache, detected),
        spotlight: spotlight_from(cache, session),
    }
}

/// Whether a refresh is eligible: always without a cache, else when the
/// last successful check is due for renewal.
pub open spec fn refresh_wanted(cache: Option<CacheView>, session: u64) -> bool {
    match cache {
        Some(c) => refresh_due(session, c.last_check_unix),
        None => true,
    }
}

fn refresh_eligible(now_unix: u64, last_check_unix: u64) -> (r: bool)
    ensures
        r == refresh_due(now_unix, last_check_unix),
{
    last_check_unix > now_unix || now_unix - last_check_unix >= CHECK_INTERVAL_SECS
}

/// The startup decision. Disabled, it holds no notice and asks for no
/// refresh. Otherwise the snapshot is what the cache still supports at the
/// session start, and a refresh is asked for when there is no cache or its
/// check is due.
pub fn decide(disabled: bool, session_started_at_unix: u64, cache: &Option<Cache>) -> (d: Decision)
    ensures
        disabled ==> d.initial@ == empty_snapshot() && !d.should_refresh,
        !disabled ==> d.initial@ == projected_snapshot(cache_view(*cache), session_started_at_unix),
        !disabled ==> d.should_refresh == refresh_wanted(cache_view(*cache), session_started_at_unix),
{
    if disabled {
        return Decision { initial: NoticeSnapshot::default(), should_refresh: false };
    }
    let detected_release = match cache {
        Some(c) => match &c.latest_seen {
            Some(t) => match Version::parse(t.as_str()) {
                Some(v) => newer_than_current(v),
                None => None,
            },
            None => None,
        },
        None => None,
    };
    let release_details = cached_release_details(cache, detected_release);
    let spotlight = cached_spotlight(cache, session_started_at_unix);
    let should_refresh = match cache {
        Some(c) => refresh_eligible(session_started_at_unix, c.last_check_unix),
        None => true,
    };
    Decision {
        initial: NoticeSnapshot { detected_release, release_details, spotlight },
        should_refresh,
    }
}

/// The details text for `release` out of the held details, if any remain.
pub(crate) fn project_details(details: &String, release: Version) -> (r: Option<CachedReleaseDetails>)
    ensures
        match details_text(details@, release) {
            Some(t) => r matches Some(c) && c@ == (CachedReleaseDetailsView { release, details: t }),
            None => r is None,
        },
{
    let text = eligible_release_sections(details.as_str(), current(), release);
    if !text.as_str().is_empty() && text.as_str().as_bytes().len() <= MAX_DETAILS_BYTES {
        Some(CachedReleaseDetails { release, details: text })
    } else {
        None
    }
}

fn cached_release_details(cache: &Option<Cache>, detected_release: Option<Version>) -> (r: Option<
    CachedReleaseDetails,
>)
    ensures
        match r {
            Some(c) => details_from(cache_view(*cache), detected_release) == Some(c@),
            None => details_from(cache_view(*cache), detected_release) is None,
        },
{
    let cached = match cache {
        Some(c) => match &c.release_details {
            Some(p) => match Version::parse(p.release.as_str()) {
                Some(release) => Some(CachedReleaseDetails { release, details: p.details.clone() }),
                None => None,
            },
            None => None,
        },
        None => None,
    };
    match release_policy::cached_release_details(current(), detected_release, cached.as_ref()) {
        CachedReleaseDetailsDecision::Cached(c) => project_details(&c.details, c.release),
        CachedReleaseDetailsDecision::Hidden => None,
        CachedReleaseDetailsDecision::Fetch(_) => None,
    }
}

fn cached_spotlight(cache: &Option<Cache>, session_started_at_unix: u64) -> (s: SpotlightCache)
    ensures
        s@ == spotlight_from(cache_view(*cache), session_started_at_unix),
{
    let c = match cache {
        Some(c) => c,
        None => return SpotlightCache::default(),
    };
    let mut projected = SpotlightCache::default();
    let retrieved_at_unix = match c.spotlight_retrieved_at_unix {
        Some(t) => t,
        None => return projected,
    };
    let projection = match spotlight_policy::freshness_at_session_start(
        session_started_at_unix,
        retrieved_at_unix,
    ) {
        Freshness::Future => return projected,
        Freshness::Fresh => match &c.spotlight {
            Some(bytes) => spotlight_policy::project(SpotlightInput::Available(bytes.clone())),
            None => spotlight_policy::SpotlightProjection::Withdrawn,
        },
        Freshness::Stale => spotlight_policy::SpotlightProjection::Withdrawn,
    };
    projected.apply(spotlight_policy::cache_delta(projection, retrieved_at_unix));
    projected
}

#[verifier::external_type_specification]
#[verifier::external_body]
#[verifier::reject_recursive_types(T)]
pub struct ExReceiver<T>(std::sync::mpsc::Receiver<T>);

/// The initial notice state, and the receiver of the one replacement
/// snapshot that a background refresh may send.
pub struct UpdateState {
    pub initial: NoticeSnapshot,
    pub rx: Option<std::sync::mpsc::Receiver<NoticeSnapshot>>,
}

impl UpdateState {
    /// The state of a disabled update check: no notice, no refresh.
    pub fn disabled() -> (s: UpdateState)
        ensures
            s.initial@ == empty_snapshot(),
            s.rx is None,
    {
        UpdateState { initial: NoticeSnapshot::default(), rx: None }
    }
}

/// Starts the update check with the disable decision already made by the
/// caller: disabled, it is the disabled state and `start` is never run;
/// enabled, it is whatever `start` (which reads the cache and the clock and
/// schedules the refresh) gives.
pub fn start_default_with<F: FnOnce() -> UpdateState>(disabled: bool, start: F) -> (s: UpdateState)
    requires
        disabled || call_requires(start, ()),
    ensures
        disabled ==> s.initial@ == empty_snapshot() && s.rx is None,
        !disabled ==> call_ensures(start, (), s),
{
    if disabled {
        return UpdateState::disabled();
    }
    start()
}

/// A check is throttled for one interval after a successful one: strictly
/// less than the interval since the last check suppresses a new one, the
/// full interval permits it, and a last check stamped in the future permits
/// one at once rather than suppressing checks forever.
pub proof fn one_check_per_interval(now: u64, last_check: u64)
    ensures
        last_check <= now && now - last_check < CHECK_INTERVAL_SECS ==> !refresh_due(now, last_check),
        last_check <= now && now - last_check >= CHECK_INTERVAL_SECS ==> refresh_due(now, last_check),
        last_check > now ==> refresh_due(now, last_check),
{
}

/// Once a past check is old enough to permit a new one, it stays old enough
/// as time goes on.
pub proof fn due_check_stays_due(last_check: u64, earlier: u64, later: u64)
    requires
        last_check <= earlier <= later,
    ensures
        refresh_due(earlier, last_check) ==> refresh_due(later, last_check),
{
}

/// Freshness is decided at each session start: a spotlight that a later
/// session start still shows is shown, the same, at any earlier session
/// start that is not before its retrieval.
pub proof fn shown_spotlight_was_shown_earlier(cache: Option<CacheView>, earlier: u64, later: u64)
    requires
        earlier <= later,
        cache matches Some(c) && c.spotlight_retrieved_at_unix matches Some(r) && r <= earlier,
    ensures
        spotlight_from(cache, later).spotlight is Some ==> spotlight_from(cache, earlier)
            == spotlight_from(cache, later),
{
}

/// A cached latest release is detected at startup exactly when it is newer
/// than this build in full major, minor and patch order; otherwise no
/// release is detected.
pub proof fn cached_newer_release_is_detected(cache: CacheView, v: Version, session: u64)
    requires
        cache.latest_seen matches Some(t) && parse_version(t) == Some(v),
    ensures
        projected_snapshot(Some(cache), session).detected_release == Some(v) <==> version_lt(
            current_version(),
            v,
        ),
        projected_snapshot(Some(cache), session).detected_release is None <==> !version_lt(
            current_version(),
            v,
        ),
{
}

} // verus!
