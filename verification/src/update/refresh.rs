//! The decisions of one background refresh: which documents to ask for,
//! and what a determined discovery stores and publishes given the answers.

use vstd::prelude::*;
use vstd::utf8::{decode_utf8, valid_utf8};
use crate::context::opt_view;
use crate::text::utf8_to_string;
use super::cache::{
    Cache, CacheView, PersistedReleaseDetails, PersistedReleaseDetailsView, cache_view, empty_cache,
};
use super::gateway::{
    ReleaseState, ReleaseTag, Source, latest_release_is_a_highest_version, max_version,
};
use super::release_policy::{
    self, CachedReleaseDetails, CachedReleaseDetailsDecision, CachedReleaseDetailsView,
    eligible_release_text_is_stable,
};
use super::spotlight_policy::{
    self, SpotlightCacheDelta, SpotlightCacheView, SpotlightInput, SpotlightView, retrieval_due,
    should_retrieve, spotlight_document,
};
use super::version::{
    Version, current, current_version, newer_than_current, parse_version, version_lt, version_text,
    version_text_parses_back,
};
use super::{
    NoticeSnapshot, NoticeSnapshotView, details_from, details_text, detected_from,
    project_details, projected_snapshot, refresh_due, refresh_wanted, spotlight_from,
};

verus! {

/// The release newer than this build among what discovery saw.
pub open spec fn newer_release(latest: Option<Version>) -> Option<Version> {
    match latest {
        Some(v) => if version_lt(current_version(), v) {
            Some(v)
        } else {
            None
        },
        None => None,
    }
}

/// The details that a changelog answer yields for `release`: the eligible
/// sections of a valid UTF-8 changelog, when there are any within the cap.
pub open spec fn fetched_details(changelog: Source<Option<Vec<u8>>>, release: Version) -> Option<
    CachedReleaseDetailsView,
> {
    match changelog {
        Source::Available(Some(b)) => if valid_utf8(b@) {
            match details_text(decode_utf8(b@), release) {
                Some(t) => Some(CachedReleaseDetailsView { release, details: t }),
                None => None,
            }
        } else {
            None
        },
        _ => None,
    }
}

/// The details shown after a refresh, and the details persisted by it. The
/// held details stay while they belong to the detected release; otherwise a
/// detected release gets what its changelog yields, and nothing newer than
/// this build gets nothing.
pub open spec fn release_outcome(
    held: Option<CachedReleaseDetailsView>,
    detected: Option<Version>,
    changelog: Source<Option<Vec<u8>>>,
) -> (Option<CachedReleaseDetailsView>, Option<PersistedReleaseDetailsView>) {
    match detected {
        None => (None, None),
        Some(d) => match held {
            Some(c) if c.release == d => (Some(c), None),
            _ => {
                let f = fetched_details(changelog, d);
                (
                    f,
                    match f {
                        Some(x) => Some(
                            PersistedReleaseDetailsView { release: version_text(d), details: x.details },
                        ),
                        None => None,
                    },
                )
            },
        },
    }
}

/// What a spotlight answer concludes: `Some` of the accepted document or of
/// nothing (a withdrawal), or `None` where the source was unreachable.
pub open spec fn spotlight_answer(answer: Source<Option<Vec<u8>>>) -> Option<Option<SpotlightView>> {
    match answer {
        Source::Available(Some(b)) => Some(spotlight_document(b@)),
        Source::Available(None) => Some(None),
        Source::Unavailable => None,
    }
}

/// The spotlight after a refresh: a due retrieval that concludes replaces
/// it, stamped with `now`; anything else keeps it.
pub open spec fn refreshed_spotlight(
    held: SpotlightCacheView,
    now: u64,
    answer: Source<Option<Vec<u8>>>,
) -> SpotlightCacheView {
    if retrieval_due(now, held) {
        match spotlight_answer(answer) {
            Some(x) => SpotlightCacheView { spotlight: x, retrieved_at_unix: Some(now) },
            None => held,
        }
    } else {
        held
    }
}

/// The snapshot that a determined refresh publishes.
pub open spec fn refreshed_snapshot(
    initial: NoticeSnapshotView,
    now: u64,
    state: ReleaseState,
    changelog: Source<Option<Vec<u8>>>,
    spotlight: Source<Option<Vec<u8>>>,
) -> NoticeSnapshotView {
    let detected = newer_release(max_version(state.releases@));
    NoticeSnapshotView {
        detected_release: detected,
        release_details: release_outcome(initial.release_details, detected, changelog).0,
        spotlight: refreshed_spotlight(initial.spotlight, now, spotlight),
    }
}

/// The cache that a determined refresh stores: the check is stamped `now`
/// with the latest release it saw; details are dropped when that release
/// changed, and replaced by freshly fetched ones; a concluded spotlight
/// retrieval replaces the spotlight and its time.
pub open spec fn refreshed_cache(
    cache: CacheView,
    initial: NoticeSnapshotView,
    now: u64,
    state: ReleaseState,
    changelog: Source<Option<Vec<u8>>>,
    spotlight: Source<Option<Vec<u8>>>,
) -> CacheView {
    let latest = max_version(state.releases@);
    let latest_seen = match latest {
        Some(v) => Some(version_text(v)),
        None => None,
    };
    let persisted = release_outcome(initial.release_details, newer_release(latest), changelog).1;
    let concluded = if retrieval_due(now, initial.spotlight) {
        spotlight_answer(spotlight)
    } else {
        None
    };
    CacheView {
        last_check_unix: now,
        latest_seen,
        release_details: match persisted {
            Some(p) => Some(p),
            None => if cache.latest_seen == latest_seen {
                cache.release_details
            } else {
                None
            },
        },
        spotlight: match concluded {
            Some(Some(s)) => Some(s.source),
            Some(None) => None,
            None => cache.spotlight,
        },
        spotlight_retrieved_at_unix: match concluded {
            Some(_) => Some(now),
            None => cache.spotlight_retrieved_at_unix,
        },
    }
}

/// The cache a refresh starts from: the held one, or an empty one.
pub open spec fn base_cache(cache: Option<CacheView>) -> CacheView {
    match cache {
        Some(c) => c,
        None => empty_cache(),
    }
}

/// The release whose changelog a refresh needs: the latest discovered tag,
/// when it is newer than this build and the held details are not for it.
pub fn changelog_request<'a>(initial: &NoticeSnapshot, state: &'a ReleaseState) -> (r: Option<
    &'a ReleaseTag,
>)
    ensures
        match r {
            Some(t) => {
                &&& newer_release(max_version(state.releases@)) == Some(t.version)
                &&& !(initial@.release_details matches Some(c) && c.release == t.version)
                &&& exists|i: int|
                    0 <= i < state.releases@.len() && state.releases@[i] == *t && forall|j: int|
                        0 <= j < i ==> version_lt(#[trigger] state.releases@[j].version, t.version)
            },
            None => newer_release(max_version(state.releases@)) matches Some(d) ==> (
            initial@.release_details matches Some(c) && c.release == d),
        },
{
    let latest = match state.latest_release() {
        Some(t) => t,
        None => return None,
    };
    let detected = newer_than_current(latest.version);
    match release_policy::cached_release_details(
        current(),
        detected,
        initial.release_details.as_ref(),
    ) {
        CachedReleaseDetailsDecision::Fetch(_) => Some(latest),
        _ => None,
    }
}

fn same_text(a: &Option<String>, b: &Option<String>) -> (r: bool)
    ensures
        r == (opt_view(*a) == opt_view(*b)),
{
    match (a, b) {
        (Some(x), Some(y)) => x.eq(y),
        (None, None) => true,
        _ => false,
    }
}

fn details_from_changelog(changelog: Source<Option<Vec<u8>>>, release: Version) -> (r: Option<
    CachedReleaseDetails,
>)
    ensures
        match fetched_details(changelog, release) {
            Some(v) => r matches Some(c) && c@ == v,
            None => r is None,
        },
{
    match changelog {
        Source::Available(Some(bytes)) => match utf8_to_string(bytes) {
            Some(text) => project_details(&text, release),
            None => None,
        },
        _ => None,
    }
}

/// Completes one refresh from the sources' answers. An unavailable
/// discovery yields nothing: no replacement snapshot and no cache write.
/// A determined one yields the cache to store and the snapshot to publish.
/// The changelog answer counts only when [`changelog_request`] asked for
/// one, and the spotlight answer only when a retrieval was due at `now_unix`.
pub fn complete_refresh(
    cache: Option<Cache>,
    initial: &NoticeSnapshot,
    now_unix: u64,
    discovery: Source<ReleaseState>,
    changelog: Source<Option<Vec<u8>>>,
    spotlight: Source<Option<Vec<u8>>>,
) -> (r: Option<(Cache, NoticeSnapshot)>)
    ensures
        match discovery {
            Source::Unavailable => r is None,
            Source::Available(state) => r matches Some((c, s)) && c@ == refreshed_cache(
                base_cache(cache_view(cache)),
                initial@,
                now_unix,
                state,
                changelog,
                spotlight,
            ) && s@ == refreshed_snapshot(initial@, now_unix, state, changelog, spotlight),
        },
{
    let state = match discovery {
        Source::Available(s) => s,
        Source::Unavailable => return None,
    };
    let mut refresh_cache = match cache {
        Some(c) => c,
        None => Cache::default(),
    };
    let latest = match state.latest_release() {
        Some(t) => Some(t.version),
        None => None,
    };
    let detected_release = match latest {
        Some(v) => newer_than_current(v),
        None => None,
    };
    let (release_details, persisted) = match release_policy::cached_release_details(
        current(),
        detected_release,
        initial.release_details.as_ref(),
    ) {
        CachedReleaseDetailsDecision::Cached(d) => (Some(d.clone()), None),
        CachedReleaseDetailsDecision::Hidden => (None, None),
        CachedReleaseDetailsDecision::Fetch(detected) => {
            let fetched = details_from_changelog(changelog, detected);
            let persisted = match &fetched {
                Some(f) => Some(
                    PersistedReleaseDetails {
                        release: detected.to_string(),
                        details: f.details.clone(),
                    },
                ),
                None => None,
            };
            (fetched, persisted)
        },
    };
    let latest_seen = match latest {
        Some(v) => Some(v.to_string()),
        None => None,
    };
    if !same_text(&refresh_cache.latest_seen, &latest_seen) {
        refresh_cache.release_details = None;
    }
    refresh_cache.last_check_unix = now_unix;
    refresh_cache.latest_seen = latest_seen;
    match persisted {
        Some(p) => {
            refresh_cache.release_details = Some(p);
        },
        None => {},
    }
    let mut spotlight_state = initial.spotlight.clone();
    if should_retrieve(now_unix, &spotlight_state) {
        let source = match spotlight {
            Source::Available(Some(bytes)) => SpotlightInput::Available(bytes),
            Source::Available(None) => SpotlightInput::Missing,
            Source::Unavailable => SpotlightInput::Unavailable,
        };
        let delta = spotlight_policy::cache_delta(spotlight_policy::project(source), now_unix);
        match &delta {
            SpotlightCacheDelta::Accepted { spotlight, retrieved_at_unix } => {
                refresh_cache.spotlight = Some(spotlight.source().clone());
                refresh_cache.spotlight_retrieved_at_unix = Some(*retrieved_at_unix);
            },
            SpotlightCacheDelta::Withdrawn { retrieved_at_unix } => {
                refresh_cache.spotlight = None;
                refresh_cache.spotlight_retrieved_at_unix = Some(*retrieved_at_unix);
            },
            SpotlightCacheDelta::Preserve => {},
        }
        spotlight_state.apply(delta);
    }
    Some(
        (
            refresh_cache,
            NoticeSnapshot { detected_release, release_details, spotlight: spotlight_state },
        ),
    )
}

/// Latest-release text as a refresh writes it: text that reads as a version
/// is that version's own text.
pub open spec fn canonical_latest_seen(cache: Option<CacheView>) -> bool {
    cache matches Some(c) ==> (c.latest_seen matches Some(t) ==> (parse_version(t) matches Some(
        v,
    ) ==> version_text(v) == t))
}

/// A determined refresh at `now`, started from the snapshot that the cache
/// projected at `now`, stores a cache that projects at that same instant
/// exactly the snapshot the refresh published, and that suppresses another
/// check: the stored state and the published state never disagree.
pub proof fn stored_cache_reprojects_the_published_snapshot(
    cache: Option<CacheView>,
    now: u64,
    state: ReleaseState,
    changelog: Source<Option<Vec<u8>>>,
    spotlight: Source<Option<Vec<u8>>>,
)
    requires
        canonical_latest_seen(cache),
    ensures
        ({
            let initial = projected_snapshot(cache, now);
            let stored = refreshed_cache(base_cache(cache), initial, now, state, changelog, spotlight);
            let published = refreshed_snapshot(initial, now, state, changelog, spotlight);
            &&& projected_snapshot(Some(stored), now) == published
            &&& !refresh_wanted(Some(stored), now)
        }),
{
    let initial = projected_snapshot(cache, now);
    let base = base_cache(cache);
    let stored = refreshed_cache(base, initial, now, state, changelog, spotlight);
    let published = refreshed_snapshot(initial, now, state, changelog, spotlight);
    let latest = max_version(state.releases@);
    let detected = newer_release(latest);
    match latest {
        Some(v) => version_text_parses_back(v),
        None => {},
    }
    assert(detected_from(Some(stored)) == detected);
    // The spotlight.
    match spotlight_answer(spotlight) {
        Some(Some(sv)) => {},
        _ => {},
    }
    assert(spotlight_from(Some(stored), now) == published.spotlight);
    // The details.
    match detected {
        None => {},
        Some(d) => {
            version_text_parses_back(d);
            match initial.release_details {
                Some(c) => {
                    if c.release == d {
                        assert(stored.release_details == base.release_details);
                    } else {
                        fetched_details_reproject(base, changelog, d);
                    }
                },
                None => {
                    fetched_details_reproject(base, changelog, d);
                },
            }
        },
    }
    assert(projected_snapshot(Some(stored), now) =~= published);
}

proof fn fetched_details_reproject(base: CacheView, changelog: Source<Option<Vec<u8>>>, d: Version)
    requires
        version_lt(current_version(), d),
        parse_version(version_text(d)) == Some(d),
    ensures
        match fetched_details(changelog, d) {
            Some(x) => details_text(x.details, d) == Some(x.details),
            None => true,
        },
{
    match changelog {
        Source::Available(Some(b)) => {
            if valid_utf8(b@) {
                eligible_release_text_is_stable(decode_utf8(b@), current_version(), d);
            }
        },
        _ => {},
    }
}

/// Release details never accompany any release but the detected one, and
/// only a release newer than this build is detected, both in the snapshot
/// projected at startup and in the one a refresh publishes.
pub proof fn details_belong_to_the_detected_release(
    cache: Option<CacheView>,
    session: u64,
    initial: NoticeSnapshotView,
    now: u64,
    state: ReleaseState,
    changelog: Source<Option<Vec<u8>>>,
    spotlight: Source<Option<Vec<u8>>>,
)
    ensures
        ({
            let p = projected_snapshot(cache, session);
            &&& p.detected_release matches Some(v) ==> version_lt(current_version(), v)
            &&& p.release_details matches Some(d) ==> p.detected_release == Some(d.release)
        }),
        ({
            let r = refreshed_snapshot(initial, now, state, changelog, spotlight);
            &&& r.detected_release matches Some(v) ==> version_lt(current_version(), v)
            &&& r.release_details matches Some(d) ==> r.detected_release == Some(d.release)
        }),
{
}

/// The sources of one refresh fail independently: the detected release
/// depends on neither document, the details do not depend on the spotlight
/// answer, and the spotlight does not depend on the changelog answer.
pub proof fn document_answers_are_independent(
    initial: NoticeSnapshotView,
    now: u64,
    state: ReleaseState,
    changelog_a: Source<Option<Vec<u8>>>,
    changelog_b: Source<Option<Vec<u8>>>,
    spotlight_a: Source<Option<Vec<u8>>>,
    spotlight_b: Source<Option<Vec<u8>>>,
)
    ensures
        refreshed_snapshot(initial, now, state, changelog_a, spotlight_a).detected_release
            == refreshed_snapshot(initial, now, state, changelog_b, spotlight_b).detected_release,
        refreshed_snapshot(initial, now, state, changelog_a, spotlight_a).release_details
            == refreshed_snapshot(initial, now, state, changelog_a, spotlight_b).release_details,
        refreshed_snapshot(initial, now, state, changelog_a, spotlight_a).spotlight
            == refreshed_snapshot(initial, now, state, changelog_b, spotlight_a).spotlight,
{
}

/// A refresh detects the newest discovered release when that release is
/// newer than this build, in full major, minor and patch order: the
/// detected release is newer than this build, is the version of one of the
/// discovered tags, and no tag is later. Where it detects nothing, no
/// discovered release is newer than this build.
pub proof fn refresh_detects_the_newest_newer_release(
    initial: NoticeSnapshotView,
    now: u64,
    state: ReleaseState,
    changelog: Source<Option<Vec<u8>>>,
    spotlight: Source<Option<Vec<u8>>>,
)
    ensures
        match refreshed_snapshot(initial, now, state, changelog, spotlight).detected_release {
            Some(d) => {
                &&& version_lt(current_version(), d)
                &&& exists|i: int|
                    0 <= i < state.releases@.len() && #[trigger] state.releases@[i].version == d
                &&& forall|i: int|
                    0 <= i < state.releases@.len() ==> !version_lt(
                        d,
                        #[trigger] state.releases@[i].version,
                    )
            },
            None => forall|i: int|
                0 <= i < state.releases@.len() ==> !version_lt(
                    current_version(),
                    #[trigger] state.releases@[i].version,
                ),
        },
{
    latest_release_is_a_highest_version(state.releases@);
}

} // verus!
