//! The persisted notice state: what the last successful check saw, and the
//! documents it kept. Reading and writing it belongs to the caller.

use vstd::prelude::*;

verus! {

/// Release details as persisted: the release as text and the details.
#[derive(Debug, Clone, PartialEq, Eq)]
pub struct PersistedReleaseDetails {
    pub release: String,
    pub details: String,
}

/// Persisted release details, as values.
pub struct PersistedReleaseDetailsView {
    pub release: Seq<char>,
    pub details: Seq<char>,
}

impl View for PersistedReleaseDetails {
    type V = PersistedReleaseDetailsView;

    open spec fn view(&self) -> PersistedReleaseDetailsView {
        PersistedReleaseDetailsView { release: self.release@, details: self.details@ }
    }
}

/// The persisted notice state.
#[derive(Debug, Clone, PartialEq, Eq)]
pub struct Cache {
    /// When the last successful check happened.
    pub last_check_unix: u64,
    /// The latest stable release that check saw, as text.
    pub latest_seen: Option<String>,
    /// Details kept for a release.
    pub release_details: Option<PersistedReleaseDetails>,
    /// The exact bytes of the last accepted spotlight document.
    pub spotlight: Option<Vec<u8>>,
    /// When the spotlight was last conclusively retrieved.
    pub spotlight_retrieved_at_unix: Option<u64>,
}

/// The persisted notice state, as values.
pub struct CacheView {
    pub last_check_unix: u64,
    pub latest_seen: Option<Seq<char>>,
    pub release_details: Option<PersistedReleaseDetailsView>,
    pub spotlight: Option<Seq<u8>>,
    pub spotlight_retrieved_at_unix: Option<u64>,
}

impl View for Cache {
    type V = CacheView;

    open spec fn view(&self) -> CacheView {
        CacheView {
            last_check_unix: self.last_check_unix,
            latest_seen: match self.latest_seen {
                Some(s) => Some(s@),
                None => None,
            },
            release_details: match self.release_details {
                Some(d) => Some(d@),
                None => None,
            },
            spotlight: match self.spotlight {
                Some(b) => Some(b@),
                None => None,
            },
            spotlight_retrieved_at_unix: self.spotlight_retrieved_at_unix,
        }
    }
}

/// The state of a cache that has never been written.
pub open spec fn empty_cache() -> CacheView {
    CacheView {
        last_check_unix: 0,
        latest_seen: None,
        release_details: None,
        spotlight: None,
        spotlight_retrieved_at_unix: None,
    }
}

impl Default for Cache {
    fn default() -> (c: Cache)
        ensures
            c@ == empty_cache(),
    {
        Cache {
            last_check_unix: 0,
            latest_seen: None,
            release_details: None,
            spotlight: None,
            spotlight_retrieved_at_unix: None,
        }
    }
}

/// The view of an optional cache.
pub open spec fn cache_view(cache: Option<Cache>) -> Option<CacheView> {
    match cache {
        Some(c) => Some(c@),
        None => None,
    }
}

} // verus!
