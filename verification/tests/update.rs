use herdr_file_viewer::update::cache::{Cache, PersistedReleaseDetails};
use herdr_file_viewer::update::release_policy::{self, CachedReleaseDetails};
use herdr_file_viewer::update::spotlight_policy::{self, SpotlightInput};
use herdr_file_viewer::update::version::current;
use herdr_file_viewer::update::{
    changelog_request, complete_refresh, decide, repo_slug, repo_url, start_default_with,
    NoticeSnapshot, ReleaseState, ReleaseTag, Source, UpdateState, Version, CHECK_INTERVAL_SECS,
};

fn future_version(offset: u32) -> Version {
    Version {
        major: current().major + offset,
        minor: 0,
        patch: 0,
    }
}

fn available_releases(releases: Vec<ReleaseTag>) -> Source<ReleaseState> {
    Source::Available(ReleaseState::new(
        "0123456789012345678901234567890123456789".to_string(),
        releases,
    ))
}

fn available_release(version: Version) -> Source<ReleaseState> {
    available_releases(vec![ReleaseTag {
        version,
        object_id: "aaaaaaaaaaaaaaaaaaaaaaaaaaaaaaaaaaaaaaaa".to_string(),
    }])
}

/// Plays one coordinator refresh: decides at `now`, asks the sources only for
/// what the decisions request, and completes the refresh.
fn refresh_at(
    cache: Option<Cache>,
    now: u64,
    discovery: Source<ReleaseState>,
    changelog: Source<Option<Vec<u8>>>,
    spotlight: Source<Option<Vec<u8>>>,
) -> Option<(Cache, NoticeSnapshot)> {
    let decision = decide(false, now, &cache);
    assert!(decision.should_refresh, "stale cache schedules one refresh");
    let initial = decision.initial;
    let changelog = match &discovery {
        Source::Available(state) if changelog_request(&initial, state).is_some() => changelog,
        _ => Source::Unavailable,
    };
    let spotlight = if spotlight_policy::should_retrieve(now, &initial.spotlight) {
        spotlight
    } else {
        Source::Unavailable
    };
    complete_refresh(cache, &initial, now, discovery, changelog, spotlight)
}

fn refresh_with(
    cache: Option<Cache>,
    discovery: Source<ReleaseState>,
    changelog: Source<Option<Vec<u8>>>,
    spotlight: Source<Option<Vec<u8>>>,
) -> (Cache, NoticeSnapshot) {
    refresh_at(cache, CHECK_INTERVAL_SECS * 10, discovery, changelog, spotlight)
        .expect("determined discovery publishes one replacement snapshot")
}

fn refreshed(result: (Cache, NoticeSnapshot)) -> NoticeSnapshot {
    result.1
}

#[test]
fn startup_decision_disabled_returns_an_empty_snapshot_and_skips_refresh() {
    let release = future_version(1);
    let spotlight = b"# Project\nbody\n".to_vec();
    let cache = Some(Cache {
        last_check_unix: 10,
        latest_seen: Some(release.to_string()),
        release_details: Some(PersistedReleaseDetails {
            release: release.to_string(),
            details: "## [next]\n- cached details\n".into(),
        }),
        spotlight: Some(spotlight),
        spotlight_retrieved_at_unix: Some(10_000),
        ..Cache::default()
    });

    let decision = decide(true, 10_000, &cache);

    assert!(decision.initial.detected_release.is_none());
    assert!(decision.initial.release_details.is_none());
    assert!(decision.initial.spotlight.status_title().is_none());
    assert!(decision.initial.spotlight.whats_new_body().is_none());
    assert!(!decision.should_refresh);
}

#[test]
fn startup_decision_throttles_a_cache_younger_than_one_day() {
    let last_check_unix = 10_000;
    let decision = decide(
        false,
        last_check_unix + CHECK_INTERVAL_SECS - 1,
        &Some(Cache {
            last_check_unix,
            ..Cache::default()
        }),
    );

    assert!(
        !decision.should_refresh,
        "strictly less than 86,400 elapsed seconds is throttled"
    );
}

#[test]
fn startup_decision_refreshes_at_the_boundary_and_for_a_future_cache_clock() {
    let last_check_unix = 10_000;
    let cache = Some(Cache {
        last_check_unix,
        ..Cache::default()
    });

    assert!(
        decide(false, last_check_unix + CHECK_INTERVAL_SECS, &cache).should_refresh,
        "exactly 86,400 elapsed seconds is eligible"
    );
    assert!(
        decide(false, last_check_unix - 1, &cache).should_refresh,
        "a future cache timestamp is eligible rather than throttling forever"
    );
}

#[test]
fn startup_decision_projects_details_only_for_the_matching_newer_release() {
    let release = future_version(1);
    let details = format!("## [{}]\n- cached details\n", release.to_string());
    let decision = decide(
        false,
        10_000,
        &Some(Cache {
            latest_seen: Some(release.to_string()),
            release_details: Some(PersistedReleaseDetails {
                release: release.to_string(),
                details: details.clone(),
            }),
            ..Cache::default()
        }),
    );

    assert_eq!(decision.initial.detected_release, Some(release));
    let projected = decision
        .initial
        .release_details
        .as_ref()
        .expect("matching newer release details remain usable");
    assert_eq!(projected.release, release);
    assert_eq!(projected.details, details);
}

#[test]
fn startup_decision_reprojects_cached_details_after_an_intermediate_install() {
    let intermediate = current();
    let detected = future_version(1);
    let detected_section = format!("## [{}]\n- detected bytes\n", detected.to_string());
    let intermediate_section =
        format!("## [{}]\r\n- installed bytes\r\n", intermediate.to_string());
    let cache = Some(Cache {
        latest_seen: Some(detected.to_string()),
        release_details: Some(PersistedReleaseDetails {
            release: detected.to_string(),
            details: format!("{detected_section}{intermediate_section}"),
        }),
        ..Cache::default()
    });

    let projected = decide(false, 10_000, &cache)
        .initial
        .release_details
        .expect("only sections newer than this installed build remain visible");
    assert_eq!(projected.release, detected);
    assert_eq!(
        projected.details, detected_section,
        "the eligible cached section retains its exact bytes unaltered"
    );

    let empty_cache = Some(Cache {
        latest_seen: Some(detected.to_string()),
        release_details: Some(PersistedReleaseDetails {
            release: detected.to_string(),
            details: intermediate_section,
        }),
        ..Cache::default()
    });
    assert!(
        decide(false, 10_000, &empty_cache)
            .initial
            .release_details
            .is_none(),
        "cached details with no section above the installed build stay hidden"
    );
}

#[test]
fn startup_decision_hides_caught_up_and_superseded_release_details() {
    let caught_up = current();
    let older = future_version(1);
    let newer = future_version(2);

    let caught_up_decision = decide(
        false,
        10_000,
        &Some(Cache {
            latest_seen: Some(caught_up.to_string()),
            release_details: Some(PersistedReleaseDetails {
                release: caught_up.to_string(),
                details: "caught up details".into(),
            }),
            ..Cache::default()
        }),
    );
    assert!(caught_up_decision.initial.detected_release.is_none());
    assert!(caught_up_decision.initial.release_details.is_none());

    let superseded_decision = decide(
        false,
        10_000,
        &Some(Cache {
            latest_seen: Some(newer.to_string()),
            release_details: Some(PersistedReleaseDetails {
                release: older.to_string(),
                details: "superseded details".into(),
            }),
            ..Cache::default()
        }),
    );
    assert_eq!(superseded_decision.initial.detected_release, Some(newer));
    assert!(superseded_decision.initial.release_details.is_none());
}

#[test]
fn startup_decision_projects_fresh_spotlight_and_hides_stale_spotlight() {
    let session_started_at_unix = 1_000_000;
    let spotlight = b"# Project\nbody\n".to_vec();
    let fresh = decide(
        false,
        session_started_at_unix,
        &Some(Cache {
            spotlight: Some(spotlight.clone()),
            spotlight_retrieved_at_unix: Some(session_started_at_unix - CHECK_INTERVAL_SECS + 1),
            ..Cache::default()
        }),
    )
    .initial;
    assert_eq!(fresh.spotlight.status_title(), Some("Project"));
    assert_eq!(fresh.spotlight.whats_new_body(), Some(b"body\n".as_slice()));

    let stale = decide(
        false,
        session_started_at_unix,
        &Some(Cache {
            spotlight: Some(spotlight),
            spotlight_retrieved_at_unix: Some(session_started_at_unix - CHECK_INTERVAL_SECS),
            ..Cache::default()
        }),
    )
    .initial;
    assert!(stale.spotlight.status_title().is_none());
    assert!(stale.spotlight.whats_new_body().is_none());
}

#[test]
fn startup_decision_preserves_withdrawal_freshness_without_fabricating_content() {
    let session_started_at_unix = 1_000_000;
    let fresh_retrieved_at_unix = session_started_at_unix - CHECK_INTERVAL_SECS + 1;
    let fresh = decide(
        false,
        session_started_at_unix,
        &Some(Cache {
            spotlight_retrieved_at_unix: Some(fresh_retrieved_at_unix),
            ..Cache::default()
        }),
    )
    .initial
    .spotlight;

    assert_eq!(fresh.retrieved_at_unix(), Some(fresh_retrieved_at_unix));
    assert!(fresh.status_title().is_none());
    assert!(fresh.whats_new_body().is_none());
    assert!(
        !spotlight_policy::should_retrieve(session_started_at_unix, &fresh),
        "a fresh persisted withdrawal remains throttled for this session"
    );

    let stale = decide(
        false,
        session_started_at_unix,
        &Some(Cache {
            spotlight_retrieved_at_unix: Some(session_started_at_unix - CHECK_INTERVAL_SECS),
            ..Cache::default()
        }),
    )
    .initial
    .spotlight;
    assert_eq!(
        stale.retrieved_at_unix(),
        Some(session_started_at_unix - CHECK_INTERVAL_SECS)
    );
    assert!(spotlight_policy::should_retrieve(
        session_started_at_unix,
        &stale
    ));

    let unavailable = decide(false, session_started_at_unix, &Some(Cache::default()))
        .initial
        .spotlight;
    assert_eq!(unavailable.retrieved_at_unix(), None);
    assert!(spotlight_policy::should_retrieve(
        session_started_at_unix,
        &unavailable
    ));

    let invalid = decide(
        false,
        session_started_at_unix,
        &Some(Cache {
            spotlight: Some(b"not a spotlight document\n".to_vec()),
            spotlight_retrieved_at_unix: Some(fresh_retrieved_at_unix),
            ..Cache::default()
        }),
    )
    .initial
    .spotlight;
    assert_eq!(invalid.retrieved_at_unix(), Some(fresh_retrieved_at_unix));
    assert!(invalid.status_title().is_none());
    assert!(invalid.whats_new_body().is_none());
    assert!(
        !spotlight_policy::should_retrieve(session_started_at_unix, &invalid),
        "invalid present content is a conclusive withdrawal, not an unavailable result"
    );
}

#[test]
fn stale_spotlight_reappears_after_a_fresh_identical_refresh() {
    let session_started_at_unix = 1_000_000;
    let spotlight = b"# Project\nbody\n".to_vec();
    let mut refreshed = decide(
        false,
        session_started_at_unix,
        &Some(Cache {
            spotlight: Some(spotlight.clone()),
            spotlight_retrieved_at_unix: Some(session_started_at_unix - CHECK_INTERVAL_SECS),
            ..Cache::default()
        }),
    )
    .initial
    .spotlight;

    assert!(refreshed.status_title().is_none());
    assert!(refreshed.whats_new_body().is_none());

    refreshed.apply(spotlight_policy::cache_delta(
        spotlight_policy::project(SpotlightInput::Available(spotlight)),
        session_started_at_unix,
    ));

    assert_eq!(refreshed.status_title(), Some("Project"));
    assert_eq!(
        refreshed.whats_new_body(),
        Some(b"body\n".as_slice()),
        "fresh content restores What's New"
    );
}

#[test]
fn startup_decision_projects_fresh_spotlight_in_status_and_whats_new() {
    let session_started_at_unix = 1_000_000;
    let initial = decide(
        false,
        session_started_at_unix,
        &Some(Cache {
            spotlight: Some(b"# Project\nbody\n".to_vec()),
            spotlight_retrieved_at_unix: Some(session_started_at_unix - 1),
            ..Cache::default()
        }),
    )
    .initial;

    assert_eq!(initial.spotlight.status_title(), Some("Project"));
    assert_eq!(
        initial.spotlight.whats_new_body(),
        Some(b"body\n".as_slice())
    );
}

#[test]
fn startup_decision_fixes_spotlight_freshness_at_session_start() {
    let session_started_at_unix = 1_000_000;
    let cache = Some(Cache {
        spotlight: Some(b"# Project\nbody\n".to_vec()),
        spotlight_retrieved_at_unix: Some(session_started_at_unix - CHECK_INTERVAL_SECS + 1),
        ..Cache::default()
    });
    let initial = decide(false, session_started_at_unix, &cache).initial;
    let later = decide(false, session_started_at_unix + CHECK_INTERVAL_SECS, &cache).initial;

    assert_eq!(initial.spotlight.status_title(), Some("Project"));
    assert!(
        later.spotlight.status_title().is_none(),
        "a later session independently re-evaluates its own startup freshness"
    );
    assert_eq!(
        initial.spotlight.status_title(),
        Some("Project"),
        "the existing session keeps its startup projection without a live-clock recheck"
    );
}

#[test]
fn repo_slug_is_owner_repo() {
    assert_eq!(repo_slug(), "tareqmlx/herdr-file-viewer");
}

#[test]
fn repo_url_is_the_official_https_repository() {
    assert_eq!(repo_url(), "https://github.com/tareqmlx/herdr-file-viewer");
}

#[test]
fn fresh_cache_shows_the_banner_without_probing() {
    let newer = format!("{}.0.0", current().major + 1);
    let cache = Some(Cache {
        last_check_unix: 1_000,
        latest_seen: Some(newer.clone()),
        ..Cache::default()
    });
    let decision = decide(false, 1_000 + 10, &cache);
    assert_eq!(
        decision.initial.detected_release,
        Version::parse(&newer),
        "banner shown from cache"
    );
    assert!(
        !decision.should_refresh,
        "fresh cache → no background check scheduled"
    );
}

#[test]
fn startup_decision_uses_cache_for_the_initial_banner_and_gates_the_check() {
    let newer = format!("{}.{}.{}", current().major + 1, 0, 0);
    let cache = Some(Cache {
        last_check_unix: 1_000,
        latest_seen: Some(newer.clone()),
        ..Cache::default()
    });

    let d = decide(false, 1_000 + 10, &cache);
    assert_eq!(d.initial.detected_release, Version::parse(&newer));
    assert!(!d.should_refresh, "fresh cache → no check");

    let d = decide(false, 1_000 + CHECK_INTERVAL_SECS + 1, &cache);
    assert_eq!(d.initial.detected_release, Version::parse(&newer));
    assert!(d.should_refresh, "stale → check");

    let d = decide(true, 10_000_000, &cache);
    assert!(d.initial.detected_release.is_none());
    assert!(!d.should_refresh);

    let d = decide(false, 10_000_000, &None);
    assert!(d.initial.detected_release.is_none());
    assert!(d.should_refresh);

    let same = current().to_string();
    let upcache = Some(Cache {
        last_check_unix: 0,
        latest_seen: Some(same),
        ..Cache::default()
    });
    assert!(
        decide(false, 0, &upcache)
            .initial
            .detected_release
            .is_none()
    );
}

#[test]
fn refresh_worker_keeps_details_for_the_same_release() {
    let detected = future_version(1);
    let details = format!("## [{}]\n- cached details\n", detected.to_string());
    let spotlight = b"# Project\nexact spotlight bytes\n".to_vec();
    let cached = Cache {
        latest_seen: Some(detected.to_string()),
        release_details: Some(PersistedReleaseDetails {
            release: detected.to_string(),
            details: details.clone(),
        }),
        spotlight: Some(spotlight.clone()),
        spotlight_retrieved_at_unix: Some(CHECK_INTERVAL_SECS * 9 + 1),
        ..Cache::default()
    };
    let (persisted, got) = refresh_with(
        Some(cached),
        available_release(detected),
        Source::Unavailable,
        Source::Unavailable,
    );
    assert_eq!(got.detected_release, Some(detected));
    assert_eq!(
        got.release_details,
        Some(CachedReleaseDetails {
            release: detected,
            details,
        }),
        "a successful probe for the same release keeps exact cached details"
    );
    assert_eq!(got.spotlight.status_title(), Some("Project"));
    assert_eq!(persisted.spotlight.as_deref(), Some(spotlight.as_slice()));
    assert_eq!(
        persisted.spotlight_retrieved_at_unix,
        Some(CHECK_INTERVAL_SECS * 9 + 1)
    );
}

#[test]
fn refresh_worker_drops_over_cap_release_details_but_keeps_the_release() {
    let detected = future_version(1);
    let oversized = format!(
        "## [{}]\n- {}\n",
        detected.to_string(),
        "d".repeat(release_policy::MAX_DETAILS_BYTES)
    );
    let snapshot = refreshed(refresh_with(
        Some(Cache::default()),
        available_release(detected),
        Source::Available(Some(oversized.into_bytes())),
        Source::Unavailable,
    ));

    assert_eq!(snapshot.detected_release, Some(detected));
    assert!(
        snapshot.release_details.is_none(),
        "over-cap details degrade to the plain install guidance, never an error"
    );
}

#[test]
fn refresh_worker_clears_details_for_a_superseding_release() {
    let cached_release = future_version(1);
    let superseding_release = future_version(2);
    let cache = Some(Cache {
        latest_seen: Some(cached_release.to_string()),
        release_details: Some(PersistedReleaseDetails {
            release: cached_release.to_string(),
            details: format!("## [{}]\n- details\n", cached_release.to_string()),
        }),
        ..Cache::default()
    });
    assert!(
        decide(false, CHECK_INTERVAL_SECS * 10, &cache)
            .initial
            .release_details
            .is_some(),
        "the valid cached state reaches the refresh coordinator"
    );

    let got = refreshed(refresh_with(
        cache,
        available_release(superseding_release),
        Source::Unavailable,
        Source::Unavailable,
    ));

    assert_eq!(got.detected_release, Some(superseding_release));
    assert!(
        got.release_details.is_none(),
        "details for an older release must not accompany a newer detected release"
    );
}

#[test]
fn refresh_worker_clears_cached_release_when_no_stable_tag_exists() {
    let cached_release = future_version(1);
    let cached = Cache {
        latest_seen: Some(cached_release.to_string()),
        release_details: Some(PersistedReleaseDetails {
            release: cached_release.to_string(),
            details: "## [cached]\n- details\n".into(),
        }),
        ..Cache::default()
    };
    let (persisted, got) = refresh_with(
        Some(cached),
        available_releases(Vec::new()),
        Source::Unavailable,
        Source::Unavailable,
    );

    assert!(got.detected_release.is_none());
    assert!(got.release_details.is_none());
    assert_eq!(persisted.last_check_unix, CHECK_INTERVAL_SECS * 10);
    assert!(persisted.latest_seen.is_none());
    assert!(persisted.release_details.is_none());
}

#[test]
fn start_with_disabled_does_nothing() {
    let decision = decide(true, 0, &None);
    assert!(decision.initial.detected_release.is_none() && !decision.should_refresh);
}

#[test]
fn start_default_with_honors_the_passed_decision_not_the_env() {
    let state = start_default_with(true, || -> UpdateState {
        panic!("a disabled start must not read the cache or schedule a check")
    });
    assert!(
        state.initial.detected_release.is_none() && state.rx.is_none(),
        "disabled=true → the disabled sentinel, regardless of the env"
    );
}

#[test]
fn start_default_with_runs_the_start_when_enabled() {
    let state = start_default_with(false, UpdateState::disabled);
    assert!(state.rx.is_none());
}

#[test]
fn failed_discovery_preserves_the_successful_check_time() {
    let cached = Cache {
        last_check_unix: CHECK_INTERVAL_SECS * 8,
        latest_seen: Some(future_version(1).to_string()),
        ..Cache::default()
    };
    let now = CHECK_INTERVAL_SECS * 10;
    let decision = decide(false, now, &Some(cached.clone()));
    assert_eq!(
        decision.initial.detected_release,
        Some(future_version(1)),
        "a failed discovery leaves the initial cached state alone"
    );
    assert!(
        complete_refresh(
            Some(cached),
            &decision.initial,
            now,
            Source::Unavailable,
            Source::Unavailable,
            Source::Unavailable,
        )
        .is_none(),
        "unavailable discovery cannot advance the only successful-check time"
    );
}

#[test]
fn determined_discovery_advances_its_timestamp_through_every_document_failure() {
    let now = CHECK_INTERVAL_SECS * 10;
    let cached = Cache {
        last_check_unix: CHECK_INTERVAL_SECS * 8,
        ..Cache::default()
    };
    let (persisted, snapshot) = refresh_at(
        Some(cached),
        now,
        available_release(future_version(1)),
        Source::Unavailable,
        Source::Unavailable,
    )
    .expect("determined discovery publishes one replacement snapshot");

    assert_eq!(snapshot.detected_release, Some(future_version(1)));
    assert!(snapshot.release_details.is_none());
    assert!(snapshot.spotlight.status_title().is_none());
    assert_eq!(persisted.last_check_unix, now);
    assert_eq!(persisted.latest_seen, Some(future_version(1).to_string()));
    assert!(persisted.release_details.is_none());
}

#[test]
fn changelog_and_spotlight_partial_successes_are_independent() {
    let release = future_version(1);
    let changelog = format!("## [{}]\n- details\n", release.to_string());
    let details = refreshed(refresh_with(
        Some(Cache::default()),
        available_release(release),
        Source::Available(Some(changelog.into_bytes())),
        Source::Unavailable,
    ));
    assert_eq!(
        details.release_details,
        Some(CachedReleaseDetails {
            release,
            details: format!("## [{}]\n- details\n", release.to_string()),
        })
    );
    assert!(details.spotlight.status_title().is_none());

    let spotlight = refreshed(refresh_with(
        Some(Cache::default()),
        available_release(release),
        Source::Unavailable,
        Source::Available(Some(b"# Project\nbody\n".to_vec())),
    ));
    assert!(spotlight.release_details.is_none());
    assert_eq!(spotlight.spotlight.status_title(), Some("Project"));
}

#[test]
fn stale_spotlight_refresh_accepts_or_withdraws_independently() {
    let stale = Cache {
        spotlight: Some(b"# Old\nold body\n".to_vec()),
        spotlight_retrieved_at_unix: Some(CHECK_INTERVAL_SECS * 9),
        ..Cache::default()
    };
    let accepted = refreshed(refresh_with(
        Some(stale.clone()),
        available_releases(Vec::new()),
        Source::Unavailable,
        Source::Available(Some(b"# New\nnew body\n".to_vec())),
    ));
    assert_eq!(accepted.spotlight.status_title(), Some("New"));
    assert_eq!(
        accepted.spotlight.whats_new_body(),
        Some(b"new body\n".as_slice())
    );

    let withdrawn = refreshed(refresh_with(
        Some(stale),
        available_releases(Vec::new()),
        Source::Unavailable,
        Source::Available(None),
    ));
    assert!(withdrawn.spotlight.status_title().is_none());
    assert!(withdrawn.spotlight.whats_new_body().is_none());
    assert_eq!(
        withdrawn.spotlight.retrieved_at_unix(),
        Some(CHECK_INTERVAL_SECS * 10)
    );
}

#[test]
fn same_release_details_survive_source_failure_but_catch_up_and_supersede_hide_them() {
    let cached_release = future_version(1);
    let cached_details = CachedReleaseDetails {
        release: cached_release,
        details: format!("## [{}]\n- cached details\n", cached_release.to_string()),
    };
    let cache = Cache {
        latest_seen: Some(cached_release.to_string()),
        release_details: Some(PersistedReleaseDetails {
            release: cached_release.to_string(),
            details: cached_details.details.clone(),
        }),
        ..Cache::default()
    };
    let same_release = refreshed(refresh_with(
        Some(cache.clone()),
        available_release(cached_release),
        Source::Unavailable,
        Source::Unavailable,
    ));
    assert_eq!(same_release.release_details, Some(cached_details));

    let caught_up = refreshed(refresh_with(
        Some(cache.clone()),
        available_release(current()),
        Source::Unavailable,
        Source::Unavailable,
    ));
    assert!(caught_up.detected_release.is_none());
    assert!(caught_up.release_details.is_none());

    let superseded = refreshed(refresh_with(
        Some(cache),
        available_release(future_version(2)),
        Source::Unavailable,
        Source::Unavailable,
    ));
    assert_eq!(superseded.detected_release, Some(future_version(2)));
    assert!(superseded.release_details.is_none());
}

#[test]
fn changelog_without_eligible_sections_has_no_durable_release_details() {
    let release = future_version(1);
    let (persisted, snapshot) = refresh_with(
        Some(Cache::default()),
        available_release(release),
        Source::Available(Some(
            b"# Changelog\n\n## [Unreleased]\n- pending\n".to_vec(),
        )),
        Source::Unavailable,
    );
    assert_eq!(snapshot.detected_release, Some(release));
    assert!(snapshot.release_details.is_none());
    assert_eq!(persisted.latest_seen, Some(release.to_string()));
    assert!(persisted.release_details.is_none());
}

#[test]
fn eligible_start_runs_one_background_refresh() {
    let mut calls = 0;
    let now = CHECK_INTERVAL_SECS * 10;
    let cache = Some(Cache::default());
    let decision = decide(false, now, &cache);
    if decision.should_refresh {
        calls += 1;
        let _ = complete_refresh(
            cache,
            &decision.initial,
            now,
            available_releases(Vec::new()),
            Source::Unavailable,
            Source::Unavailable,
        )
        .expect("determined discovery publishes one replacement snapshot");
    }
    assert_eq!(calls, 1);
}
