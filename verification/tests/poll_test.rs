use stellr::poll::{sync_step, SyncAction, SyncEvent, SyncState};
use stellr::history::{HistoryPage, HistoryPageRequest};
use stellr::poll::{import_step, ImportAction, ImportEvent, PageCheckpoint, PendingIssue};
use stellr::history::{HistoryImportState, HistorySummary, IssueSyncMetadata};
use stellr::model::{IssueState, Model, RawIssue};
use stellr::poll::{
    cached_model, failed_history, history_plan, import_waits, marks_rate_limited, model,
    needs_catch_up, publication_generations, publish_history_summary, publish_space,
    rate_limit_resume, rate_limit_resume_at, HistoryPlan, import_failure, ImportFailure,
    polling_interval,
    CONSERVATIVE_RATE_LIMIT_BACKOFF,
};
use stellr::cache::Snapshot;
use stellr::provider::{ProviderError, ProviderSnapshot, RepoRef};
use stellr::spaces::SpaceEntry;

fn entry() -> SpaceEntry {
    SpaceEntry::new(
        RepoRef {
            owner: "octocat".into(),
            name: "hello".into(),
        },
        None,
    )
}

fn raw(number: u64) -> RawIssue {
    RawIssue {
        number,
        parent_issue: None,
        title: format!("issue {number}"),
        body: String::new(),
        state: IssueState::Open,
        assignees: vec![],
        milestone: None,
        labels: vec![],
        blocked_by: vec![],
        url: format!("u{number}"),
    }
}

fn summary(state: HistoryImportState, completed: u64, total: u64) -> HistorySummary {
    HistorySummary {
        state,
        completed_issues: completed,
        total_issues: total,
        ..HistorySummary::default()
    }
}

#[test]
fn missing_provider_reset_uses_a_bounded_conservative_backoff() {
    let before = chrono::Utc::now().timestamp() + CONSERVATIVE_RATE_LIMIT_BACKOFF;
    let resume = rate_limit_resume(None);
    let after = chrono::Utc::now().timestamp() + CONSERVATIVE_RATE_LIMIT_BACKOFF;

    assert!((before..=after).contains(&resume));
}

#[test]
fn a_provider_reset_is_used_as_given_and_the_backoff_saturates() {
    assert_eq!(rate_limit_resume(Some(42)), 42);
    assert_eq!(rate_limit_resume_at(None, 100), 160);
    assert_eq!(rate_limit_resume_at(None, i64::MAX - 1), i64::MAX);
}

#[test]
fn publications_carry_the_generations_of_marked_successes() {
    let results = vec![
        Ok(ProviderSnapshot::without_viewer(vec![]).with_publication_generation(3)),
        Err(ProviderError::Superseded),
        Ok(ProviderSnapshot::without_viewer(vec![])),
        Ok(ProviderSnapshot::without_viewer(vec![]).with_publication_generation(4)),
    ];
    assert_eq!(publication_generations(&results), vec![3, 4]);
}

#[test]
fn catch_up_needs_a_finished_building_import_without_pending_work() {
    let done = Some(summary(HistoryImportState::Building, 3, 3));
    assert!(needs_catch_up(&done, false));
    assert!(!needs_catch_up(&done, true));
    assert!(!needs_catch_up(&Some(summary(HistoryImportState::Building, 2, 3)), false));
    assert!(!needs_catch_up(&Some(summary(HistoryImportState::Building, 0, 0)), false));
    assert!(!needs_catch_up(&Some(summary(HistoryImportState::Complete, 3, 3)), false));
    assert!(!needs_catch_up(&None, false));
}

#[test]
fn imports_wait_only_for_a_future_resume_time() {
    let mut limited = summary(HistoryImportState::RateLimited, 0, 1);
    limited.resume_at = Some(100);
    assert!(import_waits(&Some(limited.clone()), 99));
    assert!(!import_waits(&Some(limited.clone()), 100));
    limited.resume_at = None;
    assert!(!import_waits(&Some(limited), 0));
    assert!(!import_waits(&None, 0));
}

#[test]
fn failed_history_reports_its_diagnostic() {
    let failed = failed_history("broken".into());
    assert_eq!(failed.state, HistoryImportState::Failed);
    assert_eq!(failed.diagnostic.as_deref(), Some("broken"));
    assert_eq!(failed.total_issues, 0);
}

#[test]
fn a_model_derives_stars_and_names_the_space() {
    let space = model(
        &entry(),
        vec![raw(2), raw(1)],
        Some("me".into()),
        Some(5),
        false,
        None,
        HistorySummary::default(),
    );
    assert_eq!(space.id, "octocat-hello");
    assert_eq!(space.repo, "octocat/hello");
    assert_eq!(space.name, "hello");
    assert_eq!(space.viewer_login.as_deref(), Some("me"));
    assert_eq!(space.stars.iter().map(|s| s.number).collect::<Vec<_>>(), vec![1, 2]);
}

#[test]
fn a_failed_fetch_shows_the_cache_stale_with_the_error() {
    let cached = Snapshot {
        viewer_login: Some("me".into()),
        issues: vec![raw(1)],
        synced_at: 7,
    };
    let error = ProviderError::Http("down".into());
    let space = cached_model(&entry(), Some(cached.clone()), false, HistorySummary::default(), &error);
    assert!(space.stale);
    assert_eq!(space.synced_at, Some(7));
    assert_eq!(space.viewer_login, None);
    assert_eq!(space.error.as_deref(), Some("HTTP request failed: down"));
    assert_eq!(space.stars.len(), 1);
    let space = cached_model(&entry(), Some(cached), true, HistorySummary::default(), &error);
    assert_eq!(space.viewer_login.as_deref(), Some("me"));
    let space = cached_model(&entry(), None, true, HistorySummary::default(), &error);
    assert!(space.stars.is_empty());
    assert_eq!(space.synced_at, None);
}

#[test]
fn only_rate_limits_on_existing_history_mark_it() {
    let limited = ProviderError::RateLimited { reset_epoch: Some(9) };
    assert_eq!(
        marks_rate_limited(&limited, &summary(HistoryImportState::Building, 0, 1)),
        Some(Some(9))
    );
    assert_eq!(marks_rate_limited(&limited, &HistorySummary::default()), None);
    assert_eq!(
        marks_rate_limited(&ProviderError::Superseded, &summary(HistoryImportState::Building, 0, 1)),
        None
    );
}

#[test]
fn history_plans_follow_the_snapshot_evidence() {
    let metadata = IssueSyncMetadata {
        issue_id: "I1".into(),
        number: 1,
        created_at: 1,
        updated_at: 2,
        milestone: None,
    };
    let current = ProviderSnapshot::without_viewer(vec![raw(1)]);
    assert_eq!(history_plan(&entry(), &current), HistoryPlan::Stored);

    let no_cutoff = ProviderSnapshot::with_history(None, Some("R".into()), None, vec![raw(1)], vec![metadata.clone()]);
    assert_eq!(
        history_plan(&entry(), &no_cutoff),
        HistoryPlan::MarkFailed("provider snapshot omitted a history verification boundary".into())
    );

    let partial = ProviderSnapshot::with_history(None, Some("R".into()), Some(9), vec![raw(1), raw(2)], vec![metadata.clone()]);
    match history_plan(&entry(), &partial) {
        HistoryPlan::Failed(summary) => assert_eq!(
            summary.diagnostic.as_deref(),
            Some("provider returned history metadata for 1/2 issues")
        ),
        other => panic!("unexpected plan {other:?}"),
    }

    let full = ProviderSnapshot::with_history(None, Some("R".into()), Some(9), vec![raw(1)], vec![metadata.clone()]);
    match history_plan(&entry(), &full) {
        HistoryPlan::Initialize(seed) => {
            assert_eq!(seed.space_id, "octocat-hello");
            assert_eq!(seed.provider_repository_id, "R");
            assert_eq!(seed.verified_through, 9);
            assert_eq!(seed.issues, vec![metadata]);
        }
        other => panic!("unexpected plan {other:?}"),
    }
}

#[test]
fn publishing_replaces_a_space_by_id_or_appends_it() {
    let mut published = Model { spaces: vec![] };
    let first = model(&entry(), vec![], None, None, false, None, HistorySummary::default());
    publish_space(&mut published, first.clone());
    publish_space(&mut published, first.clone());
    assert_eq!(published.spaces.len(), 1);

    let other = SpaceEntry::new(RepoRef { owner: "o".into(), name: "r".into() }, None);
    publish_space(&mut published, model(&other, vec![], None, None, false, None, HistorySummary::default()));
    assert_eq!(published.spaces.len(), 2);

    let stale = model(&entry(), vec![raw(1)], None, None, true, None, HistorySummary::default());
    publish_space(&mut published, stale);
    assert_eq!(published.spaces.len(), 2);
    assert!(published.spaces[0].stale);

    publish_history_summary(&mut published, "o-r", failed_history("x".into()));
    assert_eq!(published.spaces[1].history.state, HistoryImportState::Failed);
    publish_history_summary(&mut published, "missing", failed_history("y".into()));
    assert_eq!(published.spaces.len(), 2);
}

#[test]
fn import_failures_pause_on_rate_limits_and_fail_otherwise() {
    assert_eq!(
        import_failure(&ProviderError::RateLimited { reset_epoch: Some(5) }),
        ImportFailure::RateLimited { reset_epoch: Some(5) }
    );
    assert_eq!(
        import_failure(&ProviderError::Parse("bad page".into())),
        ImportFailure::Failed("response parsing failed: bad page".into())
    );
}

#[test]
fn focus_chooses_the_polling_interval() {
    assert_eq!(polling_interval(true, 30, 300), 30);
    assert_eq!(polling_interval(false, 30, 300), 300);
}

#[test]
fn clock_readings_before_the_epoch_are_negative_times() {
    assert_eq!(stellr::poll::clock_timestamp(Ok(1_753_000_000)), 1_753_000_000);
    assert_eq!(stellr::poll::clock_timestamp(Err(60)), -60);
    assert_eq!(stellr::poll::clock_timestamp(Ok(u64::MAX)), i64::MAX);
    assert_eq!(stellr::poll::clock_timestamp(Err(u64::MAX)), -i64::MAX);
}

fn building(resume_at: Option<i64>, state: HistoryImportState) -> HistorySummary {
    HistorySummary {
        state,
        completed_issues: 1,
        total_issues: 2,
        earliest_event_at: None,
        verified_through: Some(100),
        revision: 3,
        diagnostic: None,
        resume_at,
    }
}

#[test]
fn import_steps_wait_fetch_checkpoint_and_publish() {
    let waiting = building(Some(500), HistoryImportState::RateLimited);
    assert_eq!(
        import_step("s", ImportEvent::Begin { summary: Some(waiting.clone()), now: 400 }),
        ImportAction::Stop
    );
    assert_eq!(
        import_step("s", ImportEvent::Begin { summary: Some(waiting), now: 500 }),
        ImportAction::ReadPending
    );
    assert_eq!(import_step("s", ImportEvent::PendingRead(Ok(None))), ImportAction::Stop);
    assert_eq!(
        import_step(
            "s",
            ImportEvent::PendingRead(Ok(Some(PendingIssue {
                issue_id: "I_1".into(),
                issue_number: 1,
                cursor: Some("c".into()),
                cutoff: 100,
            })))
        ),
        ImportAction::Fetch(HistoryPageRequest {
            issue_id: "I_1".into(),
            issue_number: 1,
            cursor: Some("c".into()),
            cutoff: 100,
        })
    );
    let page = HistoryPage { events: vec![], next_cursor: Some("n".into()), resume_cursor: Some("c".into()), complete: false };
    assert_eq!(
        import_step("s", ImportEvent::PageFetched { issue_id: "I_1".into(), page: Ok(page), now: 0 }),
        ImportAction::Checkpoint(PageCheckpoint {
            space_id: "s".into(),
            issue_id: "I_1".into(),
            events: vec![],
            next_cursor: Some("n".into()),
            resume_cursor: Some("c".into()),
            complete: false,
        })
    );
    let summary = building(None, HistoryImportState::Building);
    assert_eq!(
        import_step("s", ImportEvent::Checkpointed(Ok(summary.clone()))),
        ImportAction::Publish { summary, more: true }
    );
}

#[test]
fn import_failures_mark_the_ledger_and_stop() {
    assert_eq!(
        import_step(
            "s",
            ImportEvent::PageFetched {
                issue_id: "I_1".into(),
                page: Err(ProviderError::RateLimited { reset_epoch: None }),
                now: 1000,
            }
        ),
        ImportAction::MarkRateLimited { resume_at: 1000 + CONSERVATIVE_RATE_LIMIT_BACKOFF }
    );
    assert_eq!(
        import_step(
            "s",
            ImportEvent::PageFetched {
                issue_id: "I_1".into(),
                page: Err(ProviderError::RateLimited { reset_epoch: Some(77) }),
                now: 1000,
            }
        ),
        ImportAction::MarkRateLimited { resume_at: 77 }
    );
    assert_eq!(
        import_step("s", ImportEvent::Checkpointed(Err("disk full".into()))),
        ImportAction::MarkFailed("disk full".into())
    );
    assert_eq!(
        import_step("s", ImportEvent::Marked(Err("locked".into()))),
        ImportAction::Publish { summary: failed_history("locked".into()), more: false }
    );
    assert_eq!(
        import_step("s", ImportEvent::PendingRead(Err("gone".into()))),
        ImportAction::Publish { summary: failed_history("gone".into()), more: false }
    );
}

fn fetched_under(generation: u64) -> Result<ProviderSnapshot, ProviderError> {
    Ok(ProviderSnapshot::without_viewer(vec![]).with_publication_generation(generation))
}

#[test]
fn a_superseded_batch_is_never_published() {
    let (state, action) = sync_step(SyncState::Fetching { results: vec![] }, SyncEvent::Begin, 2, 0);
    assert!(matches!(action, SyncAction::Fetch(0)));
    let (state, action) = sync_step(state, SyncEvent::Fetched(fetched_under(0)), 2, 0);
    assert!(matches!(action, SyncAction::Fetch(1)));
    let (_, action) = sync_step(state, SyncEvent::Fetched(fetched_under(0)), 2, 1);
    assert!(matches!(action, SyncAction::PublishFallback));

    let (state, _) = sync_step(SyncState::Fetching { results: vec![fetched_under(3)] }, SyncEvent::Begin, 2, 3);
    let (_, action) = sync_step(state, SyncEvent::Fetched(Err(ProviderError::Superseded)), 2, 3);
    assert!(matches!(action, SyncAction::PublishBatch(results) if results.len() == 2));
}

#[test]
fn each_space_imports_and_catches_up_once_after_the_batch() {
    let (state, action) = sync_step(SyncState::Publishing { index: 0, again: false }, SyncEvent::Published, 2, 5);
    assert!(matches!(action, SyncAction::Import(0)));
    let (state, action) = sync_step(state, SyncEvent::Imported { needs_catch_up: true }, 2, 5);
    assert!(matches!(action, SyncAction::FetchCatchUp(0)));
    let (stale, action) = sync_step(state, SyncEvent::CaughtUp(fetched_under(4)), 2, 5);
    assert!(matches!(action, SyncAction::Import(1)));
    assert!(matches!(stale, SyncState::Importing { index: 1, again: false }));

    let (state, action) = sync_step(SyncState::CatchingUp { index: 0 }, SyncEvent::CaughtUp(fetched_under(5)), 2, 5);
    assert!(matches!(action, SyncAction::PublishSpace { index: 0, .. }));
    let (state, action) = sync_step(state, SyncEvent::Published, 2, 5);
    assert!(matches!(action, SyncAction::Import(0)));
    let (state, action) = sync_step(state, SyncEvent::Imported { needs_catch_up: true }, 2, 5);
    assert!(matches!(action, SyncAction::Import(1)));
    let (_, action) = sync_step(state, SyncEvent::Imported { needs_catch_up: false }, 2, 5);
    assert!(matches!(action, SyncAction::Idle));
}
