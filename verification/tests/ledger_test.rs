use stellr::history::{HistoryImportState, IssueSyncMetadata};
use stellr::ledger::{
    ordered_seed_issues, parse_state, state_name_of, summary_from_row, validate_seed,
    HistoryDataError, RepositorySeed,
};

fn issue(id: &str, number: u64, created_at: i64) -> IssueSyncMetadata {
    IssueSyncMetadata {
        issue_id: id.into(),
        number,
        created_at,
        updated_at: created_at,
        milestone: None,
    }
}

fn seed(space: &str, repository: &str, issues: Vec<IssueSyncMetadata>) -> RepositorySeed {
    RepositorySeed {
        space_id: space.into(),
        provider_repository_id: repository.into(),
        verified_through: 100,
        issues,
    }
}

#[test]
fn seeds_need_identities_and_storable_numbers() {
    assert_eq!(validate_seed(&seed("s", "R", vec![issue("I", 1, 0)])), Ok(()));
    assert_eq!(
        validate_seed(&seed("  ", "R", vec![])),
        Err(HistoryDataError::Invalid("repository identities must not be empty".into()))
    );
    assert_eq!(
        validate_seed(&seed("s", "", vec![])),
        Err(HistoryDataError::Invalid("repository identities must not be empty".into()))
    );
    assert_eq!(
        validate_seed(&seed("s", "R", vec![issue("I", 1, 0), issue(" \t", 2, 0)])),
        Err(HistoryDataError::Invalid("provider issue identity must not be empty".into()))
    );
    assert_eq!(
        validate_seed(&seed("s", "R", vec![issue("I", u64::MAX, 0)])),
        Err(HistoryDataError::Integer)
    );
}

#[test]
fn every_state_reads_back_under_its_stored_name() {
    for state in [
        HistoryImportState::Unavailable,
        HistoryImportState::Building,
        HistoryImportState::Complete,
        HistoryImportState::Delayed,
        HistoryImportState::RateLimited,
        HistoryImportState::Failed,
    ] {
        assert_eq!(parse_state(state_name_of(state)), Ok(state));
    }
    assert_eq!(state_name_of(HistoryImportState::RateLimited), "rate_limited");
    assert_eq!(
        parse_state("paused"),
        Err(HistoryDataError::Invalid("unknown history import state: paused".into()))
    );
}

#[test]
fn stored_rows_read_back_as_summaries() {
    let summary = summary_from_row("building", 2, 5, Some(10), Some(20), Some(7), None, Some(30))
        .unwrap();
    assert_eq!(summary.state, HistoryImportState::Building);
    assert_eq!(summary.completed_issues, 2);
    assert_eq!(summary.total_issues, 5);
    assert_eq!(summary.earliest_event_at, Some(10));
    assert_eq!(summary.verified_through, Some(20));
    assert_eq!(summary.revision, 7);
    assert_eq!(summary.resume_at, Some(30));
    assert_eq!(
        summary_from_row("complete", 0, 0, None, None, None, None, None).unwrap().revision,
        0
    );
    assert_eq!(
        summary_from_row("complete", -1, 0, None, None, None, None, None),
        Err(HistoryDataError::Integer)
    );
    assert!(summary_from_row("bogus", 0, 0, None, None, None, None, None).is_err());
}

#[test]
fn seeded_issues_are_ordered_by_creation_then_creation_event_identity() {
    let ordered = ordered_seed_issues(vec![
        issue("I9", 3, 20),
        issue("I", 1, 10),
        issue("I9", 2, 10),
        issue("H", 4, 10),
    ]);
    assert_eq!(
        ordered.iter().map(|i| i.number).collect::<Vec<_>>(),
        vec![4, 2, 1, 3]
    );
}

#[test]
fn history_errors_display_their_reason() {
    assert_eq!(
        HistoryDataError::Invalid("x".into()).message(),
        "invalid history data: x"
    );
    assert!(HistoryDataError::Integer.message().starts_with("history integer is outside"));
}
