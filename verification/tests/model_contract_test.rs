use stellr::history::{
    sort_events, HistoryEvent, HistoryEventKind, HistoryImportState, HistorySummary,
    IssueSyncMetadata,
};
use stellr::model::SpaceModel;

#[test]
fn events_have_a_stable_timestamp_then_provider_id_order() {
    let event = |provider_event_id: &str, occurred_at| HistoryEvent {
        sequence: 0,
        repository_id: "R_repo".into(),
        issue_id: "I_issue".into(),
        issue_number: 78,
        provider_event_id: provider_event_id.into(),
        occurred_at,
        kind: HistoryEventKind::IssueClosed,
    };
    let events = vec![event("z", 4), event("b", 3), event("a", 3)];

    let events = sort_events(events);

    assert_eq!(
        events
            .iter()
            .map(|event| (event.occurred_at, event.provider_event_id.as_str()))
            .collect::<Vec<_>>(),
        vec![(3, "a"), (3, "b"), (4, "z")]
    );
}

#[test]
fn history_metadata_stays_out_of_the_current_issue_shape() {
    let metadata = IssueSyncMetadata {
        issue_id: "I_issue".into(),
        number: 78,
        created_at: 1_754_300_000,
        updated_at: 1_754_300_100,
        milestone: None,
    };

    assert_eq!(metadata.number, 78);
    assert_eq!(metadata.milestone, None);

    let _space_shape = SpaceModel {
        id: "abc".into(),
        repo: "octocat/hello".into(),
        name: "hello".into(),
        viewer_login: None,
        stars: Vec::new(),
        synced_at: None,
        stale: false,
        error: None,
        history: HistorySummary::default(),
    };
}

#[test]
fn creation_ids_name_the_issue() {
    assert_eq!(HistoryEvent::creation_id("I_issue"), "I_issue:issue_created");
}

#[test]
fn history_defaults_to_unavailable() {
    let summary = HistorySummary::default();
    assert_eq!(summary.state, HistoryImportState::Unavailable);
    assert_eq!(summary.completed_issues, 0);
    assert_eq!(summary.diagnostic, None);
    assert_eq!(HistoryImportState::default(), HistoryImportState::Unavailable);
}

#[test]
fn ties_keep_their_order_and_text_order_is_by_character() {
    let event = |provider_event_id: &str, sequence| HistoryEvent {
        sequence,
        repository_id: "R".into(),
        issue_id: "I".into(),
        issue_number: 1,
        provider_event_id: provider_event_id.into(),
        occurred_at: 5,
        kind: HistoryEventKind::IssueReopened,
    };
    let sorted = sort_events(vec![
        event("b", 1),
        event("a", 2),
        event("b", 3),
        event("ab", 4),
        event("B", 5),
    ]);
    assert_eq!(
        sorted.iter().map(|e| e.sequence).collect::<Vec<_>>(),
        vec![5, 2, 4, 1, 3]
    );
    assert!(sorted[0].precedes(&sorted[1]));
    assert!(!sorted[3].precedes(&sorted[4]));
}
