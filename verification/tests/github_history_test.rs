use stellr::github_history::{
    contextual_message, history_page, TimelineEdge, TimelineIssue, TimelineNode, TimelinePage,
    TimelineRepository,
};
use stellr::history::{HistoryEventKind, HistoryPageRequest, MilestoneRef};
use stellr::provider::ProviderError;

fn request(cursor: Option<&str>) -> HistoryPageRequest {
    HistoryPageRequest {
        issue_id: "I_78".into(),
        issue_number: 78,
        cursor: cursor.map(str::to_owned),
        cutoff: 1_785_850_000,
    }
}

fn edge(cursor: &str, typename: &str, id: Option<&str>, created_at: &str, milestone: Option<&str>) -> TimelineEdge {
    TimelineEdge {
        cursor: cursor.into(),
        node: TimelineNode {
            typename: typename.into(),
            id: id.map(str::to_owned),
            created_at: Some(created_at.into()),
            milestone_title: milestone.map(str::to_owned),
        },
    }
}

fn repository(has_next_page: bool, end_cursor: Option<&str>, edges: Vec<TimelineEdge>) -> Option<TimelineRepository> {
    Some(TimelineRepository {
        id: "R_repo".into(),
        issue: Some(TimelineIssue {
            id: "I_78".into(),
            timeline: TimelinePage {
                has_next_page,
                end_cursor: end_cursor.map(str::to_owned),
                edges,
            },
        }),
    })
}

#[test]
fn fetches_one_targeted_history_page_and_normalizes_tracked_events() {
    let page = history_page(
        &request(Some("CUR1")),
        repository(
            true,
            Some("CUR2"),
            vec![
                edge("EDGE1", "ReopenedEvent", Some("E_reopen"), "2026-08-04T13:10:00Z", None),
                edge("EDGE2", "AssignedEvent", Some("E_ignore"), "2026-08-04T13:05:00Z", None),
                edge("EDGE3", "ClosedEvent", Some("E_close"), "2026-08-04T13:00:00Z", None),
                edge("EDGE4", "DemilestonedEvent", Some("E_demilestone"), "2026-08-04T13:15:00Z", Some("Alpha")),
                edge("EDGE5", "MilestonedEvent", Some("E_milestone"), "2026-08-04T13:15:00Z", Some("Beta")),
                edge("EDGE6", "ClosedEvent", Some("E_after_cutoff"), "2026-08-04T14:00:00Z", None),
            ],
        ),
    )
    .unwrap();

    assert_eq!(page.next_cursor, None);
    assert_eq!(page.resume_cursor.as_deref(), Some("EDGE5"));
    assert!(page.complete);
    assert_eq!(page.events.len(), 4);
    assert_eq!(page.events[0].provider_event_id, "E_close");
    assert!(matches!(page.events[0].kind, HistoryEventKind::IssueClosed));
    assert_eq!(page.events[1].provider_event_id, "E_reopen");
    assert!(matches!(page.events[1].kind, HistoryEventKind::IssueReopened));
    assert_eq!(page.events[2].provider_event_id, "E_demilestone");
    assert_eq!(
        page.events[2].kind,
        HistoryEventKind::MilestoneChanged {
            from: Some(MilestoneRef { id: None, title: "Alpha".into() }),
            to: None,
        }
    );
    assert_eq!(page.events[3].provider_event_id, "E_milestone");
    assert_eq!(
        page.events[3].kind,
        HistoryEventKind::MilestoneChanged {
            from: None,
            to: Some(MilestoneRef { id: None, title: "Beta".into() }),
        }
    );
    assert_eq!(page.events[0].repository_id, "R_repo");
    assert_eq!(page.events[0].issue_number, 78);
    assert_eq!(page.events[0].occurred_at, 1_785_848_400);
}

#[test]
fn preserves_the_terminal_cursor_for_delta_only_resume() {
    let page = history_page(&request(Some("CUR1")), repository(false, Some("CUR_END"), vec![])).unwrap();

    assert!(page.complete);
    assert_eq!(page.next_cursor, None);
    assert_eq!(page.resume_cursor.as_deref(), Some("CUR_END"));
}

#[test]
fn malformed_tracked_event_reports_issue_cursor_and_stage() {
    let error = history_page(
        &request(Some("CUR1")),
        repository(false, None, vec![edge("EDGE1", "ClosedEvent", None, "2026-08-04T13:00:00Z", None)]),
    )
    .unwrap_err();

    match error {
        ProviderError::Parse(message) => {
            assert!(message.contains("issue #78"));
            assert!(message.contains("CUR1"));
            assert!(message.contains("normalizing lifecycle event"));
        }
        other => panic!("expected parse error, got {other:?}"),
    }
}

#[test]
fn malformed_milestone_event_reports_issue_cursor_and_stage() {
    let error = history_page(
        &request(Some("CUR1")),
        repository(false, None, vec![edge("EDGE1", "MilestonedEvent", Some("E_milestone"), "2026-08-04T13:00:00Z", None)]),
    )
    .unwrap_err();

    match error {
        ProviderError::Parse(message) => {
            assert!(message.contains("issue #78"));
            assert!(message.contains("CUR1"));
            assert!(message.contains("normalizing milestone event"));
        }
        other => panic!("expected parse error, got {other:?}"),
    }
}

#[test]
fn an_open_page_continues_from_its_end_cursor() {
    let page = history_page(
        &request(None),
        repository(true, Some("NEXT"), vec![edge("E1", "ClosedEvent", Some("C"), "2026-08-04T13:00:00Z", None)]),
    )
    .unwrap();
    assert!(!page.complete);
    assert_eq!(page.next_cursor.as_deref(), Some("NEXT"));
    assert_eq!(page.resume_cursor.as_deref(), Some("NEXT"));
    assert_eq!(page.events.len(), 1);

    let error = history_page(&request(None), repository(true, None, vec![])).unwrap_err();
    assert_eq!(
        error,
        ProviderError::Parse(
            "issue #78 at cursor <start> while advancing history page: missing end cursor for next page".into()
        )
    );
}

#[test]
fn a_cutoff_at_the_first_edge_resumes_from_the_request_cursor() {
    let page = history_page(
        &request(Some("CUR1")),
        repository(true, Some("NEXT"), vec![edge("E1", "ClosedEvent", Some("C"), "2026-08-04T14:00:00Z", None)]),
    )
    .unwrap();
    assert!(page.complete);
    assert!(page.events.is_empty());
    assert_eq!(page.resume_cursor.as_deref(), Some("CUR1"));
}

#[test]
fn missing_or_mismatched_issues_are_reported_with_their_stage() {
    assert_eq!(
        history_page(&request(None), None).unwrap_err(),
        ProviderError::Parse("issue #78 at cursor <start> while decoding history page: missing repository".into())
    );
    let no_issue = Some(TimelineRepository { id: "R".into(), issue: None });
    assert_eq!(
        history_page(&request(None), no_issue).unwrap_err(),
        ProviderError::Parse("issue #78 at cursor <start> while decoding history page: missing repository issue".into())
    );
    let mut other = repository(false, None, vec![]).unwrap();
    other.issue.as_mut().unwrap().id = "I_other".into();
    assert_eq!(
        history_page(&request(None), Some(other)).unwrap_err(),
        contextual_message(
            &request(None),
            "validating history issue",
            "provider issue identity did not match the snapshot"
        )
    );
}

#[test]
fn an_unreadable_timestamp_reports_the_parse_failure() {
    let error = history_page(
        &request(Some("C")),
        repository(false, None, vec![edge("E1", "ClosedEvent", Some("X"), "yesterday", None)]),
    )
    .unwrap_err();
    match error {
        ProviderError::Parse(message) => {
            assert!(message.starts_with("issue #78 at cursor C while normalizing lifecycle event: "));
        }
        other => panic!("expected parse error, got {other:?}"),
    }
}

#[test]
fn timeline_requests_name_the_issue_and_the_cursor() {
    let repo = stellr::provider::RepoRef { owner: "o".into(), name: "r".into() };
    let asked = stellr::github_history::history_request(&repo, &request(Some("c1")));
    assert!(asked.query.contains("timelineItems("));
    assert!(asked.query.contains("itemTypes: [CLOSED_EVENT, REOPENED_EVENT, DEMILESTONED_EVENT, MILESTONED_EVENT]"));
    assert_eq!(asked.variables.owner, "o");
    assert_eq!(asked.variables.name, "r");
    assert_eq!(asked.variables.number, 78);
    assert_eq!(asked.variables.cursor, Some("c1".into()));
}
