use stellr::github_sync::{
    classify_response, graphql_error, map_issue, map_issues, GithubIssueState, GraphqlErrors,
    IssueConnection, IssueNode, IssuePagination, IssuesPage,
};
use stellr::model::{IssueState, RawIssue};
use stellr::provider::ProviderError;

fn node(number: u64, state: GithubIssueState, state_reason: Option<&str>) -> IssueNode {
    IssueNode {
        number,
        title: format!("issue {number}"),
        body: None,
        url: format!("https://example.test/o/r/issues/{number}"),
        state,
        state_reason: state_reason.map(str::to_owned),
        assignees: vec!["octocat".into()],
        milestone: Some("v1".into()),
        labels: vec!["bug".into()],
        parent: Some(9),
        blocked_by: vec![3, 2],
    }
}

fn page(login: Option<&str>, has_next_page: bool, end_cursor: Option<&str>, nodes: Vec<IssueNode>) -> IssuesPage {
    IssuesPage {
        viewer_login: login.map(str::to_owned),
        issues: Some(IssueConnection {
            has_next_page,
            end_cursor: end_cursor.map(str::to_owned),
            nodes,
        }),
    }
}

#[test]
fn fetch_maps_a_rejected_token_to_auth() {
    assert_eq!(
        classify_response(401, None, None),
        Some(ProviderError::Auth("token rejected".into()))
    );
}

#[test]
fn fetch_maps_rate_limit_exhaustion_with_its_reset_time() {
    assert_eq!(
        classify_response(403, Some("0"), Some("1753000000")),
        Some(ProviderError::RateLimited { reset_epoch: Some(1_753_000_000) })
    );
}

#[test]
fn fetch_maps_http_429_rate_limit_exhaustion() {
    assert_eq!(
        classify_response(429, Some("0"), Some("1753000001")),
        Some(ProviderError::RateLimited { reset_epoch: Some(1_753_000_001) })
    );
}

#[test]
fn other_responses_are_read_and_unreadable_resets_are_dropped() {
    assert_eq!(classify_response(200, Some("0"), Some("1")), None);
    assert_eq!(classify_response(403, Some("12"), Some("1")), None);
    assert_eq!(classify_response(403, None, None), None);
    assert_eq!(
        classify_response(403, Some("0"), Some("soon")),
        Some(ProviderError::RateLimited { reset_epoch: None })
    );
    assert_eq!(
        classify_response(429, Some("0"), Some("-5")),
        Some(ProviderError::RateLimited { reset_epoch: Some(-5) })
    );
}

#[test]
fn fetch_maps_the_first_graphql_error_to_parse() {
    assert_eq!(
        graphql_error(&GraphqlErrors::Entries(vec![Some("first".into()), Some("second".into())])),
        Some(ProviderError::Parse("first".into()))
    );
    assert_eq!(graphql_error(&GraphqlErrors::Absent), None);
    assert_eq!(graphql_error(&GraphqlErrors::Entries(vec![])), None);
}

#[test]
fn fetch_rejects_a_malformed_graphql_error_collection() {
    let malformed = Some(ProviderError::Parse("malformed GraphQL error response".into()));
    assert_eq!(graphql_error(&GraphqlErrors::NotArray), malformed);
    assert_eq!(
        graphql_error(&GraphqlErrors::Entries(vec![Some("first".into()), None])),
        malformed
    );
}

fn full_node(
    number: u64,
    title: &str,
    body: Option<&str>,
    state: GithubIssueState,
    state_reason: Option<&str>,
    assignees: &[&str],
    milestone: Option<&str>,
    labels: &[&str],
    blocked_by: &[u64],
    parent: Option<u64>,
) -> IssueNode {
    IssueNode {
        number,
        title: title.into(),
        body: body.map(str::to_owned),
        url: format!("https://example.test/o/r/issues/{number}"),
        state,
        state_reason: state_reason.map(str::to_owned),
        assignees: assignees.iter().map(|a| a.to_string()).collect(),
        milestone: milestone.map(str::to_owned),
        labels: labels.iter().map(|l| l.to_string()).collect(),
        parent,
        blocked_by: blocked_by.to_vec(),
    }
}

fn raw(
    number: u64,
    parent_issue: Option<u64>,
    title: &str,
    body: &str,
    state: IssueState,
    assignees: &[&str],
    milestone: Option<&str>,
    labels: &[&str],
    blocked_by: &[u64],
) -> RawIssue {
    RawIssue {
        number,
        parent_issue,
        title: title.into(),
        body: body.into(),
        state,
        assignees: assignees.iter().map(|a| a.to_string()).collect(),
        milestone: milestone.map(str::to_owned),
        labels: labels.iter().map(|l| l.to_string()).collect(),
        blocked_by: blocked_by.to_vec(),
        url: format!("https://example.test/o/r/issues/{number}"),
    }
}

#[test]
fn fetch_maps_complete_issue_shape_and_merges_dependency_sources() {
    let mut pages = IssuePagination::new();
    let nodes = vec![
        full_node(1, "Completed", Some(""), GithubIssueState::Closed, Some("COMPLETED"), &["ada", "grace"], Some("M1"), &["bug", "urgent"], &[], None),
        full_node(2, "Not planned", None, GithubIssueState::Closed, Some("NOT_PLANNED"), &[], None, &[], &[], None),
        full_node(
            3,
            "Merged dependencies",
            Some("Blocked by #1, #2, #7\nBlocked by #1\nBlocks #4, #999"),
            GithubIssueState::Open,
            None,
            &["linus"],
            None,
            &["feature"],
            &[7, 2, 2],
            Some(16),
        ),
        full_node(4, "Inversion target", Some("Blocked by #8"), GithubIssueState::Open, None, &[], Some("M2"), &["planning"], &[3], None),
    ];
    assert_eq!(pages.accept(page(None, false, None, nodes)), Ok(None));
    let issues = pages.finish().issues;

    assert_eq!(issues[0].parent_issue, None);
    assert_eq!(issues[2].parent_issue, Some(16));

    assert_eq!(
        issues,
        vec![
            raw(1, None, "Completed", "", IssueState::Closed, &["ada", "grace"], Some("M1"), &["bug", "urgent"], &[]),
            raw(2, None, "Not planned", "", IssueState::ClosedNotPlanned, &[], None, &[], &[]),
            raw(
                3,
                Some(16),
                "Merged dependencies",
                "Blocked by #1, #2, #7\nBlocked by #1\nBlocks #4, #999",
                IssueState::Open,
                &["linus"],
                None,
                &["feature"],
                &[1, 2, 7],
            ),
            raw(4, None, "Inversion target", "Blocked by #8", IssueState::Open, &[], Some("M2"), &["planning"], &[3, 8]),
        ]
    );
}

#[test]
fn a_body_blocked_by_line_adds_a_blocker() {
    let mut only = node(1, GithubIssueState::Open, None);
    only.body = Some("Blocked by #5".into());
    only.blocked_by = vec![];
    assert_eq!(map_issues(vec![only])[0].blocked_by, vec![5]);
}

#[test]
fn map_issue_keeps_the_native_relationships() {
    let issue = map_issue(node(7, GithubIssueState::Closed, Some("NOT_PLANNED")));
    assert_eq!(issue.number, 7);
    assert_eq!(issue.state, IssueState::ClosedNotPlanned);
    assert_eq!(issue.body, "");
    assert_eq!(issue.parent_issue, Some(9));
    assert_eq!(issue.blocked_by, vec![3, 2]);
    assert_eq!(map_issue(node(1, GithubIssueState::Open, None)).state, IssueState::Open);
    assert_eq!(map_issues(vec![node(2, GithubIssueState::Open, None)])[0].blocked_by, vec![2, 3]);
}

#[test]
fn fetch_follows_pagination_until_the_repository_is_complete() {
    let mut pages = IssuePagination::new();
    assert_eq!(
        pages.accept(page(None, true, Some("CUR1"), vec![node(2, GithubIssueState::Open, None)])),
        Ok(Some("CUR1".into()))
    );
    assert_eq!(
        pages.accept(page(None, false, None, vec![node(1, GithubIssueState::Open, None)])),
        Ok(None)
    );
    let snapshot = pages.finish();
    assert_eq!(snapshot.viewer_login, None);
    assert_eq!(snapshot.issues.iter().map(|i| i.number).collect::<Vec<_>>(), vec![1, 2]);
}

#[test]
fn pagination_keeps_the_viewer_that_pages_name() {
    let mut pages = IssuePagination::new();
    assert_eq!(
        pages.accept(page(Some("me"), true, Some("CUR1"), vec![node(2, GithubIssueState::Open, None)])),
        Ok(Some("CUR1".into()))
    );
    assert_eq!(
        pages.accept(page(None, false, Some("CUR2"), vec![node(1, GithubIssueState::Open, None)])),
        Ok(None)
    );
    let snapshot = pages.finish();
    assert_eq!(snapshot.viewer_login.as_deref(), Some("me"));
}

#[test]
fn pagination_refuses_inconsistent_pages() {
    let mut pages = IssuePagination::new();
    assert_eq!(
        pages.accept(page(Some(" "), false, None, vec![])),
        Err(ProviderError::Parse("viewer login is empty".into()))
    );
    assert_eq!(pages.accept(page(Some("me"), true, Some("C"), vec![])), Ok(Some("C".into())));
    assert_eq!(
        pages.accept(page(Some("you"), false, None, vec![])),
        Err(ProviderError::Parse("viewer login changed during issue pagination".into()))
    );
    assert_eq!(
        pages.accept(IssuesPage { viewer_login: Some("me".into()), issues: None }),
        Err(ProviderError::Parse("missing data.repository.issues".into()))
    );
    assert_eq!(
        pages.accept(page(Some("me"), true, None, vec![])),
        Err(ProviderError::Parse("missing end cursor for next issues page".into()))
    );
}

#[test]
fn fetch_enriches_markdown_relationship_sections() {
    let mut pages = IssuePagination::new();
    let nodes = vec![
        full_node(1, "Root", Some(""), GithubIssueState::Open, None, &[], None, &[], &[], None),
        full_node(2, "Markdown child", Some("## Parent\n\n#1\n## Blocked by\n\n- #1"), GithubIssueState::Open, None, &[], None, &[], &[], None),
        full_node(3, "Native parent wins", Some("## Parent\n\n#1\n## Blocks\n\n- #2"), GithubIssueState::Open, None, &[], None, &[], &[], Some(9)),
        full_node(4, "Ambiguous parent", Some("## Parent\n\n- #1\n- #2"), GithubIssueState::Open, None, &[], None, &[], &[], None),
    ];
    assert_eq!(pages.accept(page(None, false, None, nodes)), Ok(None));
    let issues = pages.finish().issues;

    assert_eq!(issues[1].parent_issue, Some(1));
    assert_eq!(issues[1].blocked_by, vec![1, 3]);
    assert_eq!(issues[2].parent_issue, Some(9));
    assert_eq!(issues[3].parent_issue, None);
}

#[test]
fn issue_requests_name_the_repository_and_the_cursor() {
    let repo = stellr::provider::RepoRef { owner: "o".into(), name: "r".into() };
    let first = stellr::github_sync::issues_request(&repo, None);
    assert!(first.query.contains("issues(first: 100, after: $cursor, states: [OPEN, CLOSED])"));
    assert!(first.query.contains("parent { number }"));
    assert!(first.query.contains("viewer { login }"));
    assert_eq!(first.variables.owner, "o");
    assert_eq!(first.variables.name, "r");
    assert_eq!(first.variables.cursor, None);
    assert_eq!(stellr::github_sync::issues_request(&repo, Some("CUR1".into())).variables.cursor, Some("CUR1".into()));
}
