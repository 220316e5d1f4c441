use stellr::model::{IssueState, RawIssue};
use stellr::textref::{enrich_relationships, scan, sections};

#[test]
fn scans_blocked_by_and_blocks_lines() {
    let body = "Intro\n- Blocked by #12, #7\nBlocks #3\nblocked by #12\n";
    let refs = scan(body);
    assert_eq!(refs.blocked_by, vec![7, 12]);
    assert_eq!(refs.blocks, vec![3]);
}

#[test]
fn ignores_fenced_code_blocks() {
    let body = "```\nBlocked by #99\n```\nBlocked by #4\n~~~\nBlocks #98\n~~~\n";
    let refs = scan(body);
    assert_eq!(refs.blocked_by, vec![4]);
    assert_eq!(refs.blocks, Vec::<u64>::new());
}

#[test]
fn only_same_kind_fence_closes_code_block() {
    let body = "```\nBlocked by #99\n~~~\nBlocked by #98\n```\nBlocked by #4\n";
    let refs = scan(body);
    assert_eq!(refs.blocked_by, vec![4]);
}

#[test]
fn closing_fence_must_be_at_least_as_long_as_opener() {
    let body = "````\nBlocked by #99\n```\nBlocked by #98\n````\nBlocked by #4\n";
    let refs = scan(body);
    assert_eq!(refs.blocked_by, vec![4]);
}

#[test]
fn strips_nested_markers_without_accepting_punctuation_runs() {
    let body = "> - Blocked by #9\n- > Blocks #3\n> > Blocked by #7\n---Blocked by #99\n*** Blocks #98\n";
    let refs = scan(body);
    assert_eq!(refs.blocked_by, vec![7, 9]);
    assert_eq!(refs.blocks, vec![3]);
}

#[test]
fn mid_sentence_mentions_do_not_count() {
    let refs = scan("This is blocked by #5 in spirit.\n");
    assert_eq!(refs.blocked_by, Vec::<u64>::new());
}

#[test]
fn crlf_lines_and_uppercase_keywords_are_recognised() {
    let refs = scan("BLOCKED BY #2\r\n\tBlocks #10 and #010\r\n");
    assert_eq!(refs.blocked_by, vec![2]);
    assert_eq!(refs.blocks, vec![10]);
}

#[test]
fn numbers_beyond_u64_and_bare_hashes_are_skipped() {
    let refs = scan("Blocked by #99999999999999999999, #, #18446744073709551615");
    assert_eq!(refs.blocked_by, vec![18446744073709551615]);
}

#[test]
fn an_unclosed_fence_hides_the_rest_of_the_body() {
    let refs = scan("~~~~\nBlocked by #1\n~~~\nBlocks #2");
    assert!(refs.blocked_by.is_empty());
    assert!(refs.blocks.is_empty());
}

fn raw_issue(number: u64, body: &str, parent_issue: Option<u64>) -> RawIssue {
    RawIssue {
        number,
        parent_issue,
        title: format!("issue {number}"),
        body: body.into(),
        state: IssueState::Open,
        assignees: vec![],
        milestone: None,
        labels: vec![],
        blocked_by: vec![],
        url: format!("u{number}"),
    }
}

#[test]
fn sections_list_issues_under_relationship_headings() {
    let refs = sections("## Parent\n\n#1\n## Blocked by\n\n- #4, #2\n### Notes\n#9\n# BLOCKS \n* #7\n```\n## Parent\n#8\n```\n");
    assert_eq!(refs.parent, vec![1]);
    assert_eq!(refs.blocked_by, vec![2, 4]);
    assert_eq!(refs.blocks, vec![7]);
    let plain = sections("#1 is not a heading\nBlocked by #3\n");
    assert_eq!(plain.blocked_by, Vec::<u64>::new());
    assert_eq!(plain.parent, Vec::<u64>::new());
}

#[test]
fn load_enriches_relationships_from_cached_bodies() {
    let issues = vec![
        raw_issue(1, "Root", None),
        raw_issue(2, "## Parent\n\n#1\n## Blocked by\n\n- #1", None),
        raw_issue(3, "## Blocks\n\n- #2", None),
    ];
    let loaded = enrich_relationships(issues);
    assert_eq!(loaded[1].parent_issue, Some(1));
    assert_eq!(loaded[1].blocked_by, vec![1, 3]);
    let loaded_again = enrich_relationships(loaded.clone());
    assert_eq!(loaded_again, loaded);
}

#[test]
fn a_native_parent_wins_and_an_ambiguous_one_is_dropped() {
    let issues = vec![
        raw_issue(3, "## Parent\n\n#1", Some(9)),
        raw_issue(4, "## Parent\n\n- #1\n- #2", None),
        raw_issue(5, "Blocks #3\nBlocked by #8", None),
    ];
    let enriched = enrich_relationships(issues);
    assert_eq!(enriched[0].parent_issue, Some(9));
    assert_eq!(enriched[0].blocked_by, vec![5]);
    assert_eq!(enriched[1].parent_issue, None);
    assert_eq!(enriched[2].blocked_by, vec![8]);
}
