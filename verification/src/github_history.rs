//! One page of an issue's GitHub timeline, normalized into history events.
//!
//! The page is read edge by edge. Closing, reopening and milestone events
//! become history events; other items are passed over. The first tracked
//! event after the request's cutoff ends the page: everything up to the
//! cutoff has then been seen, and the import resumes after the edge before
//! it.

use vstd::prelude::*;

use crate::history::{
    event_keys, sort_events, HistoryEvent, HistoryEventKind, HistoryPage, HistoryPageRequest,
    MilestoneRef,
};
use crate::order::{items_of, stable_sorted};
use crate::provider::{ProviderError, RepoRef};
use crate::text::{copy_opt_string, decimal, push_decimal, push_str, str_eq};

verus! {

/// One timeline item as GitHub reports it.
#[derive(Debug, Clone, PartialEq, Eq)]
pub struct TimelineNode {
    pub typename: String,
    pub id: Option<String>,
    pub created_at: Option<String>,
    pub milestone_title: Option<String>,
}

/// A timeline item and the cursor that resumes after it.
#[derive(Debug, Clone, PartialEq, Eq)]
pub struct TimelineEdge {
    pub cursor: String,
    pub node: TimelineNode,
}

/// One page of an issue's timeline.
#[derive(Debug, Clone, PartialEq, Eq)]
pub struct TimelinePage {
    pub has_next_page: bool,
    pub end_cursor: Option<String>,
    pub edges: Vec<TimelineEdge>,
}

/// The issue a timeline page belongs to.
#[derive(Debug, Clone, PartialEq, Eq)]
pub struct TimelineIssue {
    pub id: String,
    pub timeline: TimelinePage,
}

/// The repository of a history response and its issue, when present.
#[derive(Debug, Clone, PartialEq, Eq)]
pub struct TimelineRepository {
    pub id: String,
    pub issue: Option<TimelineIssue>,
}

/// What `chrono::DateTime::parse_from_rfc3339` makes of a text: the Unix
/// time in seconds, or the text of its parse error.
pub uninterp spec fn rfc3339_seconds(text: Seq<char>) -> Result<i64, Seq<char>>;

/// Parses an RFC 3339 timestamp with `chrono::DateTime::parse_from_rfc3339`
/// and reads its Unix time in seconds; a refusal is returned as the parse
/// error's text. The outcome is a function of `text` alone: the name
/// [`rfc3339_seconds`] applied to it.
#[verifier::external_body]
fn parse_rfc3339(text: &str) -> (r: Result<i64, String>)
    ensures
        match r {
            Ok(t) => rfc3339_seconds(text@) == Ok::<i64, Seq<char>>(t),
            Err(m) => rfc3339_seconds(text@) == Err::<i64, Seq<char>>(m@),
        },
{
    match chrono::DateTime::parse_from_rfc3339(text) {
        Ok(timestamp) => Ok(timestamp.timestamp()),
        Err(error) => Err(error.to_string()),
    }
}

pub open spec fn cursor_text(cursor: Option<String>) -> Seq<char> {
    match cursor {
        Some(c) => c@,
        None => "<start>"@,
    }
}

/// The message of a failure at `stage` of reading the page that `request`
/// asks for.
pub open spec fn context(request: HistoryPageRequest, stage: Seq<char>, message: Seq<char>) -> Seq<char> {
    "issue #"@ + decimal(request.issue_number as nat) + " at cursor "@ + cursor_text(request.cursor)
        + " while "@ + stage + ": "@ + message
}

/// A parse failure that names the issue, the cursor and the stage.
pub fn contextual_message(request: &HistoryPageRequest, stage: &str, message: &str) -> (r: ProviderError)
    ensures
        r matches ProviderError::Parse(m) && m@ == context(*request, stage@, message@),
{
    let mut m = "issue #".to_owned();
    push_decimal(&mut m, request.issue_number);
    push_str(&mut m, " at cursor ");
    match &request.cursor {
        Some(c) => push_str(&mut m, c.as_str()),
        None => push_str(&mut m, "<start>"),
    }
    push_str(&mut m, " while ");
    push_str(&mut m, stage);
    push_str(&mut m, ": ");
    push_str(&mut m, message);
    ProviderError::Parse(m)
}

/// A parse failure caused by an error whose text is `error`.
pub fn contextual_parse(request: &HistoryPageRequest, stage: &str, error: &str) -> (r: ProviderError)
    ensures
        r matches ProviderError::Parse(m) && m@ == context(*request, stage@, error@),
{
    contextual_message(request, stage, error)
}

pub open spec fn is_milestone_event(t: Seq<char>) -> bool {
    t == "DemilestonedEvent"@ || t == "MilestonedEvent"@
}

pub open spec fn is_tracked(t: Seq<char>) -> bool {
    t == "ClosedEvent"@ || t == "ReopenedEvent"@ || is_milestone_event(t)
}

/// The milestone of a milestone event: its title, without an identity.
pub fn historical_milestone(request: &HistoryPageRequest, node: &TimelineNode) -> (r: Result<MilestoneRef, ProviderError>)
    ensures
        match node.milestone_title {
            Some(t) => r matches Ok(m) && m.id is None && m.title@ == t@,
            None => r matches Err(ProviderError::Parse(m)) && m@ == context(*request,
                "normalizing milestone event"@, "tracked event is missing its milestone title"@),
        },
{
    match &node.milestone_title {
        Some(title) => Ok(MilestoneRef { id: None, title: title.clone() }),
        None => Err(contextual_message(request, "normalizing milestone event", "tracked event is missing its milestone title")),
    }
}

/// What one timeline item contributes.
pub enum EdgeStep {
    /// Not a tracked event.
    Skip,
    /// A tracked event at this time, within the cutoff.
    Keep(i64),
    /// A tracked event after the cutoff.
    AfterCutoff,
    /// A malformed tracked event, with the failure's message.
    Fail(Seq<char>),
}

pub open spec fn edge_step(request: HistoryPageRequest, node: TimelineNode) -> EdgeStep {
    if !is_tracked(node.typename@) {
        EdgeStep::Skip
    } else if is_milestone_event(node.typename@) && node.milestone_title is None {
        EdgeStep::Fail(context(request, "normalizing milestone event"@, "tracked event is missing its milestone title"@))
    } else if node.id is None {
        EdgeStep::Fail(context(request, "normalizing lifecycle event"@, "tracked event is missing its provider identity"@))
    } else if node.created_at is None {
        EdgeStep::Fail(context(request, "normalizing lifecycle event"@, "tracked event is missing its timestamp"@))
    } else {
        match rfc3339_seconds(node.created_at->0@) {
            Err(m) => EdgeStep::Fail(context(request, "normalizing lifecycle event"@, m)),
            Ok(t) => if t <= request.cutoff { EdgeStep::Keep(t) } else { EdgeStep::AfterCutoff },
        }
    }
}

/// The edges from `i` on: the kept events (edge index and time), and the
/// index of the edge whose event passed the cutoff, if one did.
pub open spec fn scan_from(request: HistoryPageRequest, edges: Seq<TimelineEdge>, i: int) -> Result<(Seq<(int, i64)>, Option<int>), Seq<char>>
    decreases edges.len() - i,
{
    if i < 0 || i >= edges.len() {
        Ok((Seq::empty(), None))
    } else {
        match edge_step(request, edges[i].node) {
            EdgeStep::Fail(m) => Err(m),
            EdgeStep::AfterCutoff => Ok((Seq::empty(), Some(i))),
            EdgeStep::Skip => scan_from(request, edges, i + 1),
            EdgeStep::Keep(t) => match scan_from(request, edges, i + 1) {
                Ok((kept, stop)) => Ok((seq![(i, t)] + kept, stop)),
                Err(m) => Err(m),
            },
        }
    }
}

/// `kind` is the kind of event that `node` reports.
pub open spec fn kind_of(kind: HistoryEventKind, node: TimelineNode) -> bool {
    let t = node.typename@;
    if t == "ClosedEvent"@ {
        kind == HistoryEventKind::IssueClosed
    } else if t == "ReopenedEvent"@ {
        kind == HistoryEventKind::IssueReopened
    } else if t == "DemilestonedEvent"@ {
        kind matches HistoryEventKind::MilestoneChanged { from: Some(m), to: None }
            && m.id is None && (node.milestone_title matches Some(title) && m.title@ == title@)
    } else {
        kind matches HistoryEventKind::MilestoneChanged { from: None, to: Some(m) }
            && m.id is None && (node.milestone_title matches Some(title) && m.title@ == title@)
    }
}

/// `e` is the event of `node`, at time `t`, in the repository and issue.
pub open spec fn event_of(e: HistoryEvent, repository_id: Seq<char>, issue_id: Seq<char>, number: u64, node: TimelineNode, t: i64) -> bool {
    &&& e.sequence == 0
    &&& e.repository_id@ == repository_id
    &&& e.issue_id@ == issue_id
    &&& e.issue_number == number
    &&& node.id matches Some(id) && e.provider_event_id@ == id@
    &&& e.occurred_at == t
    &&& kind_of(e.kind, node)
}

pub open spec fn events_of(
    u: Seq<HistoryEvent>,
    kept: Seq<(int, i64)>,
    edges: Seq<TimelineEdge>,
    repository_id: Seq<char>,
    issue_id: Seq<char>,
    number: u64,
) -> bool {
    &&& u.len() == kept.len()
    &&& forall|k: int| 0 <= k < kept.len() ==> 0 <= (#[trigger] kept[k]).0 < edges.len()
            && event_of(u[k], repository_id, issue_id, number, edges[kept[k].0].node, kept[k].1)
}

pub open spec fn opt_text(o: Option<String>) -> Option<Seq<char>> {
    match o {
        Some(s) => Some(s@),
        None => None,
    }
}

/// `page` is the page read from `repository`'s timeline for `request`.
pub open spec fn page_of(request: HistoryPageRequest, repository: TimelineRepository, r: Result<HistoryPage, ProviderError>) -> bool {
    match repository.issue {
        None => r matches Err(ProviderError::Parse(m)) && m@ == context(request, "decoding history page"@, "missing repository issue"@),
        Some(issue) => if issue.id@ != request.issue_id@ {
            r matches Err(ProviderError::Parse(m)) && m@ == context(request, "validating history issue"@,
                "provider issue identity did not match the snapshot"@)
        } else {
            let edges = issue.timeline.edges@;
            match scan_from(request, edges, 0) {
                Err(m) => r matches Err(ProviderError::Parse(e)) && e@ == m,
                Ok((kept, stop)) => match stop {
                    Some(j) => r matches Ok(page) && page.next_cursor is None && page.complete
                        && opt_text(page.resume_cursor) == (if j > 0 { Some(edges[j - 1].cursor@) } else { opt_text(request.cursor) })
                        && exists|u: Seq<HistoryEvent>| events_of(u, kept, edges, repository.id@, issue.id@, request.issue_number)
                            && page.events@ == items_of(stable_sorted(event_keys(u))),
                    None => if issue.timeline.has_next_page && issue.timeline.end_cursor is None {
                        r matches Err(ProviderError::Parse(m)) && m@ == context(request, "advancing history page"@,
                            "missing end cursor for next page"@)
                    } else {
                        r matches Ok(page)
                            && page.complete == !issue.timeline.has_next_page
                            && page.next_cursor == (if issue.timeline.has_next_page { issue.timeline.end_cursor } else { None })
                            && opt_text(page.resume_cursor) == (match issue.timeline.end_cursor {
                                Some(c) => Some(c@),
                                None => opt_text(request.cursor),
                            })
                            && exists|u: Seq<HistoryEvent>| events_of(u, kept, edges, repository.id@, issue.id@, request.issue_number)
                                && page.events@ == items_of(stable_sorted(event_keys(u)))
                    },
                },
            }
        },
    }
}

/// The event of a tracked, well-formed `node` at time `t`.
fn event_for(
    request: &HistoryPageRequest,
    repository_id: &String,
    issue_id: &String,
    node: &TimelineNode,
    t: i64,
) -> (r: Result<HistoryEvent, ProviderError>)
    requires
        is_tracked(node.typename@),
        is_milestone_event(node.typename@) ==> node.milestone_title is Some,
        node.id is Some,
    ensures
        r matches Ok(e) && event_of(e, repository_id@, issue_id@, request.issue_number, *node, t),
{
    let kind = if str_eq(node.typename.as_str(), "ClosedEvent") {
        HistoryEventKind::IssueClosed
    } else if str_eq(node.typename.as_str(), "ReopenedEvent") {
        HistoryEventKind::IssueReopened
    } else if str_eq(node.typename.as_str(), "DemilestonedEvent") {
        match historical_milestone(request, node) {
            Ok(m) => HistoryEventKind::MilestoneChanged { from: Some(m), to: None },
            Err(e) => {
                return Err(e);
            },
        }
    } else {
        match historical_milestone(request, node) {
            Ok(m) => HistoryEventKind::MilestoneChanged { from: None, to: Some(m) },
            Err(e) => {
                return Err(e);
            },
        }
    };
    let provider_event_id = match &node.id {
        Some(id) => id.clone(),
        None => String::new(),
    };
    Ok(HistoryEvent {
        sequence: 0,
        repository_id: repository_id.clone(),
        issue_id: issue_id.clone(),
        issue_number: request.issue_number,
        provider_event_id,
        occurred_at: t,
        kind,
    })
}

/// What one timeline item contributes, with the failure it reports.
fn step_for(request: &HistoryPageRequest, node: &TimelineNode) -> (r: Result<Option<i64>, ProviderError>)
    ensures
        match edge_step(*request, *node) {
            EdgeStep::Skip => r == Ok::<Option<i64>, ProviderError>(None) && !is_tracked(node.typename@),
            EdgeStep::Keep(t) => r == Ok::<Option<i64>, ProviderError>(Some(t)),
            EdgeStep::AfterCutoff => r matches Ok(Some(t)) && t > request.cutoff,
            EdgeStep::Fail(m) => r matches Err(ProviderError::Parse(e)) && e@ == m,
        },
        r matches Ok(Some(t)) ==> is_tracked(node.typename@) && node.id is Some
            && (is_milestone_event(node.typename@) ==> node.milestone_title is Some)
            && (t <= request.cutoff <==> edge_step(*request, *node) == EdgeStep::Keep(t)),
{
    let t = node.typename.as_str();
    let milestone = str_eq(t, "DemilestonedEvent") || str_eq(t, "MilestonedEvent");
    if !(str_eq(t, "ClosedEvent") || str_eq(t, "ReopenedEvent") || milestone) {
        return Ok(None);
    }
    if milestone && node.milestone_title.is_none() {
        return Err(contextual_message(request, "normalizing milestone event", "tracked event is missing its milestone title"));
    }
    if node.id.is_none() {
        return Err(contextual_message(request, "normalizing lifecycle event", "tracked event is missing its provider identity"));
    }
    let created_at = match &node.created_at {
        Some(c) => c,
        None => {
            return Err(contextual_message(request, "normalizing lifecycle event", "tracked event is missing its timestamp"));
        },
    };
    match parse_rfc3339(created_at.as_str()) {
        Ok(seconds) => Ok(Some(seconds)),
        Err(error) => Err(contextual_parse(request, "normalizing lifecycle event", error.as_str())),
    }
}

/// Normalizes the timeline page of `request` from the decoded response
/// (`None` when it had no repository).
pub fn history_page(request: &HistoryPageRequest, repository: Option<TimelineRepository>) -> (r: Result<HistoryPage, ProviderError>)
    ensures
        match repository {
            None => r matches Err(ProviderError::Parse(m)) && m@ == context(*request, "decoding history page"@, "missing repository"@),
            Some(repo) => page_of(*request, repo, r),
        },
{
    let repo = match repository {
        Some(repo) => repo,
        None => {
            return Err(contextual_message(request, "decoding history page", "missing repository"));
        },
    };
    let issue = match &repo.issue {
        Some(issue) => issue,
        None => {
            return Err(contextual_message(request, "decoding history page", "missing repository issue"));
        },
    };
    if !str_eq(issue.id.as_str(), request.issue_id.as_str()) {
        return Err(contextual_message(request, "validating history issue", "provider issue identity did not match the snapshot"));
    }
    let edges = &issue.timeline.edges;
    let ghost all = edges@;
    let ghost req = *request;
    let mut events: Vec<HistoryEvent> = Vec::new();
    let ghost mut kept: Seq<(int, i64)> = Seq::empty();
    let mut stop: Option<usize> = None;
    let mut i: usize = 0;
    while i < edges.len() && stop.is_none()
        invariant
            all == edges@,
            req == *request,
            i <= edges@.len(),
            repository == Some(repo),
            repo.issue == Some(*issue),
            issue.id@ == request.issue_id@,
            all == issue.timeline.edges@,
            events_of(events@, kept, all, repo.id@, issue.id@, request.issue_number),
            stop is None ==> scan_from(req, all, 0) == match scan_from(req, all, i as int) {
                Ok((k, s)) => Ok::<(Seq<(int, i64)>, Option<int>), Seq<char>>((kept + k, s)),
                Err(m) => Err(m),
            },
            stop matches Some(j) ==> j < all.len() && j > 0 ==> j - 1 < i,
            stop matches Some(j) ==> j < all.len()
                && scan_from(req, all, 0) == Ok::<(Seq<(int, i64)>, Option<int>), Seq<char>>((kept, Some(j as int))),
        decreases edges@.len() - i,
    {
        let node = &edges[i].node;
        match step_for(request, node) {
            Err(e) => {
                return Err(e);
            },
            Ok(None) => {},
            Ok(Some(t)) => {
                if t > request.cutoff {
                    assert(kept + Seq::<(int, i64)>::empty() =~= kept);
                    stop = Some(i);
                } else {
                    let event = match event_for(request, &repo.id, &issue.id, node, t) {
                        Ok(e) => e,
                        Err(e) => {
                            return Err(e);
                        },
                    };
                    events.push(event);
                    proof {
                        let old_kept = kept;
                        kept = kept.push((i as int, t));
                        assert forall|k: int| 0 <= k < kept.len() implies 0 <= (#[trigger] kept[k]).0 < all.len()
                            && event_of(events@[k], repo.id@, issue.id@, request.issue_number, all[kept[k].0].node, kept[k].1) by {
                            if k < old_kept.len() {
                                assert(kept[k] == old_kept[k]);
                            }
                        }
                        match scan_from(req, all, i + 1) {
                            Ok((k2, s2)) => {
                                assert(old_kept + (seq![(i as int, t)] + k2) =~= kept + k2);
                            },
                            Err(_) => {},
                        }
                    }
                }
            },
        }
        i = i + 1;
    }
    let ghost final_kept = kept;
    let ghost unsorted = events@;
    let sorted = sort_events(events);
    let timeline = &issue.timeline;
    match stop {
        Some(j) => {
            let resume_cursor = if j > 0 {
                Some(edges[j - 1].cursor.clone())
            } else {
                crate::text::copy_opt_string(&request.cursor)
            };
            Ok(HistoryPage { events: sorted, next_cursor: None, resume_cursor, complete: true })
        },
        None => {
            assert(final_kept + Seq::<(int, i64)>::empty() =~= final_kept);
            let resume_cursor = match &timeline.end_cursor {
                Some(c) => Some(c.clone()),
                None => crate::text::copy_opt_string(&request.cursor),
            };
            let next_cursor = if timeline.has_next_page {
                match &timeline.end_cursor {
                    Some(c) => Some(c.clone()),
                    None => {
                        return Err(contextual_message(request, "advancing history page", "missing end cursor for next page"));
                    },
                }
            } else {
                None
            };
            Ok(HistoryPage { events: sorted, next_cursor, resume_cursor, complete: !timeline.has_next_page })
        },
    }
}

/// The GraphQL query for one page of an issue's timeline: the closing,
/// reopening and milestone events, each with the cursor of its edge.
pub const FETCH_HISTORY_PAGE_QUERY: &'static str = r#"
query FetchIssueHistory($owner: String!, $name: String!, $number: Int!, $cursor: String) {
  repository(owner: $owner, name: $name) {
    id
    issue(number: $number) {
      id
      timelineItems(
        first: 100
        after: $cursor
        itemTypes: [CLOSED_EVENT, REOPENED_EVENT, DEMILESTONED_EVENT, MILESTONED_EVENT]
      ) {
        pageInfo { hasNextPage endCursor }
        edges {
          cursor
          node {
            __typename
            ... on ClosedEvent { id createdAt }
            ... on ReopenedEvent { id createdAt }
            ... on DemilestonedEvent { id createdAt milestoneTitle }
            ... on MilestonedEvent { id createdAt milestoneTitle }
          }
        }
      }
    }
  }
}
"#;

/// The variables of a timeline query: the repository, the issue's number,
/// and the cursor the page starts after.
#[derive(Debug, Clone, PartialEq, Eq)]
pub struct HistoryVariables {
    pub owner: String,
    pub name: String,
    pub number: u64,
    pub cursor: Option<String>,
}

/// A GraphQL request for a page of one issue's timeline.
#[derive(Debug, Clone, PartialEq, Eq)]
pub struct HistoryRequest {
    pub query: String,
    pub variables: HistoryVariables,
}

/// The timeline request that `request` asks of `repo`.
pub fn history_request(repo: &RepoRef, request: &HistoryPageRequest) -> (r: HistoryRequest)
    ensures
        r.query@ == FETCH_HISTORY_PAGE_QUERY@,
        r.variables.owner@ == repo.owner@,
        r.variables.name@ == repo.name@,
        r.variables.number == request.issue_number,
        r.variables.cursor == request.cursor,
{
    HistoryRequest {
        query: FETCH_HISTORY_PAGE_QUERY.to_owned(),
        variables: HistoryVariables {
            owner: repo.owner.clone(),
            name: repo.name.clone(),
            number: request.issue_number,
            cursor: copy_opt_string(&request.cursor),
        },
    }
}

} // verus!
