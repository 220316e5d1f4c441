//! Issue synchronization with GitHub's GraphQL API: how responses are
//! classified, how issue pages are collected, and how GitHub's issues become
//! raw issues.

use vstd::prelude::*;

use crate::model::{IssueState, RawIssue};
use crate::order::{items_of, keyed, sort_by_keys, stable_sorted, SortKey};
use crate::provider::{ProviderError, ProviderSnapshot, RepoRef};
use crate::text::{blank, chars_of, i64_text, is_blank, parse_i64, str_eq};
use crate::textref::{enrich_relationships, enriched};

verus! {

/// An issue's state as GitHub reports it.
#[derive(Debug, Clone, Copy, PartialEq, Eq, Structural)]
pub enum GithubIssueState {
    Open,
    Closed,
}

/// One issue of a GitHub issues page, with its connections read out.
#[derive(Debug, Clone, PartialEq, Eq)]
pub struct IssueNode {
    pub number: u64,
    pub title: String,
    pub body: Option<String>,
    pub url: String,
    pub state: GithubIssueState,
    pub state_reason: Option<String>,
    pub assignees: Vec<String>,
    pub milestone: Option<String>,
    pub labels: Vec<String>,
    pub parent: Option<u64>,
    pub blocked_by: Vec<u64>,
}

/// The state of an issue: closed issues whose reason is `NOT_PLANNED` are
/// out of scope.
pub open spec fn state_of(node: IssueNode) -> IssueState {
    match node.state {
        GithubIssueState::Open => IssueState::Open,
        GithubIssueState::Closed => if node.state_reason matches Some(r) && r@ == "NOT_PLANNED"@ {
            IssueState::ClosedNotPlanned
        } else {
            IssueState::Closed
        },
    }
}

/// The text of an issue's body; a missing body is empty.
pub open spec fn body_text(node: IssueNode) -> Seq<char> {
    match node.body {
        Some(b) => b@,
        None => Seq::empty(),
    }
}

/// `issue` carries the fields of `node` other than its blockers; a missing
/// body is empty.
pub open spec fn fields_of(issue: RawIssue, node: IssueNode) -> bool {
    &&& issue.number == node.number
    &&& issue.parent_issue == node.parent
    &&& issue.title@ == node.title@
    &&& issue.body@ == body_text(node)
    &&& issue.state == state_of(node)
    &&& issue.assignees@ == node.assignees@
    &&& issue.milestone == node.milestone
    &&& issue.labels@ == node.labels@
    &&& issue.url@ == node.url@
}

/// `issue` is the raw issue of `node` alone, blocked by what GitHub lists.
pub open spec fn issue_of(issue: RawIssue, node: IssueNode) -> bool {
    fields_of(issue, node) && issue.blocked_by@ == node.blocked_by@
}

/// `issues` are the raw issues of `nodes`, one for one, with the
/// relationships written in their bodies added.
pub open spec fn mapped_from(issues: Seq<RawIssue>, nodes: Seq<IssueNode>) -> bool {
    exists|raw: Seq<RawIssue>| raw.len() == nodes.len()
        && (forall|k: int| 0 <= k < nodes.len() ==> issue_of(#[trigger] raw[k], nodes[k]))
        && enriched(issues, raw)
}

/// The raw issue of one GitHub issue.
pub fn map_issue(node: IssueNode) -> (r: RawIssue)
    ensures
        issue_of(r, node),
{
    let state = match node.state {
        GithubIssueState::Open => IssueState::Open,
        GithubIssueState::Closed => {
            let not_planned = match &node.state_reason {
                Some(reason) => str_eq(reason.as_str(), "NOT_PLANNED"),
                None => false,
            };
            if not_planned { IssueState::ClosedNotPlanned } else { IssueState::Closed }
        },
    };
    let body = match node.body {
        Some(b) => b,
        None => String::new(),
    };
    RawIssue {
        number: node.number,
        parent_issue: node.parent,
        title: node.title,
        body,
        state,
        assignees: node.assignees,
        milestone: node.milestone,
        labels: node.labels,
        blocked_by: node.blocked_by,
        url: node.url,
    }
}

/// The raw issues of GitHub issues, in the same order, with the
/// relationships written in their bodies added (see
/// [`enrich_relationships`]).
pub fn map_issues(nodes: Vec<IssueNode>) -> (r: Vec<RawIssue>)
    ensures
        mapped_from(r@, nodes@),
{
    let ghost all = nodes@;
    let mut rest = nodes;
    let mut native: Vec<RawIssue> = Vec::new();
    let mut i: usize = 0;
    let n = rest.len();
    while i < n
        invariant
            n == all.len(),
            i <= n,
            rest@ =~= all.skip(i as int),
            native@.len() == i,
            forall|k: int| 0 <= k < i ==> issue_of(#[trigger] native@[k], all[k]),
        decreases n - i,
    {
        let node = rest.remove(0);
        assert(node == all[i as int]);
        native.push(map_issue(node));
        i = i + 1;
    }
    let ghost raw = native@;
    let r = enrich_relationships(native);
    assert(raw.len() == all.len() && (forall|k: int| 0 <= k < all.len() ==> issue_of(#[trigger] raw[k], all[k])) && enriched(r@, raw));
    r
}

/// Issues are listed by number, issues with equal numbers kept in their
/// order.
pub open spec fn number_key(issue: RawIssue) -> SortKey {
    (issue.number as int, Seq::empty())
}

pub open spec fn number_keys(issues: Seq<RawIssue>) -> Seq<(SortKey, RawIssue)> {
    issues.map_values(|i: RawIssue| (number_key(i), i))
}

/// `issues` sorted by number, stably.
pub fn sort_issues_by_number(issues: Vec<RawIssue>) -> (r: Vec<RawIssue>)
    ensures
        r@ == items_of(stable_sorted(number_keys(issues@))),
{
    let mut keys: Vec<(i128, String)> = Vec::new();
    let mut i: usize = 0;
    while i < issues.len()
        invariant
            i <= issues@.len(),
            keys@.len() == i,
            forall|k: int| 0 <= k < i ==> (#[trigger] keys@[k]).0 == issues@[k].number
                && keys@[k].1@ == Seq::<char>::empty(),
        decreases issues@.len() - i,
    {
        keys.push((issues[i].number as i128, String::new()));
        i = i + 1;
    }
    assert(keyed(keys@, issues@) =~= number_keys(issues@));
    sort_by_keys(issues, keys)
}

/// What the `errors` member of a GraphQL response holds.
#[derive(Debug, Clone, PartialEq, Eq)]
pub enum GraphqlErrors {
    /// There is no `errors` member.
    Absent,
    /// `errors` is not an array.
    NotArray,
    /// The errors, each with its `message` when that is a string.
    Entries(Vec<Option<String>>),
}

pub open spec fn malformed_errors() -> Seq<char> {
    "malformed GraphQL error response"@
}

/// The failure a GraphQL response reports: none without errors; a parse
/// failure for a malformed error collection; otherwise the first error's
/// message.
pub fn graphql_error(errors: &GraphqlErrors) -> (r: Option<ProviderError>)
    ensures
        match errors {
            GraphqlErrors::Absent => r is None,
            GraphqlErrors::NotArray => r matches Some(ProviderError::Parse(m)) && m@ == malformed_errors(),
            GraphqlErrors::Entries(es) => if es@.len() == 0 {
                r is None
            } else if exists|k: int| 0 <= k < es@.len() && (#[trigger] es@[k]) is None {
                r matches Some(ProviderError::Parse(m)) && m@ == malformed_errors()
            } else {
                r matches Some(ProviderError::Parse(m)) && es@[0] matches Some(first) && m@ == first@
            },
        },
{
    match errors {
        GraphqlErrors::Absent => None,
        GraphqlErrors::NotArray => Some(ProviderError::Parse("malformed GraphQL error response".to_owned())),
        GraphqlErrors::Entries(es) => {
            if es.len() == 0 {
                return None;
            }
            let mut i: usize = 0;
            while i < es.len()
                invariant
                    *errors == GraphqlErrors::Entries(*es),
                    es@.len() > 0,
                    i <= es@.len(),
                    forall|k: int| 0 <= k < i ==> (#[trigger] es@[k]) is Some,
                decreases es@.len() - i,
            {
                if es[i].is_none() {
                    assert(es@[i as int] is None);
                    return Some(ProviderError::Parse("malformed GraphQL error response".to_owned()));
                }
                i = i + 1;
            }
            assert(!exists|k: int| 0 <= k < es@.len() && (#[trigger] es@[k]) is None);
            match &es[0] {
                Some(first) => Some(ProviderError::Parse(first.clone())),
                None => Some(ProviderError::Parse("malformed GraphQL error response".to_owned())),
            }
        },
    }
}

/// The failure an HTTP response of the GraphQL endpoint means before its
/// body is read: a rejected token (401), or an exhausted rate limit (403 or
/// 429 with `x-ratelimit-remaining: 0`), which resumes at the
/// `x-ratelimit-reset` time when that header holds a number. `None` lets the
/// response be read.
pub fn classify_response(status: u16, remaining: Option<&str>, reset: Option<&str>) -> (r: Option<ProviderError>)
    ensures
        status == 401 ==> (r matches Some(ProviderError::Auth(m)) && m@ == "token rejected"@),
        status != 401 && (status == 403 || status == 429) && (remaining matches Some(v) && v@ == "0"@)
            ==> r == Some(ProviderError::RateLimited {
                reset_epoch: match reset {
                    Some(t) => i64_text(t@),
                    None => None,
                },
            }),
        status != 401 && !((status == 403 || status == 429) && (remaining matches Some(v) && v@ == "0"@)) ==> r is None,
{
    if status == 401 {
        return Some(ProviderError::Auth("token rejected".to_owned()));
    }
    let exhausted = match remaining {
        Some(v) => str_eq(v, "0"),
        None => false,
    };
    if (status == 403 || status == 429) && exhausted {
        let reset_epoch = match reset {
            Some(t) => parse_i64(chars_of(t).as_slice()),
            None => None,
        };
        return Some(ProviderError::RateLimited { reset_epoch });
    }
    None
}

/// A page's viewer passes: it names none, or a login that is not blank and
/// agrees with the viewer seen so far.
pub open spec fn viewer_accepted(known: Option<String>, named: Option<String>) -> bool {
    match named {
        None => true,
        Some(v) => !blank(v@) && !(known matches Some(w) && w@ != v@),
    }
}

/// One page of GitHub issues: the viewer, when the response names one, and
/// the repository's issues when the repository was found.
#[derive(Debug, Clone, PartialEq, Eq)]
pub struct IssuesPage {
    pub viewer_login: Option<String>,
    pub issues: Option<IssueConnection>,
}

/// The issues of one page and where the next one starts.
#[derive(Debug, Clone, PartialEq, Eq)]
pub struct IssueConnection {
    pub has_next_page: bool,
    pub end_cursor: Option<String>,
    pub nodes: Vec<IssueNode>,
}

/// The pages of a repository's issues read so far: the viewer they were
/// read as, and their issues in order.
pub struct IssuePagination {
    viewer_login: Option<String>,
    nodes: Vec<IssueNode>,
}

pub open spec fn parse_failure(r: Result<Option<String>, ProviderError>, message: Seq<char>) -> bool {
    r matches Err(ProviderError::Parse(m)) && m@ == message
}

impl IssuePagination {
    pub closed spec fn viewer(&self) -> Option<String> {
        self.viewer_login
    }

    pub closed spec fn collected(&self) -> Seq<IssueNode> {
        self.nodes@
    }

    /// Nothing read yet.
    pub fn new() -> (r: Self)
        ensures
            r.viewer() is None,
            r.collected().len() == 0,
    {
        IssuePagination { viewer_login: None, nodes: Vec::new() }
    }

    /// Reads one page. A viewer that the page names must not be blank and
    /// must stay the same from page to page; a page that names none leaves
    /// the viewer as it was. The repository must be there. Its issues are
    /// collected; the result is the cursor of the next page, or `None` after
    /// the last. A page that has a next one must say where it starts. A
    /// refused page leaves the pagination as it was.
    pub fn accept(&mut self, page: IssuesPage) -> (r: Result<Option<String>, ProviderError>)
        ensures
            (page.viewer_login matches Some(v) && blank(v@)) ==> parse_failure(r, "viewer login is empty"@),
            (page.viewer_login matches Some(v) && !blank(v@) && (old(self).viewer() matches Some(w) && w@ != v@))
                ==> parse_failure(r, "viewer login changed during issue pagination"@),
            viewer_accepted(old(self).viewer(), page.viewer_login)
                ==> match page.issues {
                    None => parse_failure(r, "missing data.repository.issues"@),
                    Some(c) => if c.has_next_page && c.end_cursor is None {
                        parse_failure(r, "missing end cursor for next issues page"@)
                    } else {
                        &&& r == Ok::<Option<String>, ProviderError>(if c.has_next_page { c.end_cursor } else { None })
                        &&& final(self).collected() == old(self).collected() + c.nodes@
                        &&& final(self).viewer() == (match page.viewer_login {
                            Some(v) => Some(v),
                            None => old(self).viewer(),
                        })
                    },
                },
            r is Err ==> final(self).viewer() == old(self).viewer() && final(self).collected() == old(self).collected(),
    {
        let viewer = match page.viewer_login {
            Some(login) => {
                if is_blank(login.as_str()) {
                    return Err(ProviderError::Parse("viewer login is empty".to_owned()));
                }
                match &self.viewer_login {
                    Some(known) => {
                        if !str_eq(known.as_str(), login.as_str()) {
                            return Err(ProviderError::Parse("viewer login changed during issue pagination".to_owned()));
                        }
                    },
                    None => {},
                }
                Some(login)
            },
            None => None,
        };
        let connection = match page.issues {
            Some(c) => c,
            None => {
                return Err(ProviderError::Parse("missing data.repository.issues".to_owned()));
            },
        };
        if connection.has_next_page && connection.end_cursor.is_none() {
            return Err(ProviderError::Parse("missing end cursor for next issues page".to_owned()));
        }
        if viewer.is_some() {
            self.viewer_login = viewer;
        }
        let mut nodes = connection.nodes;
        self.nodes.append(&mut nodes);
        if connection.has_next_page {
            Ok(connection.end_cursor)
        } else {
            Ok(None)
        }
    }

    /// The snapshot of the collected issues: raw issues sorted by number,
    /// as the viewer saw them.
    pub fn finish(self) -> (r: ProviderSnapshot)
        ensures
            r.viewer_login == self.viewer(),
            r.repository_id is None,
            r.history_cutoff is None,
            r.history@.len() == 0,
            r.publication_generation is None,
            exists|mapped: Seq<RawIssue>| mapped_from(mapped, self.collected())
                && r.issues@ == items_of(stable_sorted(number_keys(mapped))),
    {
        let mapped = map_issues(self.nodes);
        let ghost m = mapped@;
        assert(mapped_from(m, self.collected()));
        let issues = sort_issues_by_number(mapped);
        ProviderSnapshot::new(self.viewer_login, issues)
    }
}

/// The GraphQL query for one page of a repository's issues, with the
/// viewer's login.
pub const FETCH_ISSUES_QUERY: &'static str = r#"
query FetchIssues($owner: String!, $name: String!, $cursor: String) {
  viewer { login }
  repository(owner: $owner, name: $name) {
    issues(first: 100, after: $cursor, states: [OPEN, CLOSED]) {
      pageInfo {
        hasNextPage
        endCursor
      }
      nodes {
        number
        title
        body
        url
        state
        stateReason
        assignees(first: 10) {
          nodes { login }
        }
        milestone { title }
        labels(first: 20) {
          nodes { name }
        }
        parent { number }
        blockedBy(first: 50) {
          nodes {
            ... on Issue { number }
          }
        }
      }
    }
  }
}
"#;

/// The variables of an issues query: the repository, and the cursor the
/// page starts after (`None` for the first page).
#[derive(Debug, Clone, PartialEq, Eq)]
pub struct IssuesVariables {
    pub owner: String,
    pub name: String,
    pub cursor: Option<String>,
}

/// A GraphQL request for a page of issues.
#[derive(Debug, Clone, PartialEq, Eq)]
pub struct IssuesRequest {
    pub query: String,
    pub variables: IssuesVariables,
}

/// The request for the page of `repo`'s issues that starts after `cursor`.
pub fn issues_request(repo: &RepoRef, cursor: Option<String>) -> (r: IssuesRequest)
    ensures
        r.query@ == FETCH_ISSUES_QUERY@,
        r.variables.owner@ == repo.owner@,
        r.variables.name@ == repo.name@,
        r.variables.cursor == cursor,
{
    IssuesRequest {
        query: FETCH_ISSUES_QUERY.to_owned(),
        variables: IssuesVariables { owner: repo.owner.clone(), name: repo.name.clone(), cursor },
    }
}

/// How GitHub's states read: an open issue is open; a closed issue is out of
/// scope exactly when its state reason is "NOT_PLANNED", and closed (done)
/// for any other reason or none.
pub proof fn closed_not_planned_exactly_for_not_planned(issue: RawIssue, node: IssueNode)
    requires
        fields_of(issue, node),
    ensures
        node.state == GithubIssueState::Open ==> issue.state == IssueState::Open,
        node.state == GithubIssueState::Closed ==> issue.state != IssueState::Open,
        node.state == GithubIssueState::Closed ==> (issue.state == IssueState::ClosedNotPlanned
            <==> (node.state_reason matches Some(r) && r@ == seq!['N', 'O', 'T', '_', 'P', 'L', 'A', 'N', 'N', 'E', 'D'])),
{
    assert("NOT_PLANNED"@ == seq!['N', 'O', 'T', '_', 'P', 'L', 'A', 'N', 'N', 'E', 'D']) by {
        reveal_strlit("NOT_PLANNED");
    }
}

} // verus!
