//! Derivation of star statuses from raw issues.

use std::collections::BTreeMap;

use vstd::prelude::*;

use crate::states::{issue_states, state_in, tracks_states};
use crate::model::{IssueState, RawIssue, Star, Status};
use crate::text::{copy_opt_string, copy_strings, insert_sorted_unique, strictly_increasing};

verus! {

/// The state of the last issue in `issues` that carries `number`, if any does.
pub open spec fn known_state(issues: Seq<RawIssue>, number: u64) -> Option<IssueState>
    decreases issues.len(),
{
    if issues.len() == 0 {
        None
    } else if issues.last().number == number {
        Some(issues.last().state)
    } else {
        known_state(issues.drop_last(), number)
    }
}

/// `b` is one of `issue`'s blockers that derivation keeps: named by the issue,
/// not the issue itself, and present among `issues`.
pub open spec fn kept_blocker(issues: Seq<RawIssue>, issue: RawIssue, b: u64) -> bool {
    &&& issue.blocked_by@.contains(b)
    &&& b != issue.number
    &&& known_state(issues, b) is Some
}

/// Some kept blocker of `issue` is still open.
pub open spec fn has_open_blocker(issues: Seq<RawIssue>, issue: RawIssue) -> bool {
    exists|b: u64| kept_blocker(issues, issue, b) && known_state(issues, b) == Some(IssueState::Open)
}

/// The status of `issue`, in precedence order: out of scope, resolved,
/// claimed, blocked, frontier.
pub open spec fn derived_status(issues: Seq<RawIssue>, issue: RawIssue) -> Status {
    match issue.state {
        IssueState::ClosedNotPlanned => Status::OutOfScope,
        IssueState::Closed => Status::Resolved,
        IssueState::Open => if issue.assignees@.len() > 0 {
            Status::Claimed
        } else if has_open_blocker(issues, issue) {
            Status::Blocked
        } else {
            Status::Frontier
        },
    }
}

/// `star` is the star derived for `issue` among `issues`.
pub open spec fn star_of(star: Star, issues: Seq<RawIssue>, issue: RawIssue) -> bool {
    &&& star.number == issue.number
    &&& star.parent_issue == issue.parent_issue
    &&& star.title == issue.title
    &&& star.status == derived_status(issues, issue)
    &&& strictly_increasing(star.blocked_by@)
    &&& forall|b: u64| star.blocked_by@.contains(b) <==> kept_blocker(issues, issue, b)
    &&& star.milestone == issue.milestone
    &&& star.labels@ == issue.labels@
    &&& star.assignees@ == issue.assignees@
    &&& star.url == issue.url
    &&& star.body == issue.body
}

/// `stars` are the stars of `issues`: one per issue, sorted by number.
pub open spec fn stars_of(stars: Seq<Star>, issues: Seq<RawIssue>) -> bool {
    &&& stars.len() == issues.len()
    &&& sorted_by_number(stars)
    &&& exists|p: Seq<int>|
            is_permutation(p, issues.len() as int) && forall|k: int|
                0 <= k < stars.len() ==> star_of(#[trigger] stars[k], issues, issues[p[k]])
}

/// No two issues share a number.
pub open spec fn distinct_numbers(issues: Seq<RawIssue>) -> bool {
    forall|a: int, b: int| 0 <= a < b < issues.len() ==> #[trigger] issues[a].number != #[trigger] issues[b].number
}

/// `p` lists each of `0..n` exactly once.
pub open spec fn is_permutation(p: Seq<int>, n: int) -> bool {
    &&& p.len() == n
    &&& forall|k: int| 0 <= k < n ==> 0 <= #[trigger] p[k] < n
    &&& forall|a: int, b: int| 0 <= a < b < n ==> p[a] != p[b]
}

pub open spec fn sorted_by_number(stars: Seq<Star>) -> bool {
    forall|a: int, b: int| 0 <= a < b < stars.len() ==> stars[a].number <= stars[b].number
}

/// The kept blockers of `issue`, strictly increasing.
fn kept_blockers(issues: &[RawIssue], states: &BTreeMap<u64, IssueState>, issue: &RawIssue) -> (r: Vec<u64>)
    requires
        tracks_states(states@, issues@),
    ensures
        strictly_increasing(r@),
        forall|b: u64| r@.contains(b) <==> kept_blocker(issues@, *issue, b),
{
    let mut r: Vec<u64> = Vec::new();
    let mut i: usize = 0;
    while i < issue.blocked_by.len()
        invariant
            i <= issue.blocked_by@.len(),
            tracks_states(states@, issues@),
            strictly_increasing(r@),
            forall|b: u64|
                r@.contains(b) <==> (issue.blocked_by@.take(i as int).contains(b) && b != issue.number
                    && known_state(issues@, b) is Some),
        decreases issue.blocked_by@.len() - i,
    {
        let b = issue.blocked_by[i];
        let ghost prefix = issue.blocked_by@.take(i as int);
        if b != issue.number && state_in(states, b, Ghost(issues@)).is_some() {
            r = insert_sorted_unique(r, b);
        }
        i = i + 1;
        assert(issue.blocked_by@.take(i as int) == prefix.push(b));
        assert forall|c: u64| prefix.push(b).contains(c) <==> (prefix.contains(c) || c == b) by {
            if prefix.push(b).contains(c) {
                let k = choose|k: int| 0 <= k < prefix.push(b).len() && prefix.push(b)[k] == c;
                if k < prefix.len() {
                    assert(prefix[k] == c);
                }
            }
            if prefix.contains(c) {
                let k = choose|k: int| 0 <= k < prefix.len() && prefix[k] == c;
                assert(prefix.push(b)[k] == c);
            }
            if c == b {
                assert(prefix.push(b)[prefix.len() as int] == c);
            }
        }
    }
    assert(issue.blocked_by@.take(issue.blocked_by@.len() as int) == issue.blocked_by@);
    r
}

/// Whether some listed blocker is open among `issues`.
fn any_open(issues: &[RawIssue], states: &BTreeMap<u64, IssueState>, blockers: &Vec<u64>) -> (r: bool)
    requires
        tracks_states(states@, issues@),
    ensures
        r <==> exists|k: int| 0 <= k < blockers@.len() && known_state(issues@, blockers@[k]) == Some(IssueState::Open),
{
    let mut k: usize = 0;
    while k < blockers.len()
        invariant
            k <= blockers@.len(),
            tracks_states(states@, issues@),
            forall|a: int| 0 <= a < k ==> known_state(issues@, blockers@[a]) != Some(IssueState::Open),
        decreases blockers@.len() - k,
    {
        match state_in(states, blockers[k], Ghost(issues@)) {
            Some(IssueState::Open) => {
                return true;
            },
            _ => {},
        }
        k = k + 1;
    }
    false
}

/// The star derived for `issues[i]`.
fn star_for(issues: &[RawIssue], states: &BTreeMap<u64, IssueState>, i: usize) -> (s: Star)
    requires
        i < issues@.len(),
        tracks_states(states@, issues@),
    ensures
        star_of(s, issues@, issues@[i as int]),
{
    let issue = &issues[i];
    let blocked_by = kept_blockers(issues, states, issue);
    let open = any_open(issues, states, &blocked_by);
    proof {
        if open {
            let k = choose|k: int| 0 <= k < blocked_by@.len() && known_state(issues@, blocked_by@[k]) == Some(IssueState::Open);
            assert(blocked_by@.contains(blocked_by@[k]));
            assert(kept_blocker(issues@, *issue, blocked_by@[k]));
        }
        if has_open_blocker(issues@, *issue) {
            let b = choose|b: u64| kept_blocker(issues@, *issue, b) && known_state(issues@, b) == Some(IssueState::Open);
            assert(blocked_by@.contains(b));
        }
    }
    let status = match issue.state {
        IssueState::ClosedNotPlanned => Status::OutOfScope,
        IssueState::Closed => Status::Resolved,
        IssueState::Open => if issue.assignees.len() > 0 {
            Status::Claimed
        } else if open {
            Status::Blocked
        } else {
            Status::Frontier
        },
    };
    Star {
        number: issue.number,
        parent_issue: issue.parent_issue,
        title: issue.title.clone(),
        status,
        blocked_by,
        milestone: copy_opt_string(&issue.milestone),
        labels: copy_strings(&issue.labels),
        assignees: copy_strings(&issue.assignees),
        url: issue.url.clone(),
        body: issue.body.clone(),
    }
}

/// `stars` is what derivation makes of `issues`: one star per issue, sorted
/// by issue number.
pub open spec fn derived_stars(stars: Seq<Star>, issues: Seq<RawIssue>) -> bool {
    &&& stars.len() == issues.len()
    &&& sorted_by_number(stars)
    &&& exists|p: Seq<int>|
            is_permutation(p, issues.len() as int) && forall|k: int|
                0 <= k < stars.len() ==> star_of(#[trigger] stars[k], issues, issues[p[k]])
}

/// Derives one star per issue, sorted by issue number.
///
/// Each star keeps the issue's fields, lists its blockers sorted and without
/// duplicates, self references or unknown issues, and takes the first status
/// that applies: out of scope, resolved, claimed, blocked by an open issue,
/// frontier.
pub fn derive(issues: &[RawIssue]) -> (stars: Vec<Star>)
    ensures
        stars_of(stars@, issues@),
{
    let states = issue_states(issues);
    let mut stars: Vec<Star> = Vec::new();
    let ghost mut p: Seq<int> = Seq::empty();
    let mut i: usize = 0;
    while i < issues.len()
        invariant
            i <= issues@.len(),
            tracks_states(states@, issues@),
            stars@.len() == i,
            p.len() == i,
            sorted_by_number(stars@),
            forall|k: int| 0 <= k < i ==> 0 <= #[trigger] p[k] < i,
            forall|a: int, b: int| 0 <= a < b < i ==> p[a] != p[b],
            forall|k: int| 0 <= k < i ==> star_of(#[trigger] stars@[k], issues@, issues@[p[k]]),
        decreases issues@.len() - i,
    {
        let star = star_for(issues, &states, i);
        let mut j: usize = 0;
        while j < stars.len() && stars[j].number <= star.number
            invariant
                j <= stars@.len(),
                forall|a: int| 0 <= a < j ==> stars@[a].number <= star.number,
            decreases stars@.len() - j,
        {
            j = j + 1;
        }
        let ghost old_stars = stars@;
        let ghost old_p = p;
        let ghost new_star = star;
        stars.insert(j, star);
        proof {
            p = p.insert(j as int, i as int);
            assert(stars@ == old_stars.insert(j as int, new_star));
            assert forall|a: int, b: int| 0 <= a < b < stars@.len() implies stars@[a].number <= stars@[b].number by {
                if b < j {
                } else if b == j {
                } else if a < j {
                    assert(old_stars[j as int].number > new_star.number);
                    assert(old_stars[j as int].number <= old_stars[b - 1].number || j == b - 1);
                } else if a == j {
                    assert(old_stars[j as int].number <= old_stars[b - 1].number || j == b - 1);
                } else {
                }
            }
            assert forall|k: int| 0 <= k < i + 1 implies 0 <= #[trigger] p[k] < i + 1 by {
                if k < j {
                    assert(p[k] == old_p[k]);
                } else if k > j {
                    assert(p[k] == old_p[k - 1]);
                }
            }
            assert forall|a: int, b: int| 0 <= a < b < i + 1 implies p[a] != p[b] by {
                if a < j && b < j {
                } else if a < j && b == j {
                    assert(old_p[a] < i);
                } else if a < j && b > j {
                    assert(p[b] == old_p[b - 1]);
                } else if a == j {
                    assert(p[b] == old_p[b - 1]);
                    assert(old_p[b - 1] < i);
                } else {
                    assert(p[a] == old_p[a - 1]);
                    assert(p[b] == old_p[b - 1]);
                }
            }
            assert forall|k: int| 0 <= k < i + 1 implies star_of(#[trigger] stars@[k], issues@, issues@[p[k]]) by {
                if k < j {
                    assert(stars@[k] == old_stars[k]);
                } else if k > j {
                    assert(stars@[k] == old_stars[k - 1]);
                    assert(p[k] == old_p[k - 1]);
                }
            }
        }
        i = i + 1;
    }
    proof {
        assert(is_permutation(p, issues@.len() as int));
    }
    stars
}

/// Closing one open issue never takes another issue off the frontier: every
/// issue with a different number that was on the frontier stays there.
pub proof fn closing_an_issue_keeps_the_frontier(issues: Seq<RawIssue>, c: int, i: int)
    requires
        0 <= c < issues.len(),
        0 <= i < issues.len(),
        issues[c].state == IssueState::Open,
        issues[i].number != issues[c].number,
        derived_status(issues, issues[i]) == Status::Frontier,
    ensures
        derived_status(
            issues.update(c, RawIssue { state: IssueState::Closed, ..issues[c] }),
            issues.update(c, RawIssue { state: IssueState::Closed, ..issues[c] })[i],
        ) == Status::Frontier,
{
    let closed = issues.update(c, RawIssue { state: IssueState::Closed, ..issues[c] });
    assert(closed[i] == issues[i]);
    assert forall|b: u64| #[trigger] known_state(closed, b) is Some == known_state(issues, b) is Some
        && (known_state(closed, b) == Some(IssueState::Open) ==> known_state(issues, b) == Some(IssueState::Open)) by {
        lemma_closing_known_state(issues, c, b);
    }
    if has_open_blocker(closed, closed[i]) {
        let b = choose|b: u64| kept_blocker(closed, closed[i], b) && known_state(closed, b) == Some(IssueState::Open);
        assert(kept_blocker(issues, issues[i], b));
    }
}

/// Closing a blocker never shrinks the frontier: when no two issues share a
/// number, every star that the stars of `issues` put on the frontier, other
/// than the closed issue's own, is on the frontier in the stars of the same
/// issues once open issue `c` is closed.
pub proof fn closing_a_blocker_never_shrinks_the_frontier(
    issues: Seq<RawIssue>,
    c: int,
    before: Seq<Star>,
    after: Seq<Star>,
    s: int,
    t: int,
)
    requires
        0 <= c < issues.len(),
        issues[c].state == IssueState::Open,
        distinct_numbers(issues),
        stars_of(before, issues),
        stars_of(after, issues.update(c, RawIssue { state: IssueState::Closed, ..issues[c] })),
        0 <= s < before.len(),
        0 <= t < after.len(),
        before[s].status == Status::Frontier,
        before[s].number != issues[c].number,
        after[t].number == before[s].number,
    ensures
        after[t].status == Status::Frontier,
{
    let closed = issues.update(c, RawIssue { state: IssueState::Closed, ..issues[c] });
    let p = choose|p: Seq<int>| is_permutation(p, issues.len() as int) && forall|k: int|
        0 <= k < before.len() ==> star_of(#[trigger] before[k], issues, issues[p[k]]);
    let q = choose|q: Seq<int>| is_permutation(q, closed.len() as int) && forall|k: int|
        0 <= k < after.len() ==> star_of(#[trigger] after[k], closed, closed[q[k]]);
    assert(star_of(before[s], issues, issues[p[s]]));
    assert(star_of(after[t], closed, closed[q[t]]));
    let i = p[s];
    let j = q[t];
    assert(0 <= i < issues.len());
    assert(0 <= j < issues.len());
    assert(closed[j].number == issues[j].number);
    if i != j {
        if i < j {
            assert(issues[i].number != issues[j].number);
        } else {
            assert(issues[j].number != issues[i].number);
        }
    }
    assert(i == j);
    closing_an_issue_keeps_the_frontier(issues, c, i);
}

/// Closing `issues[c]` keeps every number known and opens none.
proof fn lemma_closing_known_state(issues: Seq<RawIssue>, c: int, b: u64)
    requires
        0 <= c < issues.len(),
    ensures
        ({
            let closed = issues.update(c, RawIssue { state: IssueState::Closed, ..issues[c] });
            &&& known_state(closed, b) is Some == known_state(issues, b) is Some
            &&& known_state(closed, b) == Some(IssueState::Open) ==> known_state(issues, b) == Some(IssueState::Open)
        }),
    decreases issues.len(),
{
    let closed = issues.update(c, RawIssue { state: IssueState::Closed, ..issues[c] });
    if c == issues.len() - 1 {
        assert(closed.drop_last() == issues.drop_last());
    } else {
        assert(closed.drop_last() == issues.drop_last().update(c, RawIssue { state: IssueState::Closed, ..issues[c] }));
        assert(issues.drop_last()[c] == issues[c]);
        lemma_closing_known_state(issues.drop_last(), c, b);
    }
}

/// What blocks a star: every blocker a star keeps is another issue among
/// `issues`, and a star on the frontier or blocked is blocked exactly when
/// one of the blockers it keeps is an open issue. So a blocker that is not
/// among the issues never changes a status.
pub proof fn blocked_exactly_by_a_kept_open_blocker(stars: Seq<Star>, issues: Seq<RawIssue>, k: int)
    requires
        stars_of(stars, issues),
        0 <= k < stars.len(),
    ensures
        forall|b: u64| #[trigger] stars[k].blocked_by@.contains(b) ==> b != stars[k].number && known_state(issues, b) is Some,
        (stars[k].status == Status::Blocked || stars[k].status == Status::Frontier) ==> (stars[k].status == Status::Blocked
            <==> exists|b: u64| #[trigger] stars[k].blocked_by@.contains(b) && known_state(issues, b) == Some(IssueState::Open)),
{
    let p = choose|p: Seq<int>| is_permutation(p, issues.len() as int) && forall|j: int|
        0 <= j < stars.len() ==> star_of(#[trigger] stars[j], issues, issues[p[j]]);
    let issue = issues[p[k]];
    assert(star_of(stars[k], issues, issue));
    assert forall|b: u64| #[trigger] stars[k].blocked_by@.contains(b) implies b != stars[k].number && known_state(issues, b) is Some by {
        assert(kept_blocker(issues, issue, b));
    }
    if stars[k].status == Status::Blocked {
        let b = choose|b: u64| kept_blocker(issues, issue, b) && known_state(issues, b) == Some(IssueState::Open);
        assert(stars[k].blocked_by@.contains(b));
    }
    if exists|b: u64| #[trigger] stars[k].blocked_by@.contains(b) && known_state(issues, b) == Some(IssueState::Open) {
        let b = choose|b: u64| #[trigger] stars[k].blocked_by@.contains(b) && known_state(issues, b) == Some(IssueState::Open);
        assert(kept_blocker(issues, issue, b));
    }
}

} // verus!
