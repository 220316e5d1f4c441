//! Temporal issue history: events, import state and page requests.

use vstd::prelude::*;

use crate::order::{items_of, key_lt, keyed, sort_by_keys, stable_sorted, stable_sorted_is_sorted_permutation, SortKey};
use crate::text::concat;

verus! {

/// A milestone as recorded in history.
#[derive(Debug, Clone, PartialEq, Eq)]
pub struct MilestoneRef {
    pub id: Option<String>,
    pub title: String,
}

/// What happened to an issue.
#[derive(Debug, Clone, PartialEq, Eq)]
pub enum HistoryEventKind {
    IssueCreated { milestone: Option<MilestoneRef> },
    IssueClosed,
    IssueReopened,
    MilestoneChanged { from: Option<MilestoneRef>, to: Option<MilestoneRef> },
}

/// One lifecycle event of one issue.
#[derive(Debug, Clone, PartialEq, Eq)]
pub struct HistoryEvent {
    pub sequence: u64,
    pub repository_id: String,
    pub issue_id: String,
    pub issue_number: u64,
    pub provider_event_id: String,
    pub occurred_at: i64,
    pub kind: HistoryEventKind,
}

/// How far the history import has come.
#[derive(Debug, Clone, Copy, PartialEq, Eq, Structural)]
pub enum HistoryImportState {
    Unavailable,
    Building,
    Complete,
    Delayed,
    RateLimited,
    Failed,
}

/// The published summary of a space's history import.
#[derive(Debug, Clone, PartialEq, Eq)]
pub struct HistorySummary {
    pub state: HistoryImportState,
    pub completed_issues: u64,
    pub total_issues: u64,
    pub earliest_event_at: Option<i64>,
    pub verified_through: Option<i64>,
    pub revision: u64,
    pub diagnostic: Option<String>,
    pub resume_at: Option<i64>,
}

/// Per-issue metadata that lets history be seeded and kept current.
#[derive(Debug, Clone, PartialEq, Eq)]
pub struct IssueSyncMetadata {
    pub issue_id: String,
    pub number: u64,
    pub created_at: i64,
    pub updated_at: i64,
    pub milestone: Option<MilestoneRef>,
}

/// A request for one page of one issue's timeline.
#[derive(Debug, Clone, PartialEq, Eq)]
pub struct HistoryPageRequest {
    pub issue_id: String,
    pub issue_number: u64,
    pub cursor: Option<String>,
    pub cutoff: i64,
}

/// One page of normalized timeline events.
#[derive(Debug, Clone, PartialEq, Eq)]
pub struct HistoryPage {
    pub events: Vec<HistoryEvent>,
    pub next_cursor: Option<String>,
    pub resume_cursor: Option<String>,
    pub complete: bool,
}

impl MilestoneRef {
    /// A copy of this milestone.
    pub fn duplicate(&self) -> (r: Self)
        ensures
            r == *self,
    {
        MilestoneRef { id: crate::text::copy_opt_string(&self.id), title: self.title.clone() }
    }
}

impl IssueSyncMetadata {
    /// A copy of this metadata.
    pub fn duplicate(&self) -> (r: Self)
        ensures
            r == *self,
    {
        IssueSyncMetadata {
            issue_id: self.issue_id.clone(),
            number: self.number,
            created_at: self.created_at,
            updated_at: self.updated_at,
            milestone: match &self.milestone {
                Some(m) => Some(m.duplicate()),
                None => None,
            },
        }
    }
}

impl HistoryEvent {
    /// The provider identity of an issue's creation event.
    pub open spec fn creation_id_view(issue_id: Seq<char>) -> Seq<char> {
        issue_id + ":issue_created"@
    }

    /// The provider identity of the creation event of issue `issue_id`.
    pub fn creation_id(issue_id: &str) -> (r: String)
        ensures
            r@ == Self::creation_id_view(issue_id@),
    {
        concat(issue_id, ":issue_created")
    }

    /// Events are ordered by when they happened, then by provider identity.
    pub open spec fn sort_key(&self) -> SortKey {
        (self.occurred_at as int, self.provider_event_id@)
    }

    /// Whether this event comes before `other`.
    pub fn precedes(&self, other: &HistoryEvent) -> (r: bool)
        ensures
            r == key_lt(self.sort_key(), other.sort_key()),
    {
        crate::order::key_less(
            (self.occurred_at as i128, self.provider_event_id.as_str()),
            (other.occurred_at as i128, other.provider_event_id.as_str()),
        )
    }
}

pub open spec fn event_keys(events: Seq<HistoryEvent>) -> Seq<(SortKey, HistoryEvent)> {
    events.map_values(|e: HistoryEvent| (e.sort_key(), e))
}

/// `events` in event order, events that tie kept in their order.
pub fn sort_events(events: Vec<HistoryEvent>) -> (r: Vec<HistoryEvent>)
    ensures
        r@ == items_of(stable_sorted(event_keys(events@))),
{
    let mut keys: Vec<(i128, String)> = Vec::new();
    let mut i: usize = 0;
    while i < events.len()
        invariant
            i <= events@.len(),
            keys@.len() == i,
            forall|k: int| 0 <= k < i ==> (#[trigger] keys@[k]).0 == events@[k].occurred_at
                && keys@[k].1@ == events@[k].provider_event_id@,
        decreases events@.len() - i,
    {
        keys.push((events[i].occurred_at as i128, events[i].provider_event_id.clone()));
        i = i + 1;
    }
    assert(keyed(keys@, events@) =~= event_keys(events@));
    sort_by_keys(events, keys)
}

/// Sorted events are in event order, and sorting neither gains nor loses
/// an event.
pub proof fn sorted_events_are_ordered(events: Seq<HistoryEvent>)
    ensures
        items_of(stable_sorted(event_keys(events))).len() == events.len(),
        forall|i: int, j: int| 0 <= i < j < events.len() ==> !key_lt(
            #[trigger] items_of(stable_sorted(event_keys(events)))[j].sort_key(),
            #[trigger] items_of(stable_sorted(event_keys(events)))[i].sort_key(),
        ),
        forall|e: HistoryEvent| #[trigger] events.contains(e) <==> items_of(stable_sorted(event_keys(events))).contains(e),
{
    let ek = event_keys(events);
    let out = stable_sorted(ek);
    let r = items_of(out);
    stable_sorted_is_sorted_permutation(ek);
    assert forall|k: int| 0 <= k < out.len() implies (#[trigger] out[k]).0 == out[k].1.sort_key() by {
        vstd::seq_lib::to_multiset_contains(out, out[k]);
        vstd::seq_lib::to_multiset_contains(ek, out[k]);
        assert(out.contains(out[k]));
        let m = choose|m: int| 0 <= m < ek.len() && ek[m] == out[k];
        assert(ek[m] == (events[m].sort_key(), events[m]));
    }
    assert forall|i: int, j: int| 0 <= i < j < events.len() implies !key_lt(#[trigger] r[j].sort_key(), #[trigger] r[i].sort_key()) by {
        assert(out[i].0 == r[i].sort_key() && out[j].0 == r[j].sort_key());
    }
    assert forall|e: HistoryEvent| #[trigger] events.contains(e) <==> r.contains(e) by {
        if events.contains(e) {
            let m = choose|m: int| 0 <= m < events.len() && events[m] == e;
            assert(ek[m] == (e.sort_key(), e));
            vstd::seq_lib::to_multiset_contains(ek, (e.sort_key(), e));
            vstd::seq_lib::to_multiset_contains(out, (e.sort_key(), e));
            let k = choose|k: int| 0 <= k < out.len() && out[k] == (e.sort_key(), e);
            assert(r[k] == e);
        }
        if r.contains(e) {
            let k = choose|k: int| 0 <= k < r.len() && r[k] == e;
            assert(out[k].1 == e);
            vstd::seq_lib::to_multiset_contains(out, out[k]);
            vstd::seq_lib::to_multiset_contains(ek, out[k]);
            assert(out.contains(out[k]));
            let m = choose|m: int| 0 <= m < ek.len() && ek[m] == out[k];
            assert(events[m] == e);
        }
    }
}

impl Default for HistoryImportState {
    /// History is unavailable until an import begins.
    fn default() -> (r: Self)
        ensures
            r == HistoryImportState::Unavailable,
    {
        HistoryImportState::Unavailable
    }
}

impl HistorySummary {
    pub open spec fn is_default(&self) -> bool {
        &&& self.state == HistoryImportState::Unavailable
        &&& self.completed_issues == 0
        &&& self.total_issues == 0
        &&& self.earliest_event_at is None
        &&& self.verified_through is None
        &&& self.revision == 0
        &&& self.diagnostic is None
        &&& self.resume_at is None
    }
}

impl Default for HistorySummary {
    /// The summary of a space with no history: unavailable, with no counts,
    /// bounds, diagnostic or resume time.
    fn default() -> (r: Self)
        ensures
            r.is_default(),
    {
        HistorySummary {
            state: HistoryImportState::Unavailable,
            completed_issues: 0,
            total_issues: 0,
            earliest_event_at: None,
            verified_through: None,
            revision: 0,
            diagnostic: None,
            resume_at: None,
        }
    }
}

} // verus!
