//! The rules of the history ledger that do not depend on its storage: which
//! seeds it accepts, the order it records creation events in, and how a
//! stored row reads back as a summary.

use vstd::prelude::*;

use crate::history::{HistoryEvent, HistoryImportState, HistorySummary, IssueSyncMetadata};
use crate::order::{items_of, keyed, sort_by_keys, stable_sorted, SortKey};
use crate::text::{blank, concat, is_blank};

verus! {

/// The repository a ledger is initialized with: the space, the provider's
/// repository identity, the verified boundary and the issues to seed.
#[derive(Debug, Clone, PartialEq, Eq)]
pub struct RepositorySeed {
    pub space_id: String,
    pub provider_repository_id: String,
    pub verified_through: i64,
    pub issues: Vec<IssueSyncMetadata>,
}

/// Ledger data that cannot be accepted.
#[derive(Debug, Clone, PartialEq, Eq)]
pub enum HistoryDataError {
    Invalid(String),
    /// A number outside the range the ledger stores.
    Integer,
}

impl HistoryDataError {
    pub open spec fn message_view(&self) -> Seq<char> {
        match self {
            HistoryDataError::Invalid(m) => "invalid history data: "@ + m@,
            HistoryDataError::Integer => "history integer is outside the supported range: out of range integral type conversion attempted"@,
        }
    }

    /// The text the error displays.
    pub fn message(&self) -> (r: String)
        ensures
            r@ == self.message_view(),
    {
        match self {
            HistoryDataError::Invalid(m) => concat("invalid history data: ", m.as_str()),
            HistoryDataError::Integer => "history integer is outside the supported range: out of range integral type conversion attempted".to_owned(),
        }
    }
}

/// What is wrong with a seed, if anything.
#[derive(Debug, Clone, Copy, PartialEq, Eq, Structural)]
pub enum SeedFault {
    RepositoryIdentity,
    IssueIdentity,
    IssueNumber,
}

pub open spec fn issues_fault(issues: Seq<IssueSyncMetadata>) -> Option<SeedFault>
    decreases issues.len(),
{
    if issues.len() == 0 {
        None
    } else if blank(issues[0].issue_id@) {
        Some(SeedFault::IssueIdentity)
    } else if issues[0].number > i64::MAX {
        Some(SeedFault::IssueNumber)
    } else {
        issues_fault(issues.drop_first())
    }
}

/// The first fault of `seed`: blank repository identities, then, issue by
/// issue, a blank issue identity or a number beyond `i64`.
pub open spec fn seed_fault(seed: RepositorySeed) -> Option<SeedFault> {
    if blank(seed.space_id@) || blank(seed.provider_repository_id@) {
        Some(SeedFault::RepositoryIdentity)
    } else {
        issues_fault(seed.issues@)
    }
}

pub open spec fn fault_error(f: SeedFault, e: HistoryDataError) -> bool {
    match f {
        SeedFault::RepositoryIdentity => e matches HistoryDataError::Invalid(m) && m@ == "repository identities must not be empty"@,
        SeedFault::IssueIdentity => e matches HistoryDataError::Invalid(m) && m@ == "provider issue identity must not be empty"@,
        SeedFault::IssueNumber => e == HistoryDataError::Integer,
    }
}

/// Accepts a seed whose identities are not blank and whose issue numbers
/// fit the ledger.
pub fn validate_seed(seed: &RepositorySeed) -> (r: Result<(), HistoryDataError>)
    ensures
        match seed_fault(*seed) {
            None => r is Ok,
            Some(f) => r matches Err(e) && fault_error(f, e),
        },
{
    if is_blank(seed.space_id.as_str()) || is_blank(seed.provider_repository_id.as_str()) {
        return Err(HistoryDataError::Invalid("repository identities must not be empty".to_owned()));
    }
    let mut i: usize = 0;
    assert(seed.issues@.skip(0) =~= seed.issues@);
    while i < seed.issues.len()
        invariant
            i <= seed.issues@.len(),
            !blank(seed.space_id@) && !blank(seed.provider_repository_id@),
            issues_fault(seed.issues@) == issues_fault(seed.issues@.skip(i as int)),
        decreases seed.issues@.len() - i,
    {
        let issue = &seed.issues[i];
        let ghost rest = seed.issues@.skip(i as int);
        assert(rest[0] == seed.issues@[i as int]);
        assert(rest.drop_first() =~= seed.issues@.skip(i + 1));
        if is_blank(issue.issue_id.as_str()) {
            return Err(HistoryDataError::Invalid("provider issue identity must not be empty".to_owned()));
        }
        if issue.number > 9223372036854775807u64 {
            return Err(HistoryDataError::Integer);
        }
        i = i + 1;
    }
    Ok(())
}

/// The name under which the ledger stores an import state.
pub open spec fn state_name(state: HistoryImportState) -> Seq<char> {
    match state {
        HistoryImportState::Unavailable => "unavailable"@,
        HistoryImportState::Building => "building"@,
        HistoryImportState::Complete => "complete"@,
        HistoryImportState::Delayed => "delayed"@,
        HistoryImportState::RateLimited => "rate_limited"@,
        HistoryImportState::Failed => "failed"@,
    }
}

/// The state stored under `name`, if any.
pub open spec fn state_named(name: Seq<char>) -> Option<HistoryImportState> {
    if name == "unavailable"@ {
        Some(HistoryImportState::Unavailable)
    } else if name == "building"@ {
        Some(HistoryImportState::Building)
    } else if name == "complete"@ {
        Some(HistoryImportState::Complete)
    } else if name == "delayed"@ {
        Some(HistoryImportState::Delayed)
    } else if name == "rate_limited"@ {
        Some(HistoryImportState::RateLimited)
    } else if name == "failed"@ {
        Some(HistoryImportState::Failed)
    } else {
        None
    }
}

/// The stored name of `state`.
pub fn state_name_of(state: HistoryImportState) -> (r: &'static str)
    ensures
        r@ == state_name(state),
{
    match state {
        HistoryImportState::Unavailable => "unavailable",
        HistoryImportState::Building => "building",
        HistoryImportState::Complete => "complete",
        HistoryImportState::Delayed => "delayed",
        HistoryImportState::RateLimited => "rate_limited",
        HistoryImportState::Failed => "failed",
    }
}

/// Reads a stored import state; an unknown name is invalid data.
pub fn parse_state(state: &str) -> (r: Result<HistoryImportState, HistoryDataError>)
    ensures
        match state_named(state@) {
            Some(s) => r == Ok::<HistoryImportState, HistoryDataError>(s),
            None => r matches Err(HistoryDataError::Invalid(m)) && m@ == "unknown history import state: "@ + state@,
        },
{
    if crate::text::str_eq(state, "unavailable") {
        Ok(HistoryImportState::Unavailable)
    } else if crate::text::str_eq(state, "building") {
        Ok(HistoryImportState::Building)
    } else if crate::text::str_eq(state, "complete") {
        Ok(HistoryImportState::Complete)
    } else if crate::text::str_eq(state, "delayed") {
        Ok(HistoryImportState::Delayed)
    } else if crate::text::str_eq(state, "rate_limited") {
        Ok(HistoryImportState::RateLimited)
    } else if crate::text::str_eq(state, "failed") {
        Ok(HistoryImportState::Failed)
    } else {
        Err(HistoryDataError::Invalid(concat("unknown history import state: ", state)))
    }
}

/// A stored state reads back as the state that was stored.
pub proof fn stored_states_read_back(state: HistoryImportState)
    ensures
        state_named(state_name(state)) == Some(state),
{
    reveal_strlit("unavailable");
    reveal_strlit("building");
    reveal_strlit("complete");
    reveal_strlit("delayed");
    reveal_strlit("rate_limited");
    reveal_strlit("failed");
    assert("unavailable"@[0] != "building"@[0]);
    assert("unavailable"@[0] != "complete"@[0]);
    assert("unavailable"@[0] != "delayed"@[0]);
    assert("unavailable"@[0] != "rate_limited"@[0]);
    assert("unavailable"@[0] != "failed"@[0]);
    assert("building"@[0] != "complete"@[0]);
    assert("building"@[0] != "delayed"@[0]);
    assert("building"@[0] != "rate_limited"@[0]);
    assert("building"@[0] != "failed"@[0]);
    assert("complete"@[0] != "delayed"@[0]);
    assert("complete"@[0] != "rate_limited"@[0]);
    assert("complete"@[0] != "failed"@[0]);
    assert("delayed"@[0] != "rate_limited"@[0]);
    assert("delayed"@[0] != "failed"@[0]);
    assert("rate_limited"@[0] != "failed"@[0]);
}

/// A stored count as an unsigned count; a negative count is out of range.
pub fn stored_count(n: i64) -> (r: Result<u64, HistoryDataError>)
    ensures
        n >= 0 ==> r == Ok::<u64, HistoryDataError>(n as u64),
        n < 0 ==> r == Err::<u64, HistoryDataError>(HistoryDataError::Integer),
{
    if n < 0 {
        Err(HistoryDataError::Integer)
    } else {
        Ok(n as u64)
    }
}

/// The summary a stored row reads back as: its state, its counts (which
/// must not be negative), its bounds, its latest event sequence as the
/// revision (0 when it has no events), its diagnostic and resume time.
pub fn summary_from_row(
    state: &str,
    completed_issues: i64,
    total_issues: i64,
    earliest_event_at: Option<i64>,
    verified_through: Option<i64>,
    revision: Option<i64>,
    diagnostic: Option<String>,
    resume_at: Option<i64>,
) -> (r: Result<HistorySummary, HistoryDataError>)
    ensures
        state_named(state@) is None ==> (r matches Err(HistoryDataError::Invalid(m))
            && m@ == "unknown history import state: "@ + state@),
        state_named(state@) is Some && (completed_issues < 0 || total_issues < 0
            || (revision matches Some(v) && v < 0)) ==> r == Err::<HistorySummary, HistoryDataError>(HistoryDataError::Integer),
        state_named(state@) is Some && completed_issues >= 0 && total_issues >= 0
            && !(revision matches Some(v) && v < 0) ==> r == Ok::<HistorySummary, HistoryDataError>(HistorySummary {
                state: state_named(state@)->0,
                completed_issues: completed_issues as u64,
                total_issues: total_issues as u64,
                earliest_event_at,
                verified_through,
                revision: match revision { Some(v) => v as u64, None => 0 },
                diagnostic,
                resume_at,
            }),
{
    let state = match parse_state(state) {
        Ok(s) => s,
        Err(e) => {
            return Err(e);
        },
    };
    let completed_issues = match stored_count(completed_issues) {
        Ok(n) => n,
        Err(e) => {
            return Err(e);
        },
    };
    let total_issues = match stored_count(total_issues) {
        Ok(n) => n,
        Err(e) => {
            return Err(e);
        },
    };
    let revision = match stored_count(match revision { Some(v) => v, None => 0 }) {
        Ok(n) => n,
        Err(e) => {
            return Err(e);
        },
    };
    Ok(HistorySummary {
        state,
        completed_issues,
        total_issues,
        earliest_event_at,
        verified_through,
        revision,
        diagnostic,
        resume_at,
    })
}

/// Seeded issues are recorded by creation time, then by the identity of
/// their creation event.
pub open spec fn seed_key(issue: IssueSyncMetadata) -> SortKey {
    (issue.created_at as int, HistoryEvent::creation_id_view(issue.issue_id@))
}

pub open spec fn seed_keys(issues: Seq<IssueSyncMetadata>) -> Seq<(SortKey, IssueSyncMetadata)> {
    issues.map_values(|i: IssueSyncMetadata| (seed_key(i), i))
}

/// `issues` in the order the ledger records their creation events.
pub fn ordered_seed_issues(issues: Vec<IssueSyncMetadata>) -> (r: Vec<IssueSyncMetadata>)
    ensures
        r@ == items_of(stable_sorted(seed_keys(issues@))),
{
    let mut keys: Vec<(i128, String)> = Vec::new();
    let mut i: usize = 0;
    while i < issues.len()
        invariant
            i <= issues@.len(),
            keys@.len() == i,
            forall|k: int| 0 <= k < i ==> (#[trigger] keys@[k]).0 == issues@[k].created_at
                && keys@[k].1@ == HistoryEvent::creation_id_view(issues@[k].issue_id@),
        decreases issues@.len() - i,
    {
        keys.push((issues[i].created_at as i128, HistoryEvent::creation_id(issues[i].issue_id.as_str())));
        i = i + 1;
    }
    assert(keyed(keys@, issues@) =~= seed_keys(issues@));
    sort_by_keys(issues, keys)
}

} // verus!
