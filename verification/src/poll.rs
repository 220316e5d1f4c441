//! The decisions of the poller: which generations a publication carries,
//! what a space shows after a fetch or a failure, how history is advanced,
//! and how published spaces are replaced.

use vstd::prelude::*;

use crate::cache::Snapshot;
use crate::derive::derived_stars;
use crate::history::{HistoryEvent, HistoryImportState, HistoryPage, HistoryPageRequest, HistorySummary};
use crate::ledger::RepositorySeed;
use crate::model::{Model, RawIssue, SpaceModel};
use crate::provider::{ProviderError, ProviderSnapshot};
use crate::spaces::SpaceEntry;
use crate::text::{decimal, push_decimal, push_str, str_eq};

verus! {

/// The generations that fetched the successful results, in order.
pub open spec fn generations_of(results: Seq<Result<ProviderSnapshot, ProviderError>>) -> Seq<u64>
    decreases results.len(),
{
    if results.len() == 0 {
        Seq::empty()
    } else {
        let rest = generations_of(results.drop_last());
        match results.last() {
            Ok(s) => match s.publication_generation {
                Some(g) => rest.push(g),
                None => rest,
            },
            Err(_) => rest,
        }
    }
}

/// The generations a publication of `results` carries: those of the
/// successful snapshots that were marked by a generation.
pub fn publication_generations(results: &[Result<ProviderSnapshot, ProviderError>]) -> (r: Vec<u64>)
    ensures
        r@ == generations_of(results@),
{
    let mut r: Vec<u64> = Vec::new();
    let mut i: usize = 0;
    while i < results.len()
        invariant
            i <= results@.len(),
            r@ == generations_of(results@.take(i as int)),
        decreases results@.len() - i,
    {
        assert(results@.take(i + 1).drop_last() =~= results@.take(i as int));
        match &results[i] {
            Ok(s) => match s.publication_generation() {
                Some(g) => r.push(g),
                None => {},
            },
            Err(_) => {},
        }
        i = i + 1;
    }
    assert(results@.take(results@.len() as int) =~= results@);
    r
}

/// A space whose history import has every known issue done but is still
/// building, with no issue pending, needs a fresh snapshot to catch up.
pub fn needs_catch_up(summary: &Option<HistorySummary>, pending_issue: bool) -> (r: bool)
    ensures
        r == (summary matches Some(s) && s.state == HistoryImportState::Building && s.total_issues > 0
            && s.completed_issues == s.total_issues && !pending_issue),
{
    match summary {
        Some(s) => s.state == HistoryImportState::Building && s.total_issues > 0
            && s.completed_issues == s.total_issues && !pending_issue,
        None => false,
    }
}

/// The import waits while it is rate limited until a resume time still to
/// come (`now` is the current time in seconds).
pub fn import_waits(summary: &Option<HistorySummary>, now: i64) -> (r: bool)
    ensures
        r == (summary matches Some(s) && s.state == HistoryImportState::RateLimited
            && (s.resume_at matches Some(t) && t > now)),
{
    match summary {
        Some(s) => s.state == HistoryImportState::RateLimited && match s.resume_at {
            Some(t) => t > now,
            None => false,
        },
        None => false,
    }
}

/// How long to wait without a provider reset time, in seconds.
pub const CONSERVATIVE_RATE_LIMIT_BACKOFF: i64 = 60;

pub open spec fn resume_at(provider_reset: Option<i64>, now: i64) -> i64 {
    match provider_reset {
        Some(t) => t,
        None => if now + CONSERVATIVE_RATE_LIMIT_BACKOFF > i64::MAX {
            i64::MAX
        } else {
            (now + CONSERVATIVE_RATE_LIMIT_BACKOFF) as i64
        },
    }
}

/// When a rate-limited import resumes: at the provider's reset time, or a
/// conservative minute after `now` (saturating).
pub fn rate_limit_resume_at(provider_reset: Option<i64>, now: i64) -> (r: i64)
    ensures
        r == resume_at(provider_reset, now),
{
    match provider_reset {
        Some(t) => t,
        None => if now > i64::MAX - CONSERVATIVE_RATE_LIMIT_BACKOFF {
            i64::MAX
        } else {
            now + CONSERVATIVE_RATE_LIMIT_BACKOFF
        },
    }
}

/// The system clock against the Unix epoch, from `UNIX_EPOCH.elapsed()`
/// (`std::time::SystemTime::elapsed`): `Ok` with the whole seconds since the
/// epoch, or `Err` with the whole seconds before it when the clock is set
/// earlier. It reads the clock, so nothing is stated of the value.
#[verifier::external_body]
fn system_clock_seconds() -> Result<u64, u64> {
    match std::time::UNIX_EPOCH.elapsed() {
        Ok(elapsed) => Ok(elapsed.as_secs()),
        Err(early) => Err(early.duration().as_secs()),
    }
}

/// A clock reading as a signed Unix time in seconds: the seconds since the
/// epoch, or minus the seconds before it, saturating at the ends of `i64`.
pub open spec fn epoch_seconds(clock: Result<u64, u64>) -> i64 {
    match clock {
        Ok(s) => if s > i64::MAX { i64::MAX } else { s as i64 },
        Err(s) => if s > i64::MAX { (-i64::MAX) as i64 } else { (-(s as int)) as i64 },
    }
}

/// The signed Unix time of a clock reading.
pub fn clock_timestamp(clock: Result<u64, u64>) -> (r: i64)
    ensures
        r == epoch_seconds(clock),
{
    match clock {
        Ok(s) => if s > 9223372036854775807u64 { 9223372036854775807i64 } else { s as i64 },
        Err(s) => if s > 9223372036854775807u64 { -9223372036854775807i64 } else { 0i64 - (s as i64) },
    }
}

/// The current time in whole seconds since the Unix epoch, negative when
/// the clock is set before it. It reads the clock, so nothing is stated of
/// it.
pub(crate) fn now_timestamp() -> i64 {
    clock_timestamp(system_clock_seconds())
}

/// When a rate-limited import resumes, from the clock: the provider's reset
/// time, or a minute from now.
pub fn rate_limit_resume(provider_reset: Option<i64>) -> (r: i64)
    ensures
        provider_reset matches Some(t) ==> r == t,
        provider_reset is None ==> exists|now: i64| r == resume_at(None, now),
{
    let now = now_timestamp();
    rate_limit_resume_at(provider_reset, now)
}

pub open spec fn is_failed_history(s: HistorySummary, diagnostic: Seq<char>) -> bool {
    &&& s.state == HistoryImportState::Failed
    &&& s.diagnostic matches Some(d) && d@ == diagnostic
    &&& s.completed_issues == 0
    &&& s.total_issues == 0
    &&& s.earliest_event_at is None
    &&& s.verified_through is None
    &&& s.revision == 0
    &&& s.resume_at is None
}

/// A failed import that reports `diagnostic`.
pub fn failed_history(diagnostic: String) -> (r: HistorySummary)
    ensures
        is_failed_history(r, diagnostic@),
{
    HistorySummary {
        state: HistoryImportState::Failed,
        completed_issues: 0,
        total_issues: 0,
        earliest_event_at: None,
        verified_through: None,
        revision: 0,
        diagnostic: Some(diagnostic),
        resume_at: None,
    }
}

pub open spec fn space_of(
    r: SpaceModel,
    entry: SpaceEntry,
    issues: Seq<RawIssue>,
    viewer_login: Option<String>,
    synced_at: Option<i64>,
    stale: bool,
    error: Option<String>,
    history: HistorySummary,
) -> bool {
    &&& r.id@ == entry.id@
    &&& r.repo@ == entry.repo.slug_view()
    &&& r.name@ == entry.repo.name@
    &&& r.viewer_login == viewer_login
    &&& derived_stars(r.stars@, issues)
    &&& r.synced_at == synced_at
    &&& r.stale == stale
    &&& r.error == error
    &&& r.history == history
}

/// The published space of `entry`: its stars derived from `issues`.
pub fn model(
    entry: &SpaceEntry,
    issues: Vec<RawIssue>,
    viewer_login: Option<String>,
    synced_at: Option<i64>,
    stale: bool,
    error: Option<String>,
    history: HistorySummary,
) -> (r: SpaceModel)
    ensures
        space_of(r, *entry, issues@, viewer_login, synced_at, stale, error, history),
{
    let stars = crate::derive::derive(issues.as_slice());
    SpaceModel {
        id: entry.id.clone(),
        repo: entry.repo.slug(),
        name: entry.repo.name.clone(),
        viewer_login,
        stars,
        synced_at,
        stale,
        error,
        history,
    }
}

/// The space shown after a fetch of `entry` failed with `error`: the cached
/// issues (none without a cache) marked stale with the error's message, the
/// cached viewer only when the provider allows it, and `history`.
pub fn cached_model(
    entry: &SpaceEntry,
    cached: Option<Snapshot>,
    allows_cached_viewer_identity: bool,
    history: HistorySummary,
    error: &ProviderError,
) -> (r: SpaceModel)
    ensures
        match cached {
            Some(c) => space_of(
                r, *entry, c.issues@,
                if allows_cached_viewer_identity { c.viewer_login } else { None },
                Some(c.synced_at), true, r.error, history,
            ),
            None => space_of(r, *entry, Seq::empty(), None, None, true, r.error, history),
        },
        r.error matches Some(m) && m@ == error.message_view(),
{
    let (issues, viewer_login, synced_at) = match cached {
        Some(c) => (c.issues, c.viewer_login, Some(c.synced_at)),
        None => (Vec::new(), None, None),
    };
    let viewer_login = if allows_cached_viewer_identity { viewer_login } else { None };
    model(entry, issues, viewer_login, synced_at, true, Some(error.message()), history)
}

/// Whether a failure marks the stored history as rate limited: only a
/// rate-limit failure, and only for history that exists.
pub fn marks_rate_limited(error: &ProviderError, stored: &HistorySummary) -> (r: Option<Option<i64>>)
    ensures
        match error {
            ProviderError::RateLimited { reset_epoch } => if stored.state != HistoryImportState::Unavailable {
                r == Some(*reset_epoch)
            } else {
                r is None
            },
            _ => r is None,
        },
{
    match error {
        ProviderError::RateLimited { reset_epoch } => {
            if stored.state != HistoryImportState::Unavailable {
                Some(*reset_epoch)
            } else {
                None
            }
        },
        _ => None,
    }
}

/// What to do with a space's history after a successful snapshot.
#[derive(Debug, Clone, PartialEq)]
pub enum HistoryPlan {
    /// Keep the stored summary; the provider supplies no history.
    Stored,
    /// Mark the stored history failed with this diagnostic.
    MarkFailed(String),
    /// Publish this failed summary without touching the store.
    Failed(HistorySummary),
    /// Initialize the ledger with this seed.
    Initialize(RepositorySeed),
}

pub open spec fn count_mismatch(history: nat, issues: nat) -> Seq<char> {
    "provider returned history metadata for "@ + decimal(history) + "/"@ + decimal(issues) + " issues"@
}

/// The plan for a snapshot of `entry`: without a repository identity the
/// stored summary stands; without a verification boundary the history
/// fails; metadata for a different number of issues than were fetched
/// fails; otherwise the ledger is seeded with the snapshot's metadata.
pub fn history_plan(entry: &SpaceEntry, snapshot: &ProviderSnapshot) -> (r: HistoryPlan)
    ensures
        snapshot.repository_id is None ==> r == HistoryPlan::Stored,
        snapshot.repository_id is Some && snapshot.history_cutoff is None ==> (r matches HistoryPlan::MarkFailed(d)
            && d@ == "provider snapshot omitted a history verification boundary"@),
        snapshot.repository_id is Some && snapshot.history_cutoff is Some
            && snapshot.history@.len() != snapshot.issues@.len() ==> (r matches HistoryPlan::Failed(s)
            && is_failed_history(s, count_mismatch(snapshot.history@.len(), snapshot.issues@.len()))),
        snapshot.repository_id is Some && snapshot.history_cutoff is Some
            && snapshot.history@.len() == snapshot.issues@.len() ==> (r matches HistoryPlan::Initialize(seed)
            && seed.space_id@ == entry.id@
            && seed.provider_repository_id@ == snapshot.repository_id->0@
            && seed.verified_through == snapshot.history_cutoff->0
            && seed.issues@ == snapshot.history@),
{
    let repository_id = match &snapshot.repository_id {
        Some(id) => id,
        None => {
            return HistoryPlan::Stored;
        },
    };
    let verified_through = match snapshot.history_cutoff {
        Some(t) => t,
        None => {
            return HistoryPlan::MarkFailed("provider snapshot omitted a history verification boundary".to_owned());
        },
    };
    if snapshot.history.len() != snapshot.issues.len() {
        let mut d = "provider returned history metadata for ".to_owned();
        push_decimal(&mut d, snapshot.history.len() as u64);
        push_str(&mut d, "/");
        push_decimal(&mut d, snapshot.issues.len() as u64);
        push_str(&mut d, " issues");
        return HistoryPlan::Failed(failed_history(d));
    }
    let mut issues = Vec::new();
    let mut i: usize = 0;
    while i < snapshot.history.len()
        invariant
            i <= snapshot.history@.len(),
            issues@ == snapshot.history@.take(i as int),
        decreases snapshot.history@.len() - i,
    {
        issues.push(snapshot.history[i].duplicate());
        i = i + 1;
        assert(issues@ =~= snapshot.history@.take(i as int));
    }
    assert(snapshot.history@.take(snapshot.history@.len() as int) =~= snapshot.history@);
    HistoryPlan::Initialize(RepositorySeed {
        space_id: entry.id.clone(),
        provider_repository_id: repository_id.clone(),
        verified_through,
        issues,
    })
}

/// The spaces after publishing `space`: it replaces the space with its id,
/// or, when there is none, is appended.
pub open spec fn published(spaces: Seq<SpaceModel>, space: SpaceModel) -> Seq<SpaceModel> {
    match space_position(spaces, space.id@) {
        Some(k) => spaces.update(k, space),
        None => spaces.push(space),
    }
}

/// The first position of a space with id `id`.
pub open spec fn space_position(spaces: Seq<SpaceModel>, id: Seq<char>) -> Option<int>
    decreases spaces.len(),
{
    if spaces.len() == 0 {
        None
    } else {
        match space_position(spaces.drop_last(), id) {
            Some(k) => Some(k),
            None => if spaces.last().id@ == id { Some(spaces.len() - 1) } else { None },
        }
    }
}

proof fn lemma_space_position(spaces: Seq<SpaceModel>, id: Seq<char>)
    ensures
        space_position(spaces, id) matches Some(k) ==> 0 <= k < spaces.len() && spaces[k].id@ == id
            && forall|j: int| 0 <= j < k ==> (#[trigger] spaces[j]).id@ != id,
        space_position(spaces, id) is None ==> forall|j: int| 0 <= j < spaces.len() ==> (#[trigger] spaces[j]).id@ != id,
    decreases spaces.len(),
{
    if spaces.len() > 0 {
        lemma_space_position(spaces.drop_last(), id);
        assert forall|j: int| 0 <= j < spaces.len() - 1 implies (#[trigger] spaces[j]) == spaces.drop_last()[j] by {}
    }
}

fn find_space(spaces: &Vec<SpaceModel>, id: &str) -> (r: Option<usize>)
    ensures
        r matches Some(i) ==> space_position(spaces@, id@) == Some(i as int),
        r is None <==> space_position(spaces@, id@) is None,
{
    proof {
        lemma_space_position(spaces@, id@);
    }
    let mut i: usize = 0;
    while i < spaces.len()
        invariant
            i <= spaces@.len(),
            forall|j: int| 0 <= j < i ==> (#[trigger] spaces@[j]).id@ != id@,
        decreases spaces@.len() - i,
    {
        if str_eq(spaces[i].id.as_str(), id) {
            proof {
                lemma_space_position(spaces@, id@);
            }
            return Some(i);
        }
        i = i + 1;
    }
    None
}

/// Publishes `space` into `model`.
pub fn publish_space(model: &mut Model, space: SpaceModel)
    ensures
        final(model).spaces@ == published(old(model).spaces@, space),
{
    proof {
        lemma_space_position(model.spaces@, space.id@);
    }
    match find_space(&model.spaces, space.id.as_str()) {
        Some(k) => {
            model.spaces.set(k, space);
        },
        None => {
            model.spaces.push(space);
        },
    }
}

/// Sets the history of the space with id `space_id`; a model without that
/// space is left as it is.
pub fn publish_history_summary(model: &mut Model, space_id: &str, summary: HistorySummary)
    ensures
        match space_position(old(model).spaces@, space_id@) {
            Some(k) => final(model).spaces@ == old(model).spaces@.update(
                k, SpaceModel { history: summary, ..old(model).spaces@[k] }),
            None => final(model).spaces@ == old(model).spaces@,
        },
{
    proof {
        lemma_space_position(model.spaces@, space_id@);
    }
    match find_space(&model.spaces, space_id) {
        Some(k) => {
            let ghost before = model.spaces@;
            assert(space_position(before, space_id@) == Some(k as int));
            let ghost updated = SpaceModel { history: summary, ..before[k as int] };
            let mut spaces: Vec<SpaceModel> = Vec::new();
            std::mem::swap(&mut spaces, &mut model.spaces);
            let mut space = spaces.remove(k);
            space.history = summary;
            assert(space == updated);
            spaces.insert(k, space);
            model.spaces = spaces;
            assert(model.spaces@ =~= before.update(k as int, updated));
        },
        None => {},
    }
}

/// Publishing a space twice is publishing it once, and a published space
/// can be found by its id.
pub proof fn publishing_is_idempotent(spaces: Seq<SpaceModel>, space: SpaceModel)
    ensures
        published(published(spaces, space), space) == published(spaces, space),
        published(spaces, space).contains(space),
{
    lemma_space_position(spaces, space.id@);
    let once = published(spaces, space);
    lemma_space_position(once, space.id@);
    match space_position(spaces, space.id@) {
        Some(k) => {
            assert(once[k] == space);
            assert(space_position(once, space.id@) == Some(k)) by {
                if space_position(once, space.id@) != Some(k) {
                    let j = space_position(once, space.id@)->0;
                    assert(j < k ==> once[j] == spaces[j]);
                }
            }
            assert(once.update(k, space) =~= once);
        },
        None => {
            assert(once[spaces.len() as int] == space);
            assert forall|j: int| 0 <= j < spaces.len() implies (#[trigger] once[j]).id@ != space.id@ by {
                assert(once[j] == spaces[j]);
            }
            assert(space_position(once, space.id@) == Some(spaces.len() as int)) by {
                if space_position(once, space.id@) != Some(spaces.len() as int) {
                    let j = space_position(once, space.id@)->0;
                    assert(once[j] == spaces[j]);
                }
            }
            assert(once.update(spaces.len() as int, space) =~= once);
        },
    }
}

/// What a failed history page fetch does to the import.
#[derive(Debug, Clone, PartialEq, Eq)]
pub enum ImportFailure {
    /// Wait for the rate limit; resume at the provider's reset time, when
    /// it gave one.
    RateLimited { reset_epoch: Option<i64> },
    /// Stop with this diagnostic.
    Failed(String),
}

/// A rate-limited fetch pauses the import; any other failure fails it with
/// the error's message.
pub fn import_failure(error: &ProviderError) -> (r: ImportFailure)
    ensures
        match error {
            ProviderError::RateLimited { reset_epoch } => r == ImportFailure::RateLimited { reset_epoch: *reset_epoch },
            _ => r matches ImportFailure::Failed(d) && d@ == error.message_view(),
        },
{
    match error {
        ProviderError::RateLimited { reset_epoch } => ImportFailure::RateLimited { reset_epoch: *reset_epoch },
        _ => ImportFailure::Failed(error.message()),
    }
}

/// The polling period while the window is focused or in the background.
pub fn polling_interval(focused: bool, focused_secs: u64, background_secs: u64) -> (r: u64)
    ensures
        r == if focused { focused_secs } else { background_secs },
{
    if focused { focused_secs } else { background_secs }
}

/// The next issue whose timeline the ledger still has to import, and where
/// its import stands.
#[derive(Debug, Clone, PartialEq, Eq)]
pub struct PendingIssue {
    pub issue_id: String,
    pub issue_number: u64,
    pub cursor: Option<String>,
    pub cutoff: i64,
}

/// One imported timeline page, as the ledger records it.
#[derive(Debug, Clone, PartialEq, Eq)]
pub struct PageCheckpoint {
    pub space_id: String,
    pub issue_id: String,
    pub events: Vec<HistoryEvent>,
    pub next_cursor: Option<String>,
    pub resume_cursor: Option<String>,
    pub complete: bool,
}

/// What the history import of a space has just learned.
pub enum ImportEvent {
    /// The import is asked to run, with the space's stored summary and the
    /// current time in seconds.
    Begin { summary: Option<HistorySummary>, now: i64 },
    /// The ledger answered which issue is pending (or failed with a
    /// message).
    PendingRead(Result<Option<PendingIssue>, String>),
    /// GitHub answered for a page of the pending issue `issue_id`, at time
    /// `now`.
    PageFetched { issue_id: String, page: Result<HistoryPage, ProviderError>, now: i64 },
    /// The ledger recorded a page and answered the new summary (or failed).
    Checkpointed(Result<HistorySummary, String>),
    /// The ledger marked the import failed or rate limited and answered the
    /// new summary (or failed).
    Marked(Result<HistorySummary, String>),
}

/// What the import does next.
#[derive(Debug, Clone, PartialEq, Eq)]
pub enum ImportAction {
    /// The import is over for now.
    Stop,
    /// Ask the ledger for the pending issue.
    ReadPending,
    /// Fetch this timeline page from GitHub.
    Fetch(HistoryPageRequest),
    /// Record this page in the ledger.
    Checkpoint(PageCheckpoint),
    /// Mark the import rate limited until `resume_at`.
    MarkRateLimited { resume_at: i64 },
    /// Mark the import failed with this diagnostic.
    MarkFailed(String),
    /// Publish this summary of the space's history; go on with the next
    /// page when `more` is set, else stop.
    Publish { summary: HistorySummary, more: bool },
}

/// The summary a ledger answer gives: the summary, or a failed history that
/// reports the ledger's error.
pub open spec fn answered_summary(answer: Result<HistorySummary, String>, s: HistorySummary) -> bool {
    match answer {
        Ok(summary) => s == summary,
        Err(m) => is_failed_history(s, m@),
    }
}

/// `a` is the next step of the history import of space `space_id` after
/// `event`.
pub open spec fn import_next(space_id: Seq<char>, event: ImportEvent, a: ImportAction) -> bool {
    match event {
        ImportEvent::Begin { summary, now } => if summary matches Some(s)
            && s.state == HistoryImportState::RateLimited && (s.resume_at matches Some(t) && t > now) {
            a == ImportAction::Stop
        } else {
            a == ImportAction::ReadPending
        },
        ImportEvent::PendingRead(read) => match read {
            Err(m) => a matches ImportAction::Publish { summary, more } && !more && is_failed_history(summary, m@),
            Ok(None) => a == ImportAction::Stop,
            Ok(Some(p)) => a == ImportAction::Fetch(HistoryPageRequest {
                issue_id: p.issue_id,
                issue_number: p.issue_number,
                cursor: p.cursor,
                cutoff: p.cutoff,
            }),
        },
        ImportEvent::PageFetched { issue_id, page, now } => match page {
            Ok(pg) => a matches ImportAction::Checkpoint(c) && c.space_id@ == space_id && c.issue_id == issue_id
                && c.events == pg.events && c.next_cursor == pg.next_cursor
                && c.resume_cursor == pg.resume_cursor && c.complete == pg.complete,
            Err(e) => match e {
                ProviderError::RateLimited { reset_epoch } => a == ImportAction::MarkRateLimited {
                    resume_at: resume_at(reset_epoch, now),
                },
                _ => a matches ImportAction::MarkFailed(d) && d@ == e.message_view(),
            },
        },
        ImportEvent::Checkpointed(answer) => match answer {
            Ok(summary) => a == ImportAction::Publish { summary, more: true },
            Err(m) => a matches ImportAction::MarkFailed(d) && d@ == m@,
        },
        ImportEvent::Marked(answer) => a matches ImportAction::Publish { summary, more }
            && !more && answered_summary(answer, summary),
    }
}

/// The history import of the space `space_id`, one step at a time: it
/// waits out a rate limit whose resume time is still to come, then, page by
/// page, fetches the pending issue's timeline, records each page and
/// publishes the new summary, until no issue is pending. A rate-limited
/// fetch marks the import rate limited until the provider's reset time (or
/// a minute from now); any other failure, of GitHub or of the ledger, marks
/// it failed; and a failing ledger answer is published as a failed history.
pub fn import_step(space_id: &str, event: ImportEvent) -> (a: ImportAction)
    ensures
        import_next(space_id@, event, a),
{
    match event {
        ImportEvent::Begin { summary, now } => if import_waits(&summary, now) {
            ImportAction::Stop
        } else {
            ImportAction::ReadPending
        },
        ImportEvent::PendingRead(read) => match read {
            Err(m) => ImportAction::Publish { summary: failed_history(m), more: false },
            Ok(None) => ImportAction::Stop,
            Ok(Some(p)) => ImportAction::Fetch(HistoryPageRequest {
                issue_id: p.issue_id,
                issue_number: p.issue_number,
                cursor: p.cursor,
                cutoff: p.cutoff,
            }),
        },
        ImportEvent::PageFetched { issue_id, page, now } => match page {
            Ok(pg) => ImportAction::Checkpoint(PageCheckpoint {
                space_id: space_id.to_owned(),
                issue_id,
                events: pg.events,
                next_cursor: pg.next_cursor,
                resume_cursor: pg.resume_cursor,
                complete: pg.complete,
            }),
            Err(e) => match import_failure(&e) {
                ImportFailure::RateLimited { reset_epoch } => ImportAction::MarkRateLimited {
                    resume_at: rate_limit_resume_at(reset_epoch, now),
                },
                ImportFailure::Failed(d) => ImportAction::MarkFailed(d),
            },
        },
        ImportEvent::Checkpointed(answer) => match answer {
            Ok(summary) => ImportAction::Publish { summary, more: true },
            Err(m) => ImportAction::MarkFailed(m),
        },
        ImportEvent::Marked(answer) => match answer {
            Ok(summary) => ImportAction::Publish { summary, more: false },
            Err(m) => ImportAction::Publish { summary: failed_history(m), more: false },
        },
    }
}

/// Every generation in `gens` is `current`.
pub open spec fn all_current(gens: Seq<u64>, current: u64) -> bool {
    forall|i: int| 0 <= i < gens.len() ==> #[trigger] gens[i] == current
}

proof fn lemma_generations_of_one(x: Result<ProviderSnapshot, ProviderError>, current: u64)
    ensures
        all_current(generations_of(seq![x]), current) <==> match x {
            Ok(s) => match s.publication_generation {
                Some(g) => g == current,
                None => true,
            },
            Err(_) => true,
        },
        generations_of(seq![x]) == match x {
            Ok(s) => match s.publication_generation {
                Some(g) => seq![g],
                None => Seq::<u64>::empty(),
            },
            Err(_) => Seq::<u64>::empty(),
        },
{
    let one = seq![x];
    assert(one.drop_last() =~= Seq::<Result<ProviderSnapshot, ProviderError>>::empty());
    assert(one.last() == x);
    assert(generations_of(one.drop_last()) == Seq::<u64>::empty());
    match x {
        Ok(s) => match s.publication_generation {
            Some(g) => {
                assert(Seq::<u64>::empty().push(g) =~= seq![g]);
                assert(seq![g][0] == g);
            },
            None => {},
        },
        Err(_) => {},
    }
}

/// Where a synchronization of the configured spaces stands.
pub enum SyncState {
    /// The snapshots of the spaces are being fetched, in order; `results`
    /// holds those fetched so far.
    Fetching { results: Vec<Result<ProviderSnapshot, ProviderError>> },
    /// A publication is under way; then space `index` imports its history
    /// (`again` after its catch-up was published).
    Publishing { index: usize, again: bool },
    /// Space `index` is importing its history.
    Importing { index: usize, again: bool },
    /// Space `index` is being fetched again to catch up.
    CatchingUp { index: usize },
    /// Nothing more to do until the next synchronization.
    Finished,
}

/// What the synchronization has just learned.
pub enum SyncEvent {
    /// A synchronization starts.
    Begin,
    /// The snapshot of the next space was fetched (or failed).
    Fetched(Result<ProviderSnapshot, ProviderError>),
    /// The publication asked for was made.
    Published,
    /// The history import of the current space ran; whether its history
    /// now needs a catch-up snapshot.
    Imported { needs_catch_up: bool },
    /// The catch-up snapshot of the current space was fetched (or failed).
    CaughtUp(Result<ProviderSnapshot, ProviderError>),
}

/// What the synchronization does next.
pub enum SyncAction {
    /// Fetch the snapshot of space `index`.
    Fetch(usize),
    /// Publish every space from these results, in order.
    PublishBatch(Vec<Result<ProviderSnapshot, ProviderError>>),
    /// Publish every space from its cache, as superseded.
    PublishFallback,
    /// Import the history of space `index`.
    Import(usize),
    /// Fetch the snapshot of space `index` again, to catch up.
    FetchCatchUp(usize),
    /// Publish space `index` from this result.
    PublishSpace { index: usize, result: Result<ProviderSnapshot, ProviderError> },
    /// Wait for the next synchronization.
    Idle,
}

/// The step after space `index` is done: import the next space's history,
/// or finish.
pub open spec fn after_space(index: int, spaces: usize, r: (SyncState, SyncAction)) -> bool {
    if index + 1 < spaces {
        (r.0 matches SyncState::Importing { index: i, again } && i == index + 1 && !again)
            && (r.1 matches SyncAction::Import(j) && j == index + 1)
    } else {
        r.0 matches SyncState::Finished && r.1 matches SyncAction::Idle
    }
}

/// The step once `results` hold what was fetched so far: fetch the next
/// space, publish the whole batch when every generation it carries is
/// still `current`, or else publish the cached spaces instead.
pub open spec fn after_fetch(results: Seq<Result<ProviderSnapshot, ProviderError>>, spaces: usize, current: u64, r: (SyncState, SyncAction)) -> bool {
    if results.len() < spaces {
        (r.0 matches SyncState::Fetching { results: rs } && rs@ == results)
            && (r.1 matches SyncAction::Fetch(i) && i == results.len())
    } else if all_current(generations_of(results), current) {
        (r.0 matches SyncState::Publishing { index, again } && index == 0 && !again)
            && (r.1 matches SyncAction::PublishBatch(rs) && rs@ == results)
    } else {
        r.0 matches SyncState::Finished && r.1 matches SyncAction::PublishFallback
    }
}

fn finish_space(index: usize, spaces: usize) -> (r: (SyncState, SyncAction))
    requires
        index < spaces,
    ensures
        after_space(index as int, spaces, r),
{
    if index + 1 < spaces {
        (SyncState::Importing { index: index + 1, again: false }, SyncAction::Import(index + 1))
    } else {
        (SyncState::Finished, SyncAction::Idle)
    }
}

fn decide_fetch(results: Vec<Result<ProviderSnapshot, ProviderError>>, spaces: usize, current: u64) -> (r: (SyncState, SyncAction))
    ensures
        after_fetch(results@, spaces, current, r),
{
    if results.len() < spaces {
        let next = results.len();
        return (SyncState::Fetching { results }, SyncAction::Fetch(next));
    }
    let generations = publication_generations(results.as_slice());
    let mut i: usize = 0;
    while i < generations.len()
        invariant
            i <= generations@.len(),
            results@.len() >= spaces,
            generations@ == generations_of(results@),
            forall|k: int| 0 <= k < i ==> #[trigger] generations@[k] == current,
        decreases generations@.len() - i,
    {
        if generations[i] != current {
            assert(generations_of(results@)[i as int] != current);
            return (SyncState::Finished, SyncAction::PublishFallback);
        }
        i = i + 1;
    }
    (SyncState::Publishing { index: 0, again: false }, SyncAction::PublishBatch(results))
}

/// One step of the synchronization of `spaces` spaces under the provider
/// generation `current` (read, with the publication that the action asks
/// for, while no provider can be installed). The snapshots are fetched
/// space by space; the batch is published only when every generation it
/// carries is still current, and otherwise every space is published from
/// its cache as superseded, so a superseded batch is never published. After
/// the batch, each space imports its history; a space whose history needs
/// a catch-up is fetched again, published when that snapshot is still
/// current (a failure carries no generation and is published from the
/// cache), and imports again.
pub fn sync_step(state: SyncState, event: SyncEvent, spaces: usize, current: u64) -> (r: (SyncState, SyncAction))
    ensures
        r.1 matches SyncAction::PublishBatch(rs) ==> all_current(generations_of(rs@), current),
        r.1 matches SyncAction::PublishSpace { result, .. } ==> all_current(generations_of(seq![result]), current),
        match (state, event) {
            (SyncState::Fetching { results }, SyncEvent::Begin) => after_fetch(results@, spaces, current, r),
            (SyncState::Fetching { results }, SyncEvent::Fetched(x)) => if results@.len() < spaces {
                after_fetch(results@.push(x), spaces, current, r)
            } else {
                r.0 matches SyncState::Finished && r.1 matches SyncAction::Idle
            },
            (SyncState::Publishing { index, again }, SyncEvent::Published) => if index < spaces {
                (r.0 matches SyncState::Importing { index: i, again: a } && i == index && a == again)
                    && (r.1 matches SyncAction::Import(j) && j == index)
            } else {
                r.0 matches SyncState::Finished && r.1 matches SyncAction::Idle
            },
            (SyncState::Importing { index, again }, SyncEvent::Imported { needs_catch_up }) => if index >= spaces {
                r.0 matches SyncState::Finished && r.1 matches SyncAction::Idle
            } else if needs_catch_up && !again {
                (r.0 matches SyncState::CatchingUp { index: i } && i == index)
                    && (r.1 matches SyncAction::FetchCatchUp(j) && j == index)
            } else {
                after_space(index as int, spaces, r)
            },
            (SyncState::CatchingUp { index }, SyncEvent::CaughtUp(x)) => if index >= spaces {
                r.0 matches SyncState::Finished && r.1 matches SyncAction::Idle
            } else if all_current(generations_of(seq![x]), current) {
                (r.0 matches SyncState::Publishing { index: i, again } && i == index && again)
                    && (r.1 matches SyncAction::PublishSpace { index: j, result } && j == index && result == x)
            } else {
                after_space(index as int, spaces, r)
            },
            _ => r.0 matches SyncState::Finished && r.1 matches SyncAction::Idle,
        },
{
    match (state, event) {
        (SyncState::Fetching { results }, SyncEvent::Begin) => decide_fetch(results, spaces, current),
        (SyncState::Fetching { results }, SyncEvent::Fetched(x)) => {
            if results.len() < spaces {
                let mut results = results;
                results.push(x);
                decide_fetch(results, spaces, current)
            } else {
                (SyncState::Finished, SyncAction::Idle)
            }
        },
        (SyncState::Publishing { index, again }, SyncEvent::Published) => {
            if index < spaces {
                (SyncState::Importing { index, again }, SyncAction::Import(index))
            } else {
                (SyncState::Finished, SyncAction::Idle)
            }
        },
        (SyncState::Importing { index, again }, SyncEvent::Imported { needs_catch_up }) => {
            if index >= spaces {
                (SyncState::Finished, SyncAction::Idle)
            } else if needs_catch_up && !again {
                (SyncState::CatchingUp { index }, SyncAction::FetchCatchUp(index))
            } else {
                finish_space(index, spaces)
            }
        },
        (SyncState::CatchingUp { index }, SyncEvent::CaughtUp(x)) => {
            if index >= spaces {
                return (SyncState::Finished, SyncAction::Idle);
            }
            let current_result = match &x {
                Ok(s) => match s.publication_generation() {
                    Some(g) => g == current,
                    None => true,
                },
                Err(_) => true,
            };
            proof {
                lemma_generations_of_one(x, current);
            }
            if current_result {
                (SyncState::Publishing { index, again: true }, SyncAction::PublishSpace { index, result: x })
            } else {
                finish_space(index, spaces)
            }
        },
        _ => (SyncState::Finished, SyncAction::Idle),
    }
}

} // verus!
