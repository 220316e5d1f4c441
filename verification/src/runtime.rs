//! The decisions of the application runtime: how browser sessions are
//! authenticated, the session token, the cockpit URL and the generations of
//! the swappable provider.

use vstd::prelude::*;

use crate::provider::{ProviderError, ProviderSnapshot};
use crate::text::{concat, decimal, push_decimal, push_str};

verus! {

/// How the cockpit's protected routes are guarded: by a token generated for
/// the run, by no token at all, or by a token given in advance.
#[derive(Debug, Clone, PartialEq, Eq)]
pub enum SessionAuth {
    Required,
    Disabled,
    Fixed(String),
}

/// What the runtime is started with. `issue`, when given, is positive;
/// `poll_interval_secs` is the polling period in seconds.
#[derive(Debug, Clone, PartialEq, Eq)]
pub struct RuntimeOptions {
    pub address: String,
    pub session_auth: SessionAuth,
    pub issue: Option<u64>,
    pub spaces_file: String,
    pub cache_root: String,
    pub poll_interval_secs: u64,
}

#[verifier::external_type_specification]
#[verifier::external_body]
pub struct ExRandomError(getrandom::Error);

/// Fills `n` bytes from the operating system's random source with
/// `getrandom::fill`. On success the vector has `n` bytes; which bytes is
/// left open.
#[verifier::external_body]
fn random_bytes(n: usize) -> (r: Result<Vec<u8>, getrandom::Error>)
    ensures
        r matches Ok(v) ==> v@.len() == n,
{
    let mut bytes = vec![0u8; n];
    match getrandom::fill(&mut bytes) {
        Ok(()) => Ok(bytes),
        Err(error) => Err(error),
    }
}

/// The text that `getrandom::Error` displays. It names the operating
/// system's error code, so nothing is stated of it.
#[verifier::external_body]
fn random_error_text(error: &getrandom::Error) -> String {
    format!("{error}")
}

/// The lowercase hexadecimal digit of `d`.
pub open spec fn hex_char(d: nat) -> char {
    if d < 10 {
        (48 + d) as char
    } else {
        (87 + d) as char
    }
}

pub open spec fn is_lower_hex(c: char) -> bool {
    ('0' <= c && c <= '9') || ('a' <= c && c <= 'f')
}

/// Each byte of `bytes` as two lowercase hexadecimal digits, high digit
/// first.
pub open spec fn hex_of(bytes: Seq<u8>) -> Seq<char> {
    Seq::new(
        (2 * bytes.len()) as nat,
        |i: int| hex_char(if i % 2 == 0 { (bytes[i / 2] / 16) as nat } else { (bytes[i / 2] % 16) as nat }),
    )
}

fn hex_digit(d: u8) -> (c: char)
    requires
        d < 16,
    ensures
        c == hex_char(d as nat),
{
    if d < 10 {
        (48 + d) as char
    } else {
        (87 + d) as char
    }
}

/// `bytes` written as lowercase hexadecimal.
pub fn hex_string(bytes: &[u8]) -> (r: String)
    ensures
        r@ == hex_of(bytes@),
{
    let mut r = String::new();
    let mut i: usize = 0;
    while i < bytes.len()
        invariant
            i <= bytes@.len(),
            r@.len() == 2 * i,
            forall|k: int| 0 <= k < 2 * i ==> r@[k] == #[trigger] hex_of(bytes@)[k],
        decreases bytes@.len() - i,
    {
        let b = bytes[i];
        let ghost before = r@;
        r.push(hex_digit(b / 16));
        r.push(hex_digit(b % 16));
        assert forall|k: int| 0 <= k < 2 * (i + 1) implies r@[k] == #[trigger] hex_of(bytes@)[k] by {
            if k < 2 * i {
                assert(r@[k] == before[k]);
            } else if k == 2 * i {
                assert(k / 2 == i && k % 2 == 0);
            } else {
                assert(k / 2 == i && k % 2 == 1);
            }
        }
        i = i + 1;
    }
    assert(r@ =~= hex_of(bytes@));
    r
}

/// Every character of a hex string is a lowercase hexadecimal digit.
pub proof fn hex_is_lowercase_hex(bytes: Seq<u8>)
    ensures
        hex_of(bytes).len() == 2 * bytes.len(),
        forall|k: int| 0 <= k < hex_of(bytes).len() ==> is_lower_hex(#[trigger] hex_of(bytes)[k]),
{
    assert forall|k: int| 0 <= k < hex_of(bytes).len() implies is_lower_hex(#[trigger] hex_of(bytes)[k]) by {
        let d: nat = if k % 2 == 0 { (bytes[k / 2] / 16) as nat } else { (bytes[k / 2] % 16) as nat };
        assert(d < 16);
        assert(hex_of(bytes)[k] == hex_char(d));
    }
}

pub open spec fn session_token_error(text: Seq<char>) -> Seq<char> {
    "could not generate session token: "@ + text
}

/// A fresh session token: 16 random bytes as 32 lowercase hexadecimal
/// characters. When the random source fails, the error reads
/// "could not generate session token: " and the source's message.
pub fn session_token() -> (r: Result<String, String>)
    ensures
        r matches Ok(t) ==> exists|bytes: Seq<u8>| bytes.len() == 16 && t@ == hex_of(bytes),
        r matches Ok(t) ==> t@.len() == 32 && forall|k: int| 0 <= k < 32 ==> is_lower_hex(#[trigger] t@[k]),
        r matches Err(m) ==> exists|text: Seq<char>| m@ == session_token_error(text),
{
    match random_bytes(16) {
        Ok(bytes) => {
            let token = hex_string(bytes.as_slice());
            proof {
                hex_is_lowercase_hex(bytes@);
                assert(bytes@.len() == 16 && token@ == hex_of(bytes@));
            }
            Ok(token)
        },
        Err(error) => {
            let text = random_error_text(&error);
            let message = concat("could not generate session token: ", text.as_str());
            assert(message@ == session_token_error(text@));
            Err(message)
        },
    }
}

/// The token that guards a run: generated for `Required`, none for
/// `Disabled`, the given one for `Fixed`.
pub fn session_token_for(auth: &SessionAuth) -> (r: Result<Option<String>, String>)
    ensures
        *auth == SessionAuth::Disabled ==> r == Ok::<Option<String>, String>(None),
        auth matches SessionAuth::Fixed(t) ==> (r matches Ok(Some(s)) && s@ == t@),
        *auth == SessionAuth::Required ==> match r {
            Ok(Some(t)) => t@.len() == 32 && forall|k: int| 0 <= k < 32 ==> is_lower_hex(#[trigger] t@[k]),
            Ok(None) => false,
            Err(m) => exists|text: Seq<char>| m@ == session_token_error(text),
        },
{
    match auth {
        SessionAuth::Required => match session_token() {
            Ok(t) => Ok(Some(t)),
            Err(e) => Err(e),
        },
        SessionAuth::Disabled => Ok(None),
        SessionAuth::Fixed(t) => Ok(Some(t.clone())),
    }
}

/// The query of the cockpit URL: the session token and the focused issue,
/// in that order, each when present.
pub open spec fn cockpit_query(token: Option<Seq<char>>, issue: Option<u64>) -> Seq<char> {
    match (token, issue) {
        (None, None) => Seq::empty(),
        (Some(t), None) => "?token="@ + t,
        (None, Some(n)) => "?issue="@ + decimal(n as nat),
        (Some(t), Some(n)) => "?token="@ + t + "&issue="@ + decimal(n as nat),
    }
}

pub open spec fn cockpit_url_text(address: Seq<char>, token: Option<Seq<char>>, issue: Option<u64>) -> Seq<char> {
    "http://"@ + address + "/"@ + cockpit_query(token, issue)
}

/// The URL that opens the cockpit served at `address` (as `host:port`).
pub fn cockpit_url(address: &str, token: Option<&str>, issue: Option<u64>) -> (r: String)
    ensures
        r@ == cockpit_url_text(address@, match token { Some(t) => Some(t@), None => None }, issue),
{
    let mut r = concat("http://", address);
    push_str(&mut r, "/");
    match token {
        Some(t) => {
            push_str(&mut r, "?token=");
            push_str(&mut r, t);
            if let Some(n) = issue {
                push_str(&mut r, "&issue=");
                push_decimal(&mut r, n);
            }
        },
        None => {
            if let Some(n) = issue {
                push_str(&mut r, "?issue=");
                push_decimal(&mut r, n);
            }
        },
    }
    r
}

/// The generation that follows `g`; the counter wraps as an atomic
/// `fetch_add` does.
pub open spec fn next_generation(g: u64) -> u64 {
    if g == u64::MAX { 0 } else { (g + 1) as u64 }
}

/// The generations of the swappable provider: how many providers were
/// installed since the start, and the generation of the last fetch that
/// succeeded and was not superseded. A fetch that started under one
/// generation and ends under another is superseded, and a publication is
/// committed only when every snapshot in it was fetched by the current
/// generation.
pub struct ProviderGenerations {
    generation: u64,
    confirmed: u64,
}

impl ProviderGenerations {
    pub closed spec fn current(&self) -> u64 {
        self.generation
    }

    pub closed spec fn confirmed(&self) -> u64 {
        self.confirmed
    }

    /// The current and the confirmed generation.
    pub open spec fn pair(&self) -> (u64, u64) {
        (self.current(), self.confirmed())
    }

    /// The generations of the first provider.
    pub fn new() -> (r: Self)
        ensures
            r.current() == 0,
            r.confirmed() == 0,
            r.pair() == slot_run(Seq::empty()),
    {
        ProviderGenerations { generation: 0, confirmed: 0 }
    }

    /// The generation a fetch starts under.
    pub fn generation(&self) -> (r: u64)
        ensures
            r == self.current(),
    {
        self.generation
    }

    /// A new provider was installed.
    pub fn replace(&mut self)
        ensures
            final(self).current() == next_generation(old(self).current()),
            final(self).confirmed() == old(self).confirmed(),
            final(self).pair() == slot_step(old(self).pair(), SlotEvent::Replace),
    {
        self.generation = if self.generation == u64::MAX { 0 } else { self.generation + 1 };
    }

    /// Ends a fetch that started under generation `started` and returned
    /// `result`: superseded when the provider changed meanwhile; otherwise the
    /// result, a snapshot marked with its generation, which a success also
    /// confirms.
    pub fn finish_fetch(&mut self, started: u64, result: Result<ProviderSnapshot, ProviderError>) -> (r: Result<ProviderSnapshot, ProviderError>)
        ensures
            old(self).current() != started ==> r == Err::<ProviderSnapshot, ProviderError>(ProviderError::Superseded)
                && *final(self) == *old(self),
            old(self).current() == started ==> match result {
                Ok(s) => r matches Ok(t) && t == (ProviderSnapshot { publication_generation: Some(started), ..s })
                    && final(self).current() == started && final(self).confirmed() == started,
                Err(e) => r == Err::<ProviderSnapshot, ProviderError>(e) && *final(self) == *old(self),
            },
            final(self).pair() == slot_step(old(self).pair(), SlotEvent::Finish { started, ok: result is Ok }),
    {
        if self.generation != started {
            return Err(ProviderError::Superseded);
        }
        match result {
            Ok(snapshot) => {
                self.confirmed = started;
                Ok(snapshot.with_publication_generation(started))
            },
            Err(e) => Err(e),
        }
    }

    /// Whether the viewer identity cached from earlier fetches may be used:
    /// only when the current provider has confirmed a fetch.
    pub fn allows_cached_viewer_identity(&self) -> (r: bool)
        ensures
            r == (self.confirmed() == self.current()),
    {
        self.confirmed == self.generation
    }

    /// Whether a publication of snapshots fetched by the generations
    /// `publication_generations` may be committed: only when each of them is
    /// the current generation.
    pub fn commit_if_current(&self, publication_generations: &[u64]) -> (r: bool)
        ensures
            r == forall|i: int| 0 <= i < publication_generations@.len()
                ==> #[trigger] publication_generations@[i] == self.current(),
    {
        let mut i: usize = 0;
        while i < publication_generations.len()
            invariant
                i <= publication_generations@.len(),
                forall|k: int| 0 <= k < i ==> #[trigger] publication_generations@[k] == self.current(),
            decreases publication_generations@.len() - i,
        {
            if publication_generations[i] != self.generation {
                return false;
            }
            i = i + 1;
        }
        true
    }
}

/// A fetch that started before a provider was installed cannot be
/// published: it ends superseded (as long as the counter did not wrap all
/// the way round), and any publication that holds its generation is refused.
pub proof fn fetch_across_a_replace_is_superseded(started: u64)
    ensures
        next_generation(started) != started,
        forall|pubs: Seq<u64>| pubs.contains(started) ==> !(forall|i: int| 0 <= i < pubs.len() ==> #[trigger] pubs[i] == next_generation(started)),
{
    assert forall|pubs: Seq<u64>| pubs.contains(started) implies !(forall|i: int| 0 <= i < pubs.len() ==> #[trigger] pubs[i] == next_generation(started)) by {
        let k = choose|k: int| 0 <= k < pubs.len() && pubs[k] == started;
        assert(pubs[k] == started);
    }
}

/// What happens to the provider slot: a new provider is installed, or a
/// fetch that started under generation `started` ends, successfully or not.
pub enum SlotEvent {
    Replace,
    Finish { started: u64, ok: bool },
}

/// The current and confirmed generations after `e`, as
/// [`ProviderGenerations::replace`] and [`ProviderGenerations::finish_fetch`]
/// change them.
pub open spec fn slot_step(s: (u64, u64), e: SlotEvent) -> (u64, u64) {
    match e {
        SlotEvent::Replace => (next_generation(s.0), s.1),
        SlotEvent::Finish { started, ok } => if s.0 == started && ok { (s.0, started) } else { s },
    }
}

/// The generations after `events`, from a new slot.
pub open spec fn slot_run(events: Seq<SlotEvent>) -> (u64, u64)
    decreases events.len(),
{
    if events.len() == 0 {
        (0, 0)
    } else {
        slot_step(slot_run(events.drop_last()), events.last())
    }
}

/// How many providers `events` install.
pub open spec fn replaces(events: Seq<SlotEvent>) -> nat
    decreases events.len(),
{
    if events.len() == 0 {
        0
    } else {
        replaces(events.drop_last()) + if events.last() is Replace { 1nat } else { 0nat }
    }
}

/// The position of the last installation in `events`, or -1.
pub open spec fn last_replace(events: Seq<SlotEvent>) -> int
    decreases events.len(),
{
    if events.len() == 0 {
        -1
    } else if events.last() is Replace {
        events.len() - 1
    } else {
        last_replace(events.drop_last())
    }
}

/// A fetch that started under the provider installed last ended
/// successfully after it was installed.
pub open spec fn confirmed_since_last_replace(events: Seq<SlotEvent>) -> bool {
    exists|i: int| last_replace(events) < i < events.len()
        && (#[trigger] events[i] matches SlotEvent::Finish { started, ok } && ok && started == replaces(events))
}

/// While fewer than 2^64 providers have been installed, the current
/// generation counts the installations and the confirmed generation is
/// never ahead of it.
pub proof fn generations_count_replacements(events: Seq<SlotEvent>)
    requires
        replaces(events) <= u64::MAX,
    ensures
        slot_run(events).0 == replaces(events),
        slot_run(events).1 <= slot_run(events).0,
    decreases events.len(),
{
    if events.len() > 0 {
        generations_count_replacements(events.drop_last());
    }
}

/// The cached viewer identity may be used exactly when no other provider
/// has been installed yet, or a fetch that started under the provider
/// installed last has succeeded since (while fewer than 2^64 providers have
/// been installed).
pub proof fn cached_identity_needs_a_confirmed_fetch(events: Seq<SlotEvent>)
    requires
        replaces(events) <= u64::MAX,
    ensures
        (slot_run(events).1 == slot_run(events).0)
            <==> (replaces(events) == 0 || confirmed_since_last_replace(events)),
    decreases events.len(),
{
    if events.len() > 0 {
        let prefix = events.drop_last();
        let e = events.last();
        cached_identity_needs_a_confirmed_fetch(prefix);
        generations_count_replacements(prefix);
        generations_count_replacements(events);
        match e {
            SlotEvent::Replace => {
                assert(!confirmed_since_last_replace(events));
            },
            SlotEvent::Finish { started, ok } => {
                lemma_last_replace_bounds(prefix);
                assert(replaces(events) == replaces(prefix));
                assert(last_replace(events) == last_replace(prefix));
                if started == slot_run(prefix).0 && ok {
                    if replaces(events) > 0 {
                        assert(events[events.len() - 1] == e);
                        assert(last_replace(events) < events.len() - 1) by {
                            lemma_last_replace_bounds(prefix);
                        }
                    }
                } else {
                    assert forall|i: int| last_replace(events) < i < events.len()
                        && (#[trigger] events[i] matches SlotEvent::Finish { started, ok } && ok && started == replaces(events))
                        implies (last_replace(prefix) < i < prefix.len()
                        && (prefix[i] matches SlotEvent::Finish { started, ok } && ok && started == replaces(prefix))) by {
                        if i == events.len() - 1 {
                            assert(events[i] == e);
                        } else {
                            assert(prefix[i] == events[i]);
                        }
                    }
                    if confirmed_since_last_replace(prefix) {
                        let i = choose|i: int| last_replace(prefix) < i < prefix.len()
                            && (#[trigger] prefix[i] matches SlotEvent::Finish { started, ok } && ok && started == replaces(prefix));
                        assert(events[i] == prefix[i]);
                    }
                }
            },
        }
    }
}

proof fn lemma_last_replace_bounds(events: Seq<SlotEvent>)
    ensures
        -1 <= last_replace(events) < events.len(),
    decreases events.len(),
{
    if events.len() > 0 {
        lemma_last_replace_bounds(events.drop_last());
    }
}

/// A fetch that started before another provider was installed ends
/// superseded: its generation is no longer current, so finishing it changes
/// nothing (while fewer than 2^64 providers have been installed).
pub proof fn straddling_fetch_is_superseded(before: Seq<SlotEvent>, during: Seq<SlotEvent>, ok: bool)
    requires
        replaces(before + during) <= u64::MAX,
        replaces(during) > 0,
    ensures
        slot_run(before + during).0 != slot_run(before).0,
        slot_step(slot_run(before + during), SlotEvent::Finish { started: slot_run(before).0, ok })
            == slot_run(before + during),
{
    lemma_replaces_append(before, during);
    generations_count_replacements(before + during);
    generations_count_replacements(before);
}

proof fn lemma_replaces_append(a: Seq<SlotEvent>, b: Seq<SlotEvent>)
    ensures
        replaces(a + b) == replaces(a) + replaces(b),
    decreases b.len(),
{
    if b.len() == 0 {
        assert(a + b =~= a);
    } else {
        lemma_replaces_append(a, b.drop_last());
        assert((a + b).drop_last() =~= a + b.drop_last());
        assert((a + b).last() == b.last());
    }
}

} // verus!
