//! GitHub OAuth device authorization: the interpretation of GitHub's answers
//! and the state that a running authorization moves through.

use vstd::prelude::*;

use crate::text::{concat, decimal, push_decimal, str_eq};

verus! {

/// Why a device-flow request failed.
#[derive(Debug, Clone, PartialEq, Eq)]
pub enum DeviceFlowError {
    InvalidEndpoint(String),
    Request(String),
    HttpStatus(u16),
    Api(String),
}

impl DeviceFlowError {
    pub open spec fn message_view(&self) -> Seq<char> {
        match self {
            DeviceFlowError::InvalidEndpoint(m) => "invalid GitHub device-flow endpoint: "@ + m@,
            DeviceFlowError::Request(m) => "GitHub device authorization request failed: "@ + m@,
            DeviceFlowError::HttpStatus(code) => "GitHub device authorization returned "@ + decimal(*code as nat),
            DeviceFlowError::Api(m) => "GitHub device authorization failed: "@ + m@,
        }
    }

    /// The text the error displays.
    pub fn message(&self) -> (r: String)
        ensures
            r@ == self.message_view(),
    {
        match self {
            DeviceFlowError::InvalidEndpoint(m) => concat("invalid GitHub device-flow endpoint: ", m.as_str()),
            DeviceFlowError::Request(m) => concat("GitHub device authorization request failed: ", m.as_str()),
            DeviceFlowError::HttpStatus(code) => {
                let mut r = "GitHub device authorization returned ".to_owned();
                push_decimal(&mut r, *code as u64);
                r
            },
            DeviceFlowError::Api(m) => concat("GitHub device authorization failed: ", m.as_str()),
        }
    }
}

/// An access token. It has no `Debug` form, so no log can reveal it.
pub struct AccessToken(String);

impl AccessToken {
    pub closed spec fn view_token(&self) -> Seq<char> {
        self.0@
    }

    pub fn expose(&self) -> (r: &str)
        ensures
            r@ == self.view_token(),
    {
        self.0.as_str()
    }
}

impl PartialEq for AccessToken {
    fn eq(&self, other: &Self) -> (r: bool) {
        str_eq(self.0.as_str(), other.0.as_str())
    }
}

impl vstd::std_specs::cmp::PartialEqSpecImpl for AccessToken {
    open spec fn obeys_eq_spec() -> bool {
        true
    }

    open spec fn eq_spec(&self, other: &Self) -> bool {
        self.view_token() == other.view_token()
    }
}

/// A device code that GitHub issued, with what the user must be shown.
#[derive(Debug)]
pub struct DeviceAuthorization {
    device_code: String,
    user_code: String,
    verification_uri: String,
    expires_in_seconds: u64,
    interval_seconds: u64,
}

impl DeviceAuthorization {
    pub closed spec fn user_code_view(&self) -> Seq<char> {
        self.user_code@
    }

    pub closed spec fn verification_uri_view(&self) -> Seq<char> {
        self.verification_uri@
    }

    pub closed spec fn device_code_view(&self) -> Seq<char> {
        self.device_code@
    }

    pub closed spec fn expires_in(&self) -> u64 {
        self.expires_in_seconds
    }

    pub closed spec fn interval(&self) -> u64 {
        self.interval_seconds
    }

    /// The authorization that GitHub's device-code response describes.
    pub fn from_response(
        device_code: String,
        user_code: String,
        verification_uri: String,
        expires_in: u64,
        interval: u64,
    ) -> (r: Self)
        ensures
            r.device_code_view() == device_code@,
            r.user_code_view() == user_code@,
            r.verification_uri_view() == verification_uri@,
            r.expires_in() == expires_in,
            r.interval() == interval,
    {
        DeviceAuthorization {
            device_code,
            user_code,
            verification_uri,
            expires_in_seconds: expires_in,
            interval_seconds: interval,
        }
    }

    pub fn device_code(&self) -> (r: &str)
        ensures
            r@ == self.device_code_view(),
    {
        self.device_code.as_str()
    }

    pub fn expires_in_seconds(&self) -> (r: u64)
        ensures
            r == self.expires_in(),
    {
        self.expires_in_seconds
    }

    pub fn interval_seconds(&self) -> (r: u64)
        ensures
            r == self.interval(),
    {
        self.interval_seconds
    }
}

/// What one poll of the token endpoint found.
#[derive(PartialEq)]
pub enum PollOutcome {
    Pending,
    SlowDown,
    Authorized(AccessToken),
    Denied,
    Expired,
}

/// The state of an authorization as the user sees it. It never holds the token.
#[derive(Debug, Clone, PartialEq, Eq)]
pub enum DeviceFlowStatus {
    Idle,
    Pending {
        user_code: String,
        verification_uri: String,
        expires_in_seconds: u64,
        interval_seconds: u64,
    },
    SlowDown {
        user_code: String,
        verification_uri: String,
        expires_in_seconds: u64,
        interval_seconds: u64,
    },
    /// Signed in; `storage_warning` says when the credential could not be
    /// kept for the next launch.
    Authorized { storage_warning: Option<String> },
    Denied,
    Expired,
    Cancelled,
    Failed { message: String },
}

impl DeviceFlowStatus {
    /// Waiting for the user, at the interval GitHub asked for.
    pub fn pending(authorization: &DeviceAuthorization) -> (r: Self)
        ensures
            r matches DeviceFlowStatus::Pending { user_code, verification_uri, expires_in_seconds, interval_seconds }
                && user_code@ == authorization.user_code_view()
                && verification_uri@ == authorization.verification_uri_view()
                && expires_in_seconds == authorization.expires_in()
                && interval_seconds == authorization.interval(),
    {
        DeviceFlowStatus::Pending {
            user_code: authorization.user_code.clone(),
            verification_uri: authorization.verification_uri.clone(),
            expires_in_seconds: authorization.expires_in_seconds,
            interval_seconds: authorization.interval_seconds,
        }
    }

    /// Waiting for the user, at the slower `interval_seconds`.
    pub fn slow_down(authorization: &DeviceAuthorization, interval_seconds: u64) -> (r: Self)
        ensures
            r matches DeviceFlowStatus::SlowDown { user_code, verification_uri, expires_in_seconds, interval_seconds: i }
                && user_code@ == authorization.user_code_view()
                && verification_uri@ == authorization.verification_uri_view()
                && expires_in_seconds == authorization.expires_in()
                && i == interval_seconds,
    {
        DeviceFlowStatus::SlowDown {
            user_code: authorization.user_code.clone(),
            verification_uri: authorization.verification_uri.clone(),
            expires_in_seconds: authorization.expires_in_seconds,
            interval_seconds,
        }
    }

    /// A copy of this status.
    pub fn duplicate(&self) -> (r: Self)
        ensures
            r == *self,
    {
        match self {
            DeviceFlowStatus::Idle => DeviceFlowStatus::Idle,
            DeviceFlowStatus::Pending { user_code, verification_uri, expires_in_seconds, interval_seconds } =>
                DeviceFlowStatus::Pending {
                    user_code: user_code.clone(),
                    verification_uri: verification_uri.clone(),
                    expires_in_seconds: *expires_in_seconds,
                    interval_seconds: *interval_seconds,
                },
            DeviceFlowStatus::SlowDown { user_code, verification_uri, expires_in_seconds, interval_seconds } =>
                DeviceFlowStatus::SlowDown {
                    user_code: user_code.clone(),
                    verification_uri: verification_uri.clone(),
                    expires_in_seconds: *expires_in_seconds,
                    interval_seconds: *interval_seconds,
                },
            DeviceFlowStatus::Authorized { storage_warning } =>
                DeviceFlowStatus::Authorized { storage_warning: crate::text::copy_opt_string(storage_warning) },
            DeviceFlowStatus::Denied => DeviceFlowStatus::Denied,
            DeviceFlowStatus::Expired => DeviceFlowStatus::Expired,
            DeviceFlowStatus::Cancelled => DeviceFlowStatus::Cancelled,
            DeviceFlowStatus::Failed { message } => DeviceFlowStatus::Failed { message: message.clone() },
        }
    }
}

/// What a token-endpoint answer means, from its three optional fields.
pub open spec fn token_response_meaning(
    access_token: Option<Seq<char>>,
    error: Option<Seq<char>>,
    error_description: Option<Seq<char>>,
) -> Result<int, Seq<char>> {
    if access_token is Some {
        Ok(2)
    } else {
        match error {
            Some(e) => if e == "authorization_pending"@ {
                Ok(0)
            } else if e == "slow_down"@ {
                Ok(1)
            } else if e == "access_denied"@ {
                Ok(3)
            } else if e == "expired_token"@ {
                Ok(4)
            } else {
                Err(
                    match error_description {
                        Some(d) => d,
                        None => e,
                    },
                )
            },
            None => Err("response contained neither a token nor an error"@),
        }
    }
}

pub open spec fn outcome_code(o: PollOutcome) -> int {
    match o {
        PollOutcome::Pending => 0,
        PollOutcome::SlowDown => 1,
        PollOutcome::Authorized(_) => 2,
        PollOutcome::Denied => 3,
        PollOutcome::Expired => 4,
    }
}

pub open spec fn opt_view(o: Option<String>) -> Option<Seq<char>> {
    match o {
        Some(s) => Some(s@),
        None => None,
    }
}

/// Interprets a successful answer of the token endpoint: a token authorizes;
/// otherwise the `error` field says pending, slow down, denied or expired,
/// and any other error (described by `error_description` when present) or
/// an answer with neither field is an API failure.
pub fn interpret_token_response(
    access_token: Option<String>,
    error: Option<String>,
    error_description: Option<String>,
) -> (r: Result<PollOutcome, DeviceFlowError>)
    ensures
        ({
            let meaning = token_response_meaning(opt_view(access_token), opt_view(error), opt_view(error_description));
            &&& meaning matches Ok(code) ==> r matches Ok(o) && outcome_code(o) == code
            &&& meaning matches Err(m) ==> r matches Err(DeviceFlowError::Api(a)) && a@ == m
            &&& r matches Ok(PollOutcome::Authorized(t)) ==> t.view_token() == access_token->Some_0@
        }),
{
    if let Some(token) = access_token {
        return Ok(PollOutcome::Authorized(AccessToken(token)));
    }
    match error {
        Some(e) => {
            if str_eq(e.as_str(), "authorization_pending") {
                Ok(PollOutcome::Pending)
            } else if str_eq(e.as_str(), "slow_down") {
                Ok(PollOutcome::SlowDown)
            } else if str_eq(e.as_str(), "access_denied") {
                Ok(PollOutcome::Denied)
            } else if str_eq(e.as_str(), "expired_token") {
                Ok(PollOutcome::Expired)
            } else {
                match error_description {
                    Some(d) => Err(DeviceFlowError::Api(d)),
                    None => Err(DeviceFlowError::Api(e)),
                }
            }
        },
        None => Err(DeviceFlowError::Api("response contained neither a token nor an error".to_owned())),
    }
}

/// What the poller does after one answer: wait and poll again, or stop.
#[derive(Debug, Clone, Copy, PartialEq, Eq, Structural)]
pub enum PollStep {
    Continue { interval_seconds: u64 },
    Stop,
}

/// The generation of the attempt after attempt `g` (the counter wraps).
pub open spec fn next_attempt(g: u64) -> u64 {
    if g == u64::MAX { 0 } else { (g + 1) as u64 }
}

/// Starting or cancelling an attempt fences off the one before: its
/// generation is no longer current, so nothing it reports (a code, a poll
/// outcome, a deadline, a failure) changes the status or the token any more.
pub proof fn earlier_attempts_are_fenced_off(g: u64)
    ensures
        next_attempt(g) != g,
{
}

/// The state of the device-flow controller. Each authorization attempt gets
/// a generation; results of any other generation are ignored.
pub struct DeviceFlowState {
    status: DeviceFlowStatus,
    token: Option<AccessToken>,
    generation: u64,
}

impl DeviceFlowState {
    pub closed spec fn status_view(&self) -> DeviceFlowStatus {
        self.status
    }

    pub closed spec fn has_token(&self) -> bool {
        self.token is Some
    }

    pub closed spec fn token_view(&self) -> Option<Seq<char>> {
        match self.token {
            Some(t) => Some(t.view_token()),
            None => None,
        }
    }

    pub closed spec fn current(&self) -> u64 {
        self.generation
    }

    /// Idle, without a token, at generation 0.
    pub fn new() -> (r: Self)
        ensures
            r.status_view() == DeviceFlowStatus::Idle,
            r.token_view() is None,
            r.current() == 0,
    {
        DeviceFlowState { status: DeviceFlowStatus::Idle, token: None, generation: 0 }
    }

    pub fn status(&self) -> (r: DeviceFlowStatus)
        ensures
            r == self.status_view(),
    {
        self.status.duplicate()
    }

    /// Starts a new attempt: a fresh generation, no token, status idle.
    pub fn begin(&mut self) -> (generation: u64)
        ensures
            generation == final(self).current(),
            final(self).current() == next_attempt(old(self).current()),
            final(self).status_view() == DeviceFlowStatus::Idle,
            final(self).token_view() is None,
    {
        self.generation = self.generation.wrapping_add(1);
        self.token = None;
        self.status = DeviceFlowStatus::Idle;
        self.generation
    }

    /// Stops the attempt in progress: a fresh generation, so that nothing the
    /// old attempt reports is taken any more, no token, status cancelled.
    pub fn cancel(&mut self)
        ensures
            final(self).current() == next_attempt(old(self).current()),
            final(self).status_view() == DeviceFlowStatus::Cancelled,
            final(self).token_view() is None,
    {
        self.generation = self.generation.wrapping_add(1);
        self.token = None;
        self.status = DeviceFlowStatus::Cancelled;
    }

    /// Hands out the token, if there is one, and forgets it.
    pub fn take_token(&mut self) -> (r: Option<AccessToken>)
        ensures
            r matches Some(t) ==> old(self).token_view() == Some(t.view_token()),
            r is None <==> old(self).token_view() is None,
            final(self).token_view() is None,
            final(self).status_view() == old(self).status_view(),
            final(self).current() == old(self).current(),
    {
        self.token.take()
    }

    /// Sets the status, when `generation` is the current one.
    pub fn set_status_if_current(&mut self, generation: u64, status: DeviceFlowStatus)
        ensures
            generation == old(self).current() ==> final(self).status_view() == status,
            generation != old(self).current() ==> final(self).status_view() == old(self).status_view(),
            final(self).token_view() == old(self).token_view(),
            final(self).current() == old(self).current(),
    {
        if self.generation == generation {
            self.status = status;
        }
    }

    /// Records what one poll of `generation` found and says whether to poll
    /// again. Pending keeps the interval; slow down adds five seconds
    /// (saturating) and shows the new interval; a token is kept and the
    /// status becomes authorized; denial, expiry and errors end the attempt.
    /// Nothing changes for a generation that is no longer current.
    pub fn record_outcome(
        &mut self,
        generation: u64,
        authorization: &DeviceAuthorization,
        interval_seconds: u64,
        outcome: Result<PollOutcome, DeviceFlowError>,
    ) -> (step: PollStep)
        ensures
            final(self).current() == old(self).current(),
            generation != old(self).current() ==> final(self).status_view() == old(self).status_view()
                && final(self).token_view() == old(self).token_view(),
            match outcome {
                Ok(PollOutcome::Pending) => step == PollStep::Continue { interval_seconds }
                    && final(self).status_view() == old(self).status_view()
                    && final(self).token_view() == old(self).token_view(),
                Ok(PollOutcome::SlowDown) => {
                    let slower = if interval_seconds > u64::MAX - 5 { u64::MAX } else { (interval_seconds + 5) as u64 };
                    &&& step == PollStep::Continue { interval_seconds: slower }
                    &&& final(self).token_view() == old(self).token_view()
                    &&& generation == old(self).current() ==> (final(self).status_view() matches DeviceFlowStatus::SlowDown { user_code, verification_uri, expires_in_seconds, interval_seconds: i }
                        && user_code@ == authorization.user_code_view()
                        && verification_uri@ == authorization.verification_uri_view()
                        && expires_in_seconds == authorization.expires_in()
                        && i == slower)
                },
                Ok(PollOutcome::Authorized(t)) => step == PollStep::Stop
                    && (generation == old(self).current() ==> final(self).status_view() == (DeviceFlowStatus::Authorized { storage_warning: None })
                        && final(self).token_view() == Some(t.view_token())),
                Ok(PollOutcome::Denied) => step == PollStep::Stop
                    && final(self).token_view() == old(self).token_view()
                    && (generation == old(self).current() ==> final(self).status_view() == DeviceFlowStatus::Denied),
                Ok(PollOutcome::Expired) => step == PollStep::Stop
                    && final(self).token_view() == old(self).token_view()
                    && (generation == old(self).current() ==> final(self).status_view() == DeviceFlowStatus::Expired),
                Err(e) => step == PollStep::Stop
                    && final(self).token_view() == old(self).token_view()
                    && (generation == old(self).current() ==> (final(self).status_view() matches DeviceFlowStatus::Failed { message }
                        && message@ == e.message_view())),
            },
    {
        match outcome {
            Ok(PollOutcome::Pending) => PollStep::Continue { interval_seconds },
            Ok(PollOutcome::SlowDown) => {
                let slower = interval_seconds.saturating_add(5);
                let status = DeviceFlowStatus::slow_down(authorization, slower);
                self.set_status_if_current(generation, status);
                PollStep::Continue { interval_seconds: slower }
            },
            Ok(PollOutcome::Authorized(token)) => {
                if self.generation == generation {
                    self.token = Some(token);
                    self.status = DeviceFlowStatus::Authorized { storage_warning: None };
                }
                PollStep::Stop
            },
            Ok(PollOutcome::Denied) => {
                self.set_status_if_current(generation, DeviceFlowStatus::Denied);
                PollStep::Stop
            },
            Ok(PollOutcome::Expired) => {
                self.set_status_if_current(generation, DeviceFlowStatus::Expired);
                PollStep::Stop
            },
            Err(error) => {
                let message = error.message();
                self.set_status_if_current(generation, DeviceFlowStatus::Failed { message });
                PollStep::Stop
            },
        }
    }

    /// The poller of `generation` woke up `elapsed_seconds` after GitHub
    /// issued `authorization`. It polls again only while the code has not
    /// expired; once the deadline has passed the attempt is expired (when it
    /// is still current) and polling stops. The first wait is the interval
    /// that GitHub asked for, later ones what [`Self::record_outcome`] says.
    pub fn wake(&mut self, generation: u64, authorization: &DeviceAuthorization, elapsed_seconds: u64) -> (poll: bool)
        ensures
            poll == (elapsed_seconds < authorization.expires_in()),
            poll ==> final(self).status_view() == old(self).status_view(),
            !poll && generation == old(self).current() ==> final(self).status_view() == DeviceFlowStatus::Expired,
            !poll && generation != old(self).current() ==> final(self).status_view() == old(self).status_view(),
            final(self).token_view() == old(self).token_view(),
            final(self).current() == old(self).current(),
    {
        if elapsed_seconds >= authorization.expires_in_seconds {
            self.record_deadline(generation);
            false
        } else {
            true
        }
    }

    /// The attempt of `generation` ran past GitHub's expiry.
    pub fn record_deadline(&mut self, generation: u64)
        ensures
            generation == old(self).current() ==> final(self).status_view() == DeviceFlowStatus::Expired,
            generation != old(self).current() ==> final(self).status_view() == old(self).status_view(),
            final(self).token_view() == old(self).token_view(),
            final(self).current() == old(self).current(),
    {
        self.set_status_if_current(generation, DeviceFlowStatus::Expired);
    }

    /// The device-code request of `generation` failed.
    pub fn record_request_failure(&mut self, generation: u64, error: &DeviceFlowError)
        ensures
            generation == old(self).current() ==> (final(self).status_view() matches DeviceFlowStatus::Failed { message }
                && message@ == error.message_view()),
            generation != old(self).current() ==> final(self).status_view() == old(self).status_view(),
            final(self).token_view() == old(self).token_view(),
            final(self).current() == old(self).current(),
    {
        let message = error.message();
        self.set_status_if_current(generation, DeviceFlowStatus::Failed { message });
    }

    /// GitHub issued a device code for `generation`: show it as pending.
    pub fn record_authorization(&mut self, generation: u64, authorization: &DeviceAuthorization) -> (r: DeviceFlowStatus)
        ensures
            r matches DeviceFlowStatus::Pending { user_code, verification_uri, expires_in_seconds, interval_seconds }
                && user_code@ == authorization.user_code_view()
                && verification_uri@ == authorization.verification_uri_view()
                && expires_in_seconds == authorization.expires_in()
                && interval_seconds == authorization.interval(),
            generation == old(self).current() ==> final(self).status_view() == r,
            generation != old(self).current() ==> final(self).status_view() == old(self).status_view(),
            final(self).token_view() == old(self).token_view(),
            final(self).current() == old(self).current(),
    {
        let status = DeviceFlowStatus::pending(authorization);
        let shown = status.duplicate();
        self.set_status_if_current(generation, status);
        shown
    }

    /// Whether `generation` is still the current attempt.
    pub fn is_current(&self, generation: u64) -> (r: bool)
        ensures
            r == (generation == self.current()),
    {
        self.generation == generation
    }
}

} // verus!
