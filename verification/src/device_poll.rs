//! The device-authorization polling state machine.
//!
//! A device-flow session repeatedly exchanges its device code for a token.
//! The caller performs the waiting and the network call; this module owns
//! every decision: how each provider response is classified, how the poll
//! interval adapts, when the loop stops, and with which outcome.

use vstd::prelude::*;
use crate::strutil::str_eq;
use crate::token_cache::TokenResult;

verus! {

/// The device-flow vocabulary a provider can answer a poll with.
#[derive(Clone, Copy, Debug, PartialEq, Eq)]
pub enum PollDeviceCodeEvent {
    AuthorizationPending,
    AuthorizationDeclined,
    BadVerificationCode,
    ExpiredToken,
    AccessDenied,
    SlowDown,
}

/// The wire code of each event.
pub open spec fn code_of_event(e: PollDeviceCodeEvent) -> Seq<char> {
    match e {
        PollDeviceCodeEvent::AuthorizationPending => "authorization_pending"@,
        PollDeviceCodeEvent::AuthorizationDeclined => "authorization_declined"@,
        PollDeviceCodeEvent::BadVerificationCode => "bad_verification_code"@,
        PollDeviceCodeEvent::ExpiredToken => "expired_token"@,
        PollDeviceCodeEvent::AccessDenied => "access_denied"@,
        PollDeviceCodeEvent::SlowDown => "slow_down"@,
    }
}

/// The event a wire code denotes, if it is in the vocabulary.
pub open spec fn event_of_code(s: Seq<char>) -> Option<PollDeviceCodeEvent> {
    if s == "authorization_pending"@ {
        Some(PollDeviceCodeEvent::AuthorizationPending)
    } else if s == "authorization_declined"@ {
        Some(PollDeviceCodeEvent::AuthorizationDeclined)
    } else if s == "bad_verification_code"@ {
        Some(PollDeviceCodeEvent::BadVerificationCode)
    } else if s == "expired_token"@ {
        Some(PollDeviceCodeEvent::ExpiredToken)
    } else if s == "access_denied"@ {
        Some(PollDeviceCodeEvent::AccessDenied)
    } else if s == "slow_down"@ {
        Some(PollDeviceCodeEvent::SlowDown)
    } else {
        None
    }
}

impl PollDeviceCodeEvent {
    pub fn as_str(&self) -> (r: &'static str)
        ensures
            r@ == code_of_event(*self),
    {
        match self {
            PollDeviceCodeEvent::AuthorizationPending => "authorization_pending",
            PollDeviceCodeEvent::AuthorizationDeclined => "authorization_declined",
            PollDeviceCodeEvent::BadVerificationCode => "bad_verification_code",
            PollDeviceCodeEvent::ExpiredToken => "expired_token",
            PollDeviceCodeEvent::AccessDenied => "access_denied",
            PollDeviceCodeEvent::SlowDown => "slow_down",
        }
    }

    /// Classifies a wire code, as [`event_of_code`] describes.
    pub fn from_code(s: &str) -> (r: Option<PollDeviceCodeEvent>)
        ensures
            r == event_of_code(s@),
    {
        if str_eq(s, "authorization_pending") {
            Some(PollDeviceCodeEvent::AuthorizationPending)
        } else if str_eq(s, "authorization_declined") {
            Some(PollDeviceCodeEvent::AuthorizationDeclined)
        } else if str_eq(s, "bad_verification_code") {
            Some(PollDeviceCodeEvent::BadVerificationCode)
        } else if str_eq(s, "expired_token") {
            Some(PollDeviceCodeEvent::ExpiredToken)
        } else if str_eq(s, "access_denied") {
            Some(PollDeviceCodeEvent::AccessDenied)
        } else if str_eq(s, "slow_down") {
            Some(PollDeviceCodeEvent::SlowDown)
        } else {
            None
        }
    }
}

/// One classified answer of the token endpoint to a poll.
#[derive(Clone, Debug)]
pub enum PollResponse {
    /// The grant completed; the token is here.
    Token(TokenResult),
    /// A device-flow signal within the known vocabulary.
    ServerSignal(PollDeviceCodeEvent),
    /// A transport-level failure or an answer outside the vocabulary.
    TransportError,
}

/// Why a poll loop ended without a token.
#[derive(Clone, Copy, Debug, PartialEq, Eq)]
pub enum PollFailure {
    /// The user declined the authorization: not retryable.
    Declined,
    /// The device code expired at the provider: not retryable.
    Expired,
    /// The provider denied access: not retryable.
    Denied,
    /// Transport failed or the answer was unintelligible.
    Transport,
    /// The attempt budget ran out with the provider still pending.
    Timeout,
}

/// A server response as a [`PollResponse`]; everything outside the
/// device-flow vocabulary counts as a transport-level failure.
pub open spec fn response_of_code(s: Seq<char>) -> PollResponse {
    match event_of_code(s) {
        Some(e) => PollResponse::ServerSignal(e),
        None => PollResponse::TransportError,
    }
}

/// Classifies a raw error code string from the token endpoint.
pub fn poll_response_from_code(s: &str) -> (r: PollResponse)
    ensures
        r == response_of_code(s@),
{
    match PollDeviceCodeEvent::from_code(s) {
        Some(e) => PollResponse::ServerSignal(e),
        None => PollResponse::TransportError,
    }
}

/// What one response decides: `None` keeps polling, `Some` ends the loop.
pub open spec fn step_outcome(r: PollResponse) -> Option<Result<TokenResult, PollFailure>> {
    match r {
        PollResponse::Token(t) => Some(Ok(t)),
        PollResponse::ServerSignal(e) => match e {
            PollDeviceCodeEvent::AuthorizationPending => None,
            PollDeviceCodeEvent::BadVerificationCode => None,
            PollDeviceCodeEvent::SlowDown => None,
            PollDeviceCodeEvent::AuthorizationDeclined => Some(Err(PollFailure::Declined)),
            PollDeviceCodeEvent::ExpiredToken => Some(Err(PollFailure::Expired)),
            PollDeviceCodeEvent::AccessDenied => Some(Err(PollFailure::Denied)),
        },
        PollResponse::TransportError => Some(Err(PollFailure::Transport)),
    }
}

/// What a device-authorization round trip reports back: the codes for the
/// human step, the session lifetime, and the starting poll interval, all in
/// seconds.
pub struct DeviceAuthorizationSession {
    pub device_code: String,
    pub user_code: String,
    pub verification_uri: String,
    pub expires_in: u64,
    pub poll_interval: u64,
}

/// An interval of zero would make the attempt budget a division by zero;
/// it is read as one second.
pub open spec fn effective_interval(interval: u64) -> u64 {
    if interval == 0 {
        1u64
    } else {
        interval
    }
}

/// How many polls a session admits: `floor(expires_in / initial interval)`.
pub open spec fn poll_budget(expires_in: u64, interval: u64) -> u64 {
    expires_in / effective_interval(interval)
}

/// The mutable state of one poll loop. The interval only ever grows; the
/// attempt count never passes the budget fixed at the start.
pub struct DevicePollState {
    pub interval: u64,
    pub attempts: u64,
    pub max_attempts: u64,
    pub initial_interval: u64,
}

impl DevicePollState {
    pub open spec fn wf(self) -> bool {
        &&& 1 <= self.initial_interval <= 0x1_0000_0000
        &&& self.max_attempts <= 0xFFFF_FFFF
        &&& self.attempts <= self.max_attempts
        &&& self.initial_interval <= self.interval <= self.initial_interval + 5 * self.attempts
    }

    /// A fresh loop for a session: no attempts yet, the interval as the
    /// session starts it (a zero interval is read as one second), and the
    /// attempt budget fixed from the session lifetime.
    pub fn new(expires_in: u64, interval: u64) -> (r: DevicePollState)
        requires
            expires_in <= 0xFFFF_FFFF,
            interval <= 0xFFFF_FFFF,
        ensures
            r.wf(),
            r.attempts == 0,
            r.interval == effective_interval(interval),
            r.initial_interval == effective_interval(interval),
            r.max_attempts == poll_budget(expires_in, interval),
    {
        let effective: u64 = if interval == 0 {
            1
        } else {
            interval
        };
        DevicePollState {
            interval: effective,
            attempts: 0,
            max_attempts: expires_in / effective,
            initial_interval: effective,
        }
    }

    pub fn for_session(session: &DeviceAuthorizationSession) -> (r: DevicePollState)
        requires
            session.expires_in <= 0xFFFF_FFFF,
            session.poll_interval <= 0xFFFF_FFFF,
        ensures
            r.wf(),
            r.attempts == 0,
            r.interval == effective_interval(session.poll_interval),
            r.initial_interval == effective_interval(session.poll_interval),
            r.max_attempts == poll_budget(session.expires_in, session.poll_interval),
    {
        DevicePollState::new(session.expires_in, session.poll_interval)
    }

    /// Whether the loop may issue another token-endpoint call, or has to
    /// stop with a timeout instead.
    pub fn can_poll(&self) -> (r: bool)
        ensures
            r == (self.attempts < self.max_attempts),
    {
        self.attempts < self.max_attempts
    }

    /// How long to wait before the next call.
    pub fn next_delay(&self) -> (r: u64)
        ensures
            r == self.interval,
    {
        self.interval
    }

    /// Accounts for one issued call and classifies its response.
    ///
    /// A slow-down signal adds five seconds to the interval used from the
    /// next attempt on; no response ever shrinks the interval.
    pub fn on_response(&mut self, response: PollResponse) -> (r: Option<
        Result<TokenResult, PollFailure>,
    >)
        requires
            old(self).wf(),
            old(self).attempts < old(self).max_attempts,
        ensures
            final(self).wf(),
            final(self).attempts == old(self).attempts + 1,
            final(self).max_attempts == old(self).max_attempts,
            final(self).initial_interval == old(self).initial_interval,
            final(self).interval == if response matches PollResponse::ServerSignal(
                PollDeviceCodeEvent::SlowDown,
            ) {
                old(self).interval + 5
            } else {
                old(self).interval as int
            },
            final(self).interval >= old(self).interval,
            r == step_outcome(response),
    {
        self.attempts = self.attempts + 1;
        match response {
            PollResponse::Token(t) => Some(Ok(t)),
            PollResponse::ServerSignal(e) => match e {
                PollDeviceCodeEvent::AuthorizationPending => None,
                PollDeviceCodeEvent::BadVerificationCode => None,
                PollDeviceCodeEvent::SlowDown => {
                    self.interval = self.interval + 5;
                    None
                },
                PollDeviceCodeEvent::AuthorizationDeclined => Some(Err(PollFailure::Declined)),
                PollDeviceCodeEvent::ExpiredToken => Some(Err(PollFailure::Expired)),
                PollDeviceCodeEvent::AccessDenied => Some(Err(PollFailure::Denied)),
            },
            PollResponse::TransportError => Some(Err(PollFailure::Transport)),
        }
    }
}

/// What a whole poll loop does with a response sequence and an attempt
/// budget: the number of calls issued and the outcome. One response is
/// consumed per call; the first decisive response ends the loop, and an
/// exhausted budget times out with no further call.
pub open spec fn poll_run(events: Seq<PollResponse>, budget: nat) -> (nat, Result<
    TokenResult,
    PollFailure,
>)
    decreases budget,
{
    if budget == 0 || events.len() == 0 {
        (0, Err(PollFailure::Timeout))
    } else {
        match step_outcome(events[0]) {
            Some(out) => (1, out),
            None => {
                let rest = poll_run(events.drop_first(), (budget - 1) as nat);
                ((rest.0 + 1) as nat, rest.1)
            },
        }
    }
}

/// Runs a poll loop over a prepared response sequence, as [`poll_run`]
/// describes: responses stand in for the token endpoint's answers, in the
/// order the endpoint would give them. Returns how many calls were issued
/// and the loop's outcome.
#[verifier::loop_isolation(false)]
pub fn run_poll(expires_in: u64, interval: u64, responses: Vec<PollResponse>) -> (r: (
    u64,
    Result<TokenResult, PollFailure>,
))
    requires
        expires_in <= 0xFFFF_FFFF,
        interval <= 0xFFFF_FFFF,
        responses@.len() >= poll_budget(expires_in, interval),
    ensures
        (r.0 as nat, r.1) == poll_run(responses@, poll_budget(expires_in, interval) as nat),
{
    let ghost orig = responses@;
    let ghost budget = poll_budget(expires_in, interval) as nat;
    let mut responses = responses;
    let mut state = DevicePollState::new(expires_in, interval);
    loop
        invariant
            state.wf(),
            state.max_attempts == poll_budget(expires_in, interval),
            state.attempts <= state.max_attempts,
            responses@.len() >= state.max_attempts - state.attempts,
            poll_run(orig, budget) == {
                let rest = poll_run(responses@, (budget - state.attempts) as nat);
                ((rest.0 + state.attempts) as nat, rest.1)
            },
        decreases state.max_attempts - state.attempts,
    {
        if !state.can_poll() {
            return (state.attempts, Err(PollFailure::Timeout));
        }
        let ghost prev = responses@;
        let response = responses.remove(0);
        proof {
            assert(prev.drop_first() =~= responses@);
        }
        match state.on_response(response) {
            Some(out) => {
                return (state.attempts, out);
            },
            None => {},
        }
    }
}

/// With responses that are pending for the first `n` calls and decisive at
/// call `n + 1`, within budget, the loop issues exactly `n + 1` calls and
/// returns that decision.
pub proof fn lemma_first_decisive(events: Seq<PollResponse>, budget: nat, k: int)
    requires
        0 <= k < events.len(),
        k < budget,
        forall|i: int| 0 <= i < k ==> step_outcome(#[trigger] events[i]) is None,
        step_outcome(events[k]) is Some,
    ensures
        poll_run(events, budget) == (((k + 1) as nat, step_outcome(events[k]).unwrap())),
    decreases k,
{
    if k == 0 {
    } else {
        assert(step_outcome(events[0]) is None);
        lemma_first_decisive(events.drop_first(), (budget - 1) as nat, k - 1);
        assert(events.drop_first()[k - 1] == events[k]);
    }
}

/// With `n` pending answers followed by a success, and the budget not yet
/// exhausted, exactly `n + 1` calls occur and the success token is returned.
pub proof fn lemma_pending_then_success(
    events: Seq<PollResponse>,
    budget: nat,
    n: int,
    t: TokenResult,
)
    requires
        0 <= n,
        events.len() == n + 1,
        n < budget,
        forall|i: int| 0 <= i < n ==> events[i] == PollResponse::ServerSignal(
            PollDeviceCodeEvent::AuthorizationPending,
        ),
        events[n] == PollResponse::Token(t),
    ensures
        poll_run(events, budget) == (((n + 1) as nat, Ok::<TokenResult, PollFailure>(t))),
{
    lemma_first_decisive(events, budget, n);
}

/// A declined, expired, or denied answer at call `k + 1` ends the loop at
/// once — no further calls — with the matching non-retryable failure.
pub proof fn lemma_terminal_signal_stops(
    events: Seq<PollResponse>,
    budget: nat,
    k: int,
    e: PollDeviceCodeEvent,
)
    requires
        0 <= k < events.len(),
        k < budget,
        forall|i: int| 0 <= i < k ==> step_outcome(#[trigger] events[i]) is None,
        events[k] == PollResponse::ServerSignal(e),
        e == PollDeviceCodeEvent::AuthorizationDeclined || e == PollDeviceCodeEvent::ExpiredToken
            || e == PollDeviceCodeEvent::AccessDenied,
    ensures
        poll_run(events, budget) == (((k + 1) as nat, Err::<TokenResult, PollFailure>(
            match e {
                PollDeviceCodeEvent::AuthorizationDeclined => PollFailure::Declined,
                PollDeviceCodeEvent::ExpiredToken => PollFailure::Expired,
                _ => PollFailure::Denied,
            },
        ))),
{
    lemma_first_decisive(events, budget, k);
}

/// With no decisive answer in the first `budget` responses, the loop stops
/// after exactly `budget` calls with a timeout, issuing no further calls.
pub proof fn lemma_poll_timeout(events: Seq<PollResponse>, budget: nat)
    requires
        events.len() >= budget,
        forall|i: int| 0 <= i < budget ==> step_outcome(#[trigger] events[i]) is None,
    ensures
        poll_run(events, budget) == ((budget, Err::<TokenResult, PollFailure>(
            PollFailure::Timeout,
        ))),
    decreases budget,
{
    if budget > 0 {
        lemma_poll_timeout(events.drop_first(), (budget - 1) as nat);
    }
}

} // verus!
