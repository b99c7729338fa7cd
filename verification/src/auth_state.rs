//! The authentication of a peer with its exchange, as a state machine.
use crate::bytes::same_array;
use crate::clock::{clamp_i64, saturating_add};
use crate::error::PublicErrorCode;
use vstd::prelude::*;

verus! {

/// How long the exchange may take to answer.
pub const AUTH_TIMEOUT_SECONDS: i64 = 5;

const BACKOFF_BASE_SECONDS: i64 = 1;

const BACKOFF_MAX_SECONDS: i64 = 30;

const BACKOFF_JITTER_PER_MILLE: i64 = 100;

/// How far authentication has come.
#[allow(inconsistent_fields)]
#[derive(Clone, Copy, Debug, PartialEq, Eq)]
pub enum AuthPhase {
    Disconnected,
    Authenticating { request_id: [u8; 16], deadline: i64 },
    AwaitingPong { request_id: [u8; 16], session_id: [u8; 16], nonce: u64, deadline: i64 },
    Authenticated { session_id: [u8; 16] },
    Backoff { until: i64 },
    Terminal(PublicErrorCode),
}

/// What is to be done next.
#[derive(Clone, Copy, Debug, PartialEq, Eq)]
pub enum AuthAction {
    Authenticate { request_id: [u8; 16] },
    Ping { request_id: [u8; 16], session_id: [u8; 16], nonce: u64 },
    Ready,
    Retry,
    Ignore,
    Terminal(PublicErrorCode),
}

#[derive(Clone, Copy, Debug, PartialEq, Eq)]
pub struct AuthState {
    phase: AuthPhase,
    attempts: u32,
}

/// The phase, and how often in a row authentication has failed.
pub struct AuthModel {
    pub phase: AuthPhase,
    pub attempts: u32,
}

impl View for AuthState {
    type V = AuthModel;

    closed spec fn view(&self) -> AuthModel {
        AuthModel { phase: self.phase, attempts: self.attempts }
    }
}

/// How many seconds to wait after the given number of failures in a row: one
/// second, doubled with each further failure, at most half a minute.
pub open spec fn backoff_delay(attempts: u32) -> int {
    if attempts <= 1 {
        1
    } else if attempts == 2 {
        2
    } else if attempts == 3 {
        4
    } else if attempts == 4 {
        8
    } else if attempts == 5 {
        16
    } else {
        30
    }
}

/// The part of a delay that jitter adds or takes away, rounded towards zero.
/// Jitter beyond a thousand per mille counts as a thousand.
pub open spec fn backoff_jitter(delay: int, jitter_per_mille: i16) -> int {
    if jitter_per_mille >= 1000 {
        delay * 100
    } else if jitter_per_mille >= 0 {
        delay * 100 * jitter_per_mille / 1000
    } else if jitter_per_mille > -1000 {
        -(delay * 100 * (-jitter_per_mille) / 1000)
    } else {
        -(delay * 100)
    }
}

/// One failure more.
pub open spec fn failed_again(attempts: u32) -> u32 {
    if attempts == u32::MAX {
        u32::MAX
    } else {
        (attempts + 1) as u32
    }
}

/// The state after a failure at `now`.
pub open spec fn backed_off(m: AuthModel, now: i64, jitter_per_mille: i16) -> AuthModel {
    let attempts = failed_again(m.attempts);
    let delay = backoff_delay(attempts);
    AuthModel {
        phase: AuthPhase::Backoff {
            until: clamp_i64(now + delay + backoff_jitter(delay, jitter_per_mille)),
        },
        attempts,
    }
}

/// What happens to an authentication.
#[allow(inconsistent_fields)]
pub ghost enum AuthEvent {
    Connected { request_id: [u8; 16], now: i64 },
    Authenticated {
        request_id: [u8; 16],
        session_id: [u8; 16],
        ping_request_id: [u8; 16],
        nonce: u64,
        now: i64,
    },
    Pong { request_id: [u8; 16], nonce: u64 },
    TransportFailure { code: PublicErrorCode, now: i64, jitter_per_mille: i16 },
    Rejected { request_id: Option<[u8; 16]>, code: PublicErrorCode, now: i64 },
    Timeout { now: i64, jitter_per_mille: i16 },
    Tick { request_id: [u8; 16], now: i64, jitter_per_mille: i16 },
    Disconnected,
}

/// Whether an answer with the given number is the one that is waited for.
pub open spec fn answers(phase: AuthPhase, request_id: Option<[u8; 16]>) -> bool {
    match phase {
        AuthPhase::Authenticating { request_id: expected, .. } => request_id == Some(expected),
        AuthPhase::AwaitingPong { request_id: expected, .. } => request_id == Some(expected),
        _ => false,
    }
}

/// Codes after which trying again makes sense.
pub open spec fn retries(code: PublicErrorCode) -> bool {
    code == PublicErrorCode::ExchangeTimeout || code == PublicErrorCode::ExchangeOverloaded || code
        == PublicErrorCode::LimitAuthRequests
}

/// Codes that say that the two sides do not speak the same protocol.
pub open spec fn incompatible(code: PublicErrorCode) -> bool {
    code == PublicErrorCode::ProtocolCapabilityMismatch || code
        == PublicErrorCode::ProtocolUnsupportedVersion
}

/// Whether the answer that is waited for is overdue.
pub open spec fn overdue(phase: AuthPhase, now: i64) -> bool {
    match phase {
        AuthPhase::Authenticating { deadline, .. } => now >= deadline,
        AuthPhase::AwaitingPong { deadline, .. } => now >= deadline,
        _ => false,
    }
}

/// The state after an event, and what is to be done.
pub open spec fn step(m: AuthModel, event: AuthEvent) -> (AuthModel, AuthAction) {
    let same = (m, AuthAction::Ignore);
    match event {
        AuthEvent::Connected { request_id, now } => if m.phase is Disconnected {
            (
                AuthModel {
                    phase: AuthPhase::Authenticating {
                        request_id,
                        deadline: (now + AUTH_TIMEOUT_SECONDS) as i64,
                    },
                    attempts: m.attempts,
                },
                AuthAction::Authenticate { request_id },
            )
        } else {
            same
        },
        AuthEvent::Authenticated { request_id, session_id, ping_request_id, nonce, now } =>
            if m.phase is Authenticating && answers(m.phase, Some(request_id)) {
            (
                AuthModel {
                    phase: AuthPhase::AwaitingPong {
                        request_id: ping_request_id,
                        session_id,
                        nonce,
                        deadline: (now + AUTH_TIMEOUT_SECONDS) as i64,
                    },
                    attempts: m.attempts,
                },
                AuthAction::Ping { request_id: ping_request_id, session_id, nonce },
            )
        } else {
            same
        },
        AuthEvent::Pong { request_id, nonce } => match m.phase {
            AuthPhase::AwaitingPong { request_id: expected, session_id, nonce: expected_nonce, .. } =>
                if request_id == expected && nonce == expected_nonce {
                (
                    AuthModel { phase: AuthPhase::Authenticated { session_id }, attempts: 0 },
                    AuthAction::Ready,
                )
            } else {
                same
            },
            _ => same,
        },
        AuthEvent::TransportFailure { code, now, jitter_per_mille } => if incompatible(code) {
            (
                AuthModel { phase: AuthPhase::Terminal(code), attempts: m.attempts },
                AuthAction::Terminal(code),
            )
        } else {
            (backed_off(m, now, jitter_per_mille), AuthAction::Retry)
        },
        AuthEvent::Rejected { request_id, code, now } => if !answers(m.phase, request_id) {
            same
        } else if retries(code) {
            (backed_off(m, now, 0), AuthAction::Retry)
        } else {
            (
                AuthModel { phase: AuthPhase::Terminal(code), attempts: m.attempts },
                AuthAction::Terminal(code),
            )
        },
        AuthEvent::Timeout { now, jitter_per_mille } => if overdue(m.phase, now) {
            (backed_off(m, now, jitter_per_mille), AuthAction::Retry)
        } else {
            same
        },
        AuthEvent::Tick { request_id, now, jitter_per_mille } => match m.phase {
            AuthPhase::Backoff { until } => if now >= until {
                (
                    AuthModel {
                        phase: AuthPhase::Authenticating {
                            request_id,
                            deadline: (now + AUTH_TIMEOUT_SECONDS) as i64,
                        },
                        attempts: m.attempts,
                    },
                    AuthAction::Authenticate { request_id },
                )
            } else {
                same
            },
            _ => if overdue(m.phase, now) {
                (backed_off(m, now, jitter_per_mille), AuthAction::Retry)
            } else {
                same
            },
        },
        AuthEvent::Disconnected => (
            AuthModel { phase: AuthPhase::Disconnected, attempts: m.attempts },
            if m.phase is Authenticated || m.phase is Authenticating || m.phase is AwaitingPong {
                AuthAction::Retry
            } else {
                AuthAction::Ignore
            },
        ),
    }
}

/// A session becomes ready by one event alone: the pong that answers the ping
/// of that session.
pub proof fn law_only_the_expected_pong_makes_ready(m: AuthModel, event: AuthEvent)
    requires
        !(m.phase is Authenticated),
        step(m, event).0.phase is Authenticated,
    ensures
        event matches AuthEvent::Pong { request_id, nonce } && m.phase
            matches AuthPhase::AwaitingPong { request_id: expected, nonce: expected_nonce, .. } && request_id
            == expected && nonce == expected_nonce,
        step(m, event).1 is Ready,
{
}

/// What is said to be final stays so until the connection is gone or the
/// transport fails: no answer, no deadline and no new connection changes it.
pub proof fn law_terminal_is_kept(m: AuthModel, event: AuthEvent)
    requires
        m.phase is Terminal,
        !(event is Disconnected),
        !(event is TransportFailure),
    ensures
        step(m, event) == (m, AuthAction::Ignore),
{
}

/// The state after some events.
pub open spec fn after_events(m: AuthModel, events: Seq<AuthEvent>) -> AuthModel
    decreases events.len(),
{
    if events.len() == 0 {
        m
    } else {
        step(after_events(m, events.drop_last()), events.last()).0
    }
}

/// However many events come, none of them changes what is final before the
/// connection is gone or the transport fails.
pub proof fn law_terminal_stays(m: AuthModel, events: Seq<AuthEvent>)
    requires
        m.phase is Terminal,
        forall|i: int|
            0 <= i < events.len() ==> !((#[trigger] events[i]) is Disconnected)
                && !(events[i] is TransportFailure),
    ensures
        after_events(m, events) == m,
    decreases events.len(),
{
    if events.len() > 0 {
        let before = events.drop_last();
        assert forall|i: int| 0 <= i < before.len() implies !((#[trigger] before[i]) is Disconnected)
            && !(before[i] is TransportFailure) by {
            assert(before[i] == events[i]);
        }
        law_terminal_stays(m, before);
        let last = events[events.len() - 1];
        law_terminal_is_kept(m, last);
    }
}

/// An answer to an earlier request changes nothing.
pub proof fn law_stale_answers_are_ignored(m: AuthModel, event: AuthEvent)
    requires
        match event {
            AuthEvent::Authenticated { request_id, .. } => !answers(m.phase, Some(request_id)),
            AuthEvent::Pong { request_id, .. } => !answers(m.phase, Some(request_id)),
            AuthEvent::Rejected { request_id, .. } => !answers(m.phase, request_id),
            _ => false,
        },
    ensures
        step(m, event) == (m, AuthAction::Ignore),
{
}

/// Without jitter the wait after a failure is between one second and half a
/// minute, and never shorter than after the failure before.
pub proof fn law_backoff_is_bounded(attempts: u32)
    ensures
        1 <= backoff_delay(attempts) <= 30,
        backoff_delay(attempts) <= backoff_delay(failed_again(attempts)),
        backoff_jitter(backoff_delay(attempts), 0) == 0,
{
}

impl Default for AuthState {
    fn default() -> (r: Self)
        ensures
            r@ == (AuthModel { phase: AuthPhase::Disconnected, attempts: 0 }),
    {
        AuthState::new()
    }
}

impl AuthState {
    /// Not connected, and no failure yet.
    pub fn new() -> (r: Self)
        ensures
            r@ == (AuthModel { phase: AuthPhase::Disconnected, attempts: 0 }),
    {
        AuthState { phase: AuthPhase::Disconnected, attempts: 0 }
    }

    /// How far authentication has come.
    pub fn phase(&self) -> (r: AuthPhase)
        ensures
            r == self@.phase,
    {
        self.phase
    }

    /// The exchange is connected: ask it, unless something is going on.
    pub fn connected(&mut self, request_id: [u8; 16], now: i64) -> (r: AuthAction)
        requires
            old(self)@.phase is Disconnected ==> now + AUTH_TIMEOUT_SECONDS <= i64::MAX,
        ensures
            (final(self)@, r) == step(old(self)@, AuthEvent::Connected { request_id, now }),
    {
        if let AuthPhase::Disconnected = self.phase {
            self.phase = AuthPhase::Authenticating { request_id, deadline: now + AUTH_TIMEOUT_SECONDS };
            AuthAction::Authenticate { request_id }
        } else {
            AuthAction::Ignore
        }
    }

    /// The exchange granted a session: ping it to see that it is served.
    pub fn authenticated(
        &mut self,
        request_id: [u8; 16],
        session_id: [u8; 16],
        ping_request_id: [u8; 16],
        nonce: u64,
        now: i64,
    ) -> (r: AuthAction)
        requires
            old(self)@.phase is Authenticating ==> now + AUTH_TIMEOUT_SECONDS <= i64::MAX,
        ensures
            (final(self)@, r) == step(
                old(self)@,
                AuthEvent::Authenticated { request_id, session_id, ping_request_id, nonce, now },
            ),
    {
        match self.phase {
            AuthPhase::Authenticating { request_id: expected, .. } => {
                if !same_array(&expected, &request_id) {
                    return AuthAction::Ignore;
                }
                self.phase =
                AuthPhase::AwaitingPong {
                    request_id: ping_request_id,
                    session_id,
                    nonce,
                    deadline: now + AUTH_TIMEOUT_SECONDS,
                };
                AuthAction::Ping { request_id: ping_request_id, session_id, nonce }
            },
            _ => AuthAction::Ignore,
        }
    }

    /// The exchange answered a ping.
    pub fn pong(&mut self, request_id: [u8; 16], nonce: u64) -> (r: AuthAction)
        ensures
            (final(self)@, r) == step(old(self)@, AuthEvent::Pong { request_id, nonce }),
    {
        match self.phase {
            AuthPhase::AwaitingPong { request_id: expected, session_id, nonce: expected_nonce, .. } => {
                if !same_array(&expected, &request_id) || expected_nonce != nonce {
                    return AuthAction::Ignore;
                }
                self.phase = AuthPhase::Authenticated { session_id };
                self.attempts = 0;
                AuthAction::Ready
            },
            _ => AuthAction::Ignore,
        }
    }

    /// The connection failed; no jitter.
    pub fn transport_failure(&mut self, code: PublicErrorCode, now: i64) -> (r: AuthAction)
        ensures
            (final(self)@, r) == step(
                old(self)@,
                AuthEvent::TransportFailure { code, now, jitter_per_mille: 0 },
            ),
    {
        self.transport_failure_with_jitter(code, now, 0)
    }

    /// The connection failed.
    pub fn transport_failure_with_jitter(
        &mut self,
        code: PublicErrorCode,
        now: i64,
        jitter_per_mille: i16,
    ) -> (r: AuthAction)
        ensures
            (final(self)@, r) == step(
                old(self)@,
                AuthEvent::TransportFailure { code, now, jitter_per_mille },
            ),
    {
        if code == PublicErrorCode::ProtocolCapabilityMismatch || code
            == PublicErrorCode::ProtocolUnsupportedVersion {
            self.phase = AuthPhase::Terminal(code);
            return AuthAction::Terminal(code);
        }
        self.enter_backoff(now, jitter_per_mille);
        AuthAction::Retry
    }

    /// The exchange refused a request.
    pub fn rejected(&mut self, request_id: Option<[u8; 16]>, code: PublicErrorCode, now: i64) -> (r:
        AuthAction)
        ensures
            (final(self)@, r) == step(old(self)@, AuthEvent::Rejected { request_id, code, now }),
    {
        let expected = match self.phase {
            AuthPhase::Authenticating { request_id, .. } => Some(request_id),
            AuthPhase::AwaitingPong { request_id, .. } => Some(request_id),
            _ => None,
        };
        let awaited = match (expected, request_id) {
            (Some(expected), Some(id)) => same_array(&expected, &id),
            _ => false,
        };
        if !awaited {
            return AuthAction::Ignore;
        }
        if code == PublicErrorCode::ExchangeTimeout || code == PublicErrorCode::ExchangeOverloaded || code
            == PublicErrorCode::LimitAuthRequests {
            self.enter_backoff(now, 0);
            AuthAction::Retry
        } else {
            self.phase = AuthPhase::Terminal(code);
            AuthAction::Terminal(code)
        }
    }

    /// Looks whether an answer is overdue; no jitter.
    pub fn timeout(&mut self, now: i64) -> (r: AuthAction)
        ensures
            (final(self)@, r) == step(old(self)@, AuthEvent::Timeout { now, jitter_per_mille: 0 }),
    {
        self.timeout_with_jitter(now, 0)
    }

    /// Looks whether an answer is overdue.
    pub fn timeout_with_jitter(&mut self, now: i64, jitter_per_mille: i16) -> (r: AuthAction)
        ensures
            (final(self)@, r) == step(old(self)@, AuthEvent::Timeout { now, jitter_per_mille }),
    {
        let late = match self.phase {
            AuthPhase::Authenticating { deadline, .. } => now >= deadline,
            AuthPhase::AwaitingPong { deadline, .. } => now >= deadline,
            _ => false,
        };
        if late {
            self.enter_backoff(now, jitter_per_mille);
            AuthAction::Retry
        } else {
            AuthAction::Ignore
        }
    }

    /// Time passed: start again after a wait, or look whether an answer is
    /// overdue.
    pub fn tick_with_jitter(&mut self, request_id: [u8; 16], now: i64, jitter_per_mille: i16) -> (r:
        AuthAction)
        requires
            old(self)@.phase matches AuthPhase::Backoff { until } ==> now >= until ==> now
                + AUTH_TIMEOUT_SECONDS <= i64::MAX,
        ensures
            (final(self)@, r) == step(old(self)@, AuthEvent::Tick { request_id, now, jitter_per_mille }),
    {
        if let AuthPhase::Backoff { until } = self.phase {
            if now >= until {
                self.phase = AuthPhase::Disconnected;
                return self.connected(request_id, now);
            }
        }
        self.timeout_with_jitter(now, jitter_per_mille)
    }

    /// Time passed; no jitter.
    pub fn tick(&mut self, request_id: [u8; 16], now: i64) -> (r: AuthAction)
        requires
            old(self)@.phase matches AuthPhase::Backoff { until } ==> now >= until ==> now
                + AUTH_TIMEOUT_SECONDS <= i64::MAX,
        ensures
            (final(self)@, r) == step(
                old(self)@,
                AuthEvent::Tick { request_id, now, jitter_per_mille: 0 },
            ),
    {
        self.tick_with_jitter(request_id, now, 0)
    }

    /// The connection is gone.
    pub fn disconnected(&mut self) -> (r: AuthAction)
        ensures
            (final(self)@, r) == step(old(self)@, AuthEvent::Disconnected),
    {
        let active = match self.phase {
            AuthPhase::Authenticated { .. } => true,
            AuthPhase::Authenticating { .. } => true,
            AuthPhase::AwaitingPong { .. } => true,
            _ => false,
        };
        self.phase = AuthPhase::Disconnected;
        if active {
            AuthAction::Retry
        } else {
            AuthAction::Ignore
        }
    }

    /// Whether a session is granted and served.
    pub fn ready(&self) -> (r: bool)
        ensures
            r == self@.phase is Authenticated,
    {
        match self.phase {
            AuthPhase::Authenticated { .. } => true,
            _ => false,
        }
    }

    fn enter_backoff(&mut self, now: i64, jitter_per_mille: i16)
        ensures
            final(self)@ == backed_off(old(self)@, now, jitter_per_mille),
    {
        self.attempts = self.attempts.saturating_add(1);
        let delay: i64 = delay_after(self.attempts);
        let jitter: i64 = jitter_of(delay, jitter_per_mille);
        self.phase = AuthPhase::Backoff { until: saturating_add(now, delay + jitter) };
    }
}

/// How many seconds to wait after the given number of failures in a row.
fn delay_after(attempts: u32) -> (r: i64)
    ensures
        r == backoff_delay(attempts),
{
    let mut delay: i64 = BACKOFF_BASE_SECONDS;
    let mut left: u32 = if attempts == 0 {
        0
    } else if attempts - 1 > 5 {
        5
    } else {
        attempts - 1
    };
    let ghost doublings = left;
    while left > 0
        invariant
            left <= doublings <= 5,
            doublings == left ==> delay == 1,
            doublings == left + 1 ==> delay == 2,
            doublings == left + 2 ==> delay == 4,
            doublings == left + 3 ==> delay == 8,
            doublings == left + 4 ==> delay == 16,
            doublings == left + 5 ==> delay == 32,
            1 <= delay <= 32,
        decreases left,
    {
        delay = delay * 2;
        left = left - 1;
    }
    if delay > BACKOFF_MAX_SECONDS {
        BACKOFF_MAX_SECONDS
    } else {
        delay
    }
}

/// The part of a delay that jitter adds or takes away.
fn jitter_of(delay: i64, jitter_per_mille: i16) -> (r: i64)
    requires
        0 <= delay <= 30,
    ensures
        r == backoff_jitter(delay as int, jitter_per_mille),
        -3000 <= r <= 3000,
{
    let bounded: i64 = if jitter_per_mille > 1000 {
        1000
    } else if jitter_per_mille < -1000 {
        -1000
    } else {
        jitter_per_mille as i64
    };
    let size: i64 = if bounded < 0 {
        -bounded
    } else {
        bounded
    };
    assert(0 <= delay * BACKOFF_JITTER_PER_MILLE * size <= 3_000_000) by (nonlinear_arith)
        requires
            0 <= delay <= 30,
            0 <= size <= 1000,
            BACKOFF_JITTER_PER_MILLE == 100,
    ;
    assert(delay * BACKOFF_JITTER_PER_MILLE <= 3000);
    let part: i64 = delay * BACKOFF_JITTER_PER_MILLE * size / 1000;
    assert(size == 1000 ==> delay * BACKOFF_JITTER_PER_MILLE * size / 1000 == delay * 100) by (
    nonlinear_arith)
        requires
            BACKOFF_JITTER_PER_MILLE == 100,
    ;
    if bounded < 0 {
        -part
    } else {
        part
    }
}

/// A connection that is gone takes the session and everything that was under way
/// with it, whatever that was: nothing counts as ready, and the next connection
/// signs in anew, under the number it is given and with five seconds for the
/// answer. Whether there was anything to lose is what the caller is told.
pub proof fn law_without_connection_nothing_is_ready(m: AuthModel, request_id: [u8; 16], now: i64)
    requires
        now + 5 <= i64::MAX,
    ensures
        ({
            let gone = step(m, AuthEvent::Disconnected);
            let again = step(gone.0, AuthEvent::Connected { request_id, now });
            &&& gone.0.phase == AuthPhase::Disconnected
            &&& gone.0.attempts == m.attempts
            &&& gone.1 == match m.phase {
                AuthPhase::Authenticating { .. } => AuthAction::Retry,
                AuthPhase::AwaitingPong { .. } => AuthAction::Retry,
                AuthPhase::Authenticated { .. } => AuthAction::Retry,
                AuthPhase::Disconnected => AuthAction::Ignore,
                AuthPhase::Backoff { .. } => AuthAction::Ignore,
                AuthPhase::Terminal(_) => AuthAction::Ignore,
            }
            &&& again.1 == AuthAction::Authenticate { request_id }
            &&& again.0.phase == AuthPhase::Authenticating { request_id, deadline: (now + 5) as i64 }
        }),
{
}

/// A connection signs in only where nothing is under way and nothing is decided;
/// a second connection changes nothing.
pub proof fn law_one_sign_in_at_a_time(m: AuthModel, request_id: [u8; 16], now: i64)
    requires
        m.phase != AuthPhase::Disconnected,
    ensures
        step(m, AuthEvent::Connected { request_id, now }) == (m, AuthAction::Ignore),
{
}

/// Signing in goes through: the exchange is asked, grants a session, is pinged
/// under that session, and its pong makes the session ready. What failed before
/// is forgotten.
pub proof fn law_signing_in_makes_the_session_ready(
    m: AuthModel,
    request_id: [u8; 16],
    session_id: [u8; 16],
    ping_request_id: [u8; 16],
    nonce: u64,
    connected: i64,
    granted: i64,
)
    requires
        m.phase == AuthPhase::Disconnected,
        connected + 5 <= i64::MAX,
        granted + 5 <= i64::MAX,
    ensures
        ({
            let asked = step(m, AuthEvent::Connected { request_id, now: connected });
            let pinged = step(
                asked.0,
                AuthEvent::Authenticated { request_id, session_id, ping_request_id, nonce, now: granted },
            );
            let ready = step(pinged.0, AuthEvent::Pong { request_id: ping_request_id, nonce });
            &&& asked.1 == AuthAction::Authenticate { request_id }
            &&& pinged.1 == AuthAction::Ping { request_id: ping_request_id, session_id, nonce }
            &&& pinged.0.phase == AuthPhase::AwaitingPong {
                request_id: ping_request_id,
                session_id,
                nonce,
                deadline: (granted + 5) as i64,
            }
            &&& pinged.0.attempts == m.attempts
            &&& ready.1 == AuthAction::Ready
            &&& ready.0.phase == AuthPhase::Authenticated { session_id }
            &&& ready.0.attempts == 0
        }),
{
}

/// A session is granted only to the request that is under way, and made ready
/// only by the pong with the number and the nonce of its ping.
pub proof fn law_answers_go_by_their_number(
    m: AuthModel,
    request_id: [u8; 16],
    session_id: [u8; 16],
    ping_request_id: [u8; 16],
    nonce: u64,
    now: i64,
)
    ensures
        !(m.phase matches AuthPhase::Authenticating { request_id: asked, .. } && asked == request_id)
            ==> step(
            m,
            AuthEvent::Authenticated { request_id, session_id, ping_request_id, nonce, now },
        ) == (m, AuthAction::Ignore),
        !(m.phase matches AuthPhase::AwaitingPong { request_id: asked, nonce: sent, .. } && asked
            == request_id && sent == nonce) ==> step(m, AuthEvent::Pong { request_id, nonce }) == (
            m,
            AuthAction::Ignore,
        ),
{
}

/// A refusal counts only if it names the request that is under way. Then an
/// exchange that is late, overloaded or asked too often is asked again after a
/// wait, and every other refusal is final.
pub proof fn law_refusals_are_told_apart(
    m: AuthModel,
    request_id: Option<[u8; 16]>,
    code: PublicErrorCode,
    now: i64,
)
    ensures
        ({
            let refused = step(m, AuthEvent::Rejected { request_id, code, now });
            let meant = match m.phase {
                AuthPhase::Authenticating { request_id: asked, .. } => request_id == Some(asked),
                AuthPhase::AwaitingPong { request_id: asked, .. } => request_id == Some(asked),
                _ => false,
            };
            if !meant {
                refused == (m, AuthAction::Ignore)
            } else {
                match code {
                    PublicErrorCode::ExchangeTimeout | PublicErrorCode::ExchangeOverloaded
                    | PublicErrorCode::LimitAuthRequests => refused.1 == AuthAction::Retry
                        && refused.0.phase is Backoff && (m.attempts < u32::MAX ==> refused.0.attempts
                        == m.attempts + 1),
                    _ => refused.1 == AuthAction::Terminal(code) && refused.0.phase
                        == AuthPhase::Terminal(code) && refused.0.attempts == m.attempts,
                }
            }
        }),
{
}

/// A transport that fails is tried again after a wait, whatever was under way,
/// unless the two sides do not speak the same protocol: that is final.
pub proof fn law_transport_failures_are_told_apart(
    m: AuthModel,
    code: PublicErrorCode,
    now: i64,
    jitter_per_mille: i16,
)
    ensures
        ({
            let failed = step(m, AuthEvent::TransportFailure { code, now, jitter_per_mille });
            match code {
                PublicErrorCode::ProtocolCapabilityMismatch | PublicErrorCode::ProtocolUnsupportedVersion => {
                    failed.1 == AuthAction::Terminal(code) && failed.0.phase == AuthPhase::Terminal(code)
                        && failed.0.attempts == m.attempts
                },
                _ => failed.1 == AuthAction::Retry && failed.0.phase is Backoff && (m.attempts < u32::MAX
                    ==> failed.0.attempts == m.attempts + 1),
            }
        }),
{
}

/// An answer that is not there by its deadline is given up, and waited for until
/// then: by a look at the clock as by the passing of time.
pub proof fn law_answers_have_a_deadline(
    m: AuthModel,
    deadline: i64,
    request_id: [u8; 16],
    now: i64,
    jitter_per_mille: i16,
    ticking: bool,
)
    requires
        match m.phase {
            AuthPhase::Authenticating { deadline: d, .. } => d == deadline,
            AuthPhase::AwaitingPong { deadline: d, .. } => d == deadline,
            _ => false,
        },
    ensures
        ({
            let event = if ticking {
                AuthEvent::Tick { request_id, now, jitter_per_mille }
            } else {
                AuthEvent::Timeout { now, jitter_per_mille }
            };
            let looked = step(m, event);
            if now < deadline {
                looked == (m, AuthAction::Ignore)
            } else {
                looked.1 == AuthAction::Retry && looked.0.phase is Backoff && (m.attempts < u32::MAX
                    ==> looked.0.attempts == m.attempts + 1)
            }
        }),
{
}

/// A wait ends at its time and not before: then the exchange is asked again,
/// under the number that is given, with five seconds for the answer. A look at
/// the clock alone does not end it.
pub proof fn law_waits_end_in_time(m: AuthModel, until: i64, request_id: [u8; 16], now: i64, jitter_per_mille: i16)
    requires
        m.phase == (AuthPhase::Backoff { until }),
        now + 5 <= i64::MAX,
    ensures
        ({
            let ticked = step(m, AuthEvent::Tick { request_id, now, jitter_per_mille });
            &&& now < until ==> ticked == (m, AuthAction::Ignore)
            &&& now >= until ==> ticked.1 == AuthAction::Authenticate { request_id } && ticked.0.phase
                == AuthPhase::Authenticating { request_id, deadline: (now + 5) as i64 } && ticked.0.attempts
                == m.attempts
            &&& step(m, AuthEvent::Timeout { now, jitter_per_mille }) == (m, AuthAction::Ignore)
        }),
{
}

/// The clock does nothing to a session that is ready, to what is final, and
/// where there is no connection.
pub proof fn law_time_spares_what_waits_for_nothing(
    m: AuthModel,
    request_id: [u8; 16],
    now: i64,
    jitter_per_mille: i16,
)
    requires
        m.phase is Authenticated || m.phase is Terminal || m.phase is Disconnected,
    ensures
        step(m, AuthEvent::Tick { request_id, now, jitter_per_mille }) == (m, AuthAction::Ignore),
        step(m, AuthEvent::Timeout { now, jitter_per_mille }) == (m, AuthAction::Ignore),
{
}

/// Waits double from one failure to the next: one second after the first, then
/// two, four and so on, but never more than half a minute.
pub proof fn law_waits_double(attempts: u32)
    ensures
        backoff_delay(0) == 1 && backoff_delay(1) == 1,
        1 <= attempts < u32::MAX ==> backoff_delay((attempts + 1) as u32) == if 2 * backoff_delay(attempts)
            < 30 {
            2 * backoff_delay(attempts)
        } else {
            30
        },
{
}

/// A failure at some time is waited out from that time on, for the delay that
/// belongs to the number of failures in a row; jitter moves the end by the same
/// amount to either side, in proportion.
pub proof fn law_waits_begin_with_the_failure(m: AuthModel, now: i64, jitter_per_mille: i16)
    requires
        m.attempts < u32::MAX,
        0 <= jitter_per_mille <= 1000,
        -1_000_000_000_000 <= now <= 1_000_000_000_000,
    ensures
        ({
            let attempts = (m.attempts + 1) as u32;
            let delay = backoff_delay(attempts);
            let plain = backed_off(m, now, 0);
            let later = backed_off(m, now, jitter_per_mille);
            let sooner = backed_off(m, now, (-jitter_per_mille) as i16);
            let moved = later.phase->until - plain.phase->until;
            &&& plain.phase is Backoff && later.phase is Backoff && sooner.phase is Backoff
            &&& plain.attempts == attempts && later.attempts == attempts && sooner.attempts == attempts
            &&& plain.phase->until == now + delay
            &&& plain.phase->until - sooner.phase->until == moved
            &&& 10 * moved <= delay * jitter_per_mille < 10 * moved + 10
        }),
{
    let delay = backoff_delay((m.attempts + 1) as u32);
    let j = jitter_per_mille as int;
    assert(1 <= delay <= 30);
    assert(delay * 100 * j == 100 * (delay * j)) by (nonlinear_arith);
    assert(0 <= delay * j <= 30_000) by (nonlinear_arith)
        requires
            1 <= delay <= 30,
            0 <= j <= 1000,
    ;
    assert(j == 1000 ==> delay * 100 * j == delay * 100 * 1000);
}

/// A session is made by three calls and lost by one: the connection asks the
/// exchange, its grant is pinged, the pong makes the session ready, and the end of
/// the connection ends it.
pub proof fn law_sessions_are_made_and_lost(
    a: &mut AuthState,
    request_id: [u8; 16],
    now: i64,
    asked: AuthAction,
    b: &mut AuthState,
    session_id: [u8; 16],
    ping_request_id: [u8; 16],
    nonce: u64,
    granted: AuthAction,
    c: &mut AuthState,
    ready: AuthAction,
    d: &mut AuthState,
    lost: AuthAction,
)
    requires
        call_ensures(AuthState::connected, (a, request_id, now), asked),
        call_ensures(
            AuthState::authenticated,
            (b, request_id, session_id, ping_request_id, nonce, now),
            granted,
        ),
        call_ensures(AuthState::pong, (c, ping_request_id, nonce), ready),
        call_ensures(AuthState::disconnected, (d,), lost),
        old(a)@.phase is Disconnected,
        *old(b) == *final(a),
        *old(c) == *final(b),
        *old(d) == *final(c),
        now + 5 <= i64::MAX,
    ensures
        asked == (AuthAction::Authenticate { request_id }),
        granted == (AuthAction::Ping { request_id: ping_request_id, session_id, nonce }),
        ready == AuthAction::Ready,
        final(c)@.phase == (AuthPhase::Authenticated { session_id }),
        final(c)@.attempts == 0,
        lost == AuthAction::Retry,
        final(d)@.phase is Disconnected,
{
    law_signing_in_makes_the_session_ready(old(a)@, request_id, session_id, ping_request_id, nonce, now, now);
    law_without_connection_nothing_is_ready(old(d)@, request_id, now);
}

/// Without jitter a wait is what it is with a jitter of nothing.
pub proof fn law_no_jitter_is_jitter_of_nothing(
    a: &mut AuthState,
    b: &mut AuthState,
    request_id: [u8; 16],
    code: PublicErrorCode,
    now: i64,
    plain: AuthAction,
    jittered: AuthAction,
)
    requires
        *old(a) == *old(b),
        ({
            ||| call_ensures(AuthState::timeout, (a, now), plain) && call_ensures(
                AuthState::timeout_with_jitter,
                (b, now, 0i16),
                jittered,
            )
            ||| call_ensures(AuthState::transport_failure, (a, code, now), plain) && call_ensures(
                AuthState::transport_failure_with_jitter,
                (b, code, now, 0i16),
                jittered,
            )
            ||| call_ensures(AuthState::tick, (a, request_id, now), plain) && call_ensures(
                AuthState::tick_with_jitter,
                (b, request_id, now, 0i16),
                jittered,
            )
        }),
    ensures
        plain == jittered,
        final(a)@ == final(b)@,
{
}

} // verus!
