//! The choice between a relayed and a direct connection for a stream. Times
//! are nanoseconds since a fixed origin.
use crate::peer::ConnectionId;
use crate::streams::RequestId;
use vstd::prelude::*;

verus! {

/// How long setting up a stream may take.
pub const SETUP_BUDGET: u64 = 20_000_000_000;

/// How long a direct connection is waited for once a relayed one is there.
pub const DIRECT_PREFERENCE: u64 = 1_500_000_000;

#[derive(Clone, Copy, Debug, PartialEq, Eq, Structural)]
pub struct AttemptId(pub u64);

/// The connection that was chosen.
#[derive(Clone, Copy, Debug, PartialEq, Eq, Structural)]
pub enum PathDecision {
    Direct(ConnectionId),
    Relay(ConnectionId),
}

impl PathDecision {
    /// The connection itself.
    pub open spec fn on(self) -> ConnectionId {
        match self {
            PathDecision::Direct(connection) => connection,
            PathDecision::Relay(connection) => connection,
        }
    }

    /// The connection itself.
    pub fn connection(self) -> (r: ConnectionId)
        ensures
            r == self.on(),
    {
        match self {
            PathDecision::Direct(connection) => connection,
            PathDecision::Relay(connection) => connection,
        }
    }
}

#[derive(Clone, Copy, Debug, PartialEq, Eq, Structural)]
pub enum PathFailure {
    SetupExpired,
    Cancelled,
    ConnectionClosed,
    RelayLost,
    ExactOpenFailed,
}

/// How far an attempt has come.
#[allow(inconsistent_fields)]
#[derive(Clone, Copy, Debug, PartialEq, Eq)]
pub enum PathState {
    Absent,
    RelayDialing,
    DirectWaiting { relay_id: ConnectionId, direct_deadline: u64 },
    Committed { decision: PathDecision, relay_id: Option<ConnectionId>, relay_fallback_used: bool },
    StreamOpening {
        decision: PathDecision,
        request_id: RequestId,
        relay_id: Option<ConnectionId>,
        relay_fallback_used: bool,
    },
    StreamReady { decision: PathDecision },
    Streaming { decision: PathDecision },
    Failed { reason: PathFailure },
}

#[derive(Clone, Copy, Debug, PartialEq, Eq)]
pub enum PathEventKind {
    Begin { relay: Option<ConnectionId>, direct: Option<ConnectionId> },
    RelayReady(ConnectionId),
    DirectReady(ConnectionId),
    DcutrFailed,
    DirectDeadlineElapsed,
    ExactOpenQueued { request_id: RequestId, connection: ConnectionId },
    ExactOpenRejected { connection: ConnectionId },
    ExactOpenSucceeded { request_id: RequestId, connection: ConnectionId },
    ExactOpenFailed { request_id: RequestId, connection: ConnectionId },
    PayloadAccepted,
    ConnectionClosed(ConnectionId),
    RelayLost(ConnectionId),
    Cancelled,
}

#[derive(Clone, Copy, Debug, PartialEq, Eq)]
pub struct PathEvent {
    pub attempt_id: AttemptId,
    pub now: u64,
    pub kind: PathEventKind,
}

#[derive(Clone, Copy, Debug, PartialEq, Eq)]
pub enum PathAction {
    DialRelay,
    OpenExact { connection: ConnectionId },
    CancelOpen { request_id: RequestId },
    CloseStream,
    Finish(PathFailure),
}

/// One attempt to find a connection and open a stream on it.
#[derive(Debug)]
pub struct PathAttempt {
    pub id: AttemptId,
    pub started_at: u64,
    pub setup_deadline: u64,
    pub state: PathState,
    pub relay_connection: Option<ConnectionId>,
}

/// What comes of an event: the state, the relayed connection that is known,
/// and what is to be done.
#[verifier::ext_equal]
pub struct PathOutcome {
    pub state: PathState,
    pub relay_connection: Option<ConnectionId>,
    pub actions: Seq<PathAction>,
}

/// The connection that a state has chosen.
pub open spec fn chosen(state: PathState) -> Option<PathDecision> {
    match state {
        PathState::Committed { decision, .. } => Some(decision),
        PathState::StreamOpening { decision, .. } => Some(decision),
        PathState::StreamReady { decision } => Some(decision),
        PathState::Streaming { decision } => Some(decision),
        _ => None,
    }
}

/// Whether a state cannot go on without the given relayed connection.
pub open spec fn needs_relay(state: PathState, connection: ConnectionId) -> bool {
    match state {
        PathState::DirectWaiting { relay_id, .. } => relay_id == connection,
        _ => chosen(state) == Some(PathDecision::Relay(connection)),
    }
}

/// Until when a direct connection is waited for.
pub open spec fn direct_deadline(now: u64, setup_deadline: u64) -> u64 {
    if now + DIRECT_PREFERENCE < setup_deadline {
        (now + DIRECT_PREFERENCE) as u64
    } else {
        setup_deadline
    }
}

/// What has to be cleaned up when a state is left.
pub open spec fn cleanup(state: PathState) -> Seq<PathAction> {
    match state {
        PathState::StreamOpening { request_id, .. } => seq![PathAction::CancelOpen { request_id }],
        PathState::StreamReady { .. } => seq![PathAction::CloseStream],
        PathState::Streaming { .. } => seq![PathAction::CloseStream],
        _ => Seq::empty(),
    }
}

impl PathAttempt {
    /// Nothing changes and nothing is to be done.
    pub open spec fn stays(self) -> PathOutcome {
        PathOutcome {
            state: self.state,
            relay_connection: self.relay_connection,
            actions: Seq::empty(),
        }
    }

    /// Only the state changes.
    pub open spec fn moves(self, state: PathState) -> PathOutcome {
        PathOutcome { state, relay_connection: self.relay_connection, actions: Seq::empty() }
    }

    /// The attempt fails: what it holds is cleaned up, and it is finished.
    pub open spec fn failing(self, reason: PathFailure) -> PathOutcome {
        PathOutcome {
            state: PathState::Failed { reason },
            relay_connection: self.relay_connection,
            actions: cleanup(self.state).push(PathAction::Finish(reason)),
        }
    }

    /// A connection is chosen, and a stream is opened on it.
    pub open spec fn committing(
        self,
        decision: PathDecision,
        relay: Option<ConnectionId>,
        relay_fallback_used: bool,
    ) -> PathOutcome {
        PathOutcome {
            state: PathState::Committed { decision, relay_id: relay, relay_fallback_used },
            relay_connection: relay,
            actions: seq![PathAction::OpenExact { connection: decision.on() }],
        }
    }

    /// The relayed connection is there: wait for a direct one.
    pub open spec fn waiting(self, relay: ConnectionId, now: u64) -> PathOutcome {
        PathOutcome {
            state: PathState::DirectWaiting {
                relay_id: relay,
                direct_deadline: direct_deadline(now, self.setup_deadline),
            },
            relay_connection: Some(relay),
            actions: Seq::empty(),
        }
    }

    /// The stream could not be opened: a direct connection falls back to the
    /// relayed one, once; anything else fails.
    pub open spec fn open_failing(
        self,
        decision: PathDecision,
        relay_id: Option<ConnectionId>,
        relay_fallback_used: bool,
    ) -> PathOutcome {
        match (decision, relay_id) {
            (PathDecision::Direct(_), Some(relay)) => if relay_fallback_used {
                self.failing(PathFailure::ExactOpenFailed)
            } else {
                self.committing(PathDecision::Relay(relay), self.relay_connection, true)
            },
            _ => self.failing(PathFailure::ExactOpenFailed),
        }
    }

    /// What an event of this attempt does while its time has not run out.
    pub open spec fn reacts(self, now: u64, kind: PathEventKind) -> PathOutcome {
        match kind {
            PathEventKind::Begin { relay, direct } => if !(self.state is Absent) {
                self.stays()
            } else {
                match (direct, relay) {
                    (Some(direct), _) => self.committing(PathDecision::Direct(direct), relay, false),
                    (None, Some(relay)) => self.waiting(relay, now),
                    (None, None) => PathOutcome {
                        state: PathState::RelayDialing,
                        relay_connection: None,
                        actions: seq![PathAction::DialRelay],
                    },
                }
            },
            PathEventKind::RelayReady(relay) => if self.state is RelayDialing || self.state is Absent {
                self.waiting(relay, now)
            } else {
                self.stays()
            },
            PathEventKind::DirectReady(direct) => if self.state is RelayDialing || (self.state
                matches PathState::DirectWaiting { direct_deadline, .. } && now < direct_deadline) {
                self.committing(PathDecision::Direct(direct), self.relay_connection, false)
            } else {
                self.stays()
            },
            PathEventKind::DcutrFailed => match self.state {
                PathState::DirectWaiting { relay_id, .. } => self.committing(
                    PathDecision::Relay(relay_id),
                    self.relay_connection,
                    false,
                ),
                _ => self.stays(),
            },
            PathEventKind::DirectDeadlineElapsed => match self.state {
                PathState::DirectWaiting { relay_id, direct_deadline } => if now >= direct_deadline {
                    self.committing(PathDecision::Relay(relay_id), self.relay_connection, false)
                } else {
                    self.stays()
                },
                _ => self.stays(),
            },
            PathEventKind::ExactOpenQueued { request_id, connection } => match self.state {
                PathState::Committed { decision, relay_id, relay_fallback_used } => if decision.on()
                    == connection {
                    self.moves(
                        PathState::StreamOpening { decision, request_id, relay_id, relay_fallback_used },
                    )
                } else {
                    self.stays()
                },
                _ => self.stays(),
            },
            PathEventKind::ExactOpenRejected { connection } => match self.state {
                PathState::Committed { decision, relay_id, relay_fallback_used } => if decision.on()
                    == connection {
                    self.open_failing(decision, relay_id, relay_fallback_used)
                } else {
                    self.stays()
                },
                _ => self.stays(),
            },
            PathEventKind::ExactOpenSucceeded { request_id, connection } => match self.state {
                PathState::StreamOpening { decision, request_id: expected, .. } => if expected
                    == request_id && decision.on() == connection {
                    self.moves(PathState::StreamReady { decision })
                } else {
                    self.stays()
                },
                _ => self.stays(),
            },
            PathEventKind::ExactOpenFailed { request_id, connection } => match self.state {
                PathState::StreamOpening {
                    decision,
                    request_id: expected,
                    relay_id,
                    relay_fallback_used,
                } => if expected == request_id && decision.on() == connection {
                    self.open_failing(decision, relay_id, relay_fallback_used)
                } else {
                    self.stays()
                },
                _ => self.stays(),
            },
            PathEventKind::PayloadAccepted => match self.state {
                PathState::StreamReady { decision } => self.moves(PathState::Streaming { decision }),
                _ => self.stays(),
            },
            PathEventKind::ConnectionClosed(connection) => match chosen(self.state) {
                Some(decision) => if decision.on() == connection {
                    self.failing(PathFailure::ConnectionClosed)
                } else {
                    self.stays()
                },
                None => if needs_relay(self.state, connection) {
                    self.failing(PathFailure::RelayLost)
                } else {
                    self.stays()
                },
            },
            PathEventKind::RelayLost(connection) => if needs_relay(self.state, connection) {
                self.failing(PathFailure::RelayLost)
            } else {
                self.stays()
            },
            PathEventKind::Cancelled => self.failing(PathFailure::Cancelled),
        }
    }

    /// What an event does.
    pub open spec fn outcome(self, event: PathEvent) -> PathOutcome {
        if event.attempt_id != self.id || self.state is Failed {
            self.stays()
        } else if event.now >= self.setup_deadline && !(self.state is Streaming) {
            self.failing(PathFailure::SetupExpired)
        } else {
            self.reacts(event.now, event.kind)
        }
    }

    /// The attempt after an event.
    pub open spec fn after(self, event: PathEvent) -> PathAttempt {
        let outcome = self.outcome(event);
        PathAttempt { state: outcome.state, relay_connection: outcome.relay_connection, ..self }
    }

    /// An attempt with number zero that starts now.
    pub fn new(now: u64) -> (r: Self)
        requires
            now + SETUP_BUDGET <= u64::MAX,
        ensures
            r == (PathAttempt {
                id: AttemptId(0),
                started_at: now,
                setup_deadline: (now + SETUP_BUDGET) as u64,
                state: PathState::Absent,
                relay_connection: None,
            }),
    {
        PathAttempt::with_id(AttemptId(0), now)
    }

    /// An attempt that starts now.
    pub fn with_id(id: AttemptId, now: u64) -> (r: Self)
        requires
            now + SETUP_BUDGET <= u64::MAX,
        ensures
            r == (PathAttempt {
                id,
                started_at: now,
                setup_deadline: (now + SETUP_BUDGET) as u64,
                state: PathState::Absent,
                relay_connection: None,
            }),
    {
        PathAttempt {
            id,
            started_at: now,
            setup_deadline: now + SETUP_BUDGET,
            state: PathState::Absent,
            relay_connection: None,
        }
    }

    /// Takes an event in and says what is to be done.
    pub fn apply(&mut self, event: PathEvent) -> (r: Vec<PathAction>)
        ensures
            *final(self) == old(self).after(event),
            r@ == old(self).outcome(event).actions,
    {
        if event.attempt_id != self.id {
            return Vec::new();
        }
        if let PathState::Failed { .. } = self.state {
            return Vec::new();
        }
        if event.now >= self.setup_deadline {
            match self.state {
                PathState::Streaming { .. } => {},
                _ => return self.fail(PathFailure::SetupExpired),
            }
        }
        match event.kind {
            PathEventKind::Begin { relay, direct } => self.begin(relay, direct, event.now),
            PathEventKind::RelayReady(relay) => match self.state {
                PathState::RelayDialing => self.wait_for_direct(relay, event.now),
                PathState::Absent => self.wait_for_direct(relay, event.now),
                _ => Vec::new(),
            },
            PathEventKind::DirectReady(direct) => match self.state {
                PathState::RelayDialing => self.commit_and_open(PathDecision::Direct(direct), false),
                PathState::DirectWaiting { direct_deadline, .. } => if event.now < direct_deadline {
                    self.commit_and_open(PathDecision::Direct(direct), false)
                } else {
                    Vec::new()
                },
                _ => Vec::new(),
            },
            PathEventKind::DcutrFailed => self.commit_waiting_relay(),
            PathEventKind::DirectDeadlineElapsed => match self.state {
                PathState::DirectWaiting { direct_deadline, .. } => if event.now >= direct_deadline {
                    self.commit_waiting_relay()
                } else {
                    Vec::new()
                },
                _ => Vec::new(),
            },
            PathEventKind::ExactOpenQueued { request_id, connection } => {
                if let PathState::Committed { decision, relay_id, relay_fallback_used } = self.state {
                    if decision.connection() == connection {
                        self.state =
                        PathState::StreamOpening { decision, request_id, relay_id, relay_fallback_used };
                    }
                }
                Vec::new()
            },
            PathEventKind::ExactOpenRejected { connection } => self.reject_committed_open(connection),
            PathEventKind::ExactOpenSucceeded { request_id, connection } => {
                if let PathState::StreamOpening { decision, request_id: expected, .. } = self.state {
                    if expected == request_id && decision.connection() == connection {
                        self.state = PathState::StreamReady { decision };
                    }
                }
                Vec::new()
            },
            PathEventKind::ExactOpenFailed { request_id, connection } => match self.state {
                PathState::StreamOpening {
                    decision,
                    request_id: expected,
                    relay_id,
                    relay_fallback_used,
                } => if expected == request_id && decision.connection() == connection {
                    self.handle_open_failure(decision, relay_id, relay_fallback_used)
                } else {
                    Vec::new()
                },
                _ => Vec::new(),
            },
            PathEventKind::PayloadAccepted => {
                if let PathState::StreamReady { decision } = self.state {
                    self.state = PathState::Streaming { decision };
                }
                Vec::new()
            },
            PathEventKind::ConnectionClosed(connection) => self.connection_closed(connection),
            PathEventKind::RelayLost(connection) => if self.relay_is_required(connection) {
                self.fail(PathFailure::RelayLost)
            } else {
                Vec::new()
            },
            PathEventKind::Cancelled => self.fail(PathFailure::Cancelled),
        }
    }

    /// Whether the time for setting up has run out.
    pub fn expired(&self, now: u64) -> (r: bool)
        ensures
            r == (now >= self.setup_deadline),
    {
        now >= self.setup_deadline
    }

    fn begin(&mut self, relay: Option<ConnectionId>, direct: Option<ConnectionId>, now: u64) -> (r: Vec<
        PathAction,
    >)
        requires
            now < old(self).setup_deadline || !(old(self).state is Absent),
        ensures
            ({
                let outcome = old(self).reacts(now, PathEventKind::Begin { relay, direct });
                *final(self) == (PathAttempt {
                    state: outcome.state,
                    relay_connection: outcome.relay_connection,
                    ..*old(self)
                }) && r@ == outcome.actions
            }),
    {
        match self.state {
            PathState::Absent => {},
            _ => return Vec::new(),
        }
        self.relay_connection = relay;
        match direct {
            Some(direct) => self.commit_and_open(PathDecision::Direct(direct), false),
            None => match relay {
                Some(relay) => self.wait_for_direct(relay, now),
                None => {
                    self.state = PathState::RelayDialing;
                    let actions = vec![PathAction::DialRelay];
                    assert(actions@ =~= seq![PathAction::DialRelay]);
                    actions
                },
            },
        }
    }

    fn wait_for_direct(&mut self, relay_id: ConnectionId, now: u64) -> (r: Vec<PathAction>)
        requires
            now < old(self).setup_deadline,
        ensures
            *final(self) == (PathAttempt {
                state: old(self).waiting(relay_id, now).state,
                relay_connection: Some(relay_id),
                ..*old(self)
            }),
            r@ == Seq::<PathAction>::empty(),
    {
        let direct_deadline: u64 = if self.setup_deadline - now > DIRECT_PREFERENCE {
            now + DIRECT_PREFERENCE
        } else {
            self.setup_deadline
        };
        self.relay_connection = Some(relay_id);
        self.state = PathState::DirectWaiting { relay_id, direct_deadline };
        Vec::new()
    }

    fn commit_waiting_relay(&mut self) -> (r: Vec<PathAction>)
        ensures
            ({
                let outcome = old(self).reacts(0, PathEventKind::DcutrFailed);
                *final(self) == (PathAttempt { state: outcome.state, ..*old(self) }) && r@ == outcome.actions
            }),
    {
        match self.state {
            PathState::DirectWaiting { relay_id, .. } => self.commit_and_open(
                PathDecision::Relay(relay_id),
                false,
            ),
            _ => Vec::new(),
        }
    }

    fn commit_and_open(&mut self, decision: PathDecision, relay_fallback_used: bool) -> (r: Vec<PathAction>)
        ensures
            ({
                let outcome = old(self).committing(
                    decision,
                    old(self).relay_connection,
                    relay_fallback_used,
                );
                *final(self) == (PathAttempt { state: outcome.state, ..*old(self) }) && r@ == outcome.actions
            }),
    {
        self.state =
        PathState::Committed { decision, relay_id: self.relay_connection, relay_fallback_used };
        let actions = vec![PathAction::OpenExact { connection: decision.connection() }];
        assert(actions@ =~= seq![PathAction::OpenExact { connection: decision.on() }]);
        actions
    }

    fn reject_committed_open(&mut self, connection: ConnectionId) -> (r: Vec<PathAction>)
        ensures
            ({
                let outcome = old(self).reacts(0, PathEventKind::ExactOpenRejected { connection });
                *final(self) == (PathAttempt { state: outcome.state, ..*old(self) }) && r@ == outcome.actions
            }),
    {
        match self.state {
            PathState::Committed { decision, relay_id, relay_fallback_used } => if decision.connection()
                == connection {
                self.handle_open_failure(decision, relay_id, relay_fallback_used)
            } else {
                Vec::new()
            },
            _ => Vec::new(),
        }
    }

    fn handle_open_failure(
        &mut self,
        decision: PathDecision,
        relay_id: Option<ConnectionId>,
        relay_fallback_used: bool,
    ) -> (r: Vec<PathAction>)
        requires
            !(old(self).state is Failed),
        ensures
            ({
                let outcome = old(self).open_failing(decision, relay_id, relay_fallback_used);
                *final(self) == (PathAttempt { state: outcome.state, ..*old(self) }) && r@ == outcome.actions
            }),
    {
        if !relay_fallback_used {
            if let PathDecision::Direct(_) = decision {
                if let Some(relay) = relay_id {
                    return self.commit_and_open(PathDecision::Relay(relay), true);
                }
            }
        }
        self.fail(PathFailure::ExactOpenFailed)
    }

    fn connection_closed(&mut self, connection: ConnectionId) -> (r: Vec<PathAction>)
        requires
            !(old(self).state is Failed),
        ensures
            ({
                let outcome = old(self).reacts(0, PathEventKind::ConnectionClosed(connection));
                *final(self) == (PathAttempt { state: outcome.state, ..*old(self) }) && r@ == outcome.actions
            }),
    {
        match self.selected_connection() {
            Some(selected) => if selected == connection {
                self.fail(PathFailure::ConnectionClosed)
            } else {
                Vec::new()
            },
            None => match self.state {
                PathState::DirectWaiting { relay_id, .. } => if relay_id == connection {
                    self.fail(PathFailure::RelayLost)
                } else {
                    Vec::new()
                },
                _ => Vec::new(),
            },
        }
    }

    fn selected_connection(&self) -> (r: Option<ConnectionId>)
        ensures
            r == match chosen(self.state) {
                Some(decision) => Some(decision.on()),
                None => None,
            },
    {
        match self.state {
            PathState::Committed { decision, .. } => Some(decision.connection()),
            PathState::StreamOpening { decision, .. } => Some(decision.connection()),
            PathState::StreamReady { decision } => Some(decision.connection()),
            PathState::Streaming { decision } => Some(decision.connection()),
            _ => None,
        }
    }

    fn relay_is_required(&self, connection: ConnectionId) -> (r: bool)
        ensures
            r == needs_relay(self.state, connection),
    {
        let decision = match self.state {
            PathState::DirectWaiting { relay_id, .. } => return relay_id == connection,
            PathState::Committed { decision, .. } => decision,
            PathState::StreamOpening { decision, .. } => decision,
            PathState::StreamReady { decision } => decision,
            PathState::Streaming { decision } => decision,
            _ => return false,
        };
        match decision {
            PathDecision::Relay(relay) => relay == connection,
            PathDecision::Direct(_) => false,
        }
    }

    fn fail(&mut self, reason: PathFailure) -> (r: Vec<PathAction>)
        requires
            !(old(self).state is Failed),
        ensures
            *final(self) == (PathAttempt { state: PathState::Failed { reason }, ..*old(self) }),
            r@ == old(self).failing(reason).actions,
    {
        let mut actions: Vec<PathAction> = Vec::new();
        match self.state {
            PathState::StreamOpening { request_id, .. } => actions.push(
                PathAction::CancelOpen { request_id },
            ),
            PathState::StreamReady { .. } => actions.push(PathAction::CloseStream),
            PathState::Streaming { .. } => actions.push(PathAction::CloseStream),
            _ => {},
        }
        assert(actions@ =~= cleanup(self.state));
        self.state = PathState::Failed { reason };
        actions.push(PathAction::Finish(reason));
        actions
    }
}

/// An attempt that failed stays as it is, and nothing more is done for it.
pub proof fn law_failure_is_final(attempt: PathAttempt, event: PathEvent)
    requires
        attempt.state is Failed,
    ensures
        attempt.after(event) == attempt,
        attempt.outcome(event).actions.len() == 0,
{
}

/// An event of another attempt changes nothing.
pub proof fn law_events_of_other_attempts_are_ignored(attempt: PathAttempt, event: PathEvent)
    requires
        event.attempt_id != attempt.id,
    ensures
        attempt.after(event) == attempt,
        attempt.outcome(event).actions.len() == 0,
{
}

/// An attempt is finished exactly when it fails, once, after its cleanup.
pub proof fn law_finish_comes_with_failure(attempt: PathAttempt, event: PathEvent)
    ensures
        ({
            let actions = attempt.outcome(event).actions;
            let fails = !(attempt.state is Failed) && attempt.after(event).state is Failed;
            (fails ==> actions == cleanup(attempt.state).push(
                PathAction::Finish(attempt.after(event).state->reason),
            )) && (!fails ==> forall|i: int|
                0 <= i < actions.len() ==> !((#[trigger] actions[i]) is Finish))
        }),
{
}

/// Once its time has run out, an attempt that is not streaming fails with the
/// next event, whatever that is.
pub proof fn law_setup_expires(attempt: PathAttempt, event: PathEvent)
    requires
        event.attempt_id == attempt.id,
        !(attempt.state is Failed),
        !(attempt.state is Streaming),
        event.now >= attempt.setup_deadline,
    ensures
        attempt.after(event).state == (PathState::Failed { reason: PathFailure::SetupExpired }),
{
}

/// The loss of a relayed connection does not touch an attempt that has chosen
/// a direct one, while its time has not run out or it is streaming.
pub proof fn law_relay_loss_spares_direct(attempt: PathAttempt, event: PathEvent, relay: ConnectionId)
    requires
        event.kind == PathEventKind::RelayLost(relay),
        chosen(attempt.state) matches Some(PathDecision::Direct(_)),
        event.now < attempt.setup_deadline || attempt.state is Streaming,
    ensures
        attempt.after(event) == attempt,
        attempt.outcome(event).actions.len() == 0,
{
}

/// A choice is kept until the attempt fails, but for one change: from a direct
/// connection to the relayed one, and that is marked, so that it cannot happen
/// again.
pub proof fn law_a_choice_changes_at_most_once(attempt: PathAttempt, event: PathEvent)
    requires
        chosen(attempt.state) is Some,
        chosen(attempt.after(event).state) is Some,
    ensures
        chosen(attempt.after(event).state) == chosen(attempt.state) || (chosen(
            attempt.state,
        ) matches Some(PathDecision::Direct(_)) && chosen(attempt.after(event).state) matches Some(
            PathDecision::Relay(_),
        ) && attempt.after(event).state matches PathState::Committed { relay_fallback_used, .. }
            && relay_fallback_used),
{
}

/// A stream is opened on a connection only by choosing that connection.
pub proof fn law_opens_follow_choices(attempt: PathAttempt, event: PathEvent, i: int)
    requires
        0 <= i < attempt.outcome(event).actions.len(),
        attempt.outcome(event).actions[i] is OpenExact,
    ensures
        attempt.after(event).state matches PathState::Committed { decision, .. } && attempt.outcome(
            event,
        ).actions[i] == (PathAction::OpenExact { connection: decision.on() }),
{
}

/// How many streams are to be opened among actions.
pub open spec fn opens(actions: Seq<PathAction>) -> nat
    decreases actions.len(),
{
    if actions.len() == 0 {
        0
    } else {
        opens(actions.drop_last()) + if actions.last() is OpenExact {
            1nat
        } else {
            0nat
        }
    }
}

/// How often an attempt is finished among actions.
pub open spec fn finishes(actions: Seq<PathAction>) -> nat
    decreases actions.len(),
{
    if actions.len() == 0 {
        0
    } else {
        finishes(actions.drop_last()) + if actions.last() is Finish {
            1nat
        } else {
            0nat
        }
    }
}

impl PathAttempt {
    /// The attempt after some events.
    pub open spec fn after_events(self, events: Seq<PathEvent>) -> PathAttempt
        decreases events.len(),
    {
        if events.len() == 0 {
            self
        } else {
            self.after_events(events.drop_last()).after(events.last())
        }
    }

    /// What is to be done because of some events.
    pub open spec fn actions_for(self, events: Seq<PathEvent>) -> Seq<PathAction>
        decreases events.len(),
    {
        if events.len() == 0 {
            Seq::empty()
        } else {
            self.actions_for(events.drop_last()) + self.after_events(events.drop_last()).outcome(
                events.last(),
            ).actions
        }
    }

    /// How many streams can still be opened: one on a direct connection and one
    /// on the relayed connection.
    pub open spec fn opens_left(self) -> nat {
        match self.state {
            PathState::Committed { decision: PathDecision::Direct(_), relay_fallback_used: false, .. } =>
                1,
            PathState::StreamOpening {
                decision: PathDecision::Direct(_),
                relay_fallback_used: false,
                ..
            } => 1,
            PathState::Absent => 2,
            PathState::RelayDialing => 2,
            PathState::DirectWaiting { .. } => 2,
            _ => 0,
        }
    }
}

proof fn lemma_counts_add(a: Seq<PathAction>, b: Seq<PathAction>)
    ensures
        opens(a + b) == opens(a) + opens(b),
        finishes(a + b) == finishes(a) + finishes(b),
    decreases b.len(),
{
    if b.len() == 0 {
        assert(a + b =~= a);
    } else {
        assert((a + b).drop_last() =~= a + b.drop_last());
        lemma_counts_add(a, b.drop_last());
    }
}

proof fn lemma_event_counts(attempt: PathAttempt, event: PathEvent)
    ensures
        opens(attempt.outcome(event).actions) + attempt.after(event).opens_left()
            <= attempt.opens_left(),
        finishes(attempt.outcome(event).actions) == if !(attempt.state is Failed) && attempt.after(
            event,
        ).state is Failed {
            1nat
        } else {
            0nat
        },
        attempt.state is Failed ==> attempt.after(event) == attempt,
{
    reveal_with_fuel(opens, 3);
    reveal_with_fuel(finishes, 3);
    let actions = attempt.outcome(event).actions;
    if !(attempt.state is Failed) && attempt.after(event).state is Failed {
        law_finish_comes_with_failure(attempt, event);
        assert(actions.drop_last() =~= cleanup(attempt.state));
    }
}

/// Whatever happens, an attempt opens at most two streams, and at most one more
/// once it has chosen a connection. It is finished at most once, and exactly if
/// it has failed by then; from then on nothing changes.
pub proof fn law_attempts_are_bounded(attempt: PathAttempt, events: Seq<PathEvent>)
    ensures
        opens(attempt.actions_for(events)) + attempt.after_events(events).opens_left()
            <= attempt.opens_left() <= 2,
        !(attempt.state is Failed) ==> finishes(attempt.actions_for(events)) == if attempt.after_events(
            events,
        ).state is Failed {
            1nat
        } else {
            0nat
        },
        attempt.state is Failed ==> attempt.after_events(events) == attempt && attempt.actions_for(
            events,
        ).len() == 0,
    decreases events.len(),
{
    if events.len() > 0 {
        let before = events.drop_last();
        law_attempts_are_bounded(attempt, before);
        lemma_event_counts(attempt.after_events(before), events.last());
        lemma_counts_add(
            attempt.actions_for(before),
            attempt.after_events(before).outcome(events.last()).actions,
        );
    }
}

/// A direct connection that comes while it is waited for is used: the stream is
/// opened on it and on nothing else, and the relayed connection that is known
/// is kept to fall back on.
pub proof fn law_direct_in_time_is_used(attempt: PathAttempt, now: u64, direct: ConnectionId)
    requires
        now < attempt.setup_deadline,
        attempt.state is RelayDialing || (attempt.state matches PathState::DirectWaiting {
            direct_deadline,
            ..
        } && now < direct_deadline),
    ensures
        ({
            let event = PathEvent {
                attempt_id: attempt.id,
                now,
                kind: PathEventKind::DirectReady(direct),
            };
            &&& attempt.after(event) == (PathAttempt {
                state: PathState::Committed {
                    decision: PathDecision::Direct(direct),
                    relay_id: attempt.relay_connection,
                    relay_fallback_used: false,
                },
                ..attempt
            })
            &&& attempt.outcome(event).actions == seq![PathAction::OpenExact { connection: direct }]
        }),
{
}

/// A direct connection that comes too late, or once a connection is chosen,
/// changes nothing: one stream is never moved to another connection that way.
pub proof fn law_direct_too_late_is_not_used(attempt: PathAttempt, now: u64, direct: ConnectionId)
    requires
        now < attempt.setup_deadline || attempt.state is Streaming,
        !(attempt.state is RelayDialing),
        attempt.state matches PathState::DirectWaiting { direct_deadline, .. } ==> now >= direct_deadline,
    ensures
        ({
            let event = PathEvent {
                attempt_id: attempt.id,
                now,
                kind: PathEventKind::DirectReady(direct),
            };
            attempt.after(event) == attempt && attempt.outcome(event).actions.len() == 0
        }),
{
}

/// An attempt begins once, with what there is: a direct connection is opened at
/// once, whether or not there is a relayed one beside it; a relayed connection
/// alone is kept while a direct one is waited for; without either the relay is
/// dialed.
pub proof fn law_attempts_begin_with_the_best_there_is(
    attempt: PathAttempt,
    now: u64,
    relay: Option<ConnectionId>,
    direct: Option<ConnectionId>,
)
    requires
        now < attempt.setup_deadline,
        attempt.state is Absent,
    ensures
        ({
            let event = PathEvent {
                attempt_id: attempt.id,
                now,
                kind: PathEventKind::Begin { relay, direct },
            };
            let after = attempt.after(event);
            let actions = attempt.outcome(event).actions;
            &&& after.relay_connection == relay
            &&& direct matches Some(connection) ==> after.state == (PathState::Committed {
                decision: PathDecision::Direct(connection),
                relay_id: relay,
                relay_fallback_used: false,
            }) && actions == seq![PathAction::OpenExact { connection }]
            &&& direct is None && relay is Some ==> (after.state matches PathState::DirectWaiting {
                relay_id,
                ..
            } && Some(relay_id) == relay) && actions.len() == 0
            &&& direct is None && relay is None ==> after.state is RelayDialing && actions
                == seq![PathAction::DialRelay]
        }),
{
}

/// What has begun does not begin again.
pub proof fn law_attempts_begin_once(
    attempt: PathAttempt,
    now: u64,
    relay: Option<ConnectionId>,
    direct: Option<ConnectionId>,
)
    requires
        now < attempt.setup_deadline || attempt.state is Streaming,
        !(attempt.state is Absent),
    ensures
        ({
            let event = PathEvent {
                attempt_id: attempt.id,
                now,
                kind: PathEventKind::Begin { relay, direct },
            };
            attempt.after(event) == attempt && attempt.outcome(event).actions.len() == 0
        }),
{
}

/// From the moment a relayed connection is there, a direct one is waited for a
/// second and a half, or until the time for setting up is over if that comes
/// first.
pub proof fn law_direct_is_waited_for(attempt: PathAttempt, now: u64, relay: ConnectionId, told_at_begin: bool)
    requires
        now < attempt.setup_deadline,
        attempt.state is Absent || (attempt.state is RelayDialing && !told_at_begin),
    ensures
        ({
            let event = PathEvent {
                attempt_id: attempt.id,
                now,
                kind: if told_at_begin {
                    PathEventKind::Begin { relay: Some(relay), direct: None }
                } else {
                    PathEventKind::RelayReady(relay)
                },
            };
            let after = attempt.after(event);
            &&& after.relay_connection == Some(relay)
            &&& after.state matches PathState::DirectWaiting { relay_id, direct_deadline } && relay_id
                == relay && direct_deadline <= attempt.setup_deadline && direct_deadline <= now
                + 1_500_000_000 && (direct_deadline == attempt.setup_deadline || direct_deadline == now
                + 1_500_000_000)
            &&& attempt.outcome(event).actions.len() == 0
        }),
{
}

/// A relayed connection is taken while none is known; later ones change
/// nothing.
pub proof fn law_the_first_relay_is_kept(attempt: PathAttempt, now: u64, relay: ConnectionId)
    requires
        now < attempt.setup_deadline || attempt.state is Streaming,
        !(attempt.state is Absent),
        !(attempt.state is RelayDialing),
    ensures
        ({
            let event = PathEvent { attempt_id: attempt.id, now, kind: PathEventKind::RelayReady(relay) };
            attempt.after(event) == attempt && attempt.outcome(event).actions.len() == 0
        }),
{
}

/// Whoever waits for a direct connection takes the relayed one as soon as the
/// direct one is known to fail or its time is over, and not before.
pub proof fn law_waiting_ends_with_the_relay(attempt: PathAttempt, now: u64, failed: bool)
    requires
        now < attempt.setup_deadline,
        attempt.state is DirectWaiting,
    ensures
        ({
            let event = PathEvent {
                attempt_id: attempt.id,
                now,
                kind: if failed {
                    PathEventKind::DcutrFailed
                } else {
                    PathEventKind::DirectDeadlineElapsed
                },
            };
            let relay = attempt.state->DirectWaiting_relay_id;
            if failed || now >= attempt.state->direct_deadline {
                &&& attempt.after(event) == (PathAttempt {
                    state: PathState::Committed {
                        decision: PathDecision::Relay(relay),
                        relay_id: attempt.relay_connection,
                        relay_fallback_used: false,
                    },
                    ..attempt
                })
                &&& attempt.outcome(event).actions == seq![PathAction::OpenExact { connection: relay }]
            } else {
                attempt.after(event) == attempt && attempt.outcome(event).actions.len() == 0
            }
        }),
{
}

/// That a direct connection fails or is late matters only to an attempt that
/// waits for one.
pub proof fn law_only_waiting_ends(attempt: PathAttempt, now: u64, failed: bool)
    requires
        now < attempt.setup_deadline || attempt.state is Streaming,
        !(attempt.state is DirectWaiting),
    ensures
        ({
            let event = PathEvent {
                attempt_id: attempt.id,
                now,
                kind: if failed {
                    PathEventKind::DcutrFailed
                } else {
                    PathEventKind::DirectDeadlineElapsed
                },
            };
            attempt.after(event) == attempt && attempt.outcome(event).actions.len() == 0
        }),
{
}

/// A stream on the chosen connection comes into being step by step: it is asked
/// for under a number, that number succeeds, and data is accepted. The choice
/// stays the same all the way, and nothing else is to be done.
pub proof fn law_streams_open_step_by_step(
    attempt: PathAttempt,
    decision: PathDecision,
    connection: ConnectionId,
    request_id: RequestId,
    asked: u64,
    opened: u64,
    used: u64,
)
    requires
        asked < attempt.setup_deadline,
        opened < attempt.setup_deadline,
        used < attempt.setup_deadline,
        attempt.state matches PathState::Committed { decision: d, .. } && d == decision,
        decision == PathDecision::Direct(connection) || decision == PathDecision::Relay(connection),
    ensures
        ({
            let queued = PathEvent {
                attempt_id: attempt.id,
                now: asked,
                kind: PathEventKind::ExactOpenQueued { request_id, connection },
            };
            let succeeded = PathEvent {
                attempt_id: attempt.id,
                now: opened,
                kind: PathEventKind::ExactOpenSucceeded { request_id, connection },
            };
            let accepted = PathEvent {
                attempt_id: attempt.id,
                now: used,
                kind: PathEventKind::PayloadAccepted,
            };
            let opening = attempt.after(queued);
            let ready = opening.after(succeeded);
            let streaming = ready.after(accepted);
            &&& opening.state == (PathState::StreamOpening {
                decision,
                request_id,
                relay_id: attempt.state->Committed_relay_id,
                relay_fallback_used: attempt.state->Committed_relay_fallback_used,
            })
            &&& ready.state == (PathState::StreamReady { decision })
            &&& streaming.state == (PathState::Streaming { decision })
            &&& streaming.relay_connection == attempt.relay_connection
            &&& attempt.outcome(queued).actions.len() == 0
            &&& opening.outcome(succeeded).actions.len() == 0
            &&& ready.outcome(accepted).actions.len() == 0
        }),
{
}

/// What is reported of a stream on another connection or under another number
/// changes nothing.
pub proof fn law_reports_of_other_streams_are_ignored(
    attempt: PathAttempt,
    now: u64,
    request_id: RequestId,
    connection: ConnectionId,
)
    requires
        now < attempt.setup_deadline,
    ensures
        ({
            let event = |kind: PathEventKind| PathEvent { attempt_id: attempt.id, now, kind };
            let ignored = |kind: PathEventKind|
                attempt.after(event(kind)) == attempt && attempt.outcome(event(kind)).actions.len() == 0;
            let queued = PathEventKind::ExactOpenQueued { request_id, connection };
            let rejected = PathEventKind::ExactOpenRejected { connection };
            let succeeded = PathEventKind::ExactOpenSucceeded { request_id, connection };
            let failed = PathEventKind::ExactOpenFailed { request_id, connection };
            &&& match attempt.state {
                PathState::Committed { decision, .. } => decision != PathDecision::Direct(connection)
                    && decision != PathDecision::Relay(connection),
                _ => true,
            } ==> ignored(queued) && (attempt.state is Failed || ignored(rejected))
            &&& match attempt.state {
                PathState::StreamOpening { decision, request_id: asked, .. } => asked != request_id || (
                decision != PathDecision::Direct(connection) && decision != PathDecision::Relay(
                    connection,
                )),
                _ => true,
            } ==> ignored(succeeded) && ignored(failed)
            &&& !(attempt.state is StreamReady) ==> ignored(PathEventKind::PayloadAccepted)
        }),
{
}

/// If the stream cannot be opened on a direct connection while a relayed one is
/// known and was not fallen back on, the relayed one is opened, and that is the
/// last resort: the same on the relayed connection ends the attempt.
pub proof fn law_a_failed_open_falls_back_to_the_relay_once(
    attempt: PathAttempt,
    now: u64,
    decision: PathDecision,
    connection: ConnectionId,
    relay_id: Option<ConnectionId>,
    relay_fallback_used: bool,
    request_id: Option<RequestId>,
)
    requires
        now < attempt.setup_deadline,
        decision == PathDecision::Direct(connection) || decision == PathDecision::Relay(connection),
        attempt.state == match request_id {
            Some(request_id) => PathState::StreamOpening {
                decision,
                request_id,
                relay_id,
                relay_fallback_used,
            },
            None => PathState::Committed { decision, relay_id, relay_fallback_used },
        },
    ensures
        ({
            let event = PathEvent {
                attempt_id: attempt.id,
                now,
                kind: match request_id {
                    Some(request_id) => PathEventKind::ExactOpenFailed { request_id, connection },
                    None => PathEventKind::ExactOpenRejected { connection },
                },
            };
            let after = attempt.after(event);
            let actions = attempt.outcome(event).actions;
            &&& after.relay_connection == attempt.relay_connection
            &&& if decision == PathDecision::Direct(connection) && relay_id is Some && !relay_fallback_used {
                &&& after.state == (PathState::Committed {
                    decision: PathDecision::Relay(relay_id->Some_0),
                    relay_id: attempt.relay_connection,
                    relay_fallback_used: true,
                })
                &&& actions == seq![PathAction::OpenExact { connection: relay_id->Some_0 }]
            } else {
                &&& after.state == (PathState::Failed { reason: PathFailure::ExactOpenFailed })
                &&& actions.last() == PathAction::Finish(PathFailure::ExactOpenFailed)
            }
        }),
{
}

/// A connection that closes ends the attempt that has chosen it, and one that
/// has nothing else to wait with; other connections may close.
pub proof fn law_attempts_end_with_their_connection(attempt: PathAttempt, now: u64, connection: ConnectionId)
    requires
        now < attempt.setup_deadline || attempt.state is Streaming,
        !(attempt.state is Failed),
    ensures
        ({
            let event = PathEvent {
                attempt_id: attempt.id,
                now,
                kind: PathEventKind::ConnectionClosed(connection),
            };
            let uses = |decision: PathDecision|
                decision == PathDecision::Direct(connection) || decision == PathDecision::Relay(connection);
            let reason = match attempt.state {
                PathState::Committed { decision, .. } => if uses(decision) {
                    Some(PathFailure::ConnectionClosed)
                } else {
                    None
                },
                PathState::StreamOpening { decision, .. } => if uses(decision) {
                    Some(PathFailure::ConnectionClosed)
                } else {
                    None
                },
                PathState::StreamReady { decision } => if uses(decision) {
                    Some(PathFailure::ConnectionClosed)
                } else {
                    None
                },
                PathState::Streaming { decision } => if uses(decision) {
                    Some(PathFailure::ConnectionClosed)
                } else {
                    None
                },
                PathState::DirectWaiting { relay_id, .. } => if relay_id == connection {
                    Some(PathFailure::RelayLost)
                } else {
                    None
                },
                _ => None,
            };
            match reason {
                Some(reason) => attempt.after(event).state == (PathState::Failed { reason }),
                None => attempt.after(event) == attempt && attempt.outcome(event).actions.len() == 0,
            }
        }),
{
}

/// The loss of a relayed connection ends the attempt that has chosen it or
/// waits with it, and no other.
pub proof fn law_attempts_end_with_the_relay_they_need(attempt: PathAttempt, now: u64, relay: ConnectionId)
    requires
        now < attempt.setup_deadline || attempt.state is Streaming,
        !(attempt.state is Failed),
    ensures
        ({
            let event = PathEvent { attempt_id: attempt.id, now, kind: PathEventKind::RelayLost(relay) };
            let needed = match attempt.state {
                PathState::DirectWaiting { relay_id, .. } => relay_id == relay,
                PathState::Committed { decision, .. } => decision == PathDecision::Relay(relay),
                PathState::StreamOpening { decision, .. } => decision == PathDecision::Relay(relay),
                PathState::StreamReady { decision } => decision == PathDecision::Relay(relay),
                PathState::Streaming { decision } => decision == PathDecision::Relay(relay),
                _ => false,
            };
            if needed {
                attempt.after(event).state == (PathState::Failed { reason: PathFailure::RelayLost })
            } else {
                attempt.after(event) == attempt && attempt.outcome(event).actions.len() == 0
            }
        }),
{
}

/// Whoever calls an attempt off ends it, unless it ended before.
pub proof fn law_attempts_can_be_called_off(attempt: PathAttempt, now: u64)
    requires
        now < attempt.setup_deadline || attempt.state is Streaming,
        !(attempt.state is Failed),
    ensures
        attempt.after(
            PathEvent { attempt_id: attempt.id, now, kind: PathEventKind::Cancelled },
        ).state == (PathState::Failed { reason: PathFailure::Cancelled }),
{
}

/// An attempt that ends leaves nothing behind: a stream that was asked for is
/// called off under its number, one that is open is closed, and the end is
/// reported last.
pub proof fn law_ended_attempts_leave_nothing_behind(attempt: PathAttempt, event: PathEvent)
    requires
        !(attempt.state is Failed),
        attempt.after(event).state is Failed,
    ensures
        ({
            let finish = PathAction::Finish(attempt.after(event).state->reason);
            attempt.outcome(event).actions == match attempt.state {
                PathState::StreamOpening { request_id, .. } => seq![
                    PathAction::CancelOpen { request_id },
                    finish,
                ],
                PathState::StreamReady { .. } => seq![PathAction::CloseStream, finish],
                PathState::Streaming { .. } => seq![PathAction::CloseStream, finish],
                _ => seq![finish],
            }
        }),
{
}

/// The limit on setting up does not end a stream that carries data.
pub proof fn law_streams_outlive_the_setup_limit(attempt: PathAttempt, event: PathEvent)
    requires
        attempt.state is Streaming,
        !(event.kind is ConnectionClosed),
        !(event.kind is RelayLost),
        !(event.kind is Cancelled),
    ensures
        attempt.after(event) == attempt,
        attempt.outcome(event).actions.len() == 0,
{
}

/// Events change how far an attempt has come and which relayed connection it
/// knows, never which attempt it is or how long it may take.
pub proof fn law_attempts_keep_their_limits(attempt: PathAttempt, event: PathEvent)
    ensures
        attempt.after(event).id == attempt.id,
        attempt.after(event).started_at == attempt.started_at,
        attempt.after(event).setup_deadline == attempt.setup_deadline,
{
}

/// An attempt begins with nothing, and has twenty seconds.
pub proof fn law_attempts_begin_with_nothing(id: AttemptId, now: u64, r: PathAttempt, later: u64, over: bool)
    requires
        call_ensures(PathAttempt::with_id, (id, now), r),
        call_ensures(PathAttempt::expired, (&r, later), over),
        now + 20_000_000_000 <= u64::MAX,
    ensures
        r.id == id,
        r.started_at == now,
        r.state is Absent,
        r.relay_connection is None,
        over <==> later >= now + 20_000_000_000,
{
}

/// What is told to an attempt has its effect: a direct connection in time is
/// opened and nothing else is done, and one too late does nothing.
pub proof fn law_direct_connections_count_in_time(
    attempt: &mut PathAttempt,
    now: u64,
    direct: ConnectionId,
    r: Vec<PathAction>,
)
    requires
        call_ensures(
            PathAttempt::apply,
            (
                attempt,
                PathEvent { attempt_id: old(attempt).id, now, kind: PathEventKind::DirectReady(direct) },
            ),
            r,
        ),
        now < old(attempt).setup_deadline,
        old(attempt).state is DirectWaiting,
    ensures
        now < old(attempt).state->direct_deadline ==> {
            &&& r@ == seq![PathAction::OpenExact { connection: direct }]
            &&& final(attempt).state matches PathState::Committed { decision, .. }
            &&& decision == PathDecision::Direct(direct)
        },
        now >= old(attempt).state->direct_deadline ==> r@.len() == 0 && *final(attempt) == *old(attempt),
{
    if now < old(attempt).state->direct_deadline {
        law_direct_in_time_is_used(*old(attempt), now, direct);
    } else {
        law_direct_too_late_is_not_used(*old(attempt), now, direct);
    }
}

} // verus!
