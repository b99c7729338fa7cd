//! The reservation of a circuit at the exchange. Times are nanoseconds since a
//! fixed origin, delays are nanoseconds.
use crate::address::Address;
use crate::peer::{ConnectionId, ListenerId, PeerId};
use vstd::prelude::*;

verus! {

/// The wait before the first retry.
pub const INITIAL_RETRY: u64 = 250_000_000;

/// The longest wait before a retry, jitter aside.
pub const MAX_RETRY: u64 = 10_000_000_000;

/// The longest wait before a retry, jitter included.
pub const MAX_RETRY_WITH_JITTER: u64 = 12_000_000_000;

#[derive(Clone, Copy, Debug, PartialEq, Eq, Structural)]
pub enum ReservationState {
    Disconnected,
    ExchangeConnected,
    ReservationRequested,
    ReservationAccepted,
    RelayAddressConfirmed,
    Ready,
    Degraded,
}

#[derive(Debug, PartialEq, Eq)]
pub enum ReservationEvent {
    GenerationStarted { generation: u64, peer_id: PeerId, connection_id: ConnectionId },
    ReservationRequested { generation: u64, peer_id: PeerId, connection_id: ConnectionId },
    ReservationAccepted {
        generation: u64,
        peer_id: PeerId,
        connection_id: ConnectionId,
        listener_id: ListenerId,
        renewal: bool,
    },
    RelayAddressConfirmed {
        generation: u64,
        peer_id: PeerId,
        connection_id: ConnectionId,
        listener_id: ListenerId,
        address: Address,
    },
    ExchangeLost { generation: u64, peer_id: PeerId, connection_id: ConnectionId },
    ListenerClosed {
        generation: u64,
        peer_id: PeerId,
        connection_id: ConnectionId,
        listener_id: ListenerId,
    },
    RelayAddressLost {
        generation: u64,
        peer_id: PeerId,
        connection_id: ConnectionId,
        listener_id: ListenerId,
        address: Address,
    },
    RetryElapsed { generation: u64, attempt: u32 },
}

/// What an event says: the same with peers and addresses by their bytes.
#[verifier::ext_equal]
pub enum EventModel {
    GenerationStarted { generation: u64, peer_id: Seq<u8>, connection_id: ConnectionId },
    ReservationRequested { generation: u64, peer_id: Seq<u8>, connection_id: ConnectionId },
    ReservationAccepted {
        generation: u64,
        peer_id: Seq<u8>,
        connection_id: ConnectionId,
        listener_id: ListenerId,
        renewal: bool,
    },
    RelayAddressConfirmed {
        generation: u64,
        peer_id: Seq<u8>,
        connection_id: ConnectionId,
        listener_id: ListenerId,
        address: Seq<u8>,
    },
    ExchangeLost { generation: u64, peer_id: Seq<u8>, connection_id: ConnectionId },
    ListenerClosed {
        generation: u64,
        peer_id: Seq<u8>,
        connection_id: ConnectionId,
        listener_id: ListenerId,
    },
    RelayAddressLost {
        generation: u64,
        peer_id: Seq<u8>,
        connection_id: ConnectionId,
        listener_id: ListenerId,
        address: Seq<u8>,
    },
    RetryElapsed { generation: u64, attempt: u32 },
}

impl View for ReservationEvent {
    type V = EventModel;

    open spec fn view(&self) -> EventModel {
        match *self {
            ReservationEvent::GenerationStarted { generation, peer_id, connection_id } =>
                EventModel::GenerationStarted { generation, peer_id: peer_id@, connection_id },
            ReservationEvent::ReservationRequested { generation, peer_id, connection_id } =>
                EventModel::ReservationRequested { generation, peer_id: peer_id@, connection_id },
            ReservationEvent::ReservationAccepted {
                generation,
                peer_id,
                connection_id,
                listener_id,
                renewal,
            } => EventModel::ReservationAccepted {
                generation,
                peer_id: peer_id@,
                connection_id,
                listener_id,
                renewal,
            },
            ReservationEvent::RelayAddressConfirmed {
                generation,
                peer_id,
                connection_id,
                listener_id,
                address,
            } => EventModel::RelayAddressConfirmed {
                generation,
                peer_id: peer_id@,
                connection_id,
                listener_id,
                address: address.raw(),
            },
            ReservationEvent::ExchangeLost { generation, peer_id, connection_id } =>
                EventModel::ExchangeLost { generation, peer_id: peer_id@, connection_id },
            ReservationEvent::ListenerClosed { generation, peer_id, connection_id, listener_id } =>
                EventModel::ListenerClosed { generation, peer_id: peer_id@, connection_id, listener_id },
            ReservationEvent::RelayAddressLost {
                generation,
                peer_id,
                connection_id,
                listener_id,
                address,
            } => EventModel::RelayAddressLost {
                generation,
                peer_id: peer_id@,
                connection_id,
                listener_id,
                address: address.raw(),
            },
            ReservationEvent::RetryElapsed { generation, attempt } => EventModel::RetryElapsed {
                generation,
                attempt,
            },
        }
    }
}

#[derive(Debug, PartialEq, Eq)]
pub enum ReservationAction {
    CreateCircuitListener { generation: u64, peer_id: PeerId, connection_id: ConnectionId },
    DialExchange { generation: u64 },
    ScheduleRetry { generation: u64, attempt: u32, deadline: u64 },
    PublishReady { generation: u64, address: Address },
    PublishDegraded { generation: u64 },
}

#[verifier::ext_equal]
pub enum ActionModel {
    CreateCircuitListener { generation: u64, peer_id: Seq<u8>, connection_id: ConnectionId },
    DialExchange { generation: u64 },
    ScheduleRetry { generation: u64, attempt: u32, deadline: u64 },
    PublishReady { generation: u64, address: Seq<u8> },
    PublishDegraded { generation: u64 },
}

impl View for ReservationAction {
    type V = ActionModel;

    open spec fn view(&self) -> ActionModel {
        match *self {
            ReservationAction::CreateCircuitListener { generation, peer_id, connection_id } =>
                ActionModel::CreateCircuitListener { generation, peer_id: peer_id@, connection_id },
            ReservationAction::DialExchange { generation } => ActionModel::DialExchange { generation },
            ReservationAction::ScheduleRetry { generation, attempt, deadline } =>
                ActionModel::ScheduleRetry { generation, attempt, deadline },
            ReservationAction::PublishReady { generation, address } => ActionModel::PublishReady {
                generation,
                address: address.raw(),
            },
            ReservationAction::PublishDegraded { generation } => ActionModel::PublishDegraded {
                generation,
            },
        }
    }
}

/// What the actions of a list say.
pub open spec fn action_models(actions: Seq<ReservationAction>) -> Seq<ActionModel> {
    Seq::new(actions.len(), |i: int| actions[i]@)
}

#[derive(Clone, Copy, Debug, PartialEq, Eq, Structural)]
pub enum ReservationError {
    /// A generation was started again with other identities.
    GenerationConflict(u64),
}

/// What is known of the reservation.
#[derive(Debug)]
pub struct ReservationContext {
    pub generation: u64,
    pub exchange_peer_id: Option<PeerId>,
    pub exchange_connection_id: Option<ConnectionId>,
    pub listener_id: Option<ListenerId>,
    pub canonical_address: Option<Address>,
    pub accepted: bool,
    pub address_confirmed: bool,
    pub last_acceptance: Option<u64>,
    pub renewal_count: u64,
    pub retry_attempt: u32,
    pub retry_deadline: Option<u64>,
    pub requested: bool,
    pub degraded: bool,
}

#[verifier::ext_equal]
pub struct ContextModel {
    pub generation: u64,
    pub exchange_peer_id: Option<Seq<u8>>,
    pub exchange_connection_id: Option<ConnectionId>,
    pub listener_id: Option<ListenerId>,
    pub canonical_address: Option<Seq<u8>>,
    pub accepted: bool,
    pub address_confirmed: bool,
    pub last_acceptance: Option<u64>,
    pub renewal_count: u64,
    pub retry_attempt: u32,
    pub retry_deadline: Option<u64>,
    pub requested: bool,
    pub degraded: bool,
}

/// The bytes of a peer that may be missing.
pub open spec fn peer_bytes(peer: Option<PeerId>) -> Option<Seq<u8>> {
    match peer {
        Some(peer) => Some(peer@),
        None => None,
    }
}

/// The bytes of an address that may be missing.
pub open spec fn raw_address(address: Option<Address>) -> Option<Seq<u8>> {
    match address {
        Some(address) => Some(address.raw()),
        None => None,
    }
}

impl View for ReservationContext {
    type V = ContextModel;

    open spec fn view(&self) -> ContextModel {
        ContextModel {
            generation: self.generation,
            exchange_peer_id: peer_bytes(self.exchange_peer_id),
            exchange_connection_id: self.exchange_connection_id,
            listener_id: self.listener_id,
            canonical_address: raw_address(self.canonical_address),
            accepted: self.accepted,
            address_confirmed: self.address_confirmed,
            last_acceptance: self.last_acceptance,
            renewal_count: self.renewal_count,
            retry_attempt: self.retry_attempt,
            retry_deadline: self.retry_deadline,
            requested: self.requested,
            degraded: self.degraded,
        }
    }
}

/// The wait before a retry, jitter aside: a quarter of a second, doubled with
/// each attempt, at most ten seconds.
pub open spec fn base_delay(attempt: u32) -> int {
    if attempt <= 1 {
        250_000_000
    } else if attempt == 2 {
        500_000_000
    } else if attempt == 3 {
        1_000_000_000
    } else if attempt == 4 {
        2_000_000_000
    } else if attempt == 5 {
        4_000_000_000
    } else if attempt == 6 {
        8_000_000_000
    } else {
        10_000_000_000
    }
}

/// Jitter, held within a fifth to either side.
pub open spec fn held_jitter(jitter_per_mille: i16) -> int {
    if jitter_per_mille > 200 {
        200
    } else if jitter_per_mille < -200 {
        -200
    } else {
        jitter_per_mille as int
    }
}

/// The wait before a retry.
pub open spec fn delay_with_jitter(attempt: u32, jitter_per_mille: i16) -> int {
    base_delay(attempt) + base_delay(attempt) / 1000 * held_jitter(jitter_per_mille)
}

/// The attempt that comes after one.
pub open spec fn next_attempt(attempt: u32) -> u32 {
    if attempt == u32::MAX {
        u32::MAX
    } else {
        (attempt + 1) as u32
    }
}

impl ContextModel {
    /// Accepted, and reachable at a confirmed address.
    pub open spec fn is_ready(self) -> bool {
        !self.degraded && self.accepted && self.address_confirmed
    }

    /// The phase that the facts amount to.
    pub open spec fn phase(self) -> ReservationState {
        if self.degraded {
            ReservationState::Degraded
        } else if self.is_ready() {
            ReservationState::Ready
        } else if self.accepted {
            ReservationState::ReservationAccepted
        } else if self.address_confirmed {
            ReservationState::RelayAddressConfirmed
        } else if self.requested {
            ReservationState::ReservationRequested
        } else if self.exchange_connection_id is Some {
            ReservationState::ExchangeConnected
        } else {
            ReservationState::Disconnected
        }
    }

    /// Nothing is known yet.
    pub open spec fn fresh(generation: u64) -> ContextModel {
        ContextModel {
            generation,
            exchange_peer_id: None,
            exchange_connection_id: None,
            listener_id: None,
            canonical_address: None,
            accepted: false,
            address_confirmed: false,
            last_acceptance: None,
            renewal_count: 0,
            retry_attempt: 0,
            retry_deadline: None,
            requested: false,
            degraded: false,
        }
    }

    /// Whether an event speaks of the current connection to the exchange.
    pub open spec fn current(self, generation: u64, peer: Seq<u8>, connection: ConnectionId) -> bool {
        generation == self.generation && self.exchange_peer_id == Some(peer)
            && self.exchange_connection_id == Some(connection)
    }

    /// Whether an event may speak of the current listener.
    pub open spec fn may_be_listener(self, listener: ListenerId) -> bool {
        self.listener_id is None || self.listener_id == Some(listener)
    }

    /// Nothing changes and nothing is to be done.
    pub open spec fn stays(self) -> (ContextModel, Seq<ActionModel>) {
        (self, Seq::empty())
    }

    /// Takes note of readiness. `before` is what was known before the event.
    pub open spec fn publishing(self, before: ContextModel) -> (ContextModel, Seq<ActionModel>) {
        if !self.accepted || !self.address_confirmed {
            self.stays()
        } else {
            (
                ContextModel { degraded: false, retry_attempt: 0, retry_deadline: None, ..self },
                match (before.is_ready(), self.canonical_address) {
                    (false, Some(address)) => seq![
                        ActionModel::PublishReady { generation: self.generation, address },
                    ],
                    _ => Seq::empty(),
                },
            )
        }
    }

    /// Takes note of a loss: unless a retry is due already, one is scheduled.
    pub open spec fn degrading(self, now: u64, jitter_per_mille: i16) -> (
        ContextModel,
        Seq<ActionModel>,
    ) {
        if self.degraded && self.retry_deadline is Some {
            self.stays()
        } else {
            let attempt = next_attempt(self.retry_attempt);
            let deadline = (now + delay_with_jitter(attempt, jitter_per_mille)) as u64;
            (
                ContextModel {
                    degraded: true,
                    retry_attempt: attempt,
                    retry_deadline: Some(deadline),
                    ..self
                },
                (if self.degraded {
                    Seq::empty()
                } else {
                    seq![ActionModel::PublishDegraded { generation: self.generation }]
                }).push(ActionModel::ScheduleRetry { generation: self.generation, attempt, deadline }),
            )
        }
    }

    /// Whether a start contradicts what is known of its generation.
    pub open spec fn conflicts(self, generation: u64, peer: Seq<u8>, connection: ConnectionId) -> bool {
        generation == self.generation && !(self.exchange_peer_id is None
            && self.exchange_connection_id is None) && !self.current(generation, peer, connection)
    }

    /// What a start does that contradicts nothing.
    pub open spec fn starting(self, generation: u64, peer: Seq<u8>, connection: ConnectionId) -> (
        ContextModel,
        Seq<ActionModel>,
    ) {
        if generation < self.generation || self.current(generation, peer, connection) {
            self.stays()
        } else {
            (
                ContextModel {
                    exchange_peer_id: Some(peer),
                    exchange_connection_id: Some(connection),
                    ..ContextModel::fresh(generation)
                },
                seq![
                    ActionModel::CreateCircuitListener {
                        generation,
                        peer_id: peer,
                        connection_id: connection,
                    },
                ],
            )
        }
    }

    /// What an event does, unless it starts a generation in contradiction to
    /// what is known.
    pub open spec fn reacts(self, event: EventModel, now: u64, jitter_per_mille: i16) -> (
        ContextModel,
        Seq<ActionModel>,
    ) {
        match event {
            EventModel::GenerationStarted { generation, peer_id, connection_id } => self.starting(
                generation,
                peer_id,
                connection_id,
            ),
            EventModel::ReservationRequested { generation, peer_id, connection_id } => if self.current(
                generation,
                peer_id,
                connection_id,
            ) {
                (ContextModel { requested: true, ..self }, Seq::empty())
            } else {
                self.stays()
            },
            EventModel::ReservationAccepted {
                generation,
                peer_id,
                connection_id,
                listener_id,
                renewal,
            } => if self.current(generation, peer_id, connection_id) && self.may_be_listener(listener_id) {
                (ContextModel {
                    listener_id: Some(listener_id),
                    accepted: true,
                    last_acceptance: Some(now),
                    renewal_count: if renewal && self.renewal_count < u64::MAX {
                        (self.renewal_count + 1) as u64
                    } else {
                        self.renewal_count
                    },
                    ..self
                }).publishing(self)
            } else {
                self.stays()
            },
            EventModel::RelayAddressConfirmed {
                generation,
                peer_id,
                connection_id,
                listener_id,
                address,
            } => if self.current(generation, peer_id, connection_id) && self.may_be_listener(listener_id) {
                (ContextModel {
                    listener_id: Some(listener_id),
                    canonical_address: Some(address),
                    address_confirmed: true,
                    ..self
                }).publishing(self)
            } else {
                self.stays()
            },
            EventModel::ExchangeLost { generation, peer_id, connection_id } => if self.current(
                generation,
                peer_id,
                connection_id,
            ) {
                (ContextModel {
                    exchange_connection_id: None,
                    listener_id: None,
                    canonical_address: None,
                    accepted: false,
                    address_confirmed: false,
                    ..self
                }).degrading(now, jitter_per_mille)
            } else {
                self.stays()
            },
            EventModel::ListenerClosed { generation, peer_id, connection_id, listener_id } =>
                if self.current(generation, peer_id, connection_id) && self.listener_id == Some(
                listener_id,
            ) {
                (ContextModel {
                    listener_id: None,
                    canonical_address: None,
                    accepted: false,
                    address_confirmed: false,
                    ..self
                }).degrading(now, jitter_per_mille)
            } else {
                self.stays()
            },
            EventModel::RelayAddressLost { generation, peer_id, connection_id, listener_id, address } =>
                if self.current(generation, peer_id, connection_id) && self.listener_id == Some(
                listener_id,
            ) && self.canonical_address == Some(address) {
                (ContextModel { canonical_address: None, address_confirmed: false, ..self }).degrading(
                    now,
                    jitter_per_mille,
                )
            } else {
                self.stays()
            },
            EventModel::RetryElapsed { generation, attempt } => if generation == self.generation
                && self.retry_attempt == attempt && (self.retry_deadline matches Some(deadline) && now
                >= deadline) {
                (
                    ContextModel { retry_deadline: None, ..self },
                    match (self.exchange_peer_id, self.exchange_connection_id) {
                        (Some(peer_id), Some(connection_id)) => seq![
                            ActionModel::CreateCircuitListener { generation, peer_id, connection_id },
                        ],
                        _ => seq![ActionModel::DialExchange { generation }],
                    },
                )
            } else {
                self.stays()
            },
        }
    }

    /// Whether an event tells of a loss.
    pub open spec fn loses(self, event: EventModel) -> bool {
        match event {
            EventModel::ExchangeLost { generation, peer_id, connection_id } => self.current(
                generation,
                peer_id,
                connection_id,
            ),
            EventModel::ListenerClosed { generation, peer_id, connection_id, listener_id } =>
                self.current(generation, peer_id, connection_id) && self.listener_id == Some(listener_id),
            EventModel::RelayAddressLost { generation, peer_id, connection_id, listener_id, address } =>
                self.current(generation, peer_id, connection_id) && self.listener_id == Some(listener_id)
                && self.canonical_address == Some(address),
            _ => false,
        }
    }

    /// Whether there is a time for the retry that an event schedules, if it
    /// schedules one.
    pub open spec fn has_time(self, event: EventModel, now: u64, jitter_per_mille: i16) -> bool {
        self.loses(event) && !(self.degraded && self.retry_deadline is Some) ==> now
            + delay_with_jitter(next_attempt(self.retry_attempt), jitter_per_mille) <= u64::MAX
    }

    /// Whether an event is refused.
    pub open spec fn refuses(self, event: EventModel) -> bool {
        event matches EventModel::GenerationStarted { generation, peer_id, connection_id }
            && self.conflicts(generation, peer_id, connection_id)
    }
}

impl ReservationContext {
    /// Nothing is known yet.
    pub fn new(generation: u64) -> (r: Self)
        ensures
            r@ == ContextModel::fresh(generation),
    {
        ReservationContext {
            generation,
            exchange_peer_id: None,
            exchange_connection_id: None,
            listener_id: None,
            canonical_address: None,
            accepted: false,
            address_confirmed: false,
            last_acceptance: None,
            renewal_count: 0,
            retry_attempt: 0,
            retry_deadline: None,
            requested: false,
            degraded: false,
        }
    }

    /// The phase that the facts amount to.
    pub fn phase(&self) -> (r: ReservationState)
        ensures
            r == self@.phase(),
    {
        if self.degraded {
            ReservationState::Degraded
        } else if self.is_ready() {
            ReservationState::Ready
        } else if self.accepted {
            ReservationState::ReservationAccepted
        } else if self.address_confirmed {
            ReservationState::RelayAddressConfirmed
        } else if self.requested {
            ReservationState::ReservationRequested
        } else if self.exchange_connection_id.is_some() {
            ReservationState::ExchangeConnected
        } else {
            ReservationState::Disconnected
        }
    }

    /// Accepted, and reachable at a confirmed address.
    pub fn is_ready(&self) -> (r: bool)
        ensures
            r == self@.is_ready(),
    {
        !self.degraded && self.accepted && self.address_confirmed
    }

    /// Takes an event in without jitter.
    pub fn apply(&mut self, event: ReservationEvent, now: u64) -> (r: Result<
        Vec<ReservationAction>,
        ReservationError,
    >)
        requires
            old(self)@.has_time(event@, now, 0),
        ensures
            match r {
                Ok(actions) => !old(self)@.refuses(event@) && (final(self)@, action_models(actions@))
                    == old(self)@.reacts(event@, now, 0),
                Err(error) => old(self)@.refuses(event@) && final(self)@ == old(self)@ && error
                    == ReservationError::GenerationConflict(old(self)@.generation),
            },
    {
        self.apply_at(event, now, 0)
    }

    /// Takes an event in and says what is to be done.
    pub fn apply_at(&mut self, event: ReservationEvent, now: u64, jitter_per_mille: i16) -> (r: Result<
        Vec<ReservationAction>,
        ReservationError,
    >)
        requires
            old(self)@.has_time(event@, now, jitter_per_mille),
        ensures
            match r {
                Ok(actions) => !old(self)@.refuses(event@) && (final(self)@, action_models(actions@))
                    == old(self)@.reacts(event@, now, jitter_per_mille),
                Err(error) => old(self)@.refuses(event@) && final(self)@ == old(self)@ && error
                    == ReservationError::GenerationConflict(old(self)@.generation),
            },
    {
        match event {
            ReservationEvent::GenerationStarted { generation, peer_id, connection_id } =>
                self.start_generation(generation, peer_id, connection_id),
            ReservationEvent::ReservationRequested { generation, peer_id, connection_id } => {
                if self.matches(generation, &peer_id, connection_id) {
                    self.requested = true;
                }
                Ok(no_actions())
            },
            ReservationEvent::ReservationAccepted {
                generation,
                peer_id,
                connection_id,
                listener_id,
                renewal,
            } => {
                if !self.matches(generation, &peer_id, connection_id) || !self.listener_fits(listener_id) {
                    return Ok(no_actions());
                }
                let was_ready = self.is_ready();
                self.listener_id = Some(listener_id);
                self.accepted = true;
                self.last_acceptance = Some(now);
                if renewal {
                    self.renewal_count = self.renewal_count.saturating_add(1);
                }
                Ok(self.publish_if_ready(was_ready, Ghost(old(self)@)))
            },
            ReservationEvent::RelayAddressConfirmed {
                generation,
                peer_id,
                connection_id,
                listener_id,
                address,
            } => {
                if !self.matches(generation, &peer_id, connection_id) || !self.listener_fits(listener_id) {
                    return Ok(no_actions());
                }
                let was_ready = self.is_ready();
                self.listener_id = Some(listener_id);
                self.canonical_address = Some(address);
                self.address_confirmed = true;
                Ok(self.publish_if_ready(was_ready, Ghost(old(self)@)))
            },
            ReservationEvent::ExchangeLost { generation, peer_id, connection_id } => {
                if !self.matches(generation, &peer_id, connection_id) {
                    return Ok(no_actions());
                }
                self.exchange_connection_id = None;
                self.listener_id = None;
                self.canonical_address = None;
                self.accepted = false;
                self.address_confirmed = false;
                Ok(self.degrade(now, jitter_per_mille))
            },
            ReservationEvent::ListenerClosed { generation, peer_id, connection_id, listener_id } => {
                if !self.matches(generation, &peer_id, connection_id) || !self.listener_is(listener_id) {
                    return Ok(no_actions());
                }
                self.listener_id = None;
                self.canonical_address = None;
                self.accepted = false;
                self.address_confirmed = false;
                Ok(self.degrade(now, jitter_per_mille))
            },
            ReservationEvent::RelayAddressLost {
                generation,
                peer_id,
                connection_id,
                listener_id,
                address,
            } => {
                if !self.matches(generation, &peer_id, connection_id) || !self.listener_is(listener_id)
                    || !self.address_is(&address) {
                    return Ok(no_actions());
                }
                self.canonical_address = None;
                self.address_confirmed = false;
                Ok(self.degrade(now, jitter_per_mille))
            },
            ReservationEvent::RetryElapsed { generation, attempt } => {
                let due = match self.retry_deadline {
                    Some(deadline) => now >= deadline,
                    None => false,
                };
                if generation != self.generation || self.retry_attempt != attempt || !due {
                    return Ok(no_actions());
                }
                self.retry_deadline = None;
                Ok(self.retry_actions())
            },
        }
    }

    /// The wait before the retry that is counted now.
    pub fn retry_delay(&self, jitter_per_mille: i16) -> (r: u64)
        ensures
            r == delay_with_jitter(self@.retry_attempt, jitter_per_mille),
            200_000_000 <= r <= MAX_RETRY_WITH_JITTER,
    {
        let base: u64 = base_delay_of(self.retry_attempt);
        let jitter: i64 = if jitter_per_mille > 200 {
            200
        } else if jitter_per_mille < -200 {
            -200
        } else {
            jitter_per_mille as i64
        };
        let part: i64 = (base / 1000) as i64;
        assert(-2_000_000_000 <= part * jitter <= 2_000_000_000) by (nonlinear_arith)
            requires
                0 <= part <= 10_000_000,
                -200 <= jitter <= 200,
        ;
        assert(part * jitter >= -(part * 200)) by (nonlinear_arith)
            requires
                0 <= part,
                -200 <= jitter,
        ;
        (base as i64 + part * jitter) as u64
    }

    fn start_generation(&mut self, generation: u64, peer_id: PeerId, connection_id: ConnectionId) -> (r:
        Result<Vec<ReservationAction>, ReservationError>)
        ensures
            match r {
                Ok(actions) => !old(self)@.conflicts(generation, peer_id@, connection_id) && (
                    final(self)@,
                    action_models(actions@),
                ) == old(self)@.starting(generation, peer_id@, connection_id),
                Err(error) => old(self)@.conflicts(generation, peer_id@, connection_id) && final(self)@
                    == old(self)@ && error == ReservationError::GenerationConflict(generation),
            },
    {
        if generation < self.generation {
            return Ok(no_actions());
        }
        if generation == self.generation {
            let known = self.exchange_peer_id.is_some() || self.exchange_connection_id.is_some();
            if known {
                if self.matches(generation, &peer_id, connection_id) {
                    return Ok(no_actions());
                }
                return Err(ReservationError::GenerationConflict(generation));
            }
        }
        self.generation = generation;
        self.exchange_peer_id = Some(peer_id.clone());
        self.exchange_connection_id = Some(connection_id);
        self.listener_id = None;
        self.canonical_address = None;
        self.accepted = false;
        self.address_confirmed = false;
        self.last_acceptance = None;
        self.renewal_count = 0;
        self.retry_attempt = 0;
        self.retry_deadline = None;
        self.requested = false;
        self.degraded = false;
        let mut actions: Vec<ReservationAction> = Vec::new();
        actions.push(ReservationAction::CreateCircuitListener { generation, peer_id, connection_id });
        assert(action_models(actions@) =~= seq![
            ActionModel::CreateCircuitListener { generation, peer_id: peer_id@, connection_id },
        ]);
        Ok(actions)
    }

    fn matches(&self, generation: u64, peer_id: &PeerId, connection_id: ConnectionId) -> (r: bool)
        ensures
            r == self@.current(generation, peer_id@, connection_id),
    {
        if generation != self.generation {
            return false;
        }
        let same_peer = match &self.exchange_peer_id {
            Some(current) => current.same(peer_id),
            None => false,
        };
        let same_connection = match self.exchange_connection_id {
            Some(current) => current == connection_id,
            None => false,
        };
        same_peer && same_connection
    }

    fn listener_fits(&self, listener_id: ListenerId) -> (r: bool)
        ensures
            r == self@.may_be_listener(listener_id),
    {
        match self.listener_id {
            Some(current) => current == listener_id,
            None => true,
        }
    }

    fn listener_is(&self, listener_id: ListenerId) -> (r: bool)
        ensures
            r == (self@.listener_id == Some(listener_id)),
    {
        match self.listener_id {
            Some(current) => current == listener_id,
            None => false,
        }
    }

    fn address_is(&self, address: &Address) -> (r: bool)
        ensures
            r == (self@.canonical_address == Some(address.raw())),
    {
        match &self.canonical_address {
            Some(current) => current.same(address),
            None => false,
        }
    }

    fn retry_actions(&self) -> (r: Vec<ReservationAction>)
        ensures
            action_models(r@) == match (self@.exchange_peer_id, self@.exchange_connection_id) {
                (Some(peer_id), Some(connection_id)) => seq![
                    ActionModel::CreateCircuitListener {
                        generation: self@.generation,
                        peer_id,
                        connection_id,
                    },
                ],
                _ => seq![ActionModel::DialExchange { generation: self@.generation }],
            },
    {
        let mut actions: Vec<ReservationAction> = Vec::new();
        let action = match (&self.exchange_peer_id, self.exchange_connection_id) {
            (Some(peer), Some(connection_id)) => ReservationAction::CreateCircuitListener {
                generation: self.generation,
                peer_id: peer.clone(),
                connection_id,
            },
            _ => ReservationAction::DialExchange { generation: self.generation },
        };
        let ghost model = action@;
        actions.push(action);
        assert(action_models(actions@) =~= seq![model]);
        actions
    }

    fn publish_if_ready(&mut self, was_ready: bool, Ghost(before): Ghost<ContextModel>) -> (r: Vec<
        ReservationAction,
    >)
        requires
            was_ready == before.is_ready(),
        ensures
            (final(self)@, action_models(r@)) == old(self)@.publishing(before),
    {
        if !self.accepted || !self.address_confirmed {
            return no_actions();
        }
        self.degraded = false;
        self.retry_attempt = 0;
        self.retry_deadline = None;
        if was_ready {
            return no_actions();
        }
        match &self.canonical_address {
            Some(address) => {
                let mut actions: Vec<ReservationAction> = Vec::new();
                actions.push(
                    ReservationAction::PublishReady {
                        generation: self.generation,
                        address: address.clone(),
                    },
                );
                assert(action_models(actions@) =~= seq![
                    ActionModel::PublishReady { generation: self.generation, address: address.raw() },
                ]);
                actions
            },
            None => no_actions(),
        }
    }

    fn degrade(&mut self, now: u64, jitter_per_mille: i16) -> (r: Vec<ReservationAction>)
        requires
            !(old(self)@.degraded && old(self)@.retry_deadline is Some) ==> now + delay_with_jitter(
                next_attempt(old(self)@.retry_attempt),
                jitter_per_mille,
            ) <= u64::MAX,
        ensures
            (final(self)@, action_models(r@)) == old(self)@.degrading(now, jitter_per_mille),
    {
        if self.degraded && self.retry_deadline.is_some() {
            return no_actions();
        }
        let first_degradation = !self.degraded;
        self.degraded = true;
        self.retry_attempt = self.retry_attempt.saturating_add(1);
        let deadline: u64 = now + self.retry_delay(jitter_per_mille);
        self.retry_deadline = Some(deadline);
        let mut actions: Vec<ReservationAction> = Vec::new();
        if first_degradation {
            actions.push(ReservationAction::PublishDegraded { generation: self.generation });
        }
        actions.push(
            ReservationAction::ScheduleRetry {
                generation: self.generation,
                attempt: self.retry_attempt,
                deadline,
            },
        );
        assert(action_models(actions@) =~= old(self)@.degrading(now, jitter_per_mille).1);
        actions
    }
}

fn no_actions() -> (r: Vec<ReservationAction>)
    ensures
        action_models(r@) == Seq::<ActionModel>::empty(),
{
    let actions: Vec<ReservationAction> = Vec::new();
    assert(action_models(actions@) =~= Seq::<ActionModel>::empty());
    actions
}

/// The wait before a retry, jitter aside.
fn base_delay_of(attempt: u32) -> (r: u64)
    ensures
        r == base_delay(attempt),
{
    let mut delay: u64 = INITIAL_RETRY;
    let mut i: u32 = 1;
    while i < attempt && delay < MAX_RETRY
        invariant
            1 <= i,
            delay == base_delay(i) || (i == 7 && delay == 16_000_000_000),
            i <= 7,
            i < attempt || i == 1 || i == attempt,
        decreases 7 - i,
    {
        delay = delay * 2;
        i = i + 1;
    }
    if delay > MAX_RETRY {
        MAX_RETRY
    } else {
        delay
    }
}

/// An event of an earlier generation, of another connection or of another peer
/// changes nothing.
pub proof fn law_stale_events_are_ignored(
    context: ContextModel,
    event: EventModel,
    now: u64,
    jitter_per_mille: i16,
)
    requires
        match event {
            EventModel::GenerationStarted { generation, .. } => generation < context.generation,
            EventModel::ReservationRequested { generation, peer_id, connection_id } => !context.current(
                generation,
                peer_id,
                connection_id,
            ),
            EventModel::ReservationAccepted { generation, peer_id, connection_id, .. } =>
                !context.current(generation, peer_id, connection_id),
            EventModel::RelayAddressConfirmed { generation, peer_id, connection_id, .. } =>
                !context.current(generation, peer_id, connection_id),
            EventModel::ExchangeLost { generation, peer_id, connection_id } => !context.current(
                generation,
                peer_id,
                connection_id,
            ),
            EventModel::ListenerClosed { generation, peer_id, connection_id, .. } => !context.current(
                generation,
                peer_id,
                connection_id,
            ),
            EventModel::RelayAddressLost { generation, peer_id, connection_id, .. } => !context.current(
                generation,
                peer_id,
                connection_id,
            ),
            EventModel::RetryElapsed { generation, attempt } => generation != context.generation || attempt
                != context.retry_attempt,
        },
    ensures
        !context.refuses(event),
        context.reacts(event, now, jitter_per_mille) == context.stays(),
{
}

/// Generations never go back.
pub proof fn law_generations_ascend(
    context: ContextModel,
    event: EventModel,
    now: u64,
    jitter_per_mille: i16,
)
    ensures
        context.reacts(event, now, jitter_per_mille).0.generation >= context.generation,
{
}

impl ContextModel {
    /// The context after an event. One that is refused changes nothing.
    pub open spec fn after(self, event: EventModel, now: u64, jitter_per_mille: i16) -> ContextModel {
        if self.refuses(event) {
            self
        } else {
            self.reacts(event, now, jitter_per_mille).0
        }
    }

    /// The context after some events, each with its time and its jitter.
    pub open spec fn after_events(self, events: Seq<(EventModel, u64, i16)>) -> ContextModel
        decreases events.len(),
    {
        if events.len() == 0 {
            self
        } else {
            self.after_events(events.drop_last()).after(
                events.last().0,
                events.last().1,
                events.last().2,
            )
        }
    }
}

/// The generation that an event speaks of.
pub open spec fn generation_of(event: EventModel) -> u64 {
    match event {
        EventModel::GenerationStarted { generation, .. } => generation,
        EventModel::ReservationRequested { generation, .. } => generation,
        EventModel::ReservationAccepted { generation, .. } => generation,
        EventModel::RelayAddressConfirmed { generation, .. } => generation,
        EventModel::ExchangeLost { generation, .. } => generation,
        EventModel::ListenerClosed { generation, .. } => generation,
        EventModel::RelayAddressLost { generation, .. } => generation,
        EventModel::RetryElapsed { generation, .. } => generation,
    }
}

/// Once a generation is over, its events change nothing any more, whatever
/// happens in between.
pub proof fn law_past_generations_stay_past(
    context: ContextModel,
    events: Seq<(EventModel, u64, i16)>,
    event: EventModel,
    now: u64,
    jitter_per_mille: i16,
)
    requires
        generation_of(event) < context.generation,
    ensures
        ({
            let later = context.after_events(events);
            &&& later.generation >= context.generation
            &&& !later.refuses(event)
            &&& later.reacts(event, now, jitter_per_mille) == later.stays()
        }),
    decreases events.len(),
{
    if events.len() > 0 {
        let before = context.after_events(events.drop_last());
        law_past_generations_stay_past(context, events.drop_last(), event, now, jitter_per_mille);
        law_generations_ascend(before, events.last().0, events.last().1, events.last().2);
    }
    law_stale_events_are_ignored(context.after_events(events), event, now, jitter_per_mille);
}

/// Acceptance and confirmation of the address lead to the same state in either
/// order, at whatever times the address is confirmed. The first of the two
/// publishes nothing, the second publishes that the reservation is ready.
pub proof fn law_acceptance_and_confirmation_commute(
    context: ContextModel,
    generation: u64,
    peer_id: Seq<u8>,
    connection_id: ConnectionId,
    listener_id: ListenerId,
    address: Seq<u8>,
    renewal: bool,
    accepted_at: u64,
    confirmed_before: u64,
    confirmed_after: u64,
    jitter: i16,
)
    requires
        context.current(generation, peer_id, connection_id),
        context.may_be_listener(listener_id),
        !context.accepted,
        !context.address_confirmed,
    ensures
        ({
            let accepted = EventModel::ReservationAccepted {
                generation,
                peer_id,
                connection_id,
                listener_id,
                renewal,
            };
            let confirmed = EventModel::RelayAddressConfirmed {
                generation,
                peer_id,
                connection_id,
                listener_id,
                address,
            };
            let a = context.reacts(accepted, accepted_at, jitter);
            let ab = a.0.reacts(confirmed, confirmed_after, jitter);
            let b = context.reacts(confirmed, confirmed_before, jitter);
            let ba = b.0.reacts(accepted, accepted_at, jitter);
            let published = seq![ActionModel::PublishReady { generation, address }];
            &&& !context.refuses(accepted) && !a.0.refuses(confirmed)
            &&& !context.refuses(confirmed) && !b.0.refuses(accepted)
            &&& context.has_time(accepted, accepted_at, jitter)
            &&& context.has_time(confirmed, confirmed_before, jitter)
            &&& ab.0 == ba.0
            &&& ab.0.is_ready() && ab.0.phase() == ReservationState::Ready
            &&& a.1 == Seq::<ActionModel>::empty() && b.1 == Seq::<ActionModel>::empty()
            &&& ab.1 == published && ba.1 == published
        }),
{
}

/// What was started knows nothing yet, so that acceptance and confirmation of
/// the address can follow.
pub proof fn law_started_generations_are_open(
    context: ContextModel,
    generation: u64,
    peer_id: Seq<u8>,
    connection_id: ConnectionId,
    listener_id: ListenerId,
    now: u64,
    jitter: i16,
)
    requires
        generation > context.generation,
    ensures
        ({
            let event = EventModel::GenerationStarted { generation, peer_id, connection_id };
            let started = context.reacts(event, now, jitter).0;
            &&& !context.refuses(event)
            &&& started.current(generation, peer_id, connection_id)
            &&& started.may_be_listener(listener_id)
            &&& !started.accepted && !started.address_confirmed && started.renewal_count == 0
        }),
{
}

/// A renewal of a reservation that is ready keeps it ready and publishes
/// nothing. It is counted.
pub proof fn law_renewal_does_not_flap(context: ContextModel, event: EventModel, now: u64, jitter: i16)
    requires
        context.is_ready(),
        event matches EventModel::ReservationAccepted { renewal, .. } && renewal,
    ensures
        !context.refuses(event),
        context.has_time(event, now, jitter),
        context.reacts(event, now, jitter).0.is_ready(),
        context.reacts(event, now, jitter).1 == Seq::<ActionModel>::empty(),
        (event matches EventModel::ReservationAccepted {
            generation,
            peer_id,
            connection_id,
            listener_id,
            ..
        } && context.current(generation, peer_id, connection_id) && context.may_be_listener(listener_id)
            && context.renewal_count < u64::MAX) ==> context.reacts(event, now, jitter).0.renewal_count
            == context.renewal_count + 1,
{
}

/// After a loss a retry is scheduled, and a further loss schedules no second
/// one.
pub proof fn law_one_retry_at_a_time(
    context: ContextModel,
    first: EventModel,
    second: EventModel,
    now: u64,
    later: u64,
    jitter: i16,
    other_jitter: i16,
)
    requires
        first is ExchangeLost || first is ListenerClosed || first is RelayAddressLost,
        second is ExchangeLost || second is ListenerClosed || second is RelayAddressLost,
        context.reacts(first, now, jitter).1.len() > 0,
    ensures
        context.reacts(first, now, jitter).0.degraded,
        context.reacts(first, now, jitter).0.reacts(second, later, other_jitter).1.len() == 0,
        context.reacts(first, now, jitter).0.reacts(second, later, other_jitter).0.retry_deadline
            == context.reacts(first, now, jitter).0.retry_deadline,
{
}

/// Waits lie between a fifth of a second and twelve seconds, and without jitter
/// they never get shorter from one attempt to the next.
pub proof fn law_retry_delays_are_bounded(attempt: u32, jitter_per_mille: i16)
    ensures
        200_000_000 <= delay_with_jitter(attempt, jitter_per_mille) <= MAX_RETRY_WITH_JITTER,
        attempt < u32::MAX ==> base_delay(attempt) <= base_delay((attempt + 1) as u32),
        base_delay(attempt) <= MAX_RETRY,
{
    let part = base_delay(attempt) / 1000;
    let jitter = held_jitter(jitter_per_mille);
    assert(-(part * 200) <= part * jitter <= part * 200) by (nonlinear_arith)
        requires
            0 <= part,
            -200 <= jitter <= 200,
    ;
}

/// Whether a reservation is to be asked for: there is an address to listen on
/// and a connection to ask over, and none was asked for yet. A server waits for
/// its session before; a node of the connectivity lab does not.
pub fn reservation_due(lab: bool, session_ready: bool, requested: bool, has_address: bool, has_connection: bool) -> (r:
    bool)
    ensures
        r == ((lab || session_ready) && !requested && has_address && has_connection),
{
    (lab || session_ready) && !requested && has_address && has_connection
}

/// A retry whose time has come is made, once, and by the way that is left: where
/// the exchange is still connected a listener is asked for on that connection,
/// and otherwise the exchange is dialed again.
pub proof fn law_retries_are_made_when_due(context: ContextModel, now: u64, jitter: i16)
    requires
        context.retry_deadline matches Some(deadline) && now >= deadline,
    ensures
        ({
            let event = EventModel::RetryElapsed {
                generation: context.generation,
                attempt: context.retry_attempt,
            };
            let (after, actions) = context.reacts(event, now, jitter);
            &&& !context.refuses(event)
            &&& after == (ContextModel { retry_deadline: None, ..context })
            &&& actions.len() == 1
            &&& context.exchange_peer_id is Some && context.exchange_connection_id is Some ==> actions[0]
                == (ActionModel::CreateCircuitListener {
                generation: context.generation,
                peer_id: context.exchange_peer_id->Some_0,
                connection_id: context.exchange_connection_id->Some_0,
            })
            &&& context.exchange_peer_id is None || context.exchange_connection_id is None ==> actions[0]
                == (ActionModel::DialExchange { generation: context.generation })
            &&& after.reacts(event, now, jitter) == (after, Seq::<ActionModel>::empty())
        }),
{
}

/// A retry is not made before its time, nor one that was not scheduled.
pub proof fn law_retries_wait_for_their_time(
    context: ContextModel,
    generation: u64,
    attempt: u32,
    now: u64,
    jitter: i16,
)
    requires
        context.retry_deadline is None || now < context.retry_deadline->Some_0 || generation
            != context.generation || attempt != context.retry_attempt,
    ensures
        context.reacts(EventModel::RetryElapsed { generation, attempt }, now, jitter) == (
            context,
            Seq::<ActionModel>::empty(),
        ),
{
}

/// An exchange that is lost is dialed again: the loss schedules a retry, and the
/// retry at its time dials.
pub proof fn law_a_lost_exchange_is_dialed_again(
    context: ContextModel,
    peer_id: Seq<u8>,
    connection_id: ConnectionId,
    now: u64,
    later: u64,
    jitter: i16,
)
    requires
        context.exchange_peer_id == Some(peer_id),
        context.exchange_connection_id == Some(connection_id),
        !(context.degraded && context.retry_deadline is Some),
        now + delay_with_jitter(next_attempt(context.retry_attempt), jitter) <= later,
    ensures
        ({
            let generation = context.generation;
            let lost = EventModel::ExchangeLost { generation, peer_id, connection_id };
            let (after, actions) = context.reacts(lost, now, jitter);
            let attempt = after.retry_attempt;
            let retry = EventModel::RetryElapsed { generation, attempt };
            &&& !context.refuses(lost) && !after.refuses(retry)
            &&& actions.last() == (ActionModel::ScheduleRetry {
                generation,
                attempt,
                deadline: (now + delay_with_jitter(attempt, jitter)) as u64,
            })
            &&& context.retry_attempt < u32::MAX ==> attempt == context.retry_attempt + 1
            &&& after.reacts(retry, later, jitter).1 == seq![ActionModel::DialExchange { generation }]
        }),
{
    law_retry_delays_are_bounded(next_attempt(context.retry_attempt), jitter);
}

/// What is lost is no longer counted on: without the exchange, the listener or
/// the address the reservation is not ready, and the loss is published once. The
/// exchange takes the connection with it; a listener or an address does not.
pub proof fn law_losses_end_readiness(
    context: ContextModel,
    peer_id: Seq<u8>,
    connection_id: ConnectionId,
    listener_id: ListenerId,
    address: Seq<u8>,
    now: u64,
    jitter: i16,
)
    requires
        context.exchange_peer_id == Some(peer_id),
        context.exchange_connection_id == Some(connection_id),
        context.listener_id == Some(listener_id),
        context.canonical_address == Some(address),
        context.is_ready(),
        context.retry_attempt == 0,
        now + 300_000_000 <= u64::MAX,
    ensures
        ({
            let generation = context.generation;
            let exchange = context.reacts(
                EventModel::ExchangeLost { generation, peer_id, connection_id },
                now,
                jitter,
            );
            let listener = context.reacts(
                EventModel::ListenerClosed { generation, peer_id, connection_id, listener_id },
                now,
                jitter,
            );
            let place = context.reacts(
                EventModel::RelayAddressLost {
                    generation,
                    peer_id,
                    connection_id,
                    listener_id,
                    address,
                },
                now,
                jitter,
            );
            let told = |actions: Seq<ActionModel>|
                actions.len() == 2 && actions[0] == (ActionModel::PublishDegraded { generation })
                    && actions[1] is ScheduleRetry;
            &&& !exchange.0.is_ready() && exchange.0.phase() == ReservationState::Degraded && told(
                exchange.1,
            )
            &&& !listener.0.is_ready() && listener.0.phase() == ReservationState::Degraded && told(
                listener.1,
            )
            &&& !place.0.is_ready() && place.0.phase() == ReservationState::Degraded && told(place.1)
            &&& exchange.0.exchange_connection_id is None && exchange.0.exchange_peer_id
                == context.exchange_peer_id
            &&& exchange.0.listener_id is None && exchange.0.canonical_address is None
            &&& !exchange.0.accepted && !exchange.0.address_confirmed
            &&& listener.0.exchange_connection_id == Some(connection_id) && listener.0.exchange_peer_id
                == Some(peer_id)
            &&& listener.0.listener_id is None && listener.0.canonical_address is None
            &&& !listener.0.accepted && !listener.0.address_confirmed
            &&& place.0.exchange_connection_id == Some(connection_id) && place.0.listener_id == Some(
                listener_id,
            )
            &&& place.0.canonical_address is None && place.0.accepted && !place.0.address_confirmed
        }),
{
    law_retry_delays_are_bounded(1, jitter);
}

/// Another listener or another address than the one that is known may go.
pub proof fn law_other_listeners_may_close(
    context: ContextModel,
    generation: u64,
    peer_id: Seq<u8>,
    connection_id: ConnectionId,
    listener_id: ListenerId,
    address: Seq<u8>,
    now: u64,
    jitter: i16,
)
    ensures
        context.listener_id != Some(listener_id) ==> context.reacts(
            EventModel::ListenerClosed { generation, peer_id, connection_id, listener_id },
            now,
            jitter,
        ) == (context, Seq::<ActionModel>::empty()),
        context.listener_id != Some(listener_id) || context.canonical_address != Some(address)
            ==> context.reacts(
            EventModel::RelayAddressLost { generation, peer_id, connection_id, listener_id, address },
            now,
            jitter,
        ) == (context, Seq::<ActionModel>::empty()),
        context.listener_id is Some && context.listener_id != Some(listener_id) ==> context.reacts(
            EventModel::RelayAddressConfirmed {
                generation,
                peer_id,
                connection_id,
                listener_id,
                address,
            },
            now,
            jitter,
        ) == (context, Seq::<ActionModel>::empty()) && forall|renewal: bool|
            #[trigger] context.reacts(
                EventModel::ReservationAccepted {
                    generation,
                    peer_id,
                    connection_id,
                    listener_id,
                    renewal,
                },
                now,
                jitter,
            ) == (context, Seq::<ActionModel>::empty()),
{
}

/// A later generation, and the first start of the current one, begins with
/// nothing but its connection, on which a listener is asked for. The same start
/// again changes nothing, and another one of the same generation is refused.
pub proof fn law_generations_start_afresh(
    context: ContextModel,
    generation: u64,
    peer_id: Seq<u8>,
    connection_id: ConnectionId,
    now: u64,
    jitter: i16,
)
    ensures
        ({
            let event = EventModel::GenerationStarted { generation, peer_id, connection_id };
            let (after, actions) = context.reacts(event, now, jitter);
            let unknown = context.exchange_peer_id is None && context.exchange_connection_id is None;
            let same = context.exchange_peer_id == Some(peer_id) && context.exchange_connection_id == Some(
                connection_id,
            );
            &&& context.refuses(event) <==> generation == context.generation && !unknown && !same
            &&& generation > context.generation || (generation == context.generation && unknown) ==> after
                == (ContextModel {
                generation,
                exchange_peer_id: Some(peer_id),
                exchange_connection_id: Some(connection_id),
                listener_id: None,
                canonical_address: None,
                accepted: false,
                address_confirmed: false,
                last_acceptance: None,
                renewal_count: 0,
                retry_attempt: 0,
                retry_deadline: None,
                requested: false,
                degraded: false,
            }) && actions == seq![
                ActionModel::CreateCircuitListener { generation, peer_id, connection_id },
            ]
            &&& generation < context.generation || (generation == context.generation && same) ==> after
                == context && actions.len() == 0
        }),
{
}

/// A request for a reservation on the current connection is noted, and nothing
/// else.
pub proof fn law_requests_are_noted(
    context: ContextModel,
    generation: u64,
    peer_id: Seq<u8>,
    connection_id: ConnectionId,
    now: u64,
    jitter: i16,
)
    ensures
        ({
            let (after, actions) = context.reacts(
                EventModel::ReservationRequested { generation, peer_id, connection_id },
                now,
                jitter,
            );
            &&& actions.len() == 0
            &&& after == (ContextModel { requested: after.requested, ..context })
            &&& after.requested == (context.requested || (generation == context.generation
                && context.exchange_peer_id == Some(peer_id) && context.exchange_connection_id == Some(
                connection_id,
            )))
        }),
{
}

/// A reservation that is ready again after a loss starts over: it is published
/// with its address, no retry is due, and the next loss waits as the first one
/// did.
pub proof fn law_recovery_ends_the_loss(
    context: ContextModel,
    peer_id: Seq<u8>,
    connection_id: ConnectionId,
    listener_id: ListenerId,
    address: Seq<u8>,
    now: u64,
    jitter: i16,
    renewal: bool,
)
    requires
        context.exchange_peer_id == Some(peer_id),
        context.exchange_connection_id == Some(connection_id),
        context.listener_id is None || context.listener_id == Some(listener_id),
        context.degraded || !context.accepted || !context.address_confirmed,
    ensures
        ({
            let generation = context.generation;
            let published = seq![ActionModel::PublishReady { generation, address }];
            let accepted = context.reacts(
                EventModel::ReservationAccepted {
                    generation,
                    peer_id,
                    connection_id,
                    listener_id,
                    renewal,
                },
                now,
                jitter,
            );
            let confirmed = context.reacts(
                EventModel::RelayAddressConfirmed {
                    generation,
                    peer_id,
                    connection_id,
                    listener_id,
                    address,
                },
                now,
                jitter,
            );
            &&& accepted.0.accepted && accepted.0.last_acceptance == Some(now) && accepted.0.listener_id
                == Some(listener_id)
            &&& accepted.0.renewal_count == if renewal && context.renewal_count < u64::MAX {
                context.renewal_count + 1
            } else {
                context.renewal_count as int
            }
            &&& confirmed.0.address_confirmed && confirmed.0.canonical_address == Some(address)
                && confirmed.0.listener_id == Some(listener_id)
            &&& context.address_confirmed && context.canonical_address == Some(address) ==> {
                &&& accepted.0.is_ready() && accepted.0.phase() == ReservationState::Ready
                &&& accepted.0.retry_attempt == 0 && accepted.0.retry_deadline is None
                &&& accepted.1 == published
            }
            &&& !context.address_confirmed ==> accepted.1.len() == 0 && !accepted.0.is_ready()
            &&& context.accepted ==> {
                &&& confirmed.0.is_ready() && confirmed.0.phase() == ReservationState::Ready
                &&& confirmed.0.retry_attempt == 0 && confirmed.0.retry_deadline is None
                &&& confirmed.1 == published
            }
            &&& !context.accepted ==> confirmed.1.len() == 0 && !confirmed.0.is_ready()
        }),
{
}

/// Waits double from one attempt to the next, from a quarter of a second up to
/// ten seconds; jitter moves them by so many thousandths, by a fifth at most.
pub proof fn law_waits_double(attempt: u32, jitter: i16)
    ensures
        base_delay(0) == 250_000_000 && base_delay(1) == 250_000_000,
        1 <= attempt < u32::MAX ==> base_delay((attempt + 1) as u32) == if 2 * base_delay(attempt)
            < 10_000_000_000 {
            2 * base_delay(attempt)
        } else {
            10_000_000_000
        },
        -200 <= jitter <= 200 ==> 1000 * delay_with_jitter(attempt, jitter) == base_delay(attempt) * (1000
            + jitter),
        jitter > 200 ==> delay_with_jitter(attempt, jitter) == delay_with_jitter(attempt, 200),
        jitter < -200 ==> delay_with_jitter(attempt, jitter) == delay_with_jitter(attempt, -200i16),
{
    let base = base_delay(attempt);
    let part = base / 1000;
    let j = jitter as int;
    assert(base == part * 1000);
    assert(1000 * (part * 1000 + part * j) == part * 1000 * (1000 + j)) by (nonlinear_arith);
}

/// A reservation counts as ready exactly where it was accepted, its address is
/// confirmed and nothing of it was lost since.
pub proof fn law_phases_say_what_is_known(context: ContextModel)
    ensures
        context.is_ready() <==> context.accepted && context.address_confirmed && !context.degraded,
        context.phase() == ReservationState::Ready <==> context.is_ready(),
        context.phase() == ReservationState::Degraded <==> context.degraded,
        !context.degraded && context.accepted && !context.address_confirmed ==> context.phase()
            == ReservationState::ReservationAccepted,
        !context.degraded && !context.accepted && context.address_confirmed ==> context.phase()
            == ReservationState::RelayAddressConfirmed,
        !context.degraded && !context.accepted && !context.address_confirmed ==> context.phase()
            == if context.requested {
            ReservationState::ReservationRequested
        } else if context.exchange_connection_id is Some {
            ReservationState::ExchangeConnected
        } else {
            ReservationState::Disconnected
        },
{
}

/// A reservation is asked for once there is a session, or in a lab without one,
/// where the exchange is connected and its address known, and not twice.
pub proof fn law_reservations_are_asked_for_once(
    lab: bool,
    session_ready: bool,
    requested: bool,
    has_address: bool,
    has_connection: bool,
    r: bool,
)
    requires
        call_ensures(
            reservation_due,
            (lab, session_ready, requested, has_address, has_connection),
            r,
        ),
    ensures
        requested || !has_address || !has_connection ==> !r,
        !lab && !session_ready ==> !r,
        (lab || session_ready) && !requested && has_address && has_connection ==> r,
{
}

/// A retry that is told when it is due is made at once: on the connection to the
/// exchange if there is one, and by dialing it if there is none.
pub proof fn law_due_retries_are_made(
    context: &mut ReservationContext,
    event: ReservationEvent,
    now: u64,
    jitter: i16,
    r: Result<Vec<ReservationAction>, ReservationError>,
)
    requires
        call_ensures(ReservationContext::apply_at, (context, event, now, jitter), r),
        event@ == (EventModel::RetryElapsed {
            generation: old(context)@.generation,
            attempt: old(context)@.retry_attempt,
        }),
        old(context)@.retry_deadline matches Some(deadline) && now >= deadline,
    ensures
        r matches Ok(actions) && actions@.len() == 1 && {
            let linked = old(context)@.exchange_peer_id is Some && old(context)@.exchange_connection_id
                is Some;
            &&& linked ==> (actions@[0]@ matches ActionModel::CreateCircuitListener {
                generation,
                connection_id,
                ..
            } && generation == old(context)@.generation && Some(connection_id) == old(context)@.exchange_connection_id)
            &&& !linked ==> actions@[0]@ == (ActionModel::DialExchange {
                generation: old(context)@.generation,
            })
        },
        final(context)@.retry_deadline is None,
{
    law_retries_are_made_when_due(old(context)@, now, jitter);
    let actions = r->Ok_0;
    assert(action_models(actions@)[0] == actions@[0]@);
}

} // verus!
