//! Streams that are asked for and streams that come in. A stream itself is
//! something of type `S` that is only handed on; what is asked for carries a
//! `P`. Times are nanoseconds since a fixed origin.
use crate::peer::{ConnectionId, ConnectionKey, PeerId};
use crate::stream_handler::{HandlerModel, StreamHandler};
use crate::table::Table;
use crate::workers::Workers;
use vstd::multiset::Multiset;
use vstd::prelude::*;

verus! {

/// How many streams may be asked for at a time.
pub const MAX_PENDING: usize = 128;

/// How many of them from one peer.
pub const MAX_PER_PEER: usize = 64;

/// How many requests may wait to be sent.
pub const MAX_QUEUE: usize = 128;

/// How many incoming streams may wait to be handed on.
pub const MAX_INBOUND_EVENTS: usize = 128;

/// How long opening a stream may take.
pub const OPEN_DEADLINE: u64 = 5_000_000_000;

/// The number of a request for a stream.
#[derive(Clone, Copy, Debug, PartialEq, Eq, Structural)]
pub struct RequestId(pub u64);

/// What one kind of stream calls its failures, which streams it takes, and how
/// many incoming ones.
#[derive(Clone, Copy, Debug, PartialEq, Eq)]
pub struct StreamRules {
    pub inbound_enabled: bool,
    pub outbound_enabled: bool,
    pub max_inbound_workers: usize,
    pub max_inbound_workers_per_peer: usize,
    pub outbound_limit_code: &'static str,
    pub inbound_limit_code: &'static str,
    pub exhausted_code: &'static str,
    pub timeout_code: &'static str,
    pub cancelled_code: &'static str,
    pub shutdown_code: &'static str,
    pub closed_code: &'static str,
    pub mismatch_code: &'static str,
    pub queue_full_code: &'static str,
    pub negotiation_code: &'static str,
}

/// The code for a connection that is not known.
pub const UNKNOWN_CODE: &'static str = "connection_unknown";

/// What comes out for the owner.
#[derive(Debug)]
pub enum StreamOutput<S> {
    OutboundOpened { request_id: RequestId, peer_id: PeerId, connection_id: ConnectionId, stream: S },
    OutboundFailed {
        request_id: RequestId,
        peer_id: PeerId,
        connection_id: ConnectionId,
        code: &'static str,
    },
    InboundOpened { peer_id: PeerId, connection_id: ConnectionId, stream: S },
    InboundRejected { peer_id: PeerId, connection_id: ConnectionId, code: &'static str },
}

#[verifier::ext_equal]
pub enum OutputModel<S> {
    OutboundOpened { request_id: RequestId, peer_id: Seq<u8>, connection_id: ConnectionId, stream: S },
    OutboundFailed {
        request_id: RequestId,
        peer_id: Seq<u8>,
        connection_id: ConnectionId,
        code: Seq<char>,
    },
    InboundOpened { peer_id: Seq<u8>, connection_id: ConnectionId, stream: S },
    InboundRejected { peer_id: Seq<u8>, connection_id: ConnectionId, code: Seq<char> },
}

impl<S> View for StreamOutput<S> {
    type V = OutputModel<S>;

    open spec fn view(&self) -> OutputModel<S> {
        match *self {
            StreamOutput::OutboundOpened { request_id, peer_id, connection_id, stream } =>
                OutputModel::OutboundOpened { request_id, peer_id: peer_id@, connection_id, stream },
            StreamOutput::OutboundFailed { request_id, peer_id, connection_id, code } =>
                OutputModel::OutboundFailed { request_id, peer_id: peer_id@, connection_id, code: code@ },
            StreamOutput::InboundOpened { peer_id, connection_id, stream } =>
                OutputModel::InboundOpened { peer_id: peer_id@, connection_id, stream },
            StreamOutput::InboundRejected { peer_id, connection_id, code } =>
                OutputModel::InboundRejected { peer_id: peer_id@, connection_id, code: code@ },
        }
    }
}

/// What a connection reports.
#[derive(Debug)]
pub enum StreamEvent<S> {
    OutboundOpened { request_id: RequestId, stream: S },
    OutboundFailed { request_id: RequestId, code: &'static str },
    InboundOpened { stream: S },
}

/// A request on its way to its connection.
#[derive(Debug)]
pub struct OpenStream<P> {
    pub request_id: RequestId,
    pub peer_id: PeerId,
    pub connection_id: ConnectionId,
    pub open: P,
}

/// What is to be done next.
#[derive(Debug)]
pub enum StreamAction<S, P> {
    /// Hand this to the owner.
    Output(StreamOutput<S>),
    /// Send this request to its connection.
    Notify(OpenStream<P>),
    Pending,
}

#[derive(Clone, Copy, Debug, PartialEq, Eq, Structural)]
pub enum PendingPhase {
    Queued,
    Notified,
    TerminalQueued,
}

/// A request that is not answered yet, or whose answer waits to be handed on.
struct PendingOpen<S> {
    request_id: RequestId,
    peer_id: PeerId,
    connection_id: ConnectionId,
    deadline: u64,
    phase: PendingPhase,
    terminal: Option<StreamOutput<S>>,
}

#[verifier::ext_equal]
pub struct PendingModel<S> {
    pub request_id: RequestId,
    pub peer_id: Seq<u8>,
    pub connection_id: ConnectionId,
    pub deadline: u64,
    pub phase: PendingPhase,
    pub terminal: Option<OutputModel<S>>,
}

spec fn output_of<S>(output: Option<StreamOutput<S>>) -> Option<OutputModel<S>> {
    match output {
        Some(output) => Some(output@),
        None => None,
    }
}

impl<S> View for PendingOpen<S> {
    type V = PendingModel<S>;

    closed spec fn view(&self) -> PendingModel<S> {
        PendingModel {
            request_id: self.request_id,
            peer_id: self.peer_id@,
            connection_id: self.connection_id,
            deadline: self.deadline,
            phase: self.phase,
            terminal: output_of(self.terminal),
        }
    }
}

spec fn pending_models<S>(pending: Seq<PendingOpen<S>>) -> Seq<PendingModel<S>> {
    Seq::new(pending.len(), |i: int| pending[i]@)
}

spec fn output_models<S>(outputs: Seq<StreamOutput<S>>) -> Seq<OutputModel<S>> {
    Seq::new(outputs.len(), |i: int| outputs[i]@)
}

/// The numbers of requests.
pub open spec fn ids<S>(pending: Seq<PendingModel<S>>) -> Seq<RequestId> {
    Seq::new(pending.len(), |i: int| pending[i].request_id)
}

/// The numbers of requests that wait to be sent.
pub open spec fn command_ids<P>(commands: Seq<(RequestId, P)>) -> Seq<RequestId> {
    Seq::new(commands.len(), |i: int| commands[i].0)
}

/// How many requests are for a peer.
pub open spec fn of_peer<S>(pending: Seq<PendingModel<S>>, peer: Seq<u8>) -> nat
    decreases pending.len(),
{
    if pending.len() == 0 {
        0
    } else {
        of_peer(pending.drop_last(), peer) + if pending.last().peer_id == peer {
            1nat
        } else {
            0nat
        }
    }
}

/// The numbers of the requests that satisfy a predicate, oldest first.
pub open spec fn ids_where<S>(pending: Seq<PendingModel<S>>, which: spec_fn(PendingModel<S>) -> bool) -> Seq<
    RequestId,
>
    decreases pending.len(),
{
    if pending.len() == 0 {
        Seq::empty()
    } else {
        let before = ids_where(pending.drop_last(), which);
        if which(pending.last()) {
            before.push(pending.last().request_id)
        } else {
            before
        }
    }
}

/// Everything that is known of the streams of one kind.
#[verifier::ext_equal]
pub struct StreamsModel<S, P> {
    pub rules: StreamRules,
    pub next: u64,
    pub known: Map<(Seq<u8>, ConnectionId), ()>,
    pub pending: Seq<PendingModel<S>>,
    pub commands: Seq<(RequestId, P)>,
    pub terminals: Seq<RequestId>,
    pub inbound_events: Seq<OutputModel<S>>,
    pub workers: Multiset<Seq<u8>>,
    pub inbound_rejected: u64,
}

impl<S, P> StreamsModel<S, P> {
    /// Nothing is going on.
    pub open spec fn empty(rules: StreamRules) -> Self {
        StreamsModel {
            rules,
            next: 0,
            known: Map::empty(),
            pending: Seq::empty(),
            commands: Seq::empty(),
            terminals: Seq::empty(),
            inbound_events: Seq::empty(),
            workers: Multiset::empty(),
            inbound_rejected: 0,
        }
    }

    /// What always holds: requests stand in the order of their numbers; the
    /// ones that wait to be sent are exactly the queued ones, and the ones whose
    /// answer waits to be handed on are exactly those with an answer; room is
    /// bounded.
    pub open spec fn valid(self) -> bool {
        &&& forall|i: int, j: int|
            0 <= i < j < self.pending.len() ==> (#[trigger] self.pending[i]).request_id.0 < (
            #[trigger] self.pending[j]).request_id.0
        &&& forall|i: int|
            0 <= i < self.pending.len() ==> 1 <= (#[trigger] self.pending[i]).request_id.0 <= self.next && (
            self.pending[i].terminal is Some <==> self.pending[i].phase == PendingPhase::TerminalQueued)
        &&& self.terminals.no_duplicates()
        &&& command_ids(self.commands).no_duplicates()
        &&& forall|id: RequestId| #[trigger]
            self.terminals.contains(id) <==> self.in_phase(id, PendingPhase::TerminalQueued)
        &&& forall|id: RequestId| #[trigger]
            command_ids(self.commands).contains(id) <==> self.in_phase(id, PendingPhase::Queued)
        &&& self.pending.len() <= MAX_PENDING
        &&& forall|peer: Seq<u8>| #[trigger] of_peer(self.pending, peer) <= MAX_PER_PEER
        &&& self.inbound_events.len() <= MAX_INBOUND_EVENTS
        &&& self.workers.len() <= self.rules.max_inbound_workers
        &&& forall|peer: Seq<u8>| #[trigger]
            self.workers.count(peer) <= self.rules.max_inbound_workers_per_peer
    }

    /// Whether a request is in a phase.
    pub open spec fn in_phase(self, id: RequestId, phase: PendingPhase) -> bool {
        ids(self.pending).contains(id) && self.pending[ids(self.pending).index_of(id)].phase == phase
    }

    /// Why a stream cannot be asked for.
    pub open spec fn refusal(self, peer: Seq<u8>, connection: ConnectionId) -> Option<Seq<char>> {
        if !self.known.contains_key((peer, connection)) {
            Some(UNKNOWN_CODE@)
        } else if self.pending.len() >= MAX_PENDING || of_peer(self.pending, peer) >= MAX_PER_PEER
            || self.commands.len() >= MAX_QUEUE {
            Some(self.rules.outbound_limit_code@)
        } else if self.next == u64::MAX {
            Some(self.rules.exhausted_code@)
        } else {
            None
        }
    }

    /// After a stream was asked for.
    pub open spec fn asked(self, peer: Seq<u8>, connection: ConnectionId, open: P, now: u64) -> Self {
        let request_id = RequestId((self.next + 1) as u64);
        StreamsModel {
            next: request_id.0,
            pending: self.pending.push(
                PendingModel {
                    request_id,
                    peer_id: peer,
                    connection_id: connection,
                    deadline: (now + OPEN_DEADLINE) as u64,
                    phase: PendingPhase::Queued,
                    terminal: None,
                },
            ),
            commands: self.commands.push((request_id, open)),
            ..self
        }
    }

    /// Whether a request has no answer yet.
    pub open spec fn unanswered(self, id: RequestId) -> bool {
        ids(self.pending).contains(id) && !self.in_phase(id, PendingPhase::TerminalQueued)
    }

    /// After a request got its answer. A second answer is dropped.
    pub open spec fn answered(self, id: RequestId, output: OutputModel<S>) -> Self {
        if !self.unanswered(id) {
            self
        } else {
            let i = ids(self.pending).index_of(id);
            StreamsModel {
                pending: self.pending.update(
                    i,
                    PendingModel {
                        phase: PendingPhase::TerminalQueued,
                        terminal: Some(output),
                        ..self.pending[i]
                    },
                ),
                commands: if command_ids(self.commands).contains(id) {
                    self.commands.remove(command_ids(self.commands).index_of(id))
                } else {
                    self.commands
                },
                terminals: self.terminals.push(id),
                ..self
            }
        }
    }

    /// The failure of a request.
    pub open spec fn failure(self, id: RequestId, code: Seq<char>) -> OutputModel<S> {
        let request = self.pending[ids(self.pending).index_of(id)];
        OutputModel::OutboundFailed {
            request_id: id,
            peer_id: request.peer_id,
            connection_id: request.connection_id,
            code,
        }
    }

    /// After a request failed.
    pub open spec fn failed(self, id: RequestId, code: Seq<char>) -> Self {
        self.answered(id, self.failure(id, code))
    }

    /// After a request was given up.
    pub open spec fn cancelled(self, id: RequestId) -> Self {
        self.failed(id, self.rules.cancelled_code@)
    }

    /// After requests failed one after the other.
    pub open spec fn all_failed(self, failing: Seq<RequestId>, code: Seq<char>) -> Self
        decreases failing.len(),
    {
        if failing.len() == 0 {
            self
        } else {
            self.all_failed(failing.drop_last(), code).failed(failing.last(), code)
        }
    }

    /// After the time of requests has run out.
    pub open spec fn expired(self, now: u64) -> Self {
        self.all_failed(
            ids_where(self.pending, |p: PendingModel<S>| p.deadline <= now),
            self.rules.timeout_code@,
        )
    }

    /// After the end.
    pub open spec fn shut_down(self) -> Self {
        self.all_failed(ids_where(self.pending, |p: PendingModel<S>| true), self.rules.shutdown_code@)
    }

    /// After a connection is there.
    pub open spec fn connected(self, peer: Seq<u8>, connection: ConnectionId) -> Self {
        StreamsModel { known: self.known.insert((peer, connection), ()), ..self }
    }

    /// After a connection is gone.
    pub open spec fn disconnected(self, peer: Seq<u8>, connection: ConnectionId) -> Self {
        (StreamsModel { known: self.known.remove((peer, connection)), ..self }).all_failed(
            ids_where(
                self.pending,
                |p: PendingModel<S>| p.peer_id == peer && p.connection_id == connection,
            ),
            self.rules.closed_code@,
        )
    }

    /// Whether a peer may have one worker more.
    pub open spec fn admits(self, peer: Seq<u8>) -> bool {
        self.workers.len() < self.rules.max_inbound_workers && self.workers.count(peer)
            < self.rules.max_inbound_workers_per_peer
    }

    /// Why a peer may have no worker more.
    pub open spec fn admission_refusal(self, peer: Seq<u8>) -> Option<Seq<char>> {
        if self.admits(peer) {
            None
        } else {
            Some(self.rules.inbound_limit_code@)
        }
    }

    /// Whether a request belongs to a connection.
    pub open spec fn belongs(self, id: RequestId, peer: Seq<u8>, connection: ConnectionId) -> bool {
        let request = self.pending[ids(self.pending).index_of(id)];
        request.peer_id == peer && request.connection_id == connection
    }

    /// After an incoming stream.
    pub open spec fn came_in(self, peer: Seq<u8>, connection: ConnectionId, stream: S) -> Self {
        if self.inbound_events.len() < MAX_INBOUND_EVENTS && self.admits(peer) {
            StreamsModel {
                workers: self.workers.insert(peer),
                inbound_events: self.inbound_events.push(
                    OutputModel::InboundOpened { peer_id: peer, connection_id: connection, stream },
                ),
                ..self
            }
        } else {
            StreamsModel {
                inbound_rejected: if self.inbound_rejected == u64::MAX {
                    u64::MAX
                } else {
                    (self.inbound_rejected + 1) as u64
                },
                inbound_events: if self.inbound_events.len() < MAX_INBOUND_EVENTS {
                    self.inbound_events.push(
                        OutputModel::InboundRejected {
                            peer_id: peer,
                            connection_id: connection,
                            code: self.rules.inbound_limit_code@,
                        },
                    )
                } else {
                    self.inbound_events
                },
                ..self
            }
        }
    }

    /// After a connection reported something. An answer to a request of another
    /// connection counts as a failure of that request.
    pub open spec fn reported(self, peer: Seq<u8>, connection: ConnectionId, event: StreamEvent<S>) -> Self {
        match event {
            StreamEvent::OutboundOpened { request_id, stream } => if self.belongs(
                request_id,
                peer,
                connection,
            ) {
                self.answered(
                    request_id,
                    OutputModel::OutboundOpened {
                        request_id,
                        peer_id: peer,
                        connection_id: connection,
                        stream,
                    },
                )
            } else {
                self.failed(request_id, self.rules.mismatch_code@)
            },
            StreamEvent::OutboundFailed { request_id, code } => self.failed(
                request_id,
                if self.belongs(request_id, peer, connection) {
                    code@
                } else {
                    self.rules.mismatch_code@
                },
            ),
            StreamEvent::InboundOpened { stream } => self.came_in(peer, connection, stream),
        }
    }

    /// After the oldest answer was handed on.
    pub open spec fn answer_taken(self) -> Self {
        let id = self.terminals[0];
        StreamsModel {
            terminals: self.terminals.remove(0),
            pending: self.pending.remove(ids(self.pending).index_of(id)),
            ..self
        }
    }

    /// The oldest answer.
    pub open spec fn answer(self) -> Option<OutputModel<S>> {
        if self.terminals.len() == 0 {
            None
        } else {
            self.pending[ids(self.pending).index_of(self.terminals[0])].terminal
        }
    }

    /// After the first request that waits was sent.
    pub open spec fn sent(self) -> Self {
        let i = ids(self.pending).index_of(self.commands[0].0);
        StreamsModel {
            commands: self.commands.remove(0),
            pending: self.pending.update(
                i,
                PendingModel { phase: PendingPhase::Notified, ..self.pending[i] },
            ),
            ..self
        }
    }
}

proof fn lemma_place<S>(pending: Seq<PendingModel<S>>, i: int)
    requires
        0 <= i < pending.len(),
        forall|a: int, b: int|
            0 <= a < b < pending.len() ==> (#[trigger] pending[a]).request_id.0 < (
            #[trigger] pending[b]).request_id.0,
    ensures
        ids(pending).contains(pending[i].request_id),
        ids(pending).index_of(pending[i].request_id) == i,
{
    let id = pending[i].request_id;
    assert(ids(pending)[i] == id);
    let k = ids(pending).index_of(id);
    assert(ids(pending)[k] == id && 0 <= k < pending.len());
    if k < i {
        assert(pending[k].request_id.0 < pending[i].request_id.0);
    } else if i < k {
        assert(pending[i].request_id.0 < pending[k].request_id.0);
    }
}

/// A change to requests that keeps numbers and peers keeps the count of a peer.
proof fn lemma_of_peer_update<S>(
    pending: Seq<PendingModel<S>>,
    i: int,
    value: PendingModel<S>,
    peer: Seq<u8>,
)
    requires
        0 <= i < pending.len(),
        value.peer_id == pending[i].peer_id,
    ensures
        of_peer(pending.update(i, value), peer) == of_peer(pending, peer),
    decreases pending.len(),
{
    let after = pending.update(i, value);
    if i == pending.len() - 1 {
        assert(after.drop_last() =~= pending.drop_last());
    } else {
        assert(after.drop_last() =~= pending.drop_last().update(i, value));
        lemma_of_peer_update(pending.drop_last(), i, value, peer);
    }
}

proof fn lemma_of_peer_remove<S>(pending: Seq<PendingModel<S>>, i: int, peer: Seq<u8>)
    requires
        0 <= i < pending.len(),
    ensures
        of_peer(pending.remove(i), peer) <= of_peer(pending, peer),
    decreases pending.len(),
{
    let after = pending.remove(i);
    if i == pending.len() - 1 {
        assert(after =~= pending.drop_last());
    } else {
        assert(after.drop_last() =~= pending.drop_last().remove(i));
        assert(after.last() == pending.last());
        lemma_of_peer_remove(pending.drop_last(), i, peer);
    }
}

proof fn lemma_of_peer_push<S>(pending: Seq<PendingModel<S>>, value: PendingModel<S>, peer: Seq<u8>)
    ensures
        of_peer(pending.push(value), peer) == of_peer(pending, peer) + if value.peer_id == peer {
            1nat
        } else {
            0nat
        },
{
    assert(pending.push(value).drop_last() =~= pending);
}

/// What a request says does not change when another phase or answer is put in
/// place of its own.
proof fn lemma_phases_after_update<S>(
    pending: Seq<PendingModel<S>>,
    i: int,
    value: PendingModel<S>,
)
    requires
        0 <= i < pending.len(),
        value.request_id == pending[i].request_id,
    ensures
        ids(pending.update(i, value)) == ids(pending),
{
    assert(ids(pending.update(i, value)) =~= ids(pending));
}

proof fn lemma_asked_valid<S, P>(
    m: StreamsModel<S, P>,
    peer: Seq<u8>,
    connection: ConnectionId,
    open: P,
    now: u64,
)
    requires
        m.valid(),
        m.refusal(peer, connection) is None,
    ensures
        m.asked(peer, connection, open, now).valid(),
{
    let after = m.asked(peer, connection, open, now);
    let n = m.pending.len() as int;
    let new_id = RequestId((m.next + 1) as u64);
    assert forall|i: int, j: int| 0 <= i < j < after.pending.len() implies (
    #[trigger] after.pending[i]).request_id.0 < (#[trigger] after.pending[j]).request_id.0 by {
        assert(after.pending[i] == m.pending[i]);
    }
    assert forall|i: int| 0 <= i < after.pending.len() implies 1 <= (
    #[trigger] after.pending[i]).request_id.0 <= after.next && (after.pending[i].terminal is Some
        <==> after.pending[i].phase == PendingPhase::TerminalQueued) by {
        if i < n {
            assert(after.pending[i] == m.pending[i]);
        }
    }
    assert(ids(after.pending) =~= ids(m.pending).push(new_id));
    assert(command_ids(after.commands) =~= command_ids(m.commands).push(new_id));
    if ids(m.pending).contains(new_id) {
        let k = ids(m.pending).index_of(new_id);
        assert(m.pending[k].request_id == new_id);
    }
    assert forall|id: RequestId, phase: PendingPhase| #[trigger] after.in_phase(id, phase) == (if id
        == new_id {
        phase == PendingPhase::Queued
    } else {
        m.in_phase(id, phase)
    }) by {
        lemma_in_phase_push(m, after, id, phase, new_id);
    }
    if command_ids(m.commands).contains(new_id) {
        assert(m.in_phase(new_id, PendingPhase::Queued));
    }
    assert forall|id: RequestId| #[trigger]
        after.terminals.contains(id) <==> after.in_phase(id, PendingPhase::TerminalQueued) by {
        assert(m.terminals.contains(id) <==> m.in_phase(id, PendingPhase::TerminalQueued));
    }
    assert forall|id: RequestId| #[trigger]
        command_ids(after.commands).contains(id) <==> after.in_phase(id, PendingPhase::Queued) by {
        assert(command_ids(m.commands).contains(id) <==> m.in_phase(id, PendingPhase::Queued));
        if command_ids(m.commands).contains(id) {
            let k = command_ids(m.commands).index_of(id);
            assert(command_ids(after.commands)[k] == id);
        }
        if id == new_id {
            assert(command_ids(after.commands)[m.commands.len() as int] == id);
        }
    }
    assert forall|p: Seq<u8>| #[trigger] of_peer(after.pending, p) <= MAX_PER_PEER by {
        lemma_of_peer_push(m.pending, after.pending[n], p);
    }
}

proof fn lemma_in_phase_push<S, P>(
    m: StreamsModel<S, P>,
    after: StreamsModel<S, P>,
    id: RequestId,
    phase: PendingPhase,
    new_id: RequestId,
)
    requires
        m.valid(),
        after.pending.len() == m.pending.len() + 1,
        forall|i: int| 0 <= i < m.pending.len() ==> #[trigger] after.pending[i] == m.pending[i],
        after.pending.last().request_id == new_id,
        after.pending.last().phase == PendingPhase::Queued,
        !ids(m.pending).contains(new_id),
        forall|i: int, j: int|
            0 <= i < j < after.pending.len() ==> (#[trigger] after.pending[i]).request_id.0 < (
            #[trigger] after.pending[j]).request_id.0,
    ensures
        after.in_phase(id, phase) == if id == new_id {
            phase == PendingPhase::Queued
        } else {
            m.in_phase(id, phase)
        },
{
    let n = m.pending.len() as int;
    if id == new_id {
        lemma_place(after.pending, n);
    } else if ids(m.pending).contains(id) {
        let k = ids(m.pending).index_of(id);
        assert(ids(m.pending)[k] == id);
        lemma_place(after.pending, k);
        assert(after.pending[k] == m.pending[k]);
    } else if ids(after.pending).contains(id) {
        let k = ids(after.pending).index_of(id);
        assert(ids(after.pending)[k] == id);
        assert(k == n || ids(m.pending)[k] == id);
    }
}

/// The phases after the request at place `i` has changed its phase.
proof fn lemma_in_phase_update<S, P>(
    m: StreamsModel<S, P>,
    after: StreamsModel<S, P>,
    i: int,
    value: PendingModel<S>,
    id: RequestId,
    phase: PendingPhase,
)
    requires
        m.valid(),
        0 <= i < m.pending.len(),
        value.request_id == m.pending[i].request_id,
        after.pending == m.pending.update(i, value),
    ensures
        after.in_phase(id, phase) == if id == value.request_id {
            phase == value.phase
        } else {
            m.in_phase(id, phase)
        },
{
    lemma_phases_after_update(m.pending, i, value);
    lemma_place(m.pending, i);
    if ids(m.pending).contains(id) {
        let k = ids(m.pending).index_of(id);
        assert(ids(m.pending)[k] == id);
        if id != value.request_id {
            assert(k != i);
            assert(after.pending[k] == m.pending[k]);
        }
    }
}

proof fn lemma_answered_valid<S, P>(m: StreamsModel<S, P>, id: RequestId, output: OutputModel<S>)
    requires
        m.valid(),
    ensures
        m.answered(id, output).valid(),
        m.answered(id, output).rules == m.rules,
{
    if m.unanswered(id) {
        let after = m.answered(id, output);
        let i = ids(m.pending).index_of(id);
        assert(ids(m.pending)[i] == id);
        let value = after.pending[i];
        assert(after.pending == m.pending.update(i, value));
        lemma_phases_after_update(m.pending, i, value);
        assert forall|a: int, b: int| 0 <= a < b < after.pending.len() implies (
        #[trigger] after.pending[a]).request_id.0 < (#[trigger] after.pending[b]).request_id.0 by {
            assert(after.pending[a].request_id == m.pending[a].request_id);
            assert(after.pending[b].request_id == m.pending[b].request_id);
        }
        assert forall|x: RequestId, phase: PendingPhase| #[trigger] after.in_phase(x, phase) == (if x
            == id {
            phase == PendingPhase::TerminalQueued
        } else {
            m.in_phase(x, phase)
        }) by {
            lemma_in_phase_update(m, after, i, value, x, phase);
        }
        assert(!m.terminals.contains(id));
        assert forall|x: RequestId| #[trigger]
            after.terminals.contains(x) <==> after.in_phase(x, PendingPhase::TerminalQueued) by {
            assert(m.terminals.contains(x) <==> m.in_phase(x, PendingPhase::TerminalQueued));
            if m.terminals.contains(x) {
                let k = m.terminals.index_of(x);
                assert(after.terminals[k] == x);
            }
            if x == id {
                assert(after.terminals[m.terminals.len() as int] == x);
            }
            if after.terminals.contains(x) {
                let k = after.terminals.index_of(x);
                assert(after.terminals[k] == x);
                assert(k == m.terminals.len() || m.terminals[k] == x);
            }
        }
        assert(after.terminals.no_duplicates()) by {
            assert forall|a: int, b: int|
                0 <= a < after.terminals.len() && 0 <= b < after.terminals.len() && a != b implies after.terminals[a]
                != after.terminals[b] by {
                if a == m.terminals.len() {
                    assert(m.terminals.contains(m.terminals[b]));
                } else if b == m.terminals.len() {
                    assert(m.terminals.contains(m.terminals[a]));
                }
            }
        }
        lemma_commands_without(m.commands, id);
        assert forall|x: RequestId| #[trigger]
            command_ids(after.commands).contains(x) <==> after.in_phase(x, PendingPhase::Queued) by {
            assert(command_ids(m.commands).contains(x) <==> m.in_phase(x, PendingPhase::Queued));
        }
        assert forall|p: Seq<u8>| #[trigger] of_peer(after.pending, p) <= MAX_PER_PEER by {
            lemma_of_peer_update(m.pending, i, value, p);
        }
    }
}

/// The commands without that of a request.
spec fn commands_without<P>(commands: Seq<(RequestId, P)>, id: RequestId) -> Seq<(RequestId, P)> {
    if command_ids(commands).contains(id) {
        commands.remove(command_ids(commands).index_of(id))
    } else {
        commands
    }
}

proof fn lemma_commands_without<P>(commands: Seq<(RequestId, P)>, id: RequestId)
    requires
        command_ids(commands).no_duplicates(),
    ensures
        command_ids(commands_without(commands, id)).no_duplicates(),
        forall|x: RequestId| #[trigger]
            command_ids(commands_without(commands, id)).contains(x) <==> x != id && command_ids(
                commands,
            ).contains(x),
{
    let before = command_ids(commands);
    let after = command_ids(commands_without(commands, id));
    if before.contains(id) {
        let k = before.index_of(id);
        assert(before[k] == id);
        assert(after =~= before.remove(k));
        assert forall|x: RequestId| #[trigger] after.contains(x) <==> x != id && before.contains(x) by {
            if after.contains(x) {
                let a = after.index_of(x);
                assert(after[a] == x);
                let b = if a < k {
                    a
                } else {
                    a + 1
                };
                assert(before[b] == x);
            }
            if x != id && before.contains(x) {
                let b = before.index_of(x);
                assert(before[b] == x);
                let a = if b < k {
                    b
                } else {
                    b - 1
                };
                assert(after[a] == x);
            }
        }
    }
}

proof fn lemma_all_failed_valid<S, P>(m: StreamsModel<S, P>, failing: Seq<RequestId>, code: Seq<char>)
    requires
        m.valid(),
    ensures
        m.all_failed(failing, code).valid(),
        m.all_failed(failing, code).rules == m.rules,
    decreases failing.len(),
{
    if failing.len() > 0 {
        lemma_all_failed_valid(m, failing.drop_last(), code);
        let before = m.all_failed(failing.drop_last(), code);
        lemma_answered_valid(before, failing.last(), before.failure(failing.last(), code));
    }
}

proof fn lemma_answer_taken_valid<S, P>(m: StreamsModel<S, P>)
    requires
        m.valid(),
        m.terminals.len() > 0,
    ensures
        ids(m.pending).contains(m.terminals[0]),
        m.answer() is Some,
        m.answer_taken().valid(),
{
    let after = m.answer_taken();
    let id = m.terminals[0];
    assert(m.terminals.contains(id));
    assert(m.in_phase(id, PendingPhase::TerminalQueued));
    let i = ids(m.pending).index_of(id);
    assert(ids(m.pending)[i] == id);
    assert forall|a: int| 0 <= a < after.pending.len() implies #[trigger] after.pending[a]
        == m.pending[if a < i {
        a
    } else {
        a + 1
    }] by {}
    assert forall|a: int, b: int| 0 <= a < b < after.pending.len() implies (
    #[trigger] after.pending[a]).request_id.0 < (#[trigger] after.pending[b]).request_id.0 by {}
    assert forall|x: RequestId, phase: PendingPhase| #[trigger] after.in_phase(x, phase) == (x != id
        && m.in_phase(x, phase)) by {
        if ids(m.pending).contains(x) && x != id {
            let k = ids(m.pending).index_of(x);
            assert(ids(m.pending)[k] == x);
            let there = if k < i {
                k
            } else {
                k - 1
            };
            assert(after.pending[there] == m.pending[k]);
            lemma_place(after.pending, there);
        }
        if ids(after.pending).contains(x) {
            let k = ids(after.pending).index_of(x);
            assert(ids(after.pending)[k] == x);
            let from = if k < i {
                k
            } else {
                k + 1
            };
            assert(ids(m.pending)[from] == x);
            lemma_place(m.pending, from);
        }
    }
    assert forall|x: RequestId| #[trigger]
        after.terminals.contains(x) <==> after.in_phase(x, PendingPhase::TerminalQueued) by {
        assert(m.terminals.contains(x) <==> m.in_phase(x, PendingPhase::TerminalQueued));
        if after.terminals.contains(x) {
            let k = after.terminals.index_of(x);
            assert(m.terminals[k + 1] == x);
        }
        if x != id && m.terminals.contains(x) {
            let k = m.terminals.index_of(x);
            assert(after.terminals[k - 1] == x);
        }
    }
    assert forall|x: RequestId| #[trigger]
        command_ids(after.commands).contains(x) <==> after.in_phase(x, PendingPhase::Queued) by {
        assert(command_ids(m.commands).contains(x) <==> m.in_phase(x, PendingPhase::Queued));
    }
    assert forall|p: Seq<u8>| #[trigger] of_peer(after.pending, p) <= MAX_PER_PEER by {
        lemma_of_peer_remove(m.pending, i, p);
    }
}

proof fn lemma_sent_valid<S, P>(m: StreamsModel<S, P>)
    requires
        m.valid(),
        m.commands.len() > 0,
    ensures
        m.in_phase(m.commands[0].0, PendingPhase::Queued),
        m.sent().valid(),
{
    let id = m.commands[0].0;
    assert(command_ids(m.commands)[0] == id);
    assert(command_ids(m.commands).contains(id));
    assert(m.in_phase(id, PendingPhase::Queued));
    let after = m.sent();
    let i = ids(m.pending).index_of(id);
    assert(ids(m.pending)[i] == id);
    let value = after.pending[i];
    assert(after.pending == m.pending.update(i, value));
    lemma_phases_after_update(m.pending, i, value);
    assert forall|a: int, b: int| 0 <= a < b < after.pending.len() implies (
    #[trigger] after.pending[a]).request_id.0 < (#[trigger] after.pending[b]).request_id.0 by {
        assert(after.pending[a].request_id == m.pending[a].request_id);
        assert(after.pending[b].request_id == m.pending[b].request_id);
    }
    assert forall|x: RequestId, phase: PendingPhase| #[trigger] after.in_phase(x, phase) == (if x == id {
        phase == PendingPhase::Notified
    } else {
        m.in_phase(x, phase)
    }) by {
        lemma_in_phase_update(m, after, i, value, x, phase);
    }
    assert(command_ids(m.commands).index_of(id) == 0) by {
        let k = command_ids(m.commands).index_of(id);
        assert(command_ids(m.commands)[k] == id);
    }
    lemma_commands_without(m.commands, id);
    assert forall|x: RequestId| #[trigger]
        after.terminals.contains(x) <==> after.in_phase(x, PendingPhase::TerminalQueued) by {
        assert(m.terminals.contains(x) <==> m.in_phase(x, PendingPhase::TerminalQueued));
    }
    assert forall|x: RequestId| #[trigger]
        command_ids(after.commands).contains(x) <==> after.in_phase(x, PendingPhase::Queued) by {
        assert(command_ids(m.commands).contains(x) <==> m.in_phase(x, PendingPhase::Queued));
    }
    assert forall|p: Seq<u8>| #[trigger] of_peer(after.pending, p) <= MAX_PER_PEER by {
        lemma_of_peer_update(m.pending, i, value, p);
    }
}

/// The streams of one kind.
pub struct StreamBehaviour<S, P> {
    rules: StreamRules,
    next: u64,
    known: Table<ConnectionKey, ()>,
    pending: Vec<PendingOpen<S>>,
    commands: Vec<(RequestId, P)>,
    terminals: Vec<RequestId>,
    inbound_events: Vec<StreamOutput<S>>,
    inbound_workers: Workers,
    inbound_rejected: u64,
}

impl<S, P> View for StreamBehaviour<S, P> {
    type V = StreamsModel<S, P>;

    closed spec fn view(&self) -> StreamsModel<S, P> {
        StreamsModel {
            rules: self.rules,
            next: self.next,
            known: self.known@,
            pending: pending_models(self.pending@),
            commands: self.commands@,
            terminals: self.terminals@,
            inbound_events: output_models(self.inbound_events@),
            workers: self.inbound_workers@,
            inbound_rejected: self.inbound_rejected,
        }
    }
}

impl<S, P> StreamBehaviour<S, P> {
    /// Nothing is going on.
    pub fn with_rules(rules: StreamRules) -> (r: Self)
        ensures
            r@ == StreamsModel::<S, P>::empty(rules),
            r@.valid(),
    {
        let r = StreamBehaviour {
            rules,
            next: 0,
            known: Table::new(),
            pending: Vec::new(),
            commands: Vec::new(),
            terminals: Vec::new(),
            inbound_events: Vec::new(),
            inbound_workers: Workers::new(),
            inbound_rejected: 0,
        };
        assert(r@ =~= StreamsModel::<S, P>::empty(rules));
        r
    }

    /// A handler for a new connection.
    pub fn new_handler(&self) -> (r: StreamHandler<S, P>)
        ensures
            r@ == HandlerModel::<S, P>::empty(self@.rules),
    {
        StreamHandler::with_rules(self.rules)
    }

    /// Takes a worker of a peer in, if there is room.
    pub fn inbound_admit(&mut self, peer_id: &PeerId) -> (r: Result<(), &'static str>)
        requires
            old(self)@.valid(),
        ensures
            final(self)@.valid(),
            match r {
                Ok(()) => old(self)@.admission_refusal(peer_id@) is None && final(self)@ == (StreamsModel {
                    workers: old(self)@.workers.insert(peer_id@),
                    ..old(self)@
                }),
                Err(code) => old(self)@.admission_refusal(peer_id@) == Some(code@) && final(self)@
                    == old(self)@,
            },
    {
        if self.inbound_workers.total() >= self.rules.max_inbound_workers || self.inbound_workers.of_peer(
            peer_id,
        ) >= self.rules.max_inbound_workers_per_peer {
            return Err(self.rules.inbound_limit_code);
        }
        self.inbound_workers.start(peer_id.clone());
        Ok(())
    }

    /// A worker of a peer is done.
    pub fn inbound_release(&mut self, peer_id: &PeerId)
        requires
            old(self)@.valid(),
        ensures
            final(self)@.valid(),
            final(self)@ == (StreamsModel {
                workers: old(self)@.workers.remove(peer_id@),
                ..old(self)@
            }),
    {
        self.inbound_workers.stop(peer_id);
        proof {
            let before = old(self)@.workers;
            let after = before.remove(peer_id@);
            assert forall|p: Seq<u8>| #[trigger] after.count(p)
                <= self@.rules.max_inbound_workers_per_peer by {
                assert(before.count(p) <= old(self)@.rules.max_inbound_workers_per_peer);
            }
            if before.count(peer_id@) == 0 {
                assert(after =~= before);
            }
            assert(forall|id: RequestId, phase: PendingPhase| #[trigger]
                self@.in_phase(id, phase) == old(self)@.in_phase(id, phase));
        }
    }

    pub fn pending_count(&self) -> (r: usize)
        ensures
            r == self@.pending.len(),
    {
        self.pending.len()
    }

    pub fn command_count(&self) -> (r: usize)
        ensures
            r == self@.commands.len(),
    {
        self.commands.len()
    }

    pub fn terminal_count(&self) -> (r: usize)
        ensures
            r == self@.terminals.len(),
    {
        self.terminals.len()
    }

    pub fn inbound_event_count(&self) -> (r: usize)
        ensures
            r == self@.inbound_events.len(),
    {
        self.inbound_events.len()
    }

    pub fn inbound_rejected_count(&self) -> (r: u64)
        ensures
            r == self@.inbound_rejected,
    {
        self.inbound_rejected
    }

    /// A connection is there.
    pub fn connection_established(&mut self, peer_id: &PeerId, connection_id: ConnectionId)
        requires
            old(self)@.valid(),
        ensures
            final(self)@.valid(),
            final(self)@ == old(self)@.connected(peer_id@, connection_id),
    {
        self.known.insert(ConnectionKey::of(peer_id, connection_id), ());
        assert(forall|id: RequestId, phase: PendingPhase| #[trigger]
            self@.in_phase(id, phase) == old(self)@.in_phase(id, phase));
    }

    /// Asks for a stream on a connection.
    pub fn open_on_at(&mut self, peer_id: &PeerId, connection_id: ConnectionId, open: P, now: u64) -> (r:
        Result<RequestId, &'static str>)
        requires
            old(self)@.valid(),
            now + OPEN_DEADLINE <= u64::MAX,
        ensures
            final(self)@.valid(),
            match r {
                Ok(id) => old(self)@.refusal(peer_id@, connection_id) is None && id.0 == old(self)@.next + 1
                    && final(self)@ == old(self)@.asked(peer_id@, connection_id, open, now),
                Err(code) => old(self)@.refusal(peer_id@, connection_id) == Some(code@) && final(self)@
                    == old(self)@,
            },
    {
        let key = ConnectionKey::of(peer_id, connection_id);
        if !self.known.contains(&key) {
            return Err(UNKNOWN_CODE);
        }
        if self.pending.len() >= MAX_PENDING || self.count_of_peer(peer_id) >= MAX_PER_PEER
            || self.commands.len() >= MAX_QUEUE {
            return Err(self.rules.outbound_limit_code);
        }
        if self.next == u64::MAX {
            return Err(self.rules.exhausted_code);
        }
        proof {
            lemma_asked_valid(self@, peer_id@, connection_id, open, now);
        }
        self.next = self.next + 1;
        let request_id = RequestId(self.next);
        self.pending.push(
            PendingOpen {
                request_id,
                peer_id: peer_id.clone(),
                connection_id,
                deadline: now + OPEN_DEADLINE,
                phase: PendingPhase::Queued,
                terminal: None,
            },
        );
        self.commands.push((request_id, open));
        assert(self@ =~= old(self)@.asked(peer_id@, connection_id, open, now));
        Ok(request_id)
    }

    /// Asks for a stream on a connection.
    pub fn open_on(&mut self, peer_id: &PeerId, connection_id: ConnectionId, open: P, now: u64) -> (r: Result<
        RequestId,
        &'static str,
    >)
        requires
            old(self)@.valid(),
            now + OPEN_DEADLINE <= u64::MAX,
        ensures
            final(self)@.valid(),
            match r {
                Ok(id) => old(self)@.refusal(peer_id@, connection_id) is None && id.0 == old(self)@.next + 1
                    && final(self)@ == old(self)@.asked(peer_id@, connection_id, open, now),
                Err(code) => old(self)@.refusal(peer_id@, connection_id) == Some(code@) && final(self)@
                    == old(self)@,
            },
    {
        self.open_on_at(peer_id, connection_id, open, now)
    }

    /// Fails the requests whose time has run out.
    pub fn expire(&mut self, now: u64)
        requires
            old(self)@.valid(),
        ensures
            final(self)@.valid(),
            final(self)@ == old(self)@.expired(now),
    {
        let ghost picked = |p: PendingModel<S>| p.deadline <= now;
        let which = |p: &PendingOpen<S>| -> (b: bool)
            ensures
                b == (p@.deadline <= now),
            { p.deadline <= now };
        let failing = self.collect(which, Ghost(picked));
        self.fail_all(failing, self.rules.timeout_code);
    }

    /// Gives a request up. Says whether it had no answer yet.
    pub fn cancel(&mut self, request_id: RequestId) -> (r: bool)
        requires
            old(self)@.valid(),
        ensures
            final(self)@.valid(),
            r == old(self)@.unanswered(request_id),
            final(self)@ == old(self)@.cancelled(request_id),
    {
        self.fail(request_id, self.rules.cancelled_code)
    }

    /// Fails everything that has no answer yet.
    pub fn shutdown(&mut self)
        requires
            old(self)@.valid(),
        ensures
            final(self)@.valid(),
            final(self)@ == old(self)@.shut_down(),
    {
        let ghost picked = |p: PendingModel<S>| true;
        let which = |_p: &PendingOpen<S>| -> (b: bool)
            ensures
                b,
            { true };
        let failing = self.collect(which, Ghost(picked));
        self.fail_all(failing, self.rules.shutdown_code);
    }

    /// A connection is gone.
    pub fn connection_closed(&mut self, peer_id: &PeerId, connection_id: ConnectionId)
        requires
            old(self)@.valid(),
        ensures
            final(self)@.valid(),
            final(self)@ == old(self)@.disconnected(peer_id@, connection_id),
    {
        let _ = self.known.remove(&ConnectionKey::of(peer_id, connection_id));
        assert(forall|id: RequestId, phase: PendingPhase| #[trigger]
            self@.in_phase(id, phase) == old(self)@.in_phase(id, phase));
        let ghost peer = peer_id@;
        let ghost picked = |p: PendingModel<S>| p.peer_id == peer && p.connection_id == connection_id;
        let which = |p: &PendingOpen<S>| -> (b: bool)
            ensures
                b == (p@.peer_id == peer_id@ && p@.connection_id == connection_id),
            { p.connection_id == connection_id && p.peer_id.same(peer_id) };
        let failing = self.collect(which, Ghost(picked));
        self.fail_all(failing, self.rules.closed_code);
    }

    /// Takes in what a connection reports.
    pub fn on_connection_handler_event(
        &mut self,
        peer_id: &PeerId,
        connection_id: ConnectionId,
        event: StreamEvent<S>,
    )
        requires
            old(self)@.valid(),
        ensures
            final(self)@.valid(),
            final(self)@ == old(self)@.reported(peer_id@, connection_id, event),
    {
        match event {
            StreamEvent::OutboundOpened { request_id, stream } => {
                let belongs = match self.place(request_id) {
                    Some(i) => self.pending[i].peer_id.same(peer_id) && self.pending[i].connection_id
                        == connection_id,
                    None => return,
                };
                if belongs {
                    let _ = self.terminal(
                        request_id,
                        StreamOutput::OutboundOpened {
                            request_id,
                            peer_id: peer_id.clone(),
                            connection_id,
                            stream,
                        },
                    );
                } else {
                    let _ = self.fail(request_id, self.rules.mismatch_code);
                }
            },
            StreamEvent::OutboundFailed { request_id, code } => {
                let belongs = match self.place(request_id) {
                    Some(i) => self.pending[i].peer_id.same(peer_id) && self.pending[i].connection_id
                        == connection_id,
                    None => return,
                };
                let code = if belongs {
                    code
                } else {
                    self.rules.mismatch_code
                };
                let _ = self.fail(request_id, code);
            },
            StreamEvent::InboundOpened { stream } => self.inbound_opened(peer_id, connection_id, stream),
        }
    }

    fn inbound_opened(&mut self, peer_id: &PeerId, connection_id: ConnectionId, stream: S)
        requires
            old(self)@.valid(),
        ensures
            final(self)@.valid(),
            final(self)@ == old(self)@.came_in(peer_id@, connection_id, stream),
    {
        let ghost before = self@.inbound_events;
        if self.inbound_events.len() < MAX_INBOUND_EVENTS && self.inbound_admit(peer_id).is_ok() {
            let output = StreamOutput::InboundOpened { peer_id: peer_id.clone(), connection_id, stream };
            let ghost model = output@;
            self.inbound_events.push(output);
            assert(self@.inbound_events =~= before.push(model));
        } else {
            self.inbound_rejected = self.inbound_rejected.saturating_add(1);
            if self.inbound_events.len() < MAX_INBOUND_EVENTS {
                let output = StreamOutput::InboundRejected {
                    peer_id: peer_id.clone(),
                    connection_id,
                    code: self.rules.inbound_limit_code,
                };
                let ghost model = output@;
                self.inbound_events.push(output);
                assert(self@.inbound_events =~= before.push(model));
            }
        }
        assert(forall|id: RequestId, phase: PendingPhase| #[trigger]
            self@.in_phase(id, phase) == old(self)@.in_phase(id, phase));
    }

    /// What is to be done next: hand an answer on, then an incoming stream, then
    /// send a request.
    pub fn poll(&mut self) -> (r: StreamAction<S, P>)
        requires
            old(self)@.valid(),
        ensures
            final(self)@.valid(),
            final(self)@ == old(self)@.polled(),
            if old(self)@.terminals.len() > 0 {
                r matches StreamAction::Output(output) && Some(output@) == old(self)@.answer()
            } else if old(self)@.inbound_events.len() > 0 {
                r matches StreamAction::Output(output) && output@ == old(self)@.inbound_events[0]
            } else if old(self)@.commands.len() > 0 {
                let (id, open) = old(self)@.commands[0];
                let request = old(self)@.pending[ids(old(self)@.pending).index_of(id)];
                r matches StreamAction::Notify(sent) && sent.request_id == id && sent.peer_id@
                    == request.peer_id && sent.connection_id == request.connection_id && sent.open == open
            } else {
                r is Pending
            },
    {
        if let Some(output) = self.pop_terminal() {
            return StreamAction::Output(output);
        }
        if self.inbound_events.len() > 0 {
            let output = self.inbound_events.remove(0);
            assert(self@.inbound_events =~= old(self)@.inbound_events.remove(0));
            assert(forall|id: RequestId, phase: PendingPhase| #[trigger]
                self@.in_phase(id, phase) == old(self)@.in_phase(id, phase));
            return StreamAction::Output(output);
        }
        if self.commands.len() > 0 {
            proof {
                lemma_sent_valid(self@);
            }
            let (request_id, open) = self.commands.remove(0);
            let ghost i = ids(old(self)@.pending).index_of(request_id);
            if let Some(place) = self.place(request_id) {
                self.set_phase(place, PendingPhase::Notified);
                let sent = OpenStream {
                    request_id,
                    peer_id: self.pending[place].peer_id.clone(),
                    connection_id: self.pending[place].connection_id,
                    open,
                };
                assert(self@ =~= old(self)@.sent());
                assert(self@.pending[place as int] == self.pending@[place as int]@);
                return StreamAction::Notify(sent);
            }
        }
        StreamAction::Pending
    }

    /// Hands the oldest answer on; its request is done with that.
    pub fn pop_terminal(&mut self) -> (r: Option<StreamOutput<S>>)
        requires
            old(self)@.valid(),
        ensures
            final(self)@.valid(),
            if old(self)@.terminals.len() > 0 {
                (r matches Some(output) && Some(output@) == old(self)@.answer()) && final(self)@
                    == old(self)@.answer_taken()
            } else {
                r is None && final(self)@ == old(self)@
            },
    {
        if self.terminals.len() == 0 {
            return None;
        }
        proof {
            lemma_answer_taken_valid(self@);
        }
        let request_id = self.terminals.remove(0);
        match self.place(request_id) {
            Some(i) => {
                let pending = self.pending.remove(i);
                assert(self@.pending =~= old(self)@.pending.remove(i as int));
                assert(self@ =~= old(self)@.answer_taken());
                pending.terminal
            },
            None => None,
        }
    }

    /// Fails a request. Says whether it had no answer yet.
    pub fn fail(&mut self, request_id: RequestId, code: &'static str) -> (r: bool)
        requires
            old(self)@.valid(),
        ensures
            final(self)@.valid(),
            r == old(self)@.unanswered(request_id),
            final(self)@ == old(self)@.failed(request_id, code@),
            final(self)@.rules == old(self)@.rules,
    {
        match self.place(request_id) {
            Some(i) => {
                let output = StreamOutput::OutboundFailed {
                    request_id,
                    peer_id: self.pending[i].peer_id.clone(),
                    connection_id: self.pending[i].connection_id,
                    code,
                };
                self.terminal(request_id, output)
            },
            None => false,
        }
    }

    fn fail_all(&mut self, failing: Vec<RequestId>, code: &'static str)
        requires
            old(self)@.valid(),
        ensures
            final(self)@.valid(),
            final(self)@ == old(self)@.all_failed(failing@, code@),
    {
        let mut i: usize = 0;
        assert(failing@.take(0) =~= Seq::<RequestId>::empty());
        while i < failing.len()
            invariant
                i <= failing@.len(),
                self@.valid(),
                self@ == old(self)@.all_failed(failing@.take(i as int), code@),
            decreases failing@.len() - i,
        {
            let _ = self.fail(failing[i], code);
            proof {
                let next = failing@.take(i + 1);
                assert(next.drop_last() =~= failing@.take(i as int));
                assert(next.last() == failing@[i as int]);
            }
            i = i + 1;
        }
        assert(failing@.take(i as int) =~= failing@);
    }

    /// Gives a request its answer. Says whether it had none yet.
    fn terminal(&mut self, request_id: RequestId, output: StreamOutput<S>) -> (r: bool)
        requires
            old(self)@.valid(),
        ensures
            final(self)@.valid(),
            r == old(self)@.unanswered(request_id),
            final(self)@ == old(self)@.answered(request_id, output@),
            final(self)@.rules == old(self)@.rules,
    {
        proof {
            lemma_answered_valid(self@, request_id, output@);
        }
        let place = match self.place(request_id) {
            Some(i) => i,
            None => return false,
        };
        if self.pending[place].phase == PendingPhase::TerminalQueued {
            return false;
        }
        let ghost model = output@;
        self.drop_command(request_id);
        let ghost middle = self@;
        self.set_phase(place, PendingPhase::TerminalQueued);
        self.set_terminal(place, output);
        self.terminals.push(request_id);
        proof {
            let before = old(self)@;
            let i = ids(before.pending).index_of(request_id);
            assert(self@.pending =~= before.answered(request_id, model).pending);
            assert(self@ =~= before.answered(request_id, model));
        }
        true
    }

    fn set_phase(&mut self, i: usize, phase: PendingPhase)
        requires
            i < old(self)@.pending.len(),
        ensures
            final(self)@ == (StreamsModel {
                pending: old(self)@.pending.update(
                    i as int,
                    PendingModel { phase, ..old(self)@.pending[i as int] },
                ),
                ..old(self)@
            }),
    {
        let mut request = self.pending.remove(i);
        request.phase = phase;
        self.pending.insert(i, request);
        assert(self@.pending =~= old(self)@.pending.update(
            i as int,
            PendingModel { phase, ..old(self)@.pending[i as int] },
        ));
    }

    fn set_terminal(&mut self, i: usize, output: StreamOutput<S>)
        requires
            i < old(self)@.pending.len(),
        ensures
            final(self)@ == (StreamsModel {
                pending: old(self)@.pending.update(
                    i as int,
                    PendingModel { terminal: Some(output@), ..old(self)@.pending[i as int] },
                ),
                ..old(self)@
            }),
    {
        let ghost model = output@;
        let mut request = self.pending.remove(i);
        request.terminal = Some(output);
        self.pending.insert(i, request);
        assert(self@.pending =~= old(self)@.pending.update(
            i as int,
            PendingModel { terminal: Some(model), ..old(self)@.pending[i as int] },
        ));
    }

    fn drop_command(&mut self, request_id: RequestId)
        requires
            command_ids(old(self)@.commands).no_duplicates(),
        ensures
            final(self)@ == (StreamsModel {
                commands: commands_without(old(self)@.commands, request_id),
                ..old(self)@
            }),
    {
        let ghost list = command_ids(self.commands@);
        let mut i: usize = 0;
        while i < self.commands.len()
            invariant
                *self == *old(self),
                list == command_ids(self.commands@),
                i <= self.commands@.len(),
                list.no_duplicates(),
                forall|j: int| 0 <= j < i ==> #[trigger] list[j] != request_id,
            decreases self.commands@.len() - i,
        {
            if self.commands[i].0 == request_id {
                proof {
                    assert(list[i as int] == request_id);
                    let k = list.index_of(request_id);
                    assert(list[k] == request_id);
                    assert(k == i);
                }
                let _ = self.commands.remove(i);
                return;
            }
            i = i + 1;
        }
        assert(!list.contains(request_id));
    }

    fn place(&self, request_id: RequestId) -> (r: Option<usize>)
        requires
            forall|a: int, b: int|
                0 <= a < b < self@.pending.len() ==> (#[trigger] self@.pending[a]).request_id.0 < (
                #[trigger] self@.pending[b]).request_id.0,
        ensures
            match r {
                Some(i) => i < self.pending@.len() && ids(self@.pending).contains(request_id) && ids(
                    self@.pending,
                ).index_of(request_id) == i,
                None => !ids(self@.pending).contains(request_id),
            },
    {
        let mut i: usize = 0;
        while i < self.pending.len()
            invariant
                i <= self.pending@.len(),
                forall|a: int, b: int|
                    0 <= a < b < self@.pending.len() ==> (#[trigger] self@.pending[a]).request_id.0 < (
                    #[trigger] self@.pending[b]).request_id.0,
                forall|j: int| 0 <= j < i ==> (#[trigger] ids(self@.pending)[j]) != request_id,
            decreases self.pending@.len() - i,
        {
            if self.pending[i].request_id == request_id {
                proof {
                    lemma_place(self@.pending, i as int);
                }
                return Some(i);
            }
            i = i + 1;
        }
        None
    }

    fn count_of_peer(&self, peer_id: &PeerId) -> (r: usize)
        ensures
            r == of_peer(self@.pending, peer_id@),
    {
        let ghost all = self@.pending;
        let mut n: usize = 0;
        let mut i: usize = 0;
        assert(all.take(0) =~= Seq::<PendingModel<S>>::empty());
        while i < self.pending.len()
            invariant
                all == self@.pending,
                i <= self.pending@.len(),
                n <= i,
                n == of_peer(all.take(i as int), peer_id@),
            decreases self.pending@.len() - i,
        {
            proof {
                let next = all.take(i + 1);
                assert(next.drop_last() =~= all.take(i as int));
                assert(next.last() == all[i as int]);
            }
            if self.pending[i].peer_id.same(peer_id) {
                n = n + 1;
            }
            i = i + 1;
        }
        assert(all.take(i as int) =~= all);
        n
    }

    fn collect<F: Fn(&PendingOpen<S>) -> bool>(
        &self,
        which: F,
        Ghost(picked): Ghost<spec_fn(PendingModel<S>) -> bool>,
    ) -> (r: Vec<RequestId>)
        requires
            forall|p: &PendingOpen<S>| #[trigger] call_requires(which, (p,)),
            forall|p: &PendingOpen<S>, b: bool| #[trigger]
                call_ensures(which, (p,), b) ==> b == picked(p@),
        ensures
            r@ == ids_where(self@.pending, picked),
    {
        let ghost all = self@.pending;
        let mut found: Vec<RequestId> = Vec::new();
        let mut i: usize = 0;
        assert(all.take(0) =~= Seq::<PendingModel<S>>::empty());
        while i < self.pending.len()
            invariant
                forall|p: &PendingOpen<S>| #[trigger] call_requires(which, (p,)),
                forall|p: &PendingOpen<S>, b: bool| #[trigger]
                    call_ensures(which, (p,), b) ==> b == picked(p@),
                all == self@.pending,
                i <= self.pending@.len(),
                found@ == ids_where(all.take(i as int), picked),
            decreases self.pending@.len() - i,
        {
            let request = &self.pending[i];
            proof {
                let next = all.take(i + 1);
                assert(next.drop_last() =~= all.take(i as int));
                assert(next.last() == request@);
            }
            if which(request) {
                found.push(request.request_id);
            }
            i = i + 1;
        }
        assert(all.take(i as int) =~= all);
        found
    }
}

/// A request is answered once: whatever comes after the first answer changes
/// nothing.
pub proof fn law_answered_once<S, P>(
    m: StreamsModel<S, P>,
    id: RequestId,
    first: OutputModel<S>,
    second: OutputModel<S>,
)
    requires
        m.valid(),
    ensures
        m.answered(id, first).answered(id, second) == m.answered(id, first),
{
    if m.unanswered(id) {
        lemma_answered_valid(m, id, first);
        let i = ids(m.pending).index_of(id);
        assert(ids(m.pending)[i] == id);
        lemma_in_phase_update(
            m,
            m.answered(id, first),
            i,
            m.answered(id, first).pending[i],
            id,
            PendingPhase::TerminalQueued,
        );
        lemma_phases_after_update(m.pending, i, m.answered(id, first).pending[i]);
    }
}

/// Every operation keeps what always holds.
pub proof fn law_operations_keep_order<S, P>(
    m: StreamsModel<S, P>,
    peer: Seq<u8>,
    connection: ConnectionId,
    event: StreamEvent<S>,
    now: u64,
)
    requires
        m.valid(),
    ensures
        m.expired(now).valid(),
        m.shut_down().valid(),
        m.disconnected(peer, connection).valid(),
        m.reported(peer, connection, event).valid(),
{
    lemma_all_failed_valid(
        m,
        ids_where(m.pending, |p: PendingModel<S>| p.deadline <= now),
        m.rules.timeout_code@,
    );
    lemma_all_failed_valid(m, ids_where(m.pending, |p: PendingModel<S>| true), m.rules.shutdown_code@);
    let gone = StreamsModel { known: m.known.remove((peer, connection)), ..m };
    assert(gone.valid()) by {
        assert(forall|id: RequestId, phase: PendingPhase| #[trigger]
            gone.in_phase(id, phase) == m.in_phase(id, phase));
    }
    lemma_all_failed_valid(
        gone,
        ids_where(m.pending, |p: PendingModel<S>| p.peer_id == peer && p.connection_id == connection),
        m.rules.closed_code@,
    );
    match event {
        StreamEvent::OutboundOpened { request_id, stream } => {
            lemma_answered_valid(
                m,
                request_id,
                OutputModel::OutboundOpened { request_id, peer_id: peer, connection_id: connection, stream },
            );
            lemma_answered_valid(m, request_id, m.failure(request_id, m.rules.mismatch_code@));
        },
        StreamEvent::OutboundFailed { request_id, code } => {
            lemma_answered_valid(m, request_id, m.failure(request_id, code@));
            lemma_answered_valid(m, request_id, m.failure(request_id, m.rules.mismatch_code@));
        },
        StreamEvent::InboundOpened { stream } => {
            let after = m.came_in(peer, connection, stream);
            assert(forall|id: RequestId, phase: PendingPhase| #[trigger]
                after.in_phase(id, phase) == m.in_phase(id, phase));
            assert forall|p: Seq<u8>| #[trigger] after.workers.count(p)
                <= after.rules.max_inbound_workers_per_peer by {}
        },
    }
}

/// A stream is reported as opened only on the connection it was asked for on.
pub proof fn law_opened_where_asked<S, P>(
    m: StreamsModel<S, P>,
    peer: Seq<u8>,
    connection: ConnectionId,
    event: StreamEvent<S>,
    i: int,
)
    requires
        m.valid(),
        0 <= i < m.pending.len(),
        m.pending[i].terminal is None,
        m.reported(peer, connection, event).pending[i].terminal matches Some(output)
            && output is OutboundOpened,
    ensures
        m.pending[i].peer_id == peer,
        m.pending[i].connection_id == connection,
        event matches StreamEvent::OutboundOpened { request_id, .. } && request_id
            == m.pending[i].request_id,
{
    match event {
        StreamEvent::OutboundOpened { request_id, .. } => {
            if m.unanswered(request_id) {
                let k = ids(m.pending).index_of(request_id);
                assert(ids(m.pending)[k] == request_id);
            }
        },
        StreamEvent::OutboundFailed { request_id, .. } => {
            if m.unanswered(request_id) {
                let k = ids(m.pending).index_of(request_id);
                assert(ids(m.pending)[k] == request_id);
            }
        },
        StreamEvent::InboundOpened { .. } => {},
    }
}

proof fn lemma_all_failed_answers<S, P>(m: StreamsModel<S, P>, failing: Seq<RequestId>, code: Seq<char>)
    requires
        m.valid(),
    ensures
        ids(m.all_failed(failing, code).pending) == ids(m.pending),
        forall|i: int|
            0 <= i < failing.len() ==> !m.all_failed(failing, code).unanswered(#[trigger] failing[i]),
        forall|id: RequestId| #[trigger]
            m.all_failed(failing, code).in_phase(id, PendingPhase::TerminalQueued) <== m.in_phase(
                id,
                PendingPhase::TerminalQueued,
            ),
    decreases failing.len(),
{
    if failing.len() > 0 {
        let most = failing.drop_last();
        let last = failing.last();
        lemma_all_failed_answers(m, most, code);
        lemma_all_failed_valid(m, most, code);
        let before = m.all_failed(most, code);
        let after = m.all_failed(failing, code);
        if before.unanswered(last) {
            let k = ids(before.pending).index_of(last);
            assert(ids(before.pending)[k] == last);
            lemma_phases_after_update(before.pending, k, after.pending[k]);
            assert forall|id: RequestId| #[trigger] after.in_phase(id, PendingPhase::TerminalQueued) == (id
                == last || before.in_phase(id, PendingPhase::TerminalQueued)) by {
                lemma_in_phase_update(
                    before,
                    after,
                    k,
                    after.pending[k],
                    id,
                    PendingPhase::TerminalQueued,
                );
            }
        }
        assert forall|i: int| 0 <= i < failing.len() implies !after.unanswered(#[trigger] failing[i]) by {
            if i < most.len() {
                assert(most[i] == failing[i]);
                assert(!before.unanswered(most[i]));
            }
        }
    }
}

/// Every request that satisfies the predicate is among the numbers found.
proof fn lemma_ids_where<S>(
    pending: Seq<PendingModel<S>>,
    which: spec_fn(PendingModel<S>) -> bool,
    i: int,
)
    requires
        0 <= i < pending.len(),
        which(pending[i]),
    ensures
        ids_where(pending, which).contains(pending[i].request_id),
    decreases pending.len(),
{
    let found = ids_where(pending, which);
    if i == pending.len() - 1 {
        assert(found[found.len() - 1] == pending[i].request_id);
    } else {
        lemma_ids_where(pending.drop_last(), which, i);
        let before = ids_where(pending.drop_last(), which);
        assert(pending.drop_last()[i] == pending[i]);
        let k = before.index_of(pending[i].request_id);
        assert(before[k] == pending[i].request_id);
        assert(found[k] == before[k]);
    }
}

/// After the end every request has its answer, and nothing waits to be sent.
pub proof fn law_shutdown_answers_everything<S, P>(m: StreamsModel<S, P>)
    requires
        m.valid(),
    ensures
        ids(m.shut_down().pending) == ids(m.pending),
        forall|i: int| 0 <= i < m.pending.len() ==> (#[trigger] m.shut_down().pending[i]).terminal is Some,
        m.shut_down().commands.len() == 0,
{
    let every = |p: PendingModel<S>| true;
    let failing = ids_where(m.pending, every);
    let code = m.rules.shutdown_code@;
    let after = m.shut_down();
    lemma_all_failed_valid(m, failing, code);
    lemma_all_failed_answers(m, failing, code);
    assert(after.pending.len() == ids(after.pending).len());
    assert(m.pending.len() == ids(m.pending).len());
    assert forall|i: int| 0 <= i < m.pending.len() implies (#[trigger] after.pending[i]).terminal is Some by {
        lemma_ids_where(m.pending, every, i);
        let id = m.pending[i].request_id;
        let k = failing.index_of(id);
        assert(failing[k] == id);
        assert(!after.unanswered(failing[k]));
        assert(ids(after.pending)[i] == ids(m.pending)[i]);
        lemma_place(after.pending, i);
    }
    if after.commands.len() > 0 {
        let id = after.commands[0].0;
        assert(command_ids(after.commands)[0] == id);
        assert(command_ids(after.commands).contains(id));
        let k = ids(after.pending).index_of(id);
        assert(after.pending[k].terminal is Some);
    }
}

/// After a look at the clock every request whose time has run out has its
/// answer.
pub proof fn law_expiry_answers_overdue<S, P>(m: StreamsModel<S, P>, now: u64, i: int)
    requires
        m.valid(),
        0 <= i < m.pending.len(),
        m.pending[i].deadline <= now,
    ensures
        ids(m.expired(now).pending) == ids(m.pending),
        m.expired(now).pending[i].terminal is Some,
{
    let overdue = |p: PendingModel<S>| p.deadline <= now;
    let failing = ids_where(m.pending, overdue);
    let code = m.rules.timeout_code@;
    let after = m.expired(now);
    lemma_all_failed_valid(m, failing, code);
    lemma_all_failed_answers(m, failing, code);
    assert(after.pending.len() == ids(after.pending).len());
    assert(m.pending.len() == ids(m.pending).len());
    lemma_ids_where(m.pending, overdue, i);
    let id = m.pending[i].request_id;
    let k = failing.index_of(id);
    assert(failing[k] == id);
    assert(!after.unanswered(failing[k]));
    assert(ids(after.pending)[i] == ids(m.pending)[i]);
    lemma_place(after.pending, i);
}

/// Something that is asked of the streams of one kind, or reported to them.
pub enum StreamsCall<S, P> {
    Connect { peer: Seq<u8>, connection: ConnectionId },
    Disconnect { peer: Seq<u8>, connection: ConnectionId },
    Ask { peer: Seq<u8>, connection: ConnectionId, open: P, now: u64 },
    Fail { id: RequestId, code: Seq<char> },
    Report { peer: Seq<u8>, connection: ConnectionId, event: StreamEvent<S> },
    Expire { now: u64 },
    ShutDown,
    Admit { peer: Seq<u8> },
    Release { peer: Seq<u8> },
    Poll,
    Pop,
}

impl<S, P> StreamsModel<S, P> {
    /// After the next thing was done.
    pub open spec fn polled(self) -> Self {
        if self.terminals.len() > 0 {
            self.answer_taken()
        } else if self.inbound_events.len() > 0 {
            StreamsModel { inbound_events: self.inbound_events.remove(0), ..self }
        } else if self.commands.len() > 0 {
            self.sent()
        } else {
            self
        }
    }

    /// Whatever was asked or reported.
    pub open spec fn called(self, call: StreamsCall<S, P>) -> Self {
        match call {
            StreamsCall::Connect { peer, connection } => self.connected(peer, connection),
            StreamsCall::Disconnect { peer, connection } => self.disconnected(peer, connection),
            StreamsCall::Ask { peer, connection, open, now } => if self.refusal(peer, connection) is None {
                self.asked(peer, connection, open, now)
            } else {
                self
            },
            StreamsCall::Fail { id, code } => self.failed(id, code),
            StreamsCall::Report { peer, connection, event } => self.reported(peer, connection, event),
            StreamsCall::Expire { now } => self.expired(now),
            StreamsCall::ShutDown => self.shut_down(),
            StreamsCall::Admit { peer } => if self.admits(peer) {
                StreamsModel { workers: self.workers.insert(peer), ..self }
            } else {
                self
            },
            StreamsCall::Release { peer } => StreamsModel { workers: self.workers.remove(peer), ..self },
            StreamsCall::Poll => self.polled(),
            StreamsCall::Pop => if self.terminals.len() > 0 {
                self.answer_taken()
            } else {
                self
            },
        }
    }

    /// Whatever was asked or reported, one after the other.
    pub open spec fn after_calls(self, calls: Seq<StreamsCall<S, P>>) -> Self
        decreases calls.len(),
    {
        if calls.len() == 0 {
            self
        } else {
            self.called(calls[0]).after_calls(calls.drop_first())
        }
    }

    /// Whether a call hands the answer to a request on.
    pub open spec fn delivers(self, call: StreamsCall<S, P>, id: RequestId) -> bool {
        (call is Poll || call is Pop) && self.terminals.len() > 0 && self.terminals[0] == id
    }

    /// How often the answer to a request is handed on.
    pub open spec fn deliveries(self, calls: Seq<StreamsCall<S, P>>, id: RequestId) -> nat
        decreases calls.len(),
    {
        if calls.len() == 0 {
            0
        } else {
            self.called(calls[0]).deliveries(calls.drop_first(), id) + if self.delivers(calls[0], id) {
                1nat
            } else {
                0nat
            }
        }
    }

    /// Whether the answer to a request is there and waits to be handed on.
    pub open spec fn holds_answer(self, id: RequestId, output: OutputModel<S>) -> bool {
        exists|i: int|
            0 <= i < self.pending.len() && (#[trigger] self.pending[i]).request_id == id
                && self.pending[i].terminal == Some(output)
    }

    /// Whether a request was asked for and is done with.
    pub open spec fn is_done(self, id: RequestId) -> bool {
        id.0 <= self.next && forall|i: int|
            0 <= i < self.pending.len() ==> (#[trigger] self.pending[i]).request_id != id
    }
}

proof fn lemma_called_valid<S, P>(m: StreamsModel<S, P>, call: StreamsCall<S, P>)
    requires
        m.valid(),
    ensures
        m.called(call).valid(),
{
    let after = m.called(call);
    match call {
        StreamsCall::Connect { .. } => {
            assert(forall|id: RequestId, phase: PendingPhase| #[trigger]
                after.in_phase(id, phase) == m.in_phase(id, phase));
        },
        StreamsCall::Disconnect { peer, connection } => law_operations_keep_order(
            m,
            peer,
            connection,
            StreamEvent::OutboundFailed { request_id: RequestId(0), code: "" },
            0,
        ),
        StreamsCall::Ask { peer, connection, open, now } => {
            if m.refusal(peer, connection) is None {
                lemma_asked_valid(m, peer, connection, open, now);
            }
        },
        StreamsCall::Fail { id, code } => lemma_answered_valid(m, id, m.failure(id, code)),
        StreamsCall::Report { peer, connection, event } => law_operations_keep_order(
            m,
            peer,
            connection,
            event,
            0,
        ),
        StreamsCall::Expire { now } => lemma_all_failed_valid(
            m,
            ids_where(m.pending, |p: PendingModel<S>| p.deadline <= now),
            m.rules.timeout_code@,
        ),
        StreamsCall::ShutDown => lemma_all_failed_valid(
            m,
            ids_where(m.pending, |p: PendingModel<S>| true),
            m.rules.shutdown_code@,
        ),
        StreamsCall::Admit { peer } => {
            assert(forall|id: RequestId, phase: PendingPhase| #[trigger]
                after.in_phase(id, phase) == m.in_phase(id, phase));
            assert forall|p: Seq<u8>| #[trigger] after.workers.count(p)
                <= after.rules.max_inbound_workers_per_peer by {
                assert(m.workers.count(p) <= m.rules.max_inbound_workers_per_peer);
            }
        },
        StreamsCall::Release { peer } => {
            assert(forall|id: RequestId, phase: PendingPhase| #[trigger]
                after.in_phase(id, phase) == m.in_phase(id, phase));
            assert forall|p: Seq<u8>| #[trigger] after.workers.count(p)
                <= after.rules.max_inbound_workers_per_peer by {
                assert(m.workers.count(p) <= m.rules.max_inbound_workers_per_peer);
            }
            if m.workers.count(peer) == 0 {
                assert(after.workers =~= m.workers);
            }
        },
        StreamsCall::Poll => {
            if m.terminals.len() > 0 {
                lemma_answer_taken_valid(m);
            } else if m.inbound_events.len() > 0 {
                assert(forall|id: RequestId, phase: PendingPhase| #[trigger]
                    after.in_phase(id, phase) == m.in_phase(id, phase));
            } else if m.commands.len() > 0 {
                lemma_sent_valid(m);
            }
        },
        StreamsCall::Pop => {
            if m.terminals.len() > 0 {
                lemma_answer_taken_valid(m);
            }
        },
    }
}

/// Whatever is asked or reported, what always holds goes on to hold.
pub proof fn law_calls_keep_order<S, P>(m: StreamsModel<S, P>, calls: Seq<StreamsCall<S, P>>)
    requires
        m.valid(),
    ensures
        m.after_calls(calls).valid(),
    decreases calls.len(),
{
    if calls.len() > 0 {
        lemma_called_valid(m, calls[0]);
        law_calls_keep_order(m.called(calls[0]), calls.drop_first());
    }
}

/// An answer leaves every request where it is, and those that had an answer as
/// they are.
proof fn lemma_answered_keeps<S, P>(m: StreamsModel<S, P>, id: RequestId, output: OutputModel<S>)
    requires
        m.valid(),
    ensures
        m.answered(id, output).pending.len() == m.pending.len(),
        m.answered(id, output).next == m.next,
        forall|i: int|
            0 <= i < m.pending.len() ==> (#[trigger] m.answered(id, output).pending[i]).request_id
                == m.pending[i].request_id && (m.pending[i].terminal is Some ==> m.answered(
                id,
                output,
            ).pending[i] == m.pending[i]),
{
    if m.unanswered(id) {
        let k = ids(m.pending).index_of(id);
        assert(ids(m.pending)[k] == id);
    }
}

proof fn lemma_all_failed_keeps<S, P>(m: StreamsModel<S, P>, failing: Seq<RequestId>, code: Seq<char>)
    requires
        m.valid(),
    ensures
        m.all_failed(failing, code).pending.len() == m.pending.len(),
        m.all_failed(failing, code).next == m.next,
        forall|i: int|
            0 <= i < m.pending.len() ==> (#[trigger] m.all_failed(failing, code).pending[i]).request_id
                == m.pending[i].request_id && (m.pending[i].terminal is Some ==> m.all_failed(
                failing,
                code,
            ).pending[i] == m.pending[i]),
    decreases failing.len(),
{
    if failing.len() > 0 {
        let most = failing.drop_last();
        let before = m.all_failed(most, code);
        lemma_all_failed_keeps(m, most, code);
        lemma_all_failed_valid(m, most, code);
        lemma_answered_keeps(before, failing.last(), before.failure(failing.last(), code));
        assert forall|i: int| 0 <= i < m.pending.len() implies (
        #[trigger] m.all_failed(failing, code).pending[i]).request_id == m.pending[i].request_id && (
        m.pending[i].terminal is Some ==> m.all_failed(failing, code).pending[i] == m.pending[i]) by {
            assert(before.pending[i].request_id == m.pending[i].request_id);
        }
    }
}

/// A call that hands no answer on keeps every request, and what is new has a
/// new number.
proof fn lemma_called_keeps<S, P>(m: StreamsModel<S, P>, call: StreamsCall<S, P>)
    requires
        m.valid(),
        !((call is Poll || call is Pop) && m.terminals.len() > 0),
    ensures
        m.called(call).pending.len() >= m.pending.len(),
        m.called(call).next >= m.next,
        forall|i: int|
            0 <= i < m.pending.len() ==> (#[trigger] m.called(call).pending[i]).request_id
                == m.pending[i].request_id && (m.pending[i].terminal is Some ==> m.called(call).pending[i]
                == m.pending[i]),
        forall|i: int|
            m.pending.len() <= i < m.called(call).pending.len() ==> (
            #[trigger] m.called(call).pending[i]).request_id.0 > m.next,
{
    match call {
        StreamsCall::Disconnect { peer, connection } => {
            let gone = StreamsModel { known: m.known.remove((peer, connection)), ..m };
            assert(gone.valid()) by {
                assert(forall|id: RequestId, phase: PendingPhase| #[trigger]
                    gone.in_phase(id, phase) == m.in_phase(id, phase));
            }
            lemma_all_failed_keeps(
                gone,
                ids_where(m.pending, |p: PendingModel<S>| p.peer_id == peer && p.connection_id == connection),
                m.rules.closed_code@,
            );
        },
        StreamsCall::Fail { id, code } => lemma_answered_keeps(m, id, m.failure(id, code)),
        StreamsCall::Report { peer, connection, event } => match event {
            StreamEvent::OutboundOpened { request_id, stream } => {
                lemma_answered_keeps(
                    m,
                    request_id,
                    OutputModel::OutboundOpened {
                        request_id,
                        peer_id: peer,
                        connection_id: connection,
                        stream,
                    },
                );
                lemma_answered_keeps(m, request_id, m.failure(request_id, m.rules.mismatch_code@));
            },
            StreamEvent::OutboundFailed { request_id, code } => {
                lemma_answered_keeps(m, request_id, m.failure(request_id, code@));
                lemma_answered_keeps(m, request_id, m.failure(request_id, m.rules.mismatch_code@));
            },
            StreamEvent::InboundOpened { .. } => {},
        },
        StreamsCall::Expire { now } => lemma_all_failed_keeps(
            m,
            ids_where(m.pending, |p: PendingModel<S>| p.deadline <= now),
            m.rules.timeout_code@,
        ),
        StreamsCall::ShutDown => lemma_all_failed_keeps(
            m,
            ids_where(m.pending, |p: PendingModel<S>| true),
            m.rules.shutdown_code@,
        ),
        StreamsCall::Poll => {
            if m.inbound_events.len() == 0 && m.commands.len() > 0 {
                lemma_sent_valid(m);
                let k = ids(m.pending).index_of(m.commands[0].0);
                assert(ids(m.pending)[k] == m.commands[0].0);
            }
        },
        _ => {},
    }
}

proof fn lemma_taken_is_done<S, P>(m: StreamsModel<S, P>)
    requires
        m.valid(),
        m.terminals.len() > 0,
    ensures
        m.answer_taken().is_done(m.terminals[0]),
{
    let id = m.terminals[0];
    lemma_answer_taken_valid(m);
    let k = ids(m.pending).index_of(id);
    assert(ids(m.pending)[k] == id);
    let after = m.answer_taken();
    assert forall|i: int| 0 <= i < after.pending.len() implies (#[trigger] after.pending[i]).request_id
        != id by {
        if i < k {
            assert(after.pending[i] == m.pending[i]);
        } else {
            assert(after.pending[i] == m.pending[i + 1]);
        }
    }
}

proof fn lemma_done_stays_done<S, P>(m: StreamsModel<S, P>, call: StreamsCall<S, P>, id: RequestId)
    requires
        m.valid(),
        m.is_done(id),
    ensures
        !m.delivers(call, id),
        m.called(call).is_done(id),
{
    let after = m.called(call);
    if (call is Poll || call is Pop) && m.terminals.len() > 0 {
        lemma_answer_taken_valid(m);
        let k = ids(m.pending).index_of(m.terminals[0]);
        assert(ids(m.pending)[k] == m.terminals[0]);
        assert(m.pending[k].request_id == m.terminals[0]);
        assert forall|i: int| 0 <= i < after.pending.len() implies (
        #[trigger] after.pending[i]).request_id != id by {
            if i < k {
                assert(after.pending[i] == m.pending[i]);
            } else {
                assert(after.pending[i] == m.pending[i + 1]);
            }
        }
    } else {
        lemma_called_keeps(m, call);
        assert forall|i: int| 0 <= i < after.pending.len() implies (
        #[trigger] after.pending[i]).request_id != id by {
            if i < m.pending.len() {
                assert(m.pending[i].request_id != id);
            }
        }
    }
}

proof fn lemma_done_is_not_delivered<S, P>(
    m: StreamsModel<S, P>,
    calls: Seq<StreamsCall<S, P>>,
    id: RequestId,
)
    requires
        m.valid(),
        m.is_done(id),
    ensures
        m.deliveries(calls, id) == 0,
    decreases calls.len(),
{
    if calls.len() > 0 {
        lemma_called_valid(m, calls[0]);
        lemma_done_stays_done(m, calls[0], id);
        lemma_done_is_not_delivered(m.called(calls[0]), calls.drop_first(), id);
    }
}

/// Whatever is asked or reported, the answer to a request is handed on at most
/// once.
pub proof fn law_delivered_once<S, P>(m: StreamsModel<S, P>, calls: Seq<StreamsCall<S, P>>, id: RequestId)
    requires
        m.valid(),
    ensures
        m.deliveries(calls, id) <= 1,
    decreases calls.len(),
{
    if calls.len() > 0 {
        let after = m.called(calls[0]);
        lemma_called_valid(m, calls[0]);
        if m.delivers(calls[0], id) {
            lemma_taken_is_done(m);
            lemma_done_is_not_delivered(after, calls.drop_first(), id);
        } else {
            law_delivered_once(after, calls.drop_first(), id);
        }
    }
}

proof fn lemma_answer_stays<S, P>(
    m: StreamsModel<S, P>,
    call: StreamsCall<S, P>,
    id: RequestId,
    output: OutputModel<S>,
)
    requires
        m.valid(),
        m.holds_answer(id, output),
    ensures
        m.delivers(call, id) ==> m.answer() == Some(output),
        !m.delivers(call, id) ==> m.called(call).holds_answer(id, output),
{
    let after = m.called(call);
    let i = choose|i: int|
        0 <= i < m.pending.len() && (#[trigger] m.pending[i]).request_id == id && m.pending[i].terminal
            == Some(output);
    lemma_place(m.pending, i);
    if (call is Poll || call is Pop) && m.terminals.len() > 0 {
        if m.terminals[0] != id {
            lemma_answer_taken_valid(m);
            let k = ids(m.pending).index_of(m.terminals[0]);
            assert(ids(m.pending)[k] == m.terminals[0]);
            if i < k {
                assert(after.pending[i] == m.pending[i]);
            } else {
                assert(after.pending[i - 1] == m.pending[i]);
            }
        }
    } else {
        lemma_called_keeps(m, call);
        assert(after.pending[i] == m.pending[i]);
    }
}

/// The answer that a request was given first is the one that is handed on,
/// whatever is asked or reported in between.
pub proof fn law_first_answer_is_delivered<S, P>(
    m: StreamsModel<S, P>,
    calls: Seq<StreamsCall<S, P>>,
    id: RequestId,
    output: OutputModel<S>,
    next: StreamsCall<S, P>,
)
    requires
        m.valid(),
        m.holds_answer(id, output),
        m.deliveries(calls, id) == 0,
    ensures
        m.after_calls(calls).holds_answer(id, output),
        m.after_calls(calls).delivers(next, id) ==> m.after_calls(calls).answer() == Some(output),
    decreases calls.len(),
{
    if calls.len() > 0 {
        lemma_called_valid(m, calls[0]);
        lemma_answer_stays(m, calls[0], id, output);
        law_first_answer_is_delivered(m.called(calls[0]), calls.drop_first(), id, output, next);
    } else {
        lemma_answer_stays(m, next, id, output);
    }
}

/// What a failure does to each request: the one it is of gets its answer, unless
/// it has one, and the others stay as they are.
proof fn lemma_failed_at<S, P>(m: StreamsModel<S, P>, id: RequestId, code: Seq<char>, i: int)
    requires
        m.valid(),
        0 <= i < m.pending.len(),
    ensures
        m.failed(id, code).pending.len() == m.pending.len(),
        m.failed(id, code).known == m.known,
        m.failed(id, code).pending[i] == if id == m.pending[i].request_id && m.pending[i].terminal is None {
            PendingModel {
                phase: PendingPhase::TerminalQueued,
                terminal: Some(
                    OutputModel::OutboundFailed {
                        request_id: id,
                        peer_id: m.pending[i].peer_id,
                        connection_id: m.pending[i].connection_id,
                        code,
                    },
                ),
                ..m.pending[i]
            }
        } else {
            m.pending[i]
        },
{
    lemma_place(m.pending, i);
    if ids(m.pending).contains(id) {
        let k = ids(m.pending).index_of(id);
        assert(ids(m.pending)[k] == id);
        lemma_place(m.pending, k);
    }
}

/// What failures one after the other do to each request.
proof fn lemma_all_failed_at<S, P>(
    m: StreamsModel<S, P>,
    failing: Seq<RequestId>,
    code: Seq<char>,
    i: int,
)
    requires
        m.valid(),
        0 <= i < m.pending.len(),
    ensures
        m.all_failed(failing, code).pending.len() == m.pending.len(),
        m.all_failed(failing, code).known == m.known,
        m.all_failed(failing, code).pending[i] == if failing.contains(m.pending[i].request_id)
            && m.pending[i].terminal is None {
            PendingModel {
                phase: PendingPhase::TerminalQueued,
                terminal: Some(
                    OutputModel::OutboundFailed {
                        request_id: m.pending[i].request_id,
                        peer_id: m.pending[i].peer_id,
                        connection_id: m.pending[i].connection_id,
                        code,
                    },
                ),
                ..m.pending[i]
            }
        } else {
            m.pending[i]
        },
    decreases failing.len(),
{
    let id = m.pending[i].request_id;
    if failing.len() > 0 {
        let most = failing.drop_last();
        lemma_all_failed_at(m, most, code, i);
        lemma_all_failed_valid(m, most, code);
        lemma_failed_at(m.all_failed(most, code), failing.last(), code, i);
        if most.contains(id) {
            let k = most.index_of(id);
            assert(failing[k] == id);
        }
        if failing.contains(id) {
            let k = failing.index_of(id);
            assert(k == failing.len() - 1 || most[k] == id);
        }
        if failing.last() == id {
            assert(failing[failing.len() - 1] == id);
        }
    }
}

/// Only requests that satisfy the predicate are among the numbers found.
proof fn lemma_ids_where_only<S>(
    pending: Seq<PendingModel<S>>,
    which: spec_fn(PendingModel<S>) -> bool,
    id: RequestId,
) -> (i: int)
    requires
        ids_where(pending, which).contains(id),
    ensures
        0 <= i < pending.len(),
        pending[i].request_id == id,
        which(pending[i]),
    decreases pending.len(),
{
    let found = ids_where(pending, which);
    let k = found.index_of(id);
    assert(found[k] == id);
    if pending.len() == 0 {
        0
    } else {
        let before = ids_where(pending.drop_last(), which);
        if which(pending.last()) && k == found.len() - 1 {
            pending.len() - 1
        } else {
            assert(before[k] == id);
            lemma_ids_where_only(pending.drop_last(), which, id)
        }
    }
}

/// Whether a request is among the numbers found is whether it satisfies the
/// predicate.
proof fn lemma_ids_where_exact<S, P>(
    m: StreamsModel<S, P>,
    which: spec_fn(PendingModel<S>) -> bool,
    i: int,
)
    requires
        m.valid(),
        0 <= i < m.pending.len(),
    ensures
        ids_where(m.pending, which).contains(m.pending[i].request_id) <==> which(m.pending[i]),
{
    if which(m.pending[i]) {
        lemma_ids_where(m.pending, which, i);
    }
    if ids_where(m.pending, which).contains(m.pending[i].request_id) {
        let k = lemma_ids_where_only(m.pending, which, m.pending[i].request_id);
        lemma_place(m.pending, i);
        lemma_place(m.pending, k);
    }
}

/// A request without an answer fails with the code of what ended it: its time
/// ran out, its connection is gone, it was given up, or everything ended. What
/// does not concern it leaves it as it is, and an answer once there stays.
pub proof fn law_failures_are_told_apart<S, P>(
    m: StreamsModel<S, P>,
    peer: Seq<u8>,
    connection: ConnectionId,
    now: u64,
    id: RequestId,
    i: int,
)
    requires
        m.valid(),
        0 <= i < m.pending.len(),
    ensures
        ({
            let request = m.pending[i];
            let failed = |code: Seq<char>|
                PendingModel {
                    phase: PendingPhase::TerminalQueued,
                    terminal: Some(
                        OutputModel::<S>::OutboundFailed {
                            request_id: request.request_id,
                            peer_id: request.peer_id,
                            connection_id: request.connection_id,
                            code,
                        },
                    ),
                    ..request
                };
            let open = request.terminal is None;
            let lost = request.peer_id == peer && request.connection_id == connection;
            &&& m.expired(now).pending[i] == if open && request.deadline <= now {
                failed(m.rules.timeout_code@)
            } else {
                request
            }
            &&& m.disconnected(peer, connection).pending[i] == if open && lost {
                failed(m.rules.closed_code@)
            } else {
                request
            }
            &&& m.cancelled(id).pending[i] == if open && id == request.request_id {
                failed(m.rules.cancelled_code@)
            } else {
                request
            }
            &&& m.shut_down().pending[i] == if open {
                failed(m.rules.shutdown_code@)
            } else {
                request
            }
        }),
        m.expired(now).known == m.known,
        m.cancelled(id).known == m.known,
        m.shut_down().known == m.known,
        m.disconnected(peer, connection).known == m.known.remove((peer, connection)),
{
    let overdue = |p: PendingModel<S>| p.deadline <= now;
    let every = |p: PendingModel<S>| true;
    let lost = |p: PendingModel<S>| p.peer_id == peer && p.connection_id == connection;
    lemma_ids_where_exact(m, overdue, i);
    lemma_ids_where_exact(m, every, i);
    lemma_ids_where_exact(m, lost, i);
    lemma_all_failed_at(m, ids_where(m.pending, overdue), m.rules.timeout_code@, i);
    lemma_all_failed_at(m, ids_where(m.pending, every), m.rules.shutdown_code@, i);
    let without = StreamsModel { known: m.known.remove((peer, connection)), ..m };
    assert(forall|x: RequestId, phase: PendingPhase| #[trigger]
        without.in_phase(x, phase) == m.in_phase(x, phase));
    lemma_all_failed_at(without, ids_where(m.pending, lost), m.rules.closed_code@, i);
    lemma_failed_at(m, id, m.rules.cancelled_code@, i);
}

/// A request is taken in as the youngest, under the next number, with five
/// seconds to go, and its turn to be sent comes after those before it.
pub proof fn law_requests_stand_as_asked<S, P>(
    m: StreamsModel<S, P>,
    peer: Seq<u8>,
    connection: ConnectionId,
    open: P,
    now: u64,
)
    requires
        m.valid(),
        m.refusal(peer, connection) is None,
        now + 5_000_000_000 <= u64::MAX,
    ensures
        ({
            let after = m.asked(peer, connection, open, now);
            let request = after.pending.last();
            &&& after.pending.drop_last() == m.pending
            &&& request.request_id.0 == m.next + 1 == after.next
            &&& request.peer_id == peer
            &&& request.connection_id == connection
            &&& request.deadline == now + 5_000_000_000
            &&& request.phase == PendingPhase::Queued
            &&& request.terminal is None
            &&& after.commands.drop_last() == m.commands
            &&& after.commands.last() == (request.request_id, open)
            &&& after.known == m.known
            &&& after.terminals == m.terminals
            &&& after.inbound_events == m.inbound_events
            &&& after.workers == m.workers
        }),
{
    let after = m.asked(peer, connection, open, now);
    assert(after.pending.drop_last() =~= m.pending);
    assert(after.commands.drop_last() =~= m.commands);
}

/// A request is turned down on a connection that is not there, where there is no
/// room, and when the numbers are used up; otherwise it is taken.
pub proof fn law_requests_are_turned_down_for_a_reason<S, P>(
    m: StreamsModel<S, P>,
    peer: Seq<u8>,
    connection: ConnectionId,
)
    ensures
        ({
            let there = m.known.contains_key((peer, connection));
            let full = m.pending.len() >= 128 || of_peer(m.pending, peer) >= 64 || m.commands.len() >= 128;
            let refusal = m.refusal(peer, connection);
            &&& !there ==> refusal == Some("connection_unknown"@)
            &&& there && full ==> refusal == Some(m.rules.outbound_limit_code@)
            &&& there && !full && m.next == 0xffff_ffff_ffff_ffff ==> refusal == Some(
                m.rules.exhausted_code@,
            )
            &&& there && !full && m.next < 0xffff_ffff_ffff_ffff ==> refusal is None
        }),
{
}

/// The requests of a peer are counted one by one.
pub proof fn law_requests_are_counted_by_peer<S>(
    pending: Seq<PendingModel<S>>,
    request: PendingModel<S>,
    peer: Seq<u8>,
)
    ensures
        of_peer(Seq::<PendingModel<S>>::empty(), peer) == 0,
        request.peer_id == peer ==> of_peer(pending.push(request), peer) == of_peer(pending, peer) + 1,
        request.peer_id != peer ==> of_peer(pending.push(request), peer) == of_peer(pending, peer),
{
    lemma_of_peer_push(pending, request, peer);
}

/// What the connection of a request reports is the answer to it; what another
/// connection reports of it is a mismatch.
pub proof fn law_reports_are_the_answer<S, P>(
    m: StreamsModel<S, P>,
    peer: Seq<u8>,
    connection: ConnectionId,
    stream: S,
    code: &'static str,
    i: int,
)
    requires
        m.valid(),
        0 <= i < m.pending.len(),
        m.pending[i].terminal is None,
    ensures
        ({
            let request = m.pending[i];
            let id = request.request_id;
            let own = request.peer_id == peer && request.connection_id == connection;
            let opened = m.reported(
                peer,
                connection,
                StreamEvent::OutboundOpened { request_id: id, stream },
            ).pending[i].terminal;
            let failed = m.reported(
                peer,
                connection,
                StreamEvent::OutboundFailed { request_id: id, code },
            ).pending[i].terminal;
            let failure = |code: Seq<char>|
                OutputModel::<S>::OutboundFailed {
                    request_id: id,
                    peer_id: request.peer_id,
                    connection_id: request.connection_id,
                    code,
                };
            &&& own ==> opened == Some(
                OutputModel::OutboundOpened {
                    request_id: id,
                    peer_id: request.peer_id,
                    connection_id: request.connection_id,
                    stream,
                },
            )
            &&& own ==> failed == Some(failure(code@))
            &&& !own ==> opened == Some(failure(m.rules.mismatch_code@))
            &&& !own ==> failed == Some(failure(m.rules.mismatch_code@))
        }),
{
    lemma_place(m.pending, i);
}

/// An answer is the last in the line of answers, and what was to be sent of its
/// request is dropped.
pub proof fn law_answers_stand_in_line<S, P>(m: StreamsModel<S, P>, output: OutputModel<S>, i: int)
    requires
        m.valid(),
        0 <= i < m.pending.len(),
        m.pending[i].terminal is None,
    ensures
        ({
            let id = m.pending[i].request_id;
            let after = m.answered(id, output);
            &&& after.terminals == m.terminals.push(id)
            &&& after.pending[i].terminal == Some(output)
            &&& after.pending[i].phase == PendingPhase::TerminalQueued
            &&& !command_ids(after.commands).contains(id)
            &&& forall|k: int|
                0 <= k < m.pending.len() && k != i ==> #[trigger] after.pending[k] == m.pending[k]
        }),
{
    let id = m.pending[i].request_id;
    lemma_place(m.pending, i);
    lemma_answered_valid(m, id, output);
    let after = m.answered(id, output);
    lemma_in_phase_update(m, after, i, after.pending[i], id, PendingPhase::Queued);
}

/// An incoming stream is handed on while there is room for it and for a worker;
/// otherwise it is counted as rejected, and that is told while there is room to.
pub proof fn law_incoming_streams_are_taken_while_there_is_room<S, P>(
    m: StreamsModel<S, P>,
    peer: Seq<u8>,
    connection: ConnectionId,
    stream: S,
)
    requires
        m.valid(),
    ensures
        ({
            let after = m.reported(peer, connection, StreamEvent::InboundOpened { stream });
            let room = m.inbound_events.len() < 128;
            let hands = m.workers.len() < m.rules.max_inbound_workers && m.workers.count(peer)
                < m.rules.max_inbound_workers_per_peer;
            &&& room && hands ==> {
                &&& after.inbound_events == m.inbound_events.push(
                    OutputModel::InboundOpened { peer_id: peer, connection_id: connection, stream },
                )
                &&& after.workers == m.workers.insert(peer)
                &&& after.inbound_rejected == m.inbound_rejected
            }
            &&& !(room && hands) ==> {
                &&& after.workers == m.workers
                &&& m.inbound_rejected < 0xffff_ffff_ffff_ffff ==> after.inbound_rejected
                    == m.inbound_rejected + 1
                &&& m.inbound_rejected == 0xffff_ffff_ffff_ffff ==> after.inbound_rejected
                    == m.inbound_rejected
            }
            &&& room && !hands ==> after.inbound_events == m.inbound_events.push(
                OutputModel::InboundRejected {
                    peer_id: peer,
                    connection_id: connection,
                    code: m.rules.inbound_limit_code@,
                },
            )
            &&& !room ==> after.inbound_events == m.inbound_events
            &&& after.pending == m.pending
            &&& after.commands == m.commands
            &&& after.terminals == m.terminals
        }),
{
}

/// A worker is admitted while there is room for it, in all and for its peer.
pub proof fn law_workers_are_admitted_while_there_is_room<S, P>(m: StreamsModel<S, P>, peer: Seq<u8>)
    ensures
        m.admission_refusal(peer) is None <==> m.workers.len() < m.rules.max_inbound_workers
            && m.workers.count(peer) < m.rules.max_inbound_workers_per_peer,
        m.admission_refusal(peer) matches Some(code) ==> code == m.rules.inbound_limit_code@,
{
}

/// The answer that came first is handed on first; then what came in, oldest
/// first; then the request that waits longest is sent.
pub proof fn law_answers_come_before_all_else<S, P>(m: StreamsModel<S, P>)
    requires
        m.valid(),
    ensures
        m.terminals.len() > 0 ==> {
            &&& m.polled().terminals == m.terminals.drop_first()
            &&& m.polled().inbound_events == m.inbound_events
            &&& m.polled().commands == m.commands
            &&& !ids(m.polled().pending).contains(m.terminals[0])
            &&& m.polled().pending.len() + 1 == m.pending.len()
            &&& m.answer() is Some
        },
        m.terminals.len() == 0 && m.inbound_events.len() > 0 ==> {
            &&& m.polled().inbound_events == m.inbound_events.drop_first()
            &&& m.polled().commands == m.commands
            &&& m.polled().pending == m.pending
        },
        m.terminals.len() == 0 && m.inbound_events.len() == 0 && m.commands.len() > 0 ==> {
            &&& m.polled().commands == m.commands.drop_first()
            &&& m.polled().in_phase(m.commands[0].0, PendingPhase::Notified)
            &&& ids(m.polled().pending) == ids(m.pending)
        },
        m.terminals.len() == 0 && m.inbound_events.len() == 0 && m.commands.len() == 0 ==> m.polled() == m,
{
    if m.terminals.len() > 0 {
        let id = m.terminals[0];
        assert(m.terminals.contains(id));
        assert(m.in_phase(id, PendingPhase::TerminalQueued));
        let i = ids(m.pending).index_of(id);
        assert(ids(m.pending)[i] == id);
        let after = m.polled();
        assert(after.terminals =~= m.terminals.drop_first());
        if ids(after.pending).contains(id) {
            let k = ids(after.pending).index_of(id);
            assert(ids(after.pending)[k] == id);
            if k < i {
                assert(m.pending[k].request_id == id);
                lemma_place(m.pending, k);
            } else {
                assert(m.pending[k + 1].request_id == id);
                lemma_place(m.pending, k + 1);
            }
        }
    } else if m.inbound_events.len() > 0 {
        assert(m.polled().inbound_events =~= m.inbound_events.drop_first());
    } else if m.commands.len() > 0 {
        let id = m.commands[0].0;
        assert(command_ids(m.commands)[0] == id);
        assert(command_ids(m.commands).contains(id));
        let i = ids(m.pending).index_of(id);
        assert(ids(m.pending)[i] == id);
        let after = m.polled();
        assert(after.commands =~= m.commands.drop_first());
        lemma_phases_after_update(m.pending, i, after.pending[i]);
        lemma_in_phase_update(m, after, i, after.pending[i], id, PendingPhase::Notified);
    }
}

/// What is done next is the oldest answer as it was given, then the oldest that
/// came in, then the request that waits longest, with the peer and the connection
/// it was asked for; otherwise nothing.
pub proof fn law_the_next_thing_is_handed_out<S, P>(
    streams: &mut StreamBehaviour<S, P>,
    r: StreamAction<S, P>,
    i: int,
)
    requires
        call_ensures(StreamBehaviour::<S, P>::poll, (streams,), r),
        old(streams)@.valid(),
        0 <= i < old(streams)@.pending.len(),
    ensures
        ({
            let m = old(streams)@;
            let request = m.pending[i];
            let id = request.request_id;
            &&& m.terminals.len() > 0 && m.terminals[0] == id ==> (r matches StreamAction::Output(output)
                && Some(output@) == request.terminal)
            &&& m.terminals.len() == 0 && m.inbound_events.len() > 0 ==> (r matches StreamAction::Output(
                output,
            ) && output@ == m.inbound_events[0])
            &&& m.terminals.len() == 0 && m.inbound_events.len() == 0 && m.commands.len() > 0
                && m.commands[0].0 == id ==> (r matches StreamAction::Notify(sent) && sent.request_id == id
                && sent.peer_id@ == request.peer_id && sent.connection_id == request.connection_id
                && sent.open == m.commands[0].1)
            &&& m.terminals.len() == 0 && m.inbound_events.len() == 0 && m.commands.len() == 0 ==> r is Pending
        }),
{
    lemma_place(old(streams)@.pending, i);
}

/// A request that is taken is known by the number it is given.
pub proof fn law_requests_are_known_by_their_number<S, P>(
    streams: &mut StreamBehaviour<S, P>,
    peer_id: PeerId,
    connection_id: ConnectionId,
    open: P,
    now: u64,
    r: Result<RequestId, &'static str>,
)
    requires
        call_ensures(StreamBehaviour::<S, P>::open_on, (streams, &peer_id, connection_id, open, now), r),
        old(streams)@.valid(),
        now + 5_000_000_000 <= u64::MAX,
    ensures
        r is Ok <==> old(streams)@.refusal(peer_id@, connection_id) is None,
        r is Ok ==> final(streams)@.pending.last().request_id == r->Ok_0
            && final(streams)@.pending.last().peer_id == peer_id@
            && final(streams)@.pending.last().connection_id == connection_id
            && final(streams)@.pending.last().deadline == now + 5_000_000_000,
        r is Err ==> final(streams)@ == old(streams)@ && old(streams)@.refusal(peer_id@, connection_id)
            == Some(r->Err_0@),
{
}

} // verus!
