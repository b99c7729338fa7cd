//! What is known of the connections to other peers. Times are nanoseconds since
//! a fixed origin.
use crate::address::{has_circuit, has_quic, has_tcp, relay_of, Address, PartModel};
use crate::peer::{ConnectionId, ConnectionKey, PeerId};
use crate::table::{count, kept, Table};
use vstd::prelude::*;

verus! {

/// How many connections are remembered, the closed ones among them.
pub const MAX_CONNECTION_LIFECYCLES: usize = 512;

/// How long a closed connection is remembered.
pub const TOMBSTONE_TTL: u64 = 20_000_000_000;

#[derive(Clone, Copy, Debug, PartialEq, Eq, Structural)]
pub enum TransportKind {
    Tcp,
    Quic,
    Unknown,
}

/// How a connection reaches its peer.
#[derive(Debug, PartialEq, Eq)]
pub enum PathKind {
    Direct(TransportKind),
    Relay { exchange_peer_id: PeerId },
    UnknownDirect,
}

#[verifier::ext_equal]
pub enum PathModel {
    Direct(TransportKind),
    Relay { exchange_peer_id: Seq<u8> },
    UnknownDirect,
}

impl View for PathKind {
    type V = PathModel;

    open spec fn view(&self) -> PathModel {
        match *self {
            PathKind::Direct(kind) => PathModel::Direct(kind),
            PathKind::Relay { exchange_peer_id } => PathModel::Relay {
                exchange_peer_id: exchange_peer_id@,
            },
            PathKind::UnknownDirect => PathModel::UnknownDirect,
        }
    }
}

#[derive(Clone, Copy, Debug, PartialEq, Eq, Structural)]
pub enum EndpointRole {
    Dialer,
    Listener,
}

/// The two ends of a connection.
#[derive(Debug, PartialEq, Eq)]
pub enum ConnectedPoint {
    Dialer { address: Address },
    Listener { local_addr: Address, send_back_addr: Address },
}

impl ConnectedPoint {
    /// The address that says how the connection goes: a listener's own address
    /// where that is a circuit, else the address of the other side.
    pub open spec fn authoritative(self) -> Address {
        match self {
            ConnectedPoint::Dialer { address } => address,
            ConnectedPoint::Listener { local_addr, send_back_addr } => if has_circuit(local_addr@) {
                local_addr
            } else {
                send_back_addr
            },
        }
    }

    /// Whether the connection goes through a relay.
    pub open spec fn relayed(self) -> bool {
        match self {
            ConnectedPoint::Dialer { address } => has_circuit(address@),
            ConnectedPoint::Listener { local_addr, .. } => has_circuit(local_addr@),
        }
    }

    /// Which side opened the connection.
    pub open spec fn role(self) -> EndpointRole {
        match self {
            ConnectedPoint::Dialer { .. } => EndpointRole::Dialer,
            ConnectedPoint::Listener { .. } => EndpointRole::Listener,
        }
    }

    /// Whether the connection goes through a relay.
    pub fn is_relayed(&self) -> (r: bool)
        ensures
            r == self.relayed(),
    {
        match self {
            ConnectedPoint::Dialer { address } => address.is_circuit(),
            ConnectedPoint::Listener { local_addr, .. } => local_addr.is_circuit(),
        }
    }

    /// Whether this side opened the connection.
    pub fn is_dialer(&self) -> (r: bool)
        ensures
            r == self.role() is Dialer,
    {
        match self {
            ConnectedPoint::Dialer { .. } => true,
            ConnectedPoint::Listener { .. } => false,
        }
    }
}

/// The transport that an address names.
pub open spec fn transport_of(parts: Seq<PartModel>) -> TransportKind {
    if has_quic(parts) {
        TransportKind::Quic
    } else if has_tcp(parts) {
        TransportKind::Tcp
    } else {
        TransportKind::Unknown
    }
}

/// How an address reaches its peer.
pub open spec fn path_of(parts: Seq<PartModel>) -> PathModel {
    if has_circuit(parts) {
        match relay_of(parts) {
            Some(peer) => PathModel::Relay { exchange_peer_id: peer },
            None => PathModel::UnknownDirect,
        }
    } else {
        PathModel::Direct(transport_of(parts))
    }
}

/// An open connection.
#[derive(Debug)]
pub struct ConnectionRecord {
    pub peer_id: PeerId,
    pub connection_id: ConnectionId,
    pub endpoint_role: EndpointRole,
    pub endpoint_address: Address,
    pub path: PathKind,
    pub sequence: u64,
    pub established_at: u64,
    pub closing: bool,
    pub dcutr_confirmed: bool,
    pub last_ping: Option<u64>,
}

#[verifier::ext_equal]
pub struct RecordModel {
    pub peer_id: Seq<u8>,
    pub connection_id: ConnectionId,
    pub endpoint_role: EndpointRole,
    pub endpoint_address: Seq<u8>,
    pub path: PathModel,
    pub sequence: u64,
    pub established_at: u64,
    pub closing: bool,
    pub dcutr_confirmed: bool,
    pub last_ping: Option<u64>,
}

impl View for ConnectionRecord {
    type V = RecordModel;

    open spec fn view(&self) -> RecordModel {
        RecordModel {
            peer_id: self.peer_id@,
            connection_id: self.connection_id,
            endpoint_role: self.endpoint_role,
            endpoint_address: self.endpoint_address.raw(),
            path: self.path@,
            sequence: self.sequence,
            established_at: self.established_at,
            closing: self.closing,
            dcutr_confirmed: self.dcutr_confirmed,
            last_ping: self.last_ping,
        }
    }
}

/// What is known of a connection.
enum Lifecycle {
    /// A direct connection was announced and is not there yet.
    PendingDcutr { expires_at: u64 },
    Active(ConnectionRecord),
    /// The connection is closed; what still comes of it is ignored.
    Retired { expires_at: u64 },
}

#[allow(inconsistent_fields)]
#[verifier::ext_equal]
pub enum LifecycleModel {
    PendingDcutr { expires_at: u64 },
    Active(RecordModel),
    Retired { expires_at: u64 },
}

impl View for Lifecycle {
    type V = LifecycleModel;

    closed spec fn view(&self) -> LifecycleModel {
        match *self {
            Lifecycle::PendingDcutr { expires_at } => LifecycleModel::PendingDcutr { expires_at },
            Lifecycle::Active(record) => LifecycleModel::Active(record@),
            Lifecycle::Retired { expires_at } => LifecycleModel::Retired { expires_at },
        }
    }
}

/// Lifecycles by peer and connection.
pub type Ledger = Map<(Seq<u8>, ConnectionId), LifecycleModel>;

#[verifier::ext_equal]
pub struct BookModel {
    pub expected_exchange: Seq<u8>,
    pub next_sequence: u64,
    pub ledger: Ledger,
}

#[derive(Clone, Copy, Debug, PartialEq, Eq, Structural)]
pub enum ConnectionBookError {
    /// There is no room for another connection.
    Capacity,
    /// A relayed connection does not go through the expected exchange.
    WrongExchange,
    /// The numbers for connections are used up.
    SequenceExhausted,
}

/// Whether a lifecycle is still worth remembering.
pub open spec fn fresh(lifecycle: LifecycleModel, now: u64) -> bool {
    match lifecycle {
        LifecycleModel::PendingDcutr { expires_at } => expires_at > now,
        LifecycleModel::Active(_) => true,
        LifecycleModel::Retired { expires_at } => expires_at > now,
    }
}

/// A ledger without what is no longer worth remembering.
pub open spec fn swept(ledger: Ledger, now: u64) -> Ledger {
    kept(ledger, |key: (Seq<u8>, ConnectionId), lifecycle: LifecycleModel| fresh(lifecycle, now))
}

/// Whether a record is a direct connection that can be used.
pub open spec fn usable_direct(record: RecordModel) -> bool {
    record.path is Direct && !record.closing && record.dcutr_confirmed
}

/// Direct connections are preferred by transport, then by age.
pub open spec fn rank(path: PathModel) -> int {
    match path {
        PathModel::Direct(TransportKind::Quic) => 0,
        PathModel::Direct(TransportKind::Tcp) => 1,
        _ => 2,
    }
}

/// Whether one record is preferred to another, or is that record.
pub open spec fn preferred(a: RecordModel, b: RecordModel) -> bool {
    rank(a.path) < rank(b.path) || (rank(a.path) == rank(b.path) && a.sequence <= b.sequence)
}

impl BookModel {
    /// What every book keeps to: room is bounded, a record stands under its own
    /// connection, and no two records have the same number.
    pub open spec fn valid(self) -> bool {
        &&& self.ledger.dom().finite()
        &&& self.ledger.len() <= MAX_CONNECTION_LIFECYCLES
        &&& forall|key: (Seq<u8>, ConnectionId)| #[trigger]
            self.ledger.contains_key(key) ==> (self.ledger[key] matches LifecycleModel::Active(record)
                ==> record.peer_id == key.0 && record.connection_id == key.1 && 1 <= record.sequence
                <= self.next_sequence)
        &&& forall|a: (Seq<u8>, ConnectionId), b: (Seq<u8>, ConnectionId)|
            #![trigger self.ledger[a], self.ledger[b]]
            self.ledger.contains_key(a) && self.ledger.contains_key(b) && self.ledger[a] is Active
                && self.ledger[b] is Active && self.ledger[a]->Active_0.sequence
                == self.ledger[b]->Active_0.sequence ==> a == b
    }

    /// The record of an open connection.
    pub open spec fn record(self, peer: Seq<u8>, connection: ConnectionId) -> Option<RecordModel> {
        if self.ledger.contains_key((peer, connection)) {
            match self.ledger[(peer, connection)] {
                LifecycleModel::Active(record) => Some(record),
                _ => None,
            }
        } else {
            None
        }
    }

    /// Whether a record is a usable direct connection to a peer.
    pub open spec fn offers(self, peer: Seq<u8>, record: RecordModel) -> bool {
        self.record(record.peer_id, record.connection_id) == Some(record) && record.peer_id == peer
            && usable_direct(record)
    }

    /// Whether a connection is the direct one to a peer that is preferred, or there
    /// is none.
    pub open spec fn hands_out(self, peer: Seq<u8>, best: Option<RecordModel>) -> bool {
        match best {
            Some(best) => self.offers(peer, best) && forall|record: RecordModel| #[trigger]
                self.offers(peer, record) ==> preferred(best, record),
            None => forall|record: RecordModel| !#[trigger] self.offers(peer, record),
        }
    }

    /// The book after a sweep.
    pub open spec fn swept(self, now: u64) -> BookModel {
        BookModel { ledger: swept(self.ledger, now), ..self }
    }

    /// Why a connection cannot be entered into a book that was swept.
    pub open spec fn refusal(self, peer: Seq<u8>, connection: ConnectionId, endpoint: ConnectedPoint) -> Option<
        ConnectionBookError,
    > {
        let key = (peer, connection);
        let known = self.ledger.contains_key(key);
        if known && self.ledger[key] is Retired {
            None
        } else if endpoint.relayed() && relay_of(endpoint.authoritative()@) != Some(
            self.expected_exchange,
        ) {
            Some(ConnectionBookError::WrongExchange)
        } else if known && self.ledger[key] is Active {
            None
        } else if !known && self.ledger.len() >= MAX_CONNECTION_LIFECYCLES {
            Some(ConnectionBookError::Capacity)
        } else if self.next_sequence == u64::MAX {
            Some(ConnectionBookError::SequenceExhausted)
        } else {
            None
        }
    }

    /// The book, swept already, with a connection entered.
    pub open spec fn entered(
        self,
        peer: Seq<u8>,
        connection: ConnectionId,
        endpoint: ConnectedPoint,
        now: u64,
    ) -> BookModel {
        let key = (peer, connection);
        let known = self.ledger.contains_key(key);
        if known && self.ledger[key] is Retired {
            self
        } else if known && self.ledger[key] is Active {
            BookModel {
                ledger: self.ledger.insert(
                    key,
                    LifecycleModel::Active(
                        RecordModel { closing: false, ..self.ledger[key]->Active_0 },
                    ),
                ),
                ..self
            }
        } else {
            let sequence = (self.next_sequence + 1) as u64;
            BookModel {
                next_sequence: sequence,
                ledger: self.ledger.insert(
                    key,
                    LifecycleModel::Active(
                        RecordModel {
                            peer_id: peer,
                            connection_id: connection,
                            endpoint_role: endpoint.role(),
                            endpoint_address: endpoint.authoritative().raw(),
                            path: path_of(endpoint.authoritative()@),
                            sequence,
                            established_at: now,
                            closing: false,
                            dcutr_confirmed: known,
                            last_ping: None,
                        },
                    ),
                ),
                ..self
            }
        }
    }

    /// The book, swept already, after a direct connection was announced.
    pub open spec fn announced(self, peer: Seq<u8>, connection: ConnectionId, now: u64) -> BookModel {
        let key = (peer, connection);
        if !self.ledger.contains_key(key) {
            BookModel {
                ledger: self.ledger.insert(
                    key,
                    LifecycleModel::PendingDcutr { expires_at: (now + TOMBSTONE_TTL) as u64 },
                ),
                ..self
            }
        } else {
            match self.ledger[key] {
                LifecycleModel::Active(record) => if record.path is Direct {
                    BookModel {
                        ledger: self.ledger.insert(
                            key,
                            LifecycleModel::Active(RecordModel { dcutr_confirmed: true, ..record }),
                        ),
                        ..self
                    }
                } else {
                    self
                },
                _ => self,
            }
        }
    }

    /// The book after a connection was closed.
    pub open spec fn closed(self, peer: Seq<u8>, connection: ConnectionId, now: u64) -> BookModel {
        BookModel {
            ledger: self.ledger.insert(
                (peer, connection),
                LifecycleModel::Retired { expires_at: (now + TOMBSTONE_TTL) as u64 },
            ),
            ..self
        }
    }

    /// The book after a ping.
    pub open spec fn pinged(self, peer: Seq<u8>, connection: ConnectionId, now: u64) -> BookModel {
        match self.record(peer, connection) {
            Some(record) => BookModel {
                ledger: self.ledger.insert(
                    (peer, connection),
                    LifecycleModel::Active(RecordModel { last_ping: Some(now), ..record }),
                ),
                ..self
            },
            None => self,
        }
    }
}

/// The connections to other peers.
pub struct ConnectionBook {
    expected_exchange: PeerId,
    next_sequence: u64,
    ledger: Table<ConnectionKey, Lifecycle>,
}

impl View for ConnectionBook {
    type V = BookModel;

    closed spec fn view(&self) -> BookModel {
        BookModel {
            expected_exchange: self.expected_exchange@,
            next_sequence: self.next_sequence,
            ledger: self.ledger@,
        }
    }
}

proof fn lemma_sweep_keeps_valid(book: BookModel, now: u64)
    requires
        book.valid(),
    ensures
        book.swept(now).valid(),
{
    let after = book.swept(now);
    assert(after.ledger.dom().subset_of(book.ledger.dom()));
    vstd::set_lib::lemma_len_subset(after.ledger.dom(), book.ledger.dom());
    assert forall|a: (Seq<u8>, ConnectionId), b: (Seq<u8>, ConnectionId)|
        #![trigger after.ledger[a], after.ledger[b]]
        after.ledger.contains_key(a) && after.ledger.contains_key(b) && after.ledger[a] is Active
            && after.ledger[b] is Active && after.ledger[a]->Active_0.sequence
            == after.ledger[b]->Active_0.sequence implies a == b by {
        assert(after.ledger[a] == book.ledger[a] && after.ledger[b] == book.ledger[b]);
    }
}

proof fn lemma_put_keeps_valid(book: BookModel, after: BookModel, key: (Seq<u8>, ConnectionId), value: LifecycleModel)
    requires
        book.valid(),
        after.ledger == book.ledger.insert(key, value),
        after.next_sequence >= book.next_sequence,
        book.ledger.contains_key(key) || book.ledger.len() < MAX_CONNECTION_LIFECYCLES,
        value matches LifecycleModel::Active(record) ==> record.peer_id == key.0 && record.connection_id
            == key.1 && 1 <= record.sequence <= after.next_sequence && (record.sequence
            > book.next_sequence || (book.ledger.contains_key(key) && (book.ledger[key]
            matches LifecycleModel::Active(was) && was.sequence == record.sequence))),
    ensures
        after.valid(),
{
    assert forall|a: (Seq<u8>, ConnectionId), b: (Seq<u8>, ConnectionId)|
        #![trigger after.ledger[a], after.ledger[b]]
        after.ledger.contains_key(a) && after.ledger.contains_key(b) && after.ledger[a] is Active
            && after.ledger[b] is Active && after.ledger[a]->Active_0.sequence
            == after.ledger[b]->Active_0.sequence implies a == b by {
        if a != key && b != key {
            assert(after.ledger[a] == book.ledger[a] && after.ledger[b] == book.ledger[b]);
        } else if a != key {
            assert(after.ledger[a] == book.ledger[a]);
            assert(book.ledger.contains_key(a));
            assert(book.ledger.contains_key(b) ==> book.ledger[b] == book.ledger[b]);
        } else if b != key {
            assert(after.ledger[b] == book.ledger[b]);
            assert(book.ledger.contains_key(b));
            assert(book.ledger.contains_key(a) ==> book.ledger[a] == book.ledger[a]);
        }
    }
}

impl ConnectionBook {
    #[verifier::type_invariant]
    pub open spec fn valid(self) -> bool {
        self@.valid()
    }

    /// An empty book that expects relayed connections through the given exchange.
    pub fn new(expected_exchange: PeerId) -> (r: Self)
        ensures
            r@ == (BookModel {
                expected_exchange: expected_exchange@,
                next_sequence: 0,
                ledger: Map::empty(),
            }),
    {
        ConnectionBook { expected_exchange, next_sequence: 0, ledger: Table::new() }
    }

    /// Takes the ledger out, and puts it back changed.
    fn take_ledger(&mut self) -> (r: Table<ConnectionKey, Lifecycle>)
        ensures
            r@ == old(self)@.ledger,
            final(self)@ == (BookModel { ledger: Map::empty(), ..old(self)@ }),
    {
        let mut ledger: Table<ConnectionKey, Lifecycle> = Table::new();
        proof {
            use_type_invariant(&*self);
        }
        std::mem::swap(&mut ledger, &mut self.ledger);
        ledger
    }

    /// A connection is open.
    pub fn on_connection_established(
        &mut self,
        peer_id: &PeerId,
        connection_id: ConnectionId,
        endpoint: &ConnectedPoint,
        now: u64,
    ) -> (r: Result<(), ConnectionBookError>)
        ensures
            ({
                let before = old(self)@.swept(now);
                match before.refusal(peer_id@, connection_id, *endpoint) {
                    Some(error) => r == Err::<(), ConnectionBookError>(error) && final(self)@ == before,
                    None => r is Ok && final(self)@ == before.entered(
                        peer_id@,
                        connection_id,
                        *endpoint,
                        now,
                    ),
                }
            }),
    {
        self.sweep(now);
        let ghost before = self@;
        proof {
            use_type_invariant(&*self);
        }
        let key = ConnectionKey::of(peer_id, connection_id);
        let state = match self.ledger.get(&key) {
            Some(Lifecycle::Retired { .. }) => return Ok(()),
            Some(Lifecycle::Active(_)) => Known::Active,
            Some(Lifecycle::PendingDcutr { .. }) => Known::Pending,
            None => Known::Not,
        };
        let address = authoritative_path_address(endpoint);
        if endpoint.is_relayed() && !self.valid_relay(address) {
            return Err(ConnectionBookError::WrongExchange);
        }
        if let Known::Active = state {
            let mut ledger = self.take_ledger();
            if let Some(Lifecycle::Active(mut record)) = ledger.remove(&key) {
                record.closing = false;
                let ghost value = LifecycleModel::Active(record@);
                ledger.insert(key, Lifecycle::Active(record));
                proof {
                    let put = before.ledger.insert((peer_id@, connection_id), value);
                    assert(ledger@ =~= put);
                    lemma_put_keeps_valid(
                        before,
                        BookModel { ledger: put, ..before },
                        (peer_id@, connection_id),
                        value,
                    );
                }
            }
            self.ledger = ledger;
            return Ok(());
        }
        let replaces_pending = match state {
            Known::Pending => true,
            _ => false,
        };
        if !replaces_pending && self.ledger.len() >= MAX_CONNECTION_LIFECYCLES {
            return Err(ConnectionBookError::Capacity);
        }
        if self.next_sequence == u64::MAX {
            return Err(ConnectionBookError::SequenceExhausted);
        }
        let sequence: u64 = self.next_sequence + 1;
        let record = ConnectionRecord {
            peer_id: peer_id.clone(),
            connection_id,
            endpoint_role: if endpoint.is_dialer() {
                EndpointRole::Dialer
            } else {
                EndpointRole::Listener
            },
            endpoint_address: address.clone(),
            path: classify_path(address),
            sequence,
            established_at: now,
            closing: false,
            dcutr_confirmed: replaces_pending,
            last_ping: None,
        };
        let ghost value = LifecycleModel::Active(record@);
        let mut ledger = self.take_ledger();
        ledger.insert(key, Lifecycle::Active(record));
        proof {
            let after = before.entered(peer_id@, connection_id, *endpoint, now);
            assert(value == after.ledger[(peer_id@, connection_id)]);
            assert(after.ledger == before.ledger.insert((peer_id@, connection_id), value));
            lemma_put_keeps_valid(before, after, (peer_id@, connection_id), value);
        }
        self.next_sequence = sequence;
        self.ledger = ledger;
        Ok(())
    }

    /// A direct connection was announced.
    pub fn on_dcutr_succeeded(&mut self, peer_id: &PeerId, connection_id: ConnectionId, now: u64) -> (r:
        Result<(), ConnectionBookError>)
        requires
            now + TOMBSTONE_TTL <= u64::MAX,
        ensures
            ({
                let before = old(self)@.swept(now);
                if !before.ledger.contains_key((peer_id@, connection_id)) && before.ledger.len()
                    >= MAX_CONNECTION_LIFECYCLES {
                    r == Err::<(), ConnectionBookError>(ConnectionBookError::Capacity) && final(self)@
                        == before
                } else {
                    r is Ok && final(self)@ == before.announced(peer_id@, connection_id, now)
                }
            }),
    {
        self.sweep(now);
        let ghost before = self@;
        proof {
            use_type_invariant(&*self);
        }
        let key = ConnectionKey::of(peer_id, connection_id);
        let direct = match self.ledger.get(&key) {
            Some(Lifecycle::Active(record)) => match record.path {
                PathKind::Direct(_) => true,
                _ => return Ok(()),
            },
            Some(_) => return Ok(()),
            None => false,
        };
        if !direct && self.ledger.len() >= MAX_CONNECTION_LIFECYCLES {
            return Err(ConnectionBookError::Capacity);
        }
        let ghost after = before.announced(peer_id@, connection_id, now);
        let mut ledger = self.take_ledger();
        if direct {
            if let Some(Lifecycle::Active(mut record)) = ledger.remove(&key) {
                record.dcutr_confirmed = true;
                ledger.insert(key, Lifecycle::Active(record));
            }
        } else {
            ledger.insert(key, Lifecycle::PendingDcutr { expires_at: now + TOMBSTONE_TTL });
        }
        proof {
            assert(ledger@ =~= after.ledger);
            lemma_put_keeps_valid(
                before,
                after,
                (peer_id@, connection_id),
                after.ledger[(peer_id@, connection_id)],
            );
        }
        self.ledger = ledger;
        Ok(())
    }

    /// A connection was closed.
    pub fn on_connection_closed(&mut self, peer_id: &PeerId, connection_id: ConnectionId, now: u64) -> (r:
        Result<(), ConnectionBookError>)
        requires
            now + TOMBSTONE_TTL <= u64::MAX,
        ensures
            if !old(self)@.ledger.contains_key((peer_id@, connection_id)) && old(self)@.ledger.len()
                >= MAX_CONNECTION_LIFECYCLES {
                r == Err::<(), ConnectionBookError>(ConnectionBookError::Capacity) && final(self)@
                    == old(self)@
            } else {
                r is Ok && final(self)@ == old(self)@.closed(peer_id@, connection_id, now)
            },
    {
        self.on_connection_closed_at(peer_id, connection_id, now)
    }

    /// A connection was closed at the given time.
    pub fn on_connection_closed_at(&mut self, peer_id: &PeerId, connection_id: ConnectionId, now: u64) -> (r:
        Result<(), ConnectionBookError>)
        requires
            now + TOMBSTONE_TTL <= u64::MAX,
        ensures
            if !old(self)@.ledger.contains_key((peer_id@, connection_id)) && old(self)@.ledger.len()
                >= MAX_CONNECTION_LIFECYCLES {
                r == Err::<(), ConnectionBookError>(ConnectionBookError::Capacity) && final(self)@
                    == old(self)@
            } else {
                r is Ok && final(self)@ == old(self)@.closed(peer_id@, connection_id, now)
            },
    {
        let ghost before = self@;
        proof {
            use_type_invariant(&*self);
        }
        let key = ConnectionKey::of(peer_id, connection_id);
        if self.ledger.len() >= MAX_CONNECTION_LIFECYCLES && !self.ledger.contains(&key) {
            return Err(ConnectionBookError::Capacity);
        }
        let ghost after = before.closed(peer_id@, connection_id, now);
        let mut ledger = self.take_ledger();
        ledger.insert(key, Lifecycle::Retired { expires_at: now + TOMBSTONE_TTL });
        proof {
            lemma_put_keeps_valid(
                before,
                after,
                (peer_id@, connection_id),
                after.ledger[(peer_id@, connection_id)],
            );
        }
        self.ledger = ledger;
        Ok(())
    }

    /// A ping on a connection was answered.
    pub fn mark_ping(&mut self, peer_id: &PeerId, connection_id: ConnectionId, now: u64)
        ensures
            final(self)@ == old(self)@.pinged(peer_id@, connection_id, now),
    {
        let ghost before = self@;
        proof {
            use_type_invariant(&*self);
        }
        let key = ConnectionKey::of(peer_id, connection_id);
        match self.ledger.get(&key) {
            Some(Lifecycle::Active(_)) => {},
            _ => return,
        }
        let ghost after = before.pinged(peer_id@, connection_id, now);
        let mut ledger = self.take_ledger();
        if let Some(Lifecycle::Active(mut record)) = ledger.remove(&key) {
            record.last_ping = Some(now);
            ledger.insert(key, Lifecycle::Active(record));
        }
        proof {
            assert(ledger@ =~= after.ledger);
            lemma_put_keeps_valid(
                before,
                after,
                (peer_id@, connection_id),
                after.ledger[(peer_id@, connection_id)],
            );
        }
        self.ledger = ledger;
    }

    /// The direct connection to a peer that is preferred.
    pub fn direct(&self, peer_id: &PeerId) -> (r: Option<&ConnectionRecord>)
        ensures
            self@.hands_out(
                peer_id@,
                match r {
                    Some(best) => Some(best@),
                    None => None,
                },
            ),
    {
        proof {
            use_type_invariant(self);
        }
        let n: usize = self.ledger.len();
        let ghost book = self@;
        let mut best: Option<&ConnectionRecord> = None;
        let mut i: usize = 0;
        while i < n
            invariant
                i <= n,
                n == self.ledger@.len(),
                book == self@,
                book.ledger == self.ledger@,
                book.valid(),
                match best {
                    Some(best) => book.offers(peer_id@, best@),
                    None => true,
                },
                forall|j: int|
                    0 <= j < i ==> self.seen(peer_id@, #[trigger] self.ledger.key_model(j), best),
            decreases n - i,
        {
            let (key, lifecycle) = self.ledger.at(i);
            let ghost best_before = best;
            if let Lifecycle::Active(record) = lifecycle {
                let usable = match record.path {
                    PathKind::Direct(_) => record.peer_id.same(peer_id) && !record.closing
                        && record.dcutr_confirmed,
                    _ => false,
                };
                if usable {
                    assert(book.record(record@.peer_id, record@.connection_id) == Some(record@));
                    let better = match best {
                        Some(current) => {
                            let old_rank: u8 = transport_rank(&current.path);
                            let new_rank: u8 = transport_rank(&record.path);
                            new_rank < old_rank || (new_rank == old_rank && record.sequence
                                < current.sequence)
                        },
                        None => true,
                    };
                    if better {
                        best = Some(record);
                    }
                }
            }
            i = i + 1;
        }
        proof {
            assert forall|record: RecordModel| #[trigger] book.offers(peer_id@, record) implies best
                matches Some(b) && preferred(b@, record) by {
                let key = (record.peer_id, record.connection_id);
                assert(self.ledger@.contains_key(key));
                let j = choose|j: int| 0 <= j < n && self.ledger.key_model(j) == key;
                assert(self.seen(peer_id@, self.ledger.key_model(j), best));
            }
        }
        best
    }

    /// A connection was looked at: if it can be used, one at least as good was
    /// found.
    spec fn seen(self, peer: Seq<u8>, key: (Seq<u8>, ConnectionId), best: Option<&ConnectionRecord>) -> bool {
        self@.record(key.0, key.1) matches Some(record) ==> self@.offers(peer, record) ==> (best
            matches Some(b) && preferred(b@, record))
    }

    /// An open connection.
    pub fn get(&self, peer_id: &PeerId, connection_id: ConnectionId) -> (r: Option<&ConnectionRecord>)
        ensures
            match r {
                Some(record) => self@.record(peer_id@, connection_id) == Some(record@),
                None => self@.record(peer_id@, connection_id) is None,
            },
    {
        let key = ConnectionKey::of(peer_id, connection_id);
        match self.ledger.get(&key) {
            Some(Lifecycle::Active(record)) => Some(record),
            _ => None,
        }
    }

    /// Whether a connection is direct and can be used.
    pub fn is_direct(&self, peer_id: &PeerId, connection_id: ConnectionId) -> (r: bool)
        ensures
            r == (self@.record(peer_id@, connection_id) matches Some(record) && usable_direct(record)),
    {
        match self.get(peer_id, connection_id) {
            Some(record) => match record.path {
                PathKind::Direct(_) => !record.closing && record.dcutr_confirmed,
                _ => false,
            },
            None => false,
        }
    }

    /// How many connections are open.
    pub fn len(&self) -> (r: usize)
        ensures
            r == count(
                self@.ledger,
                |key: (Seq<u8>, ConnectionId), lifecycle: LifecycleModel| lifecycle is Active,
            ),
    {
        let ghost counted = |key: (Seq<u8>, ConnectionId), lifecycle: LifecycleModel| lifecycle is Active;
        let which = |_key: &ConnectionKey, lifecycle: &Lifecycle| -> (b: bool)
            ensures
                b == lifecycle@ is Active,
            { matches!(lifecycle, Lifecycle::Active(_)) };
        self.ledger.count_where(which, Ghost(counted))
    }

    /// Whether no connection is open.
    pub fn is_empty(&self) -> (r: bool)
        ensures
            r == (count(
                self@.ledger,
                |key: (Seq<u8>, ConnectionId), lifecycle: LifecycleModel| lifecycle is Active,
            ) == 0),
    {
        self.len() == 0
    }

    /// The open connections, each once, in no particular order.
    pub fn iter(&self) -> (r: Vec<&ConnectionRecord>)
        ensures
            forall|i: int|
                0 <= i < r@.len() ==> self@.record(
                    (#[trigger] r@[i])@.peer_id,
                    r@[i]@.connection_id,
                ) == Some(r@[i]@),
            forall|i: int, j: int|
                0 <= i < j < r@.len() ==> (#[trigger] r@[i])@.sequence != (#[trigger] r@[j])@.sequence,
            forall|peer: Seq<u8>, connection: ConnectionId|
                #[trigger] self@.record(peer, connection) matches Some(record) ==> exists|i: int|
                    0 <= i < r@.len() && (#[trigger] r@[i])@ == record,
    {
        proof {
            use_type_invariant(self);
        }
        let n: usize = self.ledger.len();
        let ghost book = self@;
        let mut records: Vec<&ConnectionRecord> = Vec::new();
        let mut i: usize = 0;
        while i < n
            invariant
                i <= n,
                n == self.ledger@.len(),
                book == self@,
                book.ledger == self.ledger@,
                book.valid(),
                forall|a: int, b: int|
                    0 <= a < b < n ==> #[trigger] self.ledger.key_model(a) != #[trigger] self.ledger.key_model(
                        b,
                    ),
                forall|a: int|
                    0 <= a < records@.len() ==> book.record(
                        (#[trigger] records@[a])@.peer_id,
                        records@[a]@.connection_id,
                    ) == Some(records@[a]@) && listed_before(
                        self.ledger,
                        i as int,
                        records@[a]@.peer_id,
                        records@[a]@.connection_id,
                    ),
                forall|a: int, b: int|
                    0 <= a < b < records@.len() ==> (#[trigger] records@[a])@.sequence != (
                    #[trigger] records@[b])@.sequence,
                forall|j: int|
                    0 <= j < i ==> self.listed(#[trigger] self.ledger.key_model(j), records@),
            decreases n - i,
        {
            let (key, lifecycle) = self.ledger.at(i);
            let ghost before = records@;
            if let Lifecycle::Active(record) = lifecycle {
                proof {
                    assert(key@ == (record@.peer_id, record@.connection_id));
                    assert forall|a: int| 0 <= a < before.len() implies (#[trigger] before[a])@.sequence
                        != record@.sequence by {
                        let other = (before[a]@.peer_id, before[a]@.connection_id);
                        if before[a]@.sequence == record@.sequence {
                            assert(book.ledger[other] is Active && book.ledger[key@] is Active);
                            assert(other == key@);
                        }
                    }
                }
                records.push(record);
            }
            proof {
                assert forall|a: int| 0 <= a < records@.len() implies listed_before(
                    self.ledger,
                    i + 1,
                    (#[trigger] records@[a])@.peer_id,
                    records@[a]@.connection_id,
                ) by {
                    if a < before.len() {
                        assert(records@[a] == before[a]);
                    } else {
                        assert(self.ledger.key_model(i as int) == key@);
                    }
                }
                assert forall|j: int| 0 <= j < i + 1 implies self.listed(
                    #[trigger] self.ledger.key_model(j),
                    records@,
                ) by {
                    if j < i {
                        assert(self.listed(self.ledger.key_model(j), before));
                        if self@.record(self.ledger.key_model(j).0, self.ledger.key_model(j).1) is Some {
                            let record = self@.record(
                                self.ledger.key_model(j).0,
                                self.ledger.key_model(j).1,
                            )->0;
                            let a = choose|a: int| 0 <= a < before.len() && (#[trigger] before[a])@ == record;
                            assert(records@[a] == before[a]);
                        }
                    } else if lifecycle@ is Active {
                        assert(records@[records@.len() - 1]@ == lifecycle@->Active_0);
                    }
                }
            }
            i = i + 1;
        }
        proof {
            assert forall|peer: Seq<u8>, connection: ConnectionId| #[trigger]
                self@.record(peer, connection) is Some implies exists|a: int|
                0 <= a < records@.len() && (#[trigger] records@[a])@ == self@.record(
                    peer,
                    connection,
                )->0 by {
                let key = (peer, connection);
                assert(self.ledger@.contains_key(key));
                let j = choose|j: int| 0 <= j < n && self.ledger.key_model(j) == key;
                assert(self.listed(self.ledger.key_model(j), records@));
            }
        }
        records
    }

    /// A connection was looked at: if it is open, its record is in the list.
    spec fn listed(self, key: (Seq<u8>, ConnectionId), records: Seq<&ConnectionRecord>) -> bool {
        self@.record(key.0, key.1) matches Some(record) ==> exists|a: int|
            0 <= a < records.len() && (#[trigger] records[a])@ == record
    }

    /// Forgets what is no longer worth remembering.
    pub fn sweep(&mut self, now: u64)
        ensures
            final(self)@ == old(self)@.swept(now),
    {
        proof {
            use_type_invariant(&*self);
            lemma_sweep_keeps_valid(self@, now);
        }
        let ghost keeps = |key: (Seq<u8>, ConnectionId), lifecycle: LifecycleModel|
            fresh(lifecycle, now);
        let keep = |_key: &ConnectionKey, lifecycle: &Lifecycle| -> (b: bool)
            ensures
                b == fresh(lifecycle@, now),
            {
                match lifecycle {
                    Lifecycle::PendingDcutr { expires_at } => *expires_at > now,
                    Lifecycle::Active(_) => true,
                    Lifecycle::Retired { expires_at } => *expires_at > now,
                }
            };
        let mut ledger = self.take_ledger();
        ledger.retain(keep, Ghost(keeps));
        self.ledger = ledger;
    }

    /// How many connections were announced and are not there yet.
    pub fn pending_count(&self) -> (r: usize)
        ensures
            r == count(
                self@.ledger,
                |key: (Seq<u8>, ConnectionId), lifecycle: LifecycleModel| lifecycle is PendingDcutr,
            ),
    {
        let ghost counted = |key: (Seq<u8>, ConnectionId), lifecycle: LifecycleModel|
            lifecycle is PendingDcutr;
        let which = |_key: &ConnectionKey, lifecycle: &Lifecycle| -> (b: bool)
            ensures
                b == lifecycle@ is PendingDcutr,
            { matches!(lifecycle, Lifecycle::PendingDcutr { .. }) };
        self.ledger.count_where(which, Ghost(counted))
    }

    /// How many closed connections are remembered.
    pub fn tombstone_count(&self) -> (r: usize)
        ensures
            r == count(
                self@.ledger,
                |key: (Seq<u8>, ConnectionId), lifecycle: LifecycleModel| lifecycle is Retired,
            ),
    {
        let ghost counted = |key: (Seq<u8>, ConnectionId), lifecycle: LifecycleModel|
            lifecycle is Retired;
        let which = |_key: &ConnectionKey, lifecycle: &Lifecycle| -> (b: bool)
            ensures
                b == lifecycle@ is Retired,
            { matches!(lifecycle, Lifecycle::Retired { .. }) };
        self.ledger.count_where(which, Ghost(counted))
    }

    /// How many connections are remembered in all.
    pub fn lifecycle_count(&self) -> (r: usize)
        ensures
            r == self@.ledger.len(),
            r <= MAX_CONNECTION_LIFECYCLES,
    {
        proof {
            use_type_invariant(self);
        }
        self.ledger.len()
    }

    fn valid_relay(&self, address: &Address) -> (r: bool)
        ensures
            r == (relay_of(address@) == Some(self@.expected_exchange)),
    {
        match address.relay_peer() {
            Some(peer) => peer.same(&self.expected_exchange),
            None => false,
        }
    }
}

/// Whether a connection stands before place `n`.
spec fn listed_before(
    ledger: Table<ConnectionKey, Lifecycle>,
    n: int,
    peer: Seq<u8>,
    connection: ConnectionId,
) -> bool {
    exists|j: int| 0 <= j < n && #[trigger] ledger.key_model(j) == (peer, connection)
}

/// What a ledger knows of a connection that may be entered.
enum Known {
    Active,
    Pending,
    Not,
}

fn transport_rank(path: &PathKind) -> (r: u8)
    ensures
        r == rank(path@),
{
    match path {
        PathKind::Direct(TransportKind::Quic) => 0,
        PathKind::Direct(TransportKind::Tcp) => 1,
        _ => 2,
    }
}

/// How a connection reaches its peer.
pub fn classify_connected_point(endpoint: &ConnectedPoint) -> (r: PathKind)
    ensures
        r@ == path_of(endpoint.authoritative()@),
{
    classify_path(authoritative_path_address(endpoint))
}

fn authoritative_path_address(endpoint: &ConnectedPoint) -> (r: &Address)
    ensures
        *r == endpoint.authoritative(),
{
    match endpoint {
        ConnectedPoint::Dialer { address } => address,
        ConnectedPoint::Listener { local_addr, send_back_addr } => if local_addr.is_circuit() {
            local_addr
        } else {
            send_back_addr
        },
    }
}

/// How an address reaches its peer.
pub fn classify_path(address: &Address) -> (r: PathKind)
    ensures
        r@ == path_of(address@),
{
    if address.is_circuit() {
        match address.relay_peer() {
            Some(exchange_peer_id) => PathKind::Relay { exchange_peer_id },
            None => PathKind::UnknownDirect,
        }
    } else {
        PathKind::Direct(classify_address(address))
    }
}

/// The transport that an address names.
pub fn classify_address(address: &Address) -> (r: TransportKind)
    ensures
        r == transport_of(address@),
{
    if address.is_quic() {
        TransportKind::Quic
    } else if address.is_tcp() {
        TransportKind::Tcp
    } else {
        TransportKind::Unknown
    }
}

/// The preferred direct connection is determined by the book.
pub proof fn law_direct_is_determined(book: BookModel, peer: Seq<u8>, a: RecordModel, b: RecordModel)
    requires
        book.valid(),
        book.offers(peer, a),
        book.offers(peer, b),
        preferred(a, b),
        preferred(b, a),
    ensures
        a == b,
{
    assert(book.ledger[(a.peer_id, a.connection_id)] is Active);
    assert(book.ledger[(b.peer_id, b.connection_id)] is Active);
}

/// What happens to a book.
#[allow(inconsistent_fields)]
pub enum BookCall {
    Established { peer: Seq<u8>, connection: ConnectionId, endpoint: ConnectedPoint },
    Announced { peer: Seq<u8>, connection: ConnectionId },
    Closed { peer: Seq<u8>, connection: ConnectionId },
    Pinged { peer: Seq<u8>, connection: ConnectionId },
    Sweep,
}

/// Whether a lifecycle can be ended so late.
pub open spec fn has_time(call: BookCall, now: u64) -> bool {
    (call is Announced || call is Closed) ==> now + TOMBSTONE_TTL <= u64::MAX
}

impl BookModel {
    /// Whether a connection that is not known has no place.
    pub open spec fn full(self, peer: Seq<u8>, connection: ConnectionId) -> bool {
        !self.ledger.contains_key((peer, connection)) && self.ledger.len() >= MAX_CONNECTION_LIFECYCLES
    }

    /// The book after a call at a time.
    pub open spec fn called(self, call: BookCall, now: u64) -> BookModel {
        let swept = self.swept(now);
        match call {
            BookCall::Established { peer, connection, endpoint } => if swept.refusal(
                peer,
                connection,
                endpoint,
            ) is Some {
                swept
            } else {
                swept.entered(peer, connection, endpoint, now)
            },
            BookCall::Announced { peer, connection } => if swept.full(peer, connection) {
                swept
            } else {
                swept.announced(peer, connection, now)
            },
            BookCall::Closed { peer, connection } => if self.full(peer, connection) {
                self
            } else {
                self.closed(peer, connection, now)
            },
            BookCall::Pinged { peer, connection } => self.pinged(peer, connection, now),
            BookCall::Sweep => swept,
        }
    }

    /// The book after calls, each with its time.
    pub open spec fn after_calls(self, calls: Seq<(u64, BookCall)>) -> BookModel
        decreases calls.len(),
    {
        if calls.len() == 0 {
            self
        } else {
            self.after_calls(calls.drop_last()).called(calls.last().1, calls.last().0)
        }
    }

    /// A connection is known to be closed, and stays so until the given time.
    pub open spec fn buried(self, peer: Seq<u8>, connection: ConnectionId, until: u64) -> bool {
        &&& self.ledger.contains_key((peer, connection))
        &&& self.ledger[(peer, connection)] matches LifecycleModel::Retired { expires_at }
            && expires_at >= until
    }
}

/// Times of calls that do not go back, from one time to another.
pub open spec fn in_order(calls: Seq<(u64, BookCall)>, from: u64, to: u64) -> bool {
    &&& from <= to
    &&& forall|i: int|
        0 <= i < calls.len() ==> from <= (#[trigger] calls[i]).0 <= to && has_time(calls[i].1, calls[i].0)
    &&& forall|i: int, j: int| 0 <= i < j < calls.len() ==> (#[trigger] calls[i]).0 <= (
    #[trigger] calls[j]).0
}

/// Whatever happens to a book, a connection that it knows to be closed is known
/// to be closed until its time is over.
pub proof fn law_closed_connections_are_remembered(
    book: BookModel,
    peer: Seq<u8>,
    connection: ConnectionId,
    until: u64,
    call: BookCall,
    now: u64,
)
    requires
        book.buried(peer, connection, until),
        now < until,
        until <= now + TOMBSTONE_TTL,
        has_time(call, now),
    ensures
        book.called(call, now).buried(peer, connection, until),
{
    assert(book.swept(now).ledger.contains_key((peer, connection)));
}

proof fn lemma_buried_after_calls(
    book: BookModel,
    peer: Seq<u8>,
    connection: ConnectionId,
    closed_at: u64,
    calls: Seq<(u64, BookCall)>,
    later: u64,
)
    requires
        closed_at + TOMBSTONE_TTL <= u64::MAX,
        later < closed_at + TOMBSTONE_TTL,
        book.buried(peer, connection, (closed_at + TOMBSTONE_TTL) as u64),
        in_order(calls, closed_at, later),
    ensures
        book.after_calls(calls).buried(peer, connection, (closed_at + TOMBSTONE_TTL) as u64),
    decreases calls.len(),
{
    if calls.len() > 0 {
        let before = calls.drop_last();
        let (at, call) = calls.last();
        assert(calls[calls.len() - 1] == (at, call));
        assert(in_order(before, closed_at, at)) by {
            assert forall|i: int| 0 <= i < before.len() implies closed_at <= (#[trigger] before[i]).0 <= at
                && has_time(before[i].1, before[i].0) by {
                assert(before[i] == calls[i]);
                assert(calls[i].0 <= calls[calls.len() - 1].0);
            }
            assert forall|i: int, j: int| 0 <= i < j < before.len() implies (#[trigger] before[i]).0 <= (
            #[trigger] before[j]).0 by {
                assert(before[i] == calls[i] && before[j] == calls[j]);
            }
        }
        lemma_buried_after_calls(book, peer, connection, closed_at, before, at);
        law_closed_connections_are_remembered(
            book.after_calls(before),
            peer,
            connection,
            (closed_at + TOMBSTONE_TTL) as u64,
            call,
            at,
        );
    }
}

/// While a closed connection is remembered, nothing that still comes of it opens
/// it again, whatever else happened since: it is entered without an error and
/// without an effect, and no more connections are open than were.
pub proof fn law_closed_connections_stay_closed(
    book: BookModel,
    peer: Seq<u8>,
    connection: ConnectionId,
    calls: Seq<(u64, BookCall)>,
    endpoint: ConnectedPoint,
    now: u64,
    later: u64,
)
    requires
        now + TOMBSTONE_TTL <= u64::MAX,
        later < now + TOMBSTONE_TTL,
        in_order(calls, now, later),
    ensures
        ({
            let between = book.closed(peer, connection, now).after_calls(calls);
            let before = between.swept(later);
            let open = |key: (Seq<u8>, ConnectionId), lifecycle: LifecycleModel| lifecycle is Active;
            &&& before.refusal(peer, connection, endpoint) is None
            &&& before.entered(peer, connection, endpoint, later) == before
            &&& before.announced(peer, connection, later) == before
            &&& before.record(peer, connection) is None
            &&& count(before.ledger, open) == count(between.ledger, open)
        }),
{
    lemma_buried_after_calls(book.closed(peer, connection, now), peer, connection, now, calls, later);
    let between = book.closed(peer, connection, now).after_calls(calls);
    let before = between.swept(later);
    let open = |key: (Seq<u8>, ConnectionId), lifecycle: LifecycleModel| lifecycle is Active;
    assert(before.ledger.contains_key((peer, connection)));
    assert(kept(before.ledger, open) =~= kept(between.ledger, open));
}

/// It does not matter whether a direct connection is announced before or after
/// it is there: either way it can be used.
pub proof fn law_announcement_and_connection_commute(
    book: BookModel,
    peer: Seq<u8>,
    connection: ConnectionId,
    endpoint: ConnectedPoint,
    now: u64,
)
    requires
        now + TOMBSTONE_TTL <= u64::MAX,
        book == book.swept(now),
        !book.ledger.contains_key((peer, connection)),
        path_of(endpoint.authoritative()@) is Direct,
    ensures
        ({
            let announced_first = book.announced(peer, connection, now).swept(now).entered(
                peer,
                connection,
                endpoint,
                now,
            );
            let connected_first = book.entered(peer, connection, endpoint, now).swept(now).announced(
                peer,
                connection,
                now,
            );
            announced_first == connected_first && (announced_first.record(peer, connection)
                matches Some(record) && usable_direct(record))
        }),
{
    let announced = book.announced(peer, connection, now);
    assert(announced.swept(now).ledger =~= announced.ledger) by {
        assert forall|k: (Seq<u8>, ConnectionId)| #[trigger]
            announced.ledger.contains_key(k) implies fresh(announced.ledger[k], now) by {
            if k != (peer, connection) {
                assert(book.ledger.contains_key(k));
                assert(book.swept(now).ledger.contains_key(k));
            }
        }
    }
    let connected = book.entered(peer, connection, endpoint, now);
    assert(connected.swept(now).ledger =~= connected.ledger) by {
        assert forall|k: (Seq<u8>, ConnectionId)| #[trigger]
            connected.ledger.contains_key(k) implies fresh(connected.ledger[k], now) by {
            if k != (peer, connection) {
                assert(book.ledger.contains_key(k));
                assert(book.swept(now).ledger.contains_key(k));
            }
        }
    }
    let first = announced.swept(now).entered(peer, connection, endpoint, now);
    let second = connected.swept(now).announced(peer, connection, now);
    assert(first.ledger =~= second.ledger);
}

/// A connection that is new to a book is entered as what it is: under its peer,
/// by the side that opened it, with the address that says how it goes, and with
/// a number above all others. It can be used directly at once only if that was
/// announced.
pub proof fn law_new_connections_are_entered(
    book: BookModel,
    peer: Seq<u8>,
    connection: ConnectionId,
    endpoint: ConnectedPoint,
    now: u64,
)
    requires
        book.valid(),
        book.next_sequence < u64::MAX,
        !(book.ledger.contains_key((peer, connection)) && (book.ledger[(peer, connection)] is Active
            || book.ledger[(peer, connection)] is Retired)),
    ensures
        ({
            let after = book.entered(peer, connection, endpoint, now);
            let pending = book.ledger.contains_key((peer, connection));
            &&& after.record(peer, connection) matches Some(record) && record.peer_id == peer
                && record.connection_id == connection && record.established_at == now && !record.closing
                && record.last_ping is None && record.sequence == book.next_sequence + 1
                && record.dcutr_confirmed == pending && record.endpoint_address
                == endpoint.authoritative().raw() && record.path == path_of(endpoint.authoritative()@) && (
            record.endpoint_role == EndpointRole::Dialer <==> endpoint is Dialer)
            &&& after.next_sequence == book.next_sequence + 1
            &&& forall|other: (Seq<u8>, ConnectionId)|
                other != (peer, connection) ==> (#[trigger] after.ledger.contains_key(other)
                    == book.ledger.contains_key(other)) && (book.ledger.contains_key(other)
                    ==> after.ledger[other] == book.ledger[other])
        }),
{
}

/// A connection through a relay is refused unless that relay is the exchange
/// that is expected, and any new one is refused where there is no room. Direct
/// connections are refused for want of room alone.
pub proof fn law_connections_are_refused_for_a_reason(
    book: BookModel,
    peer: Seq<u8>,
    connection: ConnectionId,
    endpoint: ConnectedPoint,
)
    ensures
        ({
            let known = book.ledger.contains_key((peer, connection));
            let gone = known && book.ledger[(peer, connection)] is Retired;
            let open = known && book.ledger[(peer, connection)] is Active;
            let astray = endpoint.relayed() && relay_of(endpoint.authoritative()@) != Some(
                book.expected_exchange,
            );
            let refusal = book.refusal(peer, connection, endpoint);
            &&& gone ==> refusal is None
            &&& !gone && astray ==> refusal == Some(ConnectionBookError::WrongExchange)
            &&& open && !astray ==> refusal is None
            &&& !known && !astray && book.ledger.len() >= 512 ==> refusal == Some(
                ConnectionBookError::Capacity,
            )
            &&& !gone && !open && !astray && (known || book.ledger.len() < 512) && book.next_sequence
                < u64::MAX ==> refusal is None
            &&& refusal == Some(ConnectionBookError::WrongExchange) ==> endpoint.relayed()
        }),
{
}

/// A connection goes through a relay if the dialed address says so, or for one
/// that was accepted the address it was accepted on; and that address is then
/// the one that counts.
pub proof fn law_relayed_connections_are_known_by_their_address(endpoint: ConnectedPoint)
    ensures
        endpoint matches ConnectedPoint::Dialer { address } ==> endpoint.authoritative() == address && (
        endpoint.relayed() <==> has_circuit(address@)),
        endpoint matches ConnectedPoint::Listener { local_addr, send_back_addr } ==> (endpoint.relayed()
            <==> has_circuit(local_addr@)) && endpoint.authoritative() == if has_circuit(local_addr@) {
            local_addr
        } else {
            send_back_addr
        },
        endpoint is Dialer <==> endpoint.role() == EndpointRole::Dialer,
        endpoint is Listener <==> endpoint.role() == EndpointRole::Listener,
{
}

/// An address with a circuit goes through the peer before it; one without goes
/// directly, over QUIC if it names that, else over TCP if it names that.
pub proof fn law_paths_are_read_off_addresses(parts: Seq<PartModel>)
    ensures
        has_circuit(parts) && relay_of(parts) is Some ==> path_of(parts) == (PathModel::Relay {
            exchange_peer_id: relay_of(parts)->Some_0,
        }),
        has_circuit(parts) && relay_of(parts) is None ==> path_of(parts) == PathModel::UnknownDirect,
        !has_circuit(parts) ==> path_of(parts) is Direct,
        !has_circuit(parts) && has_quic(parts) ==> path_of(parts) == PathModel::Direct(TransportKind::Quic),
        !has_circuit(parts) && !has_quic(parts) && has_tcp(parts) ==> path_of(parts) == PathModel::Direct(
            TransportKind::Tcp,
        ),
        !has_circuit(parts) && !has_quic(parts) && !has_tcp(parts) ==> path_of(parts) == PathModel::Direct(
            TransportKind::Unknown,
        ),
{
}

/// What is open and goes through no relay can be used directly once it was
/// announced; what goes through a relay cannot, announced or not.
pub proof fn law_announced_connections_can_be_used(
    book: BookModel,
    peer: Seq<u8>,
    connection: ConnectionId,
    now: u64,
)
    requires
        now + TOMBSTONE_TTL <= u64::MAX,
    ensures
        ({
            let after = book.announced(peer, connection, now);
            &&& book.record(peer, connection) matches Some(record) ==> {
                &&& record.path is Direct ==> after.record(peer, connection) == Some(
                    RecordModel { dcutr_confirmed: true, ..record },
                )
                &&& !(record.path is Direct) ==> after == book
            }
            &&& !book.ledger.contains_key((peer, connection)) ==> (after.ledger.contains_key(
                (peer, connection),
            ) && (after.ledger[(peer, connection)] matches LifecycleModel::PendingDcutr { expires_at }
                && expires_at == now + 20_000_000_000))
            &&& book.ledger.contains_key((peer, connection)) && book.record(peer, connection) is None
                ==> after == book
        }),
        forall|record: RecordModel| #[trigger]
            usable_direct(record) <==> record.path is Direct && record.dcutr_confirmed && !record.closing,
{
}

/// Of the direct connections that can be used, one over QUIC is preferred to one
/// over TCP, and that to any other; of two over the same, the older one.
pub proof fn law_quic_is_preferred_then_age(a: RecordModel, b: RecordModel)
    ensures
        a.path == PathModel::Direct(TransportKind::Quic) && b.path == PathModel::Direct(TransportKind::Tcp)
            ==> preferred(a, b) && !preferred(b, a),
        a.path == PathModel::Direct(TransportKind::Tcp) && b.path == PathModel::Direct(
            TransportKind::Unknown,
        ) ==> preferred(a, b) && !preferred(b, a),
        a.path == PathModel::Direct(TransportKind::Quic) && b.path == PathModel::Direct(
            TransportKind::Unknown,
        ) ==> preferred(a, b) && !preferred(b, a),
        a.path == b.path && a.sequence < b.sequence ==> preferred(a, b) && !preferred(b, a),
        preferred(a, b) || preferred(b, a),
{
}

/// The direct connection that is handed out is one that can be used, to the peer
/// that was asked for, and none that can be used is preferred to it; none is
/// handed out only if there is none.
pub proof fn law_the_preferred_connection_is_handed_out(
    book: BookModel,
    peer: Seq<u8>,
    best: Option<RecordModel>,
    other: RecordModel,
)
    requires
        book.hands_out(peer, best),
    ensures
        best matches Some(used) ==> used.peer_id == peer && used.path is Direct && used.dcutr_confirmed
            && !used.closing && book.record(peer, used.connection_id) == Some(used),
        book.record(peer, other.connection_id) == Some(other) && other.peer_id == peer && other.path is Direct
            && other.dcutr_confirmed && !other.closing ==> {
            &&& best matches Some(used) && (used.path == other.path ==> used.sequence <= other.sequence)
            &&& other.path == PathModel::Direct(TransportKind::Quic) ==> best->Some_0.path == other.path
            &&& other.path == PathModel::Direct(TransportKind::Tcp) ==> best->Some_0.path
                != PathModel::Direct(TransportKind::Unknown)
        },
{
    assert(book.record(peer, other.connection_id) == Some(other) && other.peer_id == peer && other.path
        is Direct && other.dcutr_confirmed && !other.closing ==> book.offers(peer, other));
}

/// A connection that closed is not open any more and is remembered for twenty
/// seconds; a ping is noted on the connection that is open and on no other.
pub proof fn law_closed_connections_are_not_open(
    book: BookModel,
    peer: Seq<u8>,
    connection: ConnectionId,
    now: u64,
    later: u64,
)
    requires
        now + TOMBSTONE_TTL <= u64::MAX,
    ensures
        ({
            let closed = book.closed(peer, connection, now);
            &&& closed.record(peer, connection) is None
            &&& closed.swept(later).ledger.contains_key((peer, connection)) <==> later < now
                + 20_000_000_000
            &&& book.record(peer, connection) matches Some(record) ==> book.pinged(
                peer,
                connection,
                now,
            ).record(peer, connection) == Some(RecordModel { last_ping: Some(now), ..record })
            &&& book.record(peer, connection) is None ==> book.pinged(peer, connection, now) == book
        }),
{
}

/// A sweep forgets closed connections and announcements whose time is over, and
/// never an open connection.
pub proof fn law_sweeps_spare_open_connections(
    book: BookModel,
    peer: Seq<u8>,
    connection: ConnectionId,
    now: u64,
)
    requires
        book.ledger.contains_key((peer, connection)),
    ensures
        ({
            let stays = book.swept(now).ledger.contains_key((peer, connection));
            &&& book.record(peer, connection) is Some ==> stays && book.swept(now).record(peer, connection)
                == book.record(peer, connection)
            &&& book.ledger[(peer, connection)] matches LifecycleModel::Retired { expires_at } ==> (stays
                <==> now < expires_at)
            &&& book.ledger[(peer, connection)] matches LifecycleModel::PendingDcutr { expires_at } ==> (
            stays <==> now < expires_at)
        }),
{
}

/// A connection that is open already stays what it is when it is reported again.
pub proof fn law_open_connections_stay_open(
    book: BookModel,
    peer: Seq<u8>,
    connection: ConnectionId,
    endpoint: ConnectedPoint,
    now: u64,
)
    requires
        book.record(peer, connection) is Some,
    ensures
        book.entered(peer, connection, endpoint, now).record(peer, connection) == Some(
            RecordModel { closing: false, ..book.record(peer, connection)->Some_0 },
        ),
        book.entered(peer, connection, endpoint, now).next_sequence == book.next_sequence,
{
}

/// A full book takes no new connection, closed or announced, and says so without a
/// change; one that it knows it always takes.
pub proof fn law_full_books_say_so(
    a: &mut ConnectionBook,
    peer_id: PeerId,
    connection_id: ConnectionId,
    now: u64,
    closed: Result<(), ConnectionBookError>,
    b: &mut ConnectionBook,
    announced: Result<(), ConnectionBookError>,
)
    requires
        call_ensures(ConnectionBook::on_connection_closed, (a, &peer_id, connection_id, now), closed),
        call_ensures(ConnectionBook::on_dcutr_succeeded, (b, &peer_id, connection_id, now), announced),
        now + TOMBSTONE_TTL <= u64::MAX,
    ensures
        ({
            let known = old(a)@.ledger.contains_key((peer_id@, connection_id));
            &&& closed is Ok <==> known || old(a)@.ledger.len() < MAX_CONNECTION_LIFECYCLES
            &&& closed is Err ==> closed->Err_0 == ConnectionBookError::Capacity && final(a)@ == old(a)@
            &&& closed is Ok ==> final(a)@.record(peer_id@, connection_id) is None
                && final(a)@.ledger.contains_key((peer_id@, connection_id)) && final(a)@.ledger[(peer_id@, connection_id)] is Retired
        }),
        announced is Err ==> announced->Err_0 == ConnectionBookError::Capacity && !final(b)@.ledger.contains_key((peer_id@, connection_id)),
        announced is Ok ==> final(b)@.ledger.contains_key((peer_id@, connection_id)),
{
}

/// A ping is noted with the connection it came over, and changes nothing else of
/// it.
pub proof fn law_pings_are_noted(
    book: &mut ConnectionBook,
    peer_id: PeerId,
    connection_id: ConnectionId,
    now: u64,
    r: (),
)
    requires
        call_ensures(ConnectionBook::mark_ping, (book, &peer_id, connection_id, now), r),
    ensures
        old(book)@.record(peer_id@, connection_id) matches Some(record) ==> {
            let after = final(book)@.record(peer_id@, connection_id);
            &&& after is Some
            &&& after->0.last_ping == Some(now)
            &&& after->0.path == record.path && after->0.sequence == record.sequence && after->0.closing
                == record.closing && after->0.dcutr_confirmed == record.dcutr_confirmed
        },
        old(book)@.record(peer_id@, connection_id) is None ==> final(book)@ == old(book)@,
{
}

} // verus!
