//! Peers of the network.
use crate::bytes::same_bytes;
use crate::table::Key;
use vstd::prelude::*;

verus! {

/// Whether `libp2p_identity::PeerId::from_bytes` accepts a byte string.
pub uninterp spec fn peer_id_bytes(bytes: Seq<u8>) -> bool;

/// The bytes of the peer that `libp2p_identity::PeerId` reads out of a text,
/// if it accepts the text.
pub uninterp spec fn peer_id_of_text(text: Seq<char>) -> Option<Seq<u8>>;

/// Calls `libp2p_identity::PeerId::from_bytes`, whose verdict depends on the
/// bytes alone.
#[verifier::external_body]
pub(crate) fn is_peer_id(bytes: &[u8]) -> (r: bool)
    ensures
        r == peer_id_bytes(bytes@),
{
    libp2p_identity::PeerId::from_bytes(bytes).is_ok()
}

/// Calls `str::parse` for `libp2p_identity::PeerId` and hands out the peer's
/// bytes. The result depends on the text alone, and the bytes of a peer are
/// bytes that `from_bytes` accepts.
#[verifier::external_body]
pub(crate) fn parse_peer_id(text: &str) -> (r: Option<Vec<u8>>)
    ensures
        match r {
            Some(bytes) => peer_id_of_text(text@) == Some(bytes@) && peer_id_bytes(bytes@),
            None => peer_id_of_text(text@) is None,
        },
{
    text.parse::<libp2p_identity::PeerId>().ok().map(|peer| peer.to_bytes())
}

/// The bytes or the text name no peer.
#[derive(Clone, Copy, Debug, PartialEq, Eq, Structural)]
pub struct InvalidPeerId;

/// A peer of the network, known by its identity bytes.
#[derive(Debug, PartialEq, Eq, Hash)]
pub struct PeerId {
    bytes: Vec<u8>,
}

impl View for PeerId {
    type V = Seq<u8>;

    closed spec fn view(&self) -> Seq<u8> {
        self.bytes@
    }
}

impl PeerId {
    #[verifier::type_invariant]
    pub open spec fn valid(self) -> bool {
        peer_id_bytes(self@)
    }

    /// The peer with the given identity bytes.
    pub fn from_bytes(bytes: &[u8]) -> (r: Result<PeerId, InvalidPeerId>)
        ensures
            match r {
                Ok(peer) => peer_id_bytes(bytes@) && peer@ == bytes@,
                Err(_) => !peer_id_bytes(bytes@),
            },
    {
        if is_peer_id(bytes) {
            Ok(PeerId { bytes: vstd::slice::slice_to_vec(bytes) })
        } else {
            Err(InvalidPeerId)
        }
    }

    /// The peer that a text names.
    pub fn from_text(text: &str) -> (r: Result<PeerId, InvalidPeerId>)
        ensures
            match r {
                Ok(peer) => peer_id_of_text(text@) == Some(peer@),
                Err(_) => peer_id_of_text(text@) is None,
            },
    {
        match parse_peer_id(text) {
            Some(bytes) => Ok(PeerId { bytes }),
            None => Err(InvalidPeerId),
        }
    }

    pub fn as_bytes(&self) -> (r: &[u8])
        ensures
            r@ == self@,
    {
        self.bytes.as_slice()
    }

    /// Whether two peers are the same.
    pub fn same(&self, other: &Self) -> (r: bool)
        ensures
            r == (self@ == other@),
    {
        same_bytes(self.bytes.as_slice(), other.bytes.as_slice())
    }
}

impl Clone for PeerId {
    fn clone(&self) -> (r: Self)
        ensures
            r@ == self@,
    {
        proof {
            use_type_invariant(self);
        }
        let bytes = vstd::slice::slice_to_vec(self.bytes.as_slice());
        PeerId { bytes }
    }
}

impl Key for PeerId {
    fn same(&self, other: &Self) -> (r: bool) {
        same_bytes(self.bytes.as_slice(), other.bytes.as_slice())
    }
}

/// A connection, as the swarm numbers it.
#[derive(Clone, Copy, Debug, PartialEq, Eq, Hash, Structural)]
pub struct ConnectionId(pub u64);

impl View for ConnectionId {
    type V = ConnectionId;

    open spec fn view(&self) -> ConnectionId {
        *self
    }
}

impl Key for ConnectionId {
    fn same(&self, other: &Self) -> (r: bool) {
        *self == *other
    }
}

/// A listener, as the swarm numbers it.
#[derive(Clone, Copy, Debug, PartialEq, Eq, Hash, Structural)]
pub struct ListenerId(pub u64);

/// A connection of a peer.
#[derive(Debug, PartialEq, Eq)]
pub struct ConnectionKey {
    pub peer_id: PeerId,
    pub connection_id: ConnectionId,
}

impl View for ConnectionKey {
    type V = (Seq<u8>, ConnectionId);

    open spec fn view(&self) -> (Seq<u8>, ConnectionId) {
        (self.peer_id@, self.connection_id)
    }
}

impl Key for ConnectionKey {
    fn same(&self, other: &Self) -> (r: bool) {
        self.connection_id == other.connection_id && self.peer_id.same(&other.peer_id)
    }
}

impl ConnectionKey {
    /// The key of a connection of a peer.
    pub fn of(peer_id: &PeerId, connection_id: ConnectionId) -> (r: Self)
        ensures
            r@ == (peer_id@, connection_id),
    {
        ConnectionKey { peer_id: peer_id.clone(), connection_id }
    }
}

/// A peer is known by its bytes: the same bytes give the same peer, and what is
/// read out of a text is that peer.
pub proof fn law_peers_are_known_by_their_bytes(
    bytes: &[u8],
    read: Result<PeerId, InvalidPeerId>,
    text: &str,
    named: Result<PeerId, InvalidPeerId>,
)
    requires
        call_ensures(PeerId::from_bytes, (bytes,), read),
        call_ensures(PeerId::from_text, (text,), named),
    ensures
        read is Ok <==> peer_id_bytes(bytes@),
        read is Ok ==> read->Ok_0@ == bytes@,
        named is Ok <==> peer_id_of_text(text@) is Some,
        named is Ok ==> named->Ok_0@ == peer_id_of_text(text@)->0,
        read is Ok && named is Ok && peer_id_of_text(text@) == Some(bytes@) ==> read->Ok_0@ == named->Ok_0@,
{
}

} // verus!
