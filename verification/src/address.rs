//! Network addresses, as far as the logic looks into them.
use crate::peer::peer_id_bytes;
use vstd::prelude::*;

verus! {

/// One part of an address.
#[derive(Debug, PartialEq, Eq)]
pub enum AddressPart {
    Ip4([u8; 4]),
    Ip6([u8; 16]),
    Tcp(u16),
    Udp(u16),
    QuicV1,
    /// A peer, by its identity bytes.
    P2p(Vec<u8>),
    P2pCircuit,
    /// A part of a kind that is not looked at.
    Other,
}

/// What a part of an address says.
#[verifier::ext_equal]
pub enum PartModel {
    Ip4([u8; 4]),
    Ip6([u8; 16]),
    Tcp(u16),
    Udp(u16),
    QuicV1,
    P2p(Seq<u8>),
    P2pCircuit,
    Other,
}

impl View for AddressPart {
    type V = PartModel;

    open spec fn view(&self) -> PartModel {
        match *self {
            AddressPart::Ip4(ip) => PartModel::Ip4(ip),
            AddressPart::Ip6(ip) => PartModel::Ip6(ip),
            AddressPart::Tcp(port) => PartModel::Tcp(port),
            AddressPart::Udp(port) => PartModel::Udp(port),
            AddressPart::QuicV1 => PartModel::QuicV1,
            AddressPart::P2p(peer) => PartModel::P2p(peer@),
            AddressPart::P2pCircuit => PartModel::P2pCircuit,
            AddressPart::Other => PartModel::Other,
        }
    }
}

impl Clone for AddressPart {
    fn clone(&self) -> (r: Self)
        ensures
            r@ == self@,
    {
        match self {
            AddressPart::Ip4(ip) => AddressPart::Ip4(*ip),
            AddressPart::Ip6(ip) => AddressPart::Ip6(*ip),
            AddressPart::Tcp(port) => AddressPart::Tcp(*port),
            AddressPart::Udp(port) => AddressPart::Udp(*port),
            AddressPart::QuicV1 => AddressPart::QuicV1,
            AddressPart::P2p(peer) => AddressPart::P2p(vstd::slice::slice_to_vec(peer.as_slice())),
            AddressPart::P2pCircuit => AddressPart::P2pCircuit,
            AddressPart::Other => AddressPart::Other,
        }
    }
}

/// What the parts of a list say.
pub open spec fn part_models(parts: Seq<AddressPart>) -> Seq<PartModel> {
    Seq::new(parts.len(), |i: int| parts[i]@)
}

/// The parts that the `multiaddr` crate finds in the binary form of an address,
/// if it accepts the bytes.
pub uninterp spec fn address_parts(bytes: Seq<u8>) -> Option<Seq<PartModel>>;

/// The binary form of the address that the `multiaddr` crate reads out of a
/// text, if it accepts the text.
pub uninterp spec fn address_bytes(text: Seq<char>) -> Option<Seq<u8>>;

/// Calls `Multiaddr::try_from` on bytes and walks the address with
/// `Multiaddr::iter`. The parts depend on the bytes alone, and the peers among
/// them are peers that `libp2p_identity` accepts.
#[verifier::external_body]
fn parts_of_bytes(bytes: &[u8]) -> (r: Option<Vec<AddressPart>>)
    ensures
        match r {
            Some(parts) => address_parts(bytes@) == Some(part_models(parts@)) && peers_are_valid(
                part_models(parts@),
            ),
            None => address_parts(bytes@) is None,
        },
{
    let address = multiaddr::Multiaddr::try_from(bytes.to_vec()).ok()?;
    Some(address.iter().map(|part| match part {
        multiaddr::Protocol::Ip4(ip) => AddressPart::Ip4(ip.octets()),
        multiaddr::Protocol::Ip6(ip) => AddressPart::Ip6(ip.octets()),
        multiaddr::Protocol::Tcp(port) => AddressPart::Tcp(port),
        multiaddr::Protocol::Udp(port) => AddressPart::Udp(port),
        multiaddr::Protocol::QuicV1 => AddressPart::QuicV1,
        multiaddr::Protocol::P2p(peer) => AddressPart::P2p(peer.to_bytes()),
        multiaddr::Protocol::P2pCircuit => AddressPart::P2pCircuit,
        _ => AddressPart::Other,
    }).collect())
}

/// Calls `str::parse` for `Multiaddr` and hands out the binary form, which
/// depends on the text alone.
#[verifier::external_body]
fn bytes_of_text(text: &str) -> (r: Option<Vec<u8>>)
    ensures
        match r {
            Some(bytes) => address_bytes(text@) == Some(bytes@),
            None => address_bytes(text@) is None,
        },
{
    text.parse::<multiaddr::Multiaddr>().ok().map(|address| address.to_vec())
}

/// Whether the peers in an address are peers.
pub open spec fn peers_are_valid(parts: Seq<PartModel>) -> bool {
    forall|i: int| 0 <= i < parts.len() ==> (#[trigger] parts[i] matches PartModel::P2p(peer) ==> peer_id_bytes(peer))
}

/// A network address: its binary form, and the parts of which it is made.
#[derive(Debug, PartialEq, Eq)]
pub struct Address {
    bytes: Vec<u8>,
    parts: Vec<AddressPart>,
}

impl View for Address {
    type V = Seq<PartModel>;

    closed spec fn view(&self) -> Seq<PartModel> {
        part_models(self.parts@)
    }
}

/// The parts of the address that a text stands for.
pub open spec fn address_of_text(text: Seq<char>) -> Option<Seq<PartModel>> {
    match address_bytes(text) {
        Some(bytes) => address_parts(bytes),
        None => None,
    }
}

/// Whether an address goes through a relay.
pub open spec fn has_circuit(parts: Seq<PartModel>) -> bool {
    exists|i: int| 0 <= i < parts.len() && #[trigger] parts[i] == PartModel::P2pCircuit
}

/// Whether an address has a TCP part.
pub open spec fn has_tcp(parts: Seq<PartModel>) -> bool {
    exists|i: int| 0 <= i < parts.len() && #[trigger] parts[i] is Tcp
}

/// Whether an address has a UDP part.
pub open spec fn has_udp(parts: Seq<PartModel>) -> bool {
    exists|i: int| 0 <= i < parts.len() && #[trigger] parts[i] is Udp
}

/// Whether an address has a QUIC part.
pub open spec fn has_quic(parts: Seq<PartModel>) -> bool {
    exists|i: int| 0 <= i < parts.len() && #[trigger] parts[i] is QuicV1
}

/// Which kind of part to look for.
#[derive(Clone, Copy, PartialEq, Eq, Structural)]
enum Wanted {
    Circuit,
    Tcp,
    Udp,
    Quic,
}

/// Whether a part is of the kind that is looked for.
spec fn is_wanted(part: PartModel, wanted: Wanted) -> bool {
    match wanted {
        Wanted::Circuit => part is P2pCircuit,
        Wanted::Tcp => part is Tcp,
        Wanted::Udp => part is Udp,
        Wanted::Quic => part is QuicV1,
    }
}

/// The last peer before place `n`.
pub open spec fn last_peer_before(parts: Seq<PartModel>, n: int) -> Option<Seq<u8>>
    decreases n,
{
    if n <= 0 {
        None
    } else {
        match parts[n - 1] {
            PartModel::P2p(peer) => Some(peer),
            _ => last_peer_before(parts, n - 1),
        }
    }
}

/// The place of the first circuit, if there is one.
pub open spec fn first_circuit(parts: Seq<PartModel>) -> Option<int> {
    if has_circuit(parts) {
        Some(
            choose|i: int|
                0 <= i < parts.len() && parts[i] == PartModel::P2pCircuit && forall|j: int|
                    0 <= j < i ==> parts[j] != PartModel::P2pCircuit,
        )
    } else {
        None
    }
}

/// The relay of an address: the last peer before the first circuit.
pub open spec fn relay_of(parts: Seq<PartModel>) -> Option<Seq<u8>> {
    match first_circuit(parts) {
        Some(i) => last_peer_before(parts, i),
        None => None,
    }
}

/// The first circuit stands where the search for it says.
pub proof fn lemma_first_circuit(parts: Seq<PartModel>, i: int)
    requires
        0 <= i < parts.len(),
        parts[i] == PartModel::P2pCircuit,
        forall|j: int| 0 <= j < i ==> parts[j] != PartModel::P2pCircuit,
    ensures
        first_circuit(parts) == Some(i),
{
    let k = first_circuit(parts)->0;
    assert(0 <= k < parts.len() && parts[k] == PartModel::P2pCircuit && forall|j: int|
        0 <= j < k ==> parts[j] != PartModel::P2pCircuit);
}

/// The first IP address in an address.
#[derive(Clone, Copy, Debug, PartialEq, Eq)]
pub enum IpAddress {
    V4([u8; 4]),
    V6([u8; 16]),
}

/// Whether an IP address is a loopback address: 127.0.0.0/8 or ::1.
pub open spec fn loopback(ip: IpAddress) -> bool {
    match ip {
        IpAddress::V4(b) => b@[0] == 127,
        IpAddress::V6(b) => b@[15] == 1 && forall|i: int| 0 <= i < 15 ==> b@[i] == 0,
    }
}

/// The IP address at place `i`, if there is one.
pub open spec fn ip_part(part: PartModel) -> Option<IpAddress> {
    match part {
        PartModel::Ip4(b) => Some(IpAddress::V4(b)),
        PartModel::Ip6(b) => Some(IpAddress::V6(b)),
        _ => None,
    }
}

/// The first IP address at or after place `n`.
pub open spec fn first_ip_from(parts: Seq<PartModel>, n: int) -> Option<IpAddress>
    decreases parts.len() - n,
{
    if n < 0 || n >= parts.len() {
        None
    } else if ip_part(parts[n]) is Some {
        ip_part(parts[n])
    } else {
        first_ip_from(parts, n + 1)
    }
}

/// The first peer at or after place `n`.
pub open spec fn first_peer_from(parts: Seq<PartModel>, n: int) -> Option<Seq<u8>>
    decreases parts.len() - n,
{
    if n < 0 || n >= parts.len() {
        None
    } else {
        match parts[n] {
            PartModel::P2p(peer) => Some(peer),
            _ => first_peer_from(parts, n + 1),
        }
    }
}

impl IpAddress {
    pub fn is_loopback(&self) -> (r: bool)
        ensures
            r == loopback(*self),
    {
        match self {
            IpAddress::V4(b) => b[0] == 127,
            IpAddress::V6(b) => {
                let mut i: usize = 0;
                while i < 15
                    invariant
                        i <= 15,
                        *self == IpAddress::V6(*b),
                        forall|j: int| 0 <= j < i ==> b@[j] == 0,
                    decreases 15 - i,
                {
                    if b[i] != 0 {
                        assert(b@[i as int] != 0);
                        return false;
                    }
                    i = i + 1;
                }
                b[15] == 1
            },
        }
    }
}

impl Address {
    #[verifier::type_invariant]
    pub open spec fn valid(self) -> bool {
        peers_are_valid(self@) && address_parts(self.raw()) == Some(self@)
    }

    /// The binary form.
    pub closed spec fn raw(self) -> Seq<u8> {
        self.bytes@
    }

    /// The address with the given binary form.
    pub fn from_bytes(bytes: &[u8]) -> (r: Option<Address>)
        ensures
            match r {
                Some(address) => address_parts(bytes@) == Some(address@) && address.raw() == bytes@,
                None => address_parts(bytes@) is None,
            },
    {
        match parts_of_bytes(bytes) {
            Some(parts) => Some(Address { bytes: vstd::slice::slice_to_vec(bytes), parts }),
            None => None,
        }
    }

    /// The address that a text stands for.
    pub fn parse(text: &str) -> (r: Option<Address>)
        ensures
            match r {
                Some(address) => address_of_text(text@) == Some(address@) && address_bytes(text@) == Some(
                    address.raw(),
                ),
                None => address_of_text(text@) is None,
            },
    {
        match bytes_of_text(text) {
            Some(bytes) => Address::from_bytes(bytes.as_slice()),
            None => None,
        }
    }

    /// The binary form.
    pub fn as_bytes(&self) -> (r: &[u8])
        ensures
            r@ == self.raw(),
    {
        self.bytes.as_slice()
    }

    /// Whether two addresses are the same.
    pub fn same(&self, other: &Self) -> (r: bool)
        ensures
            r == (self.raw() == other.raw()),
    {
        crate::bytes::same_bytes(self.bytes.as_slice(), other.bytes.as_slice())
    }

    pub fn len(&self) -> (r: usize)
        ensures
            r == self@.len(),
    {
        self.parts.len()
    }

    /// The part at place `i`.
    pub fn part(&self, i: usize) -> (r: &AddressPart)
        requires
            i < self@.len(),
        ensures
            r@ == self@[i as int],
    {
        &self.parts[i]
    }

    fn has(&self, wanted: Wanted) -> (r: bool)
        ensures
            r == exists|i: int| 0 <= i < self@.len() && is_wanted(#[trigger] self@[i], wanted),
    {
        let mut i: usize = 0;
        while i < self.parts.len()
            invariant
                i <= self.parts@.len(),
                forall|j: int| 0 <= j < i ==> !is_wanted(#[trigger] self@[j], wanted),
            decreases self.parts@.len() - i,
        {
            let part = &self.parts[i];
            assert(part@ == self@[i as int]);
            let found = match (wanted, part) {
                (Wanted::Circuit, AddressPart::P2pCircuit) => true,
                (Wanted::Tcp, AddressPart::Tcp(_)) => true,
                (Wanted::Udp, AddressPart::Udp(_)) => true,
                (Wanted::Quic, AddressPart::QuicV1) => true,
                _ => false,
            };
            if found {
                assert(is_wanted(self@[i as int], wanted));
                return true;
            }
            i = i + 1;
        }
        false
    }

    /// Whether the address goes through a relay.
    pub fn is_circuit(&self) -> (r: bool)
        ensures
            r == has_circuit(self@),
    {
        let r = self.has(Wanted::Circuit);
        proof {
            if r {
                let i = choose|i: int| 0 <= i < self@.len() && is_wanted(#[trigger] self@[i], Wanted::Circuit);
                assert(self@[i] == PartModel::P2pCircuit);
            }
        }
        r
    }

    pub fn is_tcp(&self) -> (r: bool)
        ensures
            r == has_tcp(self@),
    {
        let r = self.has(Wanted::Tcp);
        proof {
            if r {
                let i = choose|i: int| 0 <= i < self@.len() && is_wanted(#[trigger] self@[i], Wanted::Tcp);
                assert(self@[i] is Tcp);
            }
        }
        r
    }

    pub fn is_udp(&self) -> (r: bool)
        ensures
            r == has_udp(self@),
    {
        let r = self.has(Wanted::Udp);
        proof {
            if r {
                let i = choose|i: int| 0 <= i < self@.len() && is_wanted(#[trigger] self@[i], Wanted::Udp);
                assert(self@[i] is Udp);
            }
        }
        r
    }

    pub fn is_quic(&self) -> (r: bool)
        ensures
            r == has_quic(self@),
    {
        let r = self.has(Wanted::Quic);
        proof {
            if r {
                let i = choose|i: int| 0 <= i < self@.len() && is_wanted(#[trigger] self@[i], Wanted::Quic);
                assert(self@[i] is QuicV1);
            }
        }
        r
    }

    /// The relay of the address: the last peer before the first circuit.
    pub fn relay_peer(&self) -> (r: Option<crate::peer::PeerId>)
        ensures
            match r {
                Some(peer) => relay_of(self@) == Some(peer@),
                None => relay_of(self@) is None,
            },
    {
        proof {
            use_type_invariant(self);
        }
        let mut relay: Option<crate::peer::PeerId> = None;
        let mut i: usize = 0;
        while i < self.parts.len()
            invariant
                i <= self.parts@.len(),
                peers_are_valid(self@),
                forall|j: int| 0 <= j < i ==> self@[j] != PartModel::P2pCircuit,
                match relay {
                    Some(peer) => last_peer_before(self@, i as int) == Some(peer@),
                    None => last_peer_before(self@, i as int) is None,
                },
            decreases self.parts@.len() - i,
        {
            let part = &self.parts[i];
            assert(part@ == self@[i as int]);
            match part {
                AddressPart::P2p(peer) => {
                    match crate::peer::PeerId::from_bytes(peer.as_slice()) {
                        Ok(peer) => {
                            relay = Some(peer);
                        },
                        Err(_) => {
                            assert(false);
                        },
                    }
                },
                AddressPart::P2pCircuit => {
                    proof {
                        lemma_first_circuit(self@, i as int);
                    }
                    return relay;
                },
                _ => {},
            }
            i = i + 1;
        }
        None
    }

    /// The first peer that the address names.
    pub fn named_peer(&self) -> (r: Option<crate::peer::PeerId>)
        ensures
            match r {
                Some(peer) => first_peer_from(self@, 0) == Some(peer@),
                None => first_peer_from(self@, 0) is None,
            },
    {
        proof {
            use_type_invariant(self);
        }
        let mut i: usize = 0;
        while i < self.parts.len()
            invariant
                i <= self.parts@.len(),
                peers_are_valid(self@),
                first_peer_from(self@, 0) == first_peer_from(self@, i as int),
            decreases self.parts@.len() - i,
        {
            let part = &self.parts[i];
            assert(part@ == self@[i as int]);
            if let AddressPart::P2p(peer) = part {
                match crate::peer::PeerId::from_bytes(peer.as_slice()) {
                    Ok(peer) => return Some(peer),
                    Err(_) => {
                        assert(false);
                    },
                }
            }
            i = i + 1;
        }
        None
    }

    /// The first IP address in the address.
    pub fn ip(&self) -> (r: Option<IpAddress>)
        ensures
            r == first_ip_from(self@, 0),
    {
        let mut i: usize = 0;
        while i < self.parts.len()
            invariant
                i <= self.parts@.len(),
                first_ip_from(self@, 0) == first_ip_from(self@, i as int),
            decreases self.parts@.len() - i,
        {
            let part = &self.parts[i];
            assert(part@ == self@[i as int]);
            match part {
                AddressPart::Ip4(b) => return Some(IpAddress::V4(*b)),
                AddressPart::Ip6(b) => return Some(IpAddress::V6(*b)),
                _ => {},
            }
            i = i + 1;
        }
        None
    }
}

impl Clone for Address {
    fn clone(&self) -> (r: Self)
        ensures
            r@ == self@,
            r.raw() == self.raw(),
    {
        proof {
            use_type_invariant(self);
        }
        let mut parts: Vec<AddressPart> = Vec::new();
        let mut i: usize = 0;
        while i < self.parts.len()
            invariant
                i <= self.parts@.len(),
                parts@.len() == i,
                forall|j: int| 0 <= j < i ==> (#[trigger] parts@[j])@ == self.parts@[j]@,
            decreases self.parts@.len() - i,
        {
            let part = self.parts[i].clone();
            parts.push(part);
            i = i + 1;
        }
        assert(part_models(parts@) =~= part_models(self.parts@));
        Address { bytes: vstd::slice::slice_to_vec(self.bytes.as_slice()), parts }
    }
}

proof fn lemma_last_peer(parts: Seq<PartModel>, n: int)
    requires
        n <= parts.len(),
    ensures
        match last_peer_before(parts, n) {
            Some(peer) => exists|i: int|
                0 <= i < n && #[trigger] parts[i] == PartModel::P2p(peer) && forall|j: int|
                    i < j < n ==> !((#[trigger] parts[j]) is P2p),
            None => forall|i: int| 0 <= i < n ==> !((#[trigger] parts[i]) is P2p),
        },
    decreases n,
{
    if n > 0 {
        lemma_last_peer(parts, n - 1);
        if let PartModel::P2p(peer) = parts[n - 1] {
            assert(parts[n - 1] == PartModel::P2p(peer));
        }
    }
}

proof fn lemma_there_is_a_first_circuit(parts: Seq<PartModel>, i: int)
    requires
        0 <= i < parts.len(),
        parts[i] == PartModel::P2pCircuit,
    ensures
        exists|k: int|
            0 <= k <= i && #[trigger] parts[k] == PartModel::P2pCircuit && forall|j: int|
                0 <= j < k ==> parts[j] != PartModel::P2pCircuit,
    decreases i,
{
    if exists|j: int| 0 <= j < i && parts[j] == PartModel::P2pCircuit {
        let j = choose|j: int| 0 <= j < i && parts[j] == PartModel::P2pCircuit;
        lemma_there_is_a_first_circuit(parts, j);
    }
}

/// The relay of an address stands before its first circuit, and no other peer
/// stands between the two; an address without a circuit has no relay.
pub proof fn law_relays_stand_before_their_circuit(parts: Seq<PartModel>, k: int)
    requires
        0 <= k < parts.len(),
        parts[k] == PartModel::P2pCircuit,
        forall|j: int| 0 <= j < k ==> parts[j] != PartModel::P2pCircuit,
    ensures
        match relay_of(parts) {
            Some(peer) => exists|i: int|
                0 <= i < k && #[trigger] parts[i] == PartModel::P2p(peer) && forall|j: int|
                    i < j < k ==> !((#[trigger] parts[j]) is P2p),
            None => forall|i: int| 0 <= i < k ==> !((#[trigger] parts[i]) is P2p),
        },
{
    lemma_first_circuit(parts, k);
    lemma_last_peer(parts, k);
}

/// Without a circuit there is no relay, and an address has the parts that it is
/// said to have.
pub proof fn law_addresses_are_known_by_their_parts(parts: Seq<PartModel>)
    ensures
        (forall|i: int| 0 <= i < parts.len() ==> #[trigger] parts[i] != PartModel::P2pCircuit)
            ==> !has_circuit(parts) && relay_of(parts) is None,
        (exists|i: int| 0 <= i < parts.len() && #[trigger] parts[i] == PartModel::P2pCircuit)
            ==> has_circuit(parts),
        (exists|i: int| 0 <= i < parts.len() && #[trigger] parts[i] is Tcp) <==> has_tcp(parts),
        (exists|i: int| 0 <= i < parts.len() && #[trigger] parts[i] is Udp) <==> has_udp(parts),
        (exists|i: int| 0 <= i < parts.len() && #[trigger] parts[i] is QuicV1) <==> has_quic(parts),
{
}

/// The peer that an address names is the first one in it.
pub proof fn law_the_first_peer_is_named(parts: Seq<PartModel>, n: int)
    requires
        0 <= n,
    ensures
        match first_peer_from(parts, n) {
            Some(peer) => exists|i: int|
                n <= i < parts.len() && #[trigger] parts[i] == PartModel::P2p(peer) && forall|j: int|
                    n <= j < i ==> !((#[trigger] parts[j]) is P2p),
            None => forall|i: int| n <= i < parts.len() ==> !((#[trigger] parts[i]) is P2p),
        },
    decreases parts.len() - n,
{
    if n < parts.len() {
        law_the_first_peer_is_named(parts, n + 1);
        if let PartModel::P2p(peer) = parts[n] {
            assert(parts[n] == PartModel::P2p(peer));
        }
    }
}

/// The IP address of an address is the first one in it, of either version.
pub proof fn law_the_first_ip_counts(parts: Seq<PartModel>, n: int)
    requires
        0 <= n,
    ensures
        match first_ip_from(parts, n) {
            Some(IpAddress::V4(ip)) => exists|i: int|
                n <= i < parts.len() && #[trigger] parts[i] == PartModel::Ip4(ip) && forall|j: int|
                    n <= j < i ==> !((#[trigger] parts[j]) is Ip4) && !(parts[j] is Ip6),
            Some(IpAddress::V6(ip)) => exists|i: int|
                n <= i < parts.len() && #[trigger] parts[i] == PartModel::Ip6(ip) && forall|j: int|
                    n <= j < i ==> !((#[trigger] parts[j]) is Ip4) && !(parts[j] is Ip6),
            None => forall|i: int|
                n <= i < parts.len() ==> !((#[trigger] parts[i]) is Ip4) && !(parts[i] is Ip6),
        },
    decreases parts.len() - n,
{
    if n < parts.len() {
        law_the_first_ip_counts(parts, n + 1);
        match parts[n] {
            PartModel::Ip4(ip) => {
                assert(parts[n] == PartModel::Ip4(ip));
            },
            PartModel::Ip6(ip) => {
                assert(parts[n] == PartModel::Ip6(ip));
            },
            _ => {},
        }
    }
}

/// An address of version four is a loopback address by its first byte alone; of
/// version six there is one.
pub proof fn law_loopback_addresses(a: [u8; 16], b: [u8; 16], four: [u8; 4])
    ensures
        loopback(IpAddress::V4(four)) <==> four@[0] == 127,
        loopback(IpAddress::V6(a)) && loopback(IpAddress::V6(b)) ==> a@ == b@,
        loopback(IpAddress::V6(a)) ==> a@[15] == 1 && a@[0] == 0,
{
    if loopback(IpAddress::V6(a)) && loopback(IpAddress::V6(b)) {
        assert(a@ =~= b@) by {
            assert forall|i: int| 0 <= i < 16 implies a@[i] == b@[i] by {
                if i < 15 {
                    assert(a@[i] == 0 && b@[i] == 0);
                }
            }
        }
    }
}

} // verus!
