//! Resolution: finding the server behind a selector.
use crate::address::{address_parts, first_circuit, lemma_first_circuit, Address, AddressPart, PartModel};
use crate::bytes::{
    be32, be64, be_i64, enc_blob, enc_short, enc_text, put_blob, put_bytes, put_i64, put_short,
    put_text, put_u32, put_u64, put_u8, split_blob, split_bytes, split_i64, split_short, split_text,
    split_u32, split_u64, split_u8, Reader,
};
use crate::error::{
    enc_error, lemma_error_reads, put_error, read_error, reads_error, PublicError, PublicErrorCode,
};
use crate::ids::{id_text, lemma_id_utf8, RegistrationRevision, UpstreamId};
use crate::peer::{is_peer_id, peer_id_bytes};
use crate::proxy::{
    enc_optional_id, lemma_optional_id_reads, put_optional_id, read_optional_id, reads_optional_id,
};
use crate::registry::{known_bits, Capabilities};
use crate::selector::{
    put_selector_bytes, read_selector, selector_bytes, split_selector, valid_selector, SelectorModel,
    UnscopedSelector,
};
use crate::ticket::{ticket_sized, RawTicket};
use vstd::prelude::*;

verus! {

/// The longest frame of the resolve protocol.
pub const MAX_RESOLVE_FRAME: usize = 16384;

/// The most relay addresses of an answer.
pub const MAX_RELAY_ADDRESSES: usize = 4;

/// The longest binary form of a relay address.
pub const MAX_MULTIADDR_BYTES: usize = 512;

/// The question which server offers a service.
#[derive(Debug, PartialEq, Eq)]
pub enum ResolveRequestV1 {
    Resolve {
        request_id: [u8; 16],
        session_id: [u8; 16],
        selector: UnscopedSelector,
        client_capabilities: Capabilities,
    },
}

/// What a resolve request says.
#[verifier::ext_equal]
pub struct ResolveRequestModel {
    pub request_id: [u8; 16],
    pub session_id: [u8; 16],
    pub selector: SelectorModel,
    pub client_capabilities: u32,
}

impl View for ResolveRequestV1 {
    type V = ResolveRequestModel;

    open spec fn view(&self) -> ResolveRequestModel {
        match *self {
            ResolveRequestV1::Resolve { request_id, session_id, selector, client_capabilities } =>
                ResolveRequestModel {
                request_id,
                session_id,
                selector: selector@,
                client_capabilities: client_capabilities@,
            },
        }
    }
}

/// The answer: where the server is and the ticket for it, or a refusal.
#[allow(inconsistent_fields)]
#[derive(PartialEq, Eq)]
pub enum ResolveResponseV1 {
    Resolved {
        request_id: [u8; 16],
        server_peer_id: Vec<u8>,
        upstream_id: UpstreamId,
        selector_fingerprint: [u8; 32],
        registration_revision: RegistrationRevision,
        relay_addresses: Vec<Vec<u8>>,
        compatible_capabilities: Capabilities,
        registration_expires_at: i64,
        ticket_expires_at: i64,
        ticket: RawTicket,
    },
    Rejected { request_id: Option<[u8; 16]>, error: PublicError },
}

/// What a positive answer says.
#[verifier::ext_equal]
pub struct ResolvedModel {
    pub request_id: [u8; 16],
    pub server_peer_id: Seq<u8>,
    pub upstream_id: Seq<char>,
    pub selector_fingerprint: [u8; 32],
    pub registration_revision: u64,
    pub relay_addresses: Seq<Seq<u8>>,
    pub compatible_capabilities: u32,
    pub registration_expires_at: i64,
    pub ticket_expires_at: i64,
    pub ticket: Seq<u8>,
}

/// What an answer says.
#[verifier::ext_equal]
pub enum ResolveResponseModel {
    Resolved(ResolvedModel),
    Rejected(Option<[u8; 16]>, PublicError),
}

/// The bytes of each address in a list.
pub open spec fn address_list(addresses: Seq<Vec<u8>>) -> Seq<Seq<u8>> {
    Seq::new(addresses.len(), |i: int| addresses[i]@)
}

impl View for ResolveResponseV1 {
    type V = ResolveResponseModel;

    open spec fn view(&self) -> ResolveResponseModel {
        match *self {
            ResolveResponseV1::Resolved {
                request_id,
                server_peer_id,
                upstream_id,
                selector_fingerprint,
                registration_revision,
                relay_addresses,
                compatible_capabilities,
                registration_expires_at,
                ticket_expires_at,
                ticket,
            } => ResolveResponseModel::Resolved(
                ResolvedModel {
                    request_id,
                    server_peer_id: server_peer_id@,
                    upstream_id: upstream_id@,
                    selector_fingerprint,
                    registration_revision: registration_revision@,
                    relay_addresses: address_list(relay_addresses@),
                    compatible_capabilities: compatible_capabilities@,
                    registration_expires_at,
                    ticket_expires_at,
                    ticket: ticket@,
                },
            ),
            ResolveResponseV1::Rejected { request_id, error } => ResolveResponseModel::Rejected(
                request_id,
                error,
            ),
        }
    }
}

#[derive(Clone, Copy, Debug, PartialEq, Eq, Structural)]
pub enum ResolveProtocolError {
    FrameTooLarge,
    Malformed,
    UnsupportedVersion,
    CapabilityMismatch,
}

impl ResolveProtocolError {
    /// The code that is shown to the other side.
    pub fn public_code(self) -> (r: PublicErrorCode)
        ensures
            r == match self {
                ResolveProtocolError::FrameTooLarge => PublicErrorCode::ProtocolFrameTooLarge,
                ResolveProtocolError::Malformed => PublicErrorCode::ProtocolMalformed,
                ResolveProtocolError::UnsupportedVersion => PublicErrorCode::ProtocolUnsupportedVersion,
                ResolveProtocolError::CapabilityMismatch => PublicErrorCode::ProtocolCapabilityMismatch,
            },
    {
        match self {
            ResolveProtocolError::FrameTooLarge => PublicErrorCode::ProtocolFrameTooLarge,
            ResolveProtocolError::Malformed => PublicErrorCode::ProtocolMalformed,
            ResolveProtocolError::UnsupportedVersion => PublicErrorCode::ProtocolUnsupportedVersion,
            ResolveProtocolError::CapabilityMismatch => PublicErrorCode::ProtocolCapabilityMismatch,
        }
    }
}

/// What a valid request is.
pub open spec fn valid_request(m: ResolveRequestModel) -> bool {
    valid_selector(m.selector) && known_bits(m.client_capabilities)
}

/// The bytes of a request.
pub open spec fn enc_request(m: ResolveRequestModel) -> Seq<u8> {
    seq![1u8] + (seq![0u8] + (m.request_id@ + (m.session_id@ + (selector_bytes(m.selector) + be32(
        m.client_capabilities,
    )))))
}

/// The parts of a request up to the capabilities, and the rest: the two
/// numbers, the selector and the capability bits.
pub open spec fn request_fields(s: Seq<u8>) -> Option<
    (Seq<u8>, Seq<u8>, SelectorModel, u32, Seq<u8>),
> {
    match split_u8(s) {
        None => None,
        Some((version, s)) => if version != 1 {
            None
        } else {
            match split_u8(s) {
                None => None,
                Some((kind, s)) => if kind != 0 {
                    None
                } else {
                    match split_bytes(s, 16) {
                        None => None,
                        Some((request_id, s)) => match split_bytes(s, 16) {
                            None => None,
                            Some((session_id, s)) => match split_selector(s) {
                                None => None,
                                Some((selector, s)) => match split_u32(s) {
                                    None => None,
                                    Some((bits, s)) => Some((request_id, session_id, selector, bits, s)),
                                },
                            },
                        },
                    }
                },
            }
        },
    }
}

/// Whether bytes are a frame that says `m`.
pub open spec fn reads_request(s: Seq<u8>, m: ResolveRequestModel) -> bool {
    &&& s.len() <= MAX_RESOLVE_FRAME
    &&& known_bits(m.client_capabilities)
    &&& request_fields(s) == Some(
        (m.request_id@, m.session_id@, m.selector, m.client_capabilities, Seq::<u8>::empty()),
    )
}

/// Why bytes are not a request.
pub open spec fn request_error(s: Seq<u8>) -> ResolveProtocolError {
    if s.len() > MAX_RESOLVE_FRAME {
        ResolveProtocolError::FrameTooLarge
    } else if s.len() > 0 && s[0] != 1 {
        ResolveProtocolError::UnsupportedVersion
    } else if request_fields(s) matches Some((_, _, _, bits, _)) && !known_bits(bits) {
        ResolveProtocolError::CapabilityMismatch
    } else {
        ResolveProtocolError::Malformed
    }
}

proof fn lemma_request_then(m: ResolveRequestModel, rest: Seq<u8>)
    requires
        valid_selector(m.selector),
    ensures
        request_fields(enc_request(m) + rest) == Some(
            (m.request_id@, m.session_id@, m.selector, m.client_capabilities, rest),
        ),
{
    broadcast use crate::bytes::lemma_add_assoc;

    let s4 = be32(m.client_capabilities) + rest;
    let s3 = selector_bytes(m.selector) + s4;
    let s2 = m.session_id@ + s3;
    let s1 = m.request_id@ + s2;
    assert(enc_request(m) + rest == seq![1u8] + (seq![0u8] + s1));
    crate::bytes::lemma_split_u8(1, seq![0u8] + s1);
    crate::bytes::lemma_split_u8(0, s1);
    crate::bytes::lemma_split_bytes(m.request_id@, s2);
    crate::bytes::lemma_split_bytes(m.session_id@, s3);
    crate::selector::law_selector_round_trip(m.selector, s4);
    crate::bytes::lemma_split_u32(m.client_capabilities, rest);
}

/// A request that was written is read back.
pub proof fn law_request_round_trip(m: ResolveRequestModel)
    requires
        valid_request(m),
    ensures
        reads_request(enc_request(m), m),
{
    let none = Seq::<u8>::empty();
    lemma_request_then(m, none);
    assert(enc_request(m) + none =~= enc_request(m));
    crate::bytes::lemma_field_lengths(0, m.client_capabilities, 0, 0);
}

/// A request with anything after it is malformed, as long as the whole fits a
/// frame.
pub proof fn law_request_ends_its_frame(m: ResolveRequestModel, added: Seq<u8>)
    requires
        valid_request(m),
        added.len() > 0,
        enc_request(m).len() + added.len() <= MAX_RESOLVE_FRAME,
    ensures
        forall|x: ResolveRequestModel| !reads_request(enc_request(m) + added, x),
        request_error(enc_request(m) + added) == ResolveProtocolError::Malformed,
{
    lemma_request_then(m, added);
    assert((enc_request(m) + added)[0] == 1);
}

/// Bytes that do not fit a frame are too large, whatever they say.
pub proof fn law_request_fits_its_frame(s: Seq<u8>)
    requires
        s.len() > MAX_RESOLVE_FRAME,
    ensures
        forall|x: ResolveRequestModel| !reads_request(s, x),
        request_error(s) == ResolveProtocolError::FrameTooLarge,
{
}

/// Bytes say at most one thing.
pub proof fn law_request_is_unambiguous(s: Seq<u8>, a: ResolveRequestModel, b: ResolveRequestModel)
    requires
        reads_request(s, a),
        reads_request(s, b),
    ensures
        a == b,
{
    crate::bytes::lemma_array_view(a.request_id, b.request_id);
    crate::bytes::lemma_array_view(a.session_id, b.session_id);
}

/// Bytes that start with another version than one are of an unsupported
/// version, whatever follows, as long as they fit a frame.
pub proof fn law_version_is_one(s: Seq<u8>)
    requires
        0 < s.len() <= MAX_RESOLVE_FRAME,
        s[0] != 1,
    ensures
        forall|x: ResolveRequestModel| !reads_request(s, x),
        forall|x: ResolveResponseModel| !reads_response(s, x),
        request_error(s) == ResolveProtocolError::UnsupportedVersion,
        response_error(s) == ResolveProtocolError::UnsupportedVersion,
{
    assert(s.subrange(0, 1)[0] == s[0]);
}

impl ResolveRequestV1 {
    /// The bytes of the request. Every request fits its frame.
    pub fn canonical_bytes(&self) -> (r: Result<Vec<u8>, ResolveProtocolError>)
        ensures
            r matches Ok(bytes) && bytes@ == enc_request(self@) && valid_request(self@),
    {
        broadcast use crate::bytes::lemma_add_assoc;

        let mut out: Vec<u8> = Vec::new();
        put_u8(&mut out, 1);
        assert(out@ =~= seq![1u8]);
        put_u8(&mut out, 0);
        match self {
            ResolveRequestV1::Resolve { request_id, session_id, selector, client_capabilities } => {
                proof {
                    use_type_invariant(selector);
                }
                put_bytes(&mut out, request_id);
                put_bytes(&mut out, session_id);
                put_selector_bytes(&mut out, selector);
                put_u32(&mut out, client_capabilities.bits());
            },
        }
        Ok(out)
    }

    /// Reads the fields of a request.
    fn read(bytes: &[u8]) -> (r: Option<([u8; 16], [u8; 16], UnscopedSelector, u32, bool)>)
        ensures
            match r {
                Some((request_id, session_id, selector, bits, at_end)) => request_fields(bytes@) matches Some((a, b, c, d, rest)) && a == request_id@ && b == session_id@ && c == selector@ && d == bits && at_end == (rest.len() == 0),
                None => request_fields(bytes@) is None,
            },
    {
        let mut reader = Reader::new(bytes);
        let version: u8 = reader.u8()?;
        if version != 1 {
            return None;
        }
        let kind: u8 = reader.u8()?;
        if kind != 0 {
            return None;
        }
        let request_id: [u8; 16] = reader.array()?;
        let session_id: [u8; 16] = reader.array()?;
        let selector = read_selector(&mut reader)?;
        let bits: u32 = reader.u32()?;
        Some((request_id, session_id, selector, bits, reader.at_end()))
    }

    /// The request that bytes hold.
    pub fn decode(bytes: &[u8]) -> (r: Result<Self, ResolveProtocolError>)
        ensures
            match r {
                Ok(request) => reads_request(bytes@, request@),
                Err(error) => error == request_error(bytes@) && forall|m: ResolveRequestModel|
                    !reads_request(bytes@, m),
            },
    {
        if bytes.len() > MAX_RESOLVE_FRAME {
            return Err(ResolveProtocolError::FrameTooLarge);
        }
        if bytes.len() > 0 && bytes[0] != 1 {
            assert(bytes@.subrange(0, 1)[0] == bytes@[0]);
            return Err(ResolveProtocolError::UnsupportedVersion);
        }
        let (request_id, session_id, selector, bits, at_end) = match ResolveRequestV1::read(bytes) {
            Some(fields) => fields,
            None => return Err(ResolveProtocolError::Malformed),
        };
        let client_capabilities = match Capabilities::from_bits(bits) {
            Some(capabilities) => capabilities,
            None => return Err(ResolveProtocolError::CapabilityMismatch),
        };
        if !at_end {
            return Err(ResolveProtocolError::Malformed);
        }
        let request = ResolveRequestV1::Resolve { request_id, session_id, selector, client_capabilities };
        assert((request_fields(bytes@)->0).4 =~= Seq::<u8>::empty());
        Ok(request)
    }
}

impl Clone for ResolveRequestV1 {
    fn clone(&self) -> (r: Self)
        ensures
            r@ == self@,
    {
        match self {
            ResolveRequestV1::Resolve { request_id, session_id, selector, client_capabilities } =>
                ResolveRequestV1::Resolve {
                request_id: *request_id,
                session_id: *session_id,
                selector: selector.clone(),
                client_capabilities: *client_capabilities,
            },
        }
    }
}

/// Whether the parts of an address lead through a relay to a peer: exactly two
/// peers, one right before the first circuit and one at the end.
pub open spec fn circuit_route(parts: Seq<PartModel>) -> bool {
    match first_circuit(parts) {
        None => false,
        Some(c) => c > 0 && forall|i: int|
            0 <= i < parts.len() ==> ((#[trigger] parts[i]) is P2p <==> (i == c - 1 || i == parts.len()
                - 1)),
    }
}

/// Whether bytes are a relay address.
pub open spec fn relay_address(bytes: Seq<u8>) -> bool {
    &&& 1 <= bytes.len() <= MAX_MULTIADDR_BYTES
    &&& address_parts(bytes) matches Some(parts) && circuit_route(parts)
}

/// What valid relay addresses are: between one and four of them.
pub open spec fn valid_relay_addresses(addresses: Seq<Seq<u8>>) -> bool {
    &&& 1 <= addresses.len() <= MAX_RELAY_ADDRESSES
    &&& forall|i: int| 0 <= i < addresses.len() ==> relay_address(#[trigger] addresses[i])
}

/// Whether an address leads through a relay to a peer.
fn is_circuit_route(address: &Address) -> (r: bool)
    ensures
        r == circuit_route(address@),
{
    let length: usize = address.len();
    let mut circuit: usize = 0;
    while circuit < length
        invariant_except_break
            circuit <= length,
            length == address@.len(),
            forall|j: int| 0 <= j < circuit ==> address@[j] != PartModel::P2pCircuit,
        ensures
            circuit <= length,
            length == address@.len(),
            forall|j: int| 0 <= j < circuit ==> address@[j] != PartModel::P2pCircuit,
            circuit < length ==> address@[circuit as int] == PartModel::P2pCircuit,
        decreases length - circuit,
    {
        if let AddressPart::P2pCircuit = address.part(circuit) {
            break;
        }
        circuit = circuit + 1;
    }
    if circuit == length {
        return false;
    }
    proof {
        lemma_first_circuit(address@, circuit as int);
    }
    if circuit == 0 {
        return false;
    }
    let mut i: usize = 0;
    while i < length
        invariant
            i <= length,
            length == address@.len(),
            0 < circuit < length,
            first_circuit(address@) == Some(circuit as int),
            forall|j: int|
                0 <= j < i ==> ((#[trigger] address@[j]) is P2p <==> (j == circuit - 1 || j == length - 1)),
        decreases length - i,
    {
        let part = address.part(i);
        let is_peer = match part {
            AddressPart::P2p(_) => true,
            _ => false,
        };
        assert(is_peer == (address@[i as int] is P2p));
        if is_peer != (i == circuit - 1 || i == length - 1) {
            return false;
        }
        i = i + 1;
    }
    true
}

/// Whether addresses are valid relay addresses.
pub fn valid_addresses(addresses: &Vec<Vec<u8>>) -> (r: bool)
    ensures
        r == valid_relay_addresses(address_list(addresses@)),
{
    let ghost list = address_list(addresses@);
    if addresses.len() == 0 || addresses.len() > MAX_RELAY_ADDRESSES {
        return false;
    }
    let mut i: usize = 0;
    while i < addresses.len()
        invariant
            i <= addresses@.len(),
            list == address_list(addresses@),
            forall|j: int| 0 <= j < i ==> relay_address(#[trigger] list[j]),
        decreases addresses@.len() - i,
    {
        let bytes = addresses[i].as_slice();
        assert(bytes@ == list[i as int]);
        if bytes.len() == 0 || bytes.len() > MAX_MULTIADDR_BYTES {
            return false;
        }
        match Address::from_bytes(bytes) {
            Some(address) => {
                if !is_circuit_route(&address) {
                    return false;
                }
            },
            None => return false,
        }
        i = i + 1;
    }
    true
}

/// What a valid answer is. The ticket does not outlive the registration.
pub open spec fn valid_resolved(m: ResolvedModel) -> bool {
    &&& peer_id_bytes(m.server_peer_id)
    &&& m.server_peer_id.len() <= u8::MAX
    &&& id_text(m.upstream_id)
    &&& m.registration_revision != 0
    &&& valid_relay_addresses(m.relay_addresses)
    &&& known_bits(m.compatible_capabilities)
    &&& m.ticket_expires_at <= m.registration_expires_at
    &&& ticket_sized(m.ticket)
}

/// What a valid answer is.
pub open spec fn valid_response(m: ResolveResponseModel) -> bool {
    m matches ResolveResponseModel::Resolved(r) ==> valid_resolved(r)
}

/// Addresses one after the other, each with its length.
pub open spec fn enc_addresses(addresses: Seq<Seq<u8>>) -> Seq<u8>
    decreases addresses.len(),
{
    if addresses.len() == 0 {
        Seq::empty()
    } else {
        enc_addresses(addresses.drop_last()) + enc_blob(addresses.last())
    }
}

/// The fields behind the addresses.
pub open spec fn enc_resolved_tail(m: ResolvedModel) -> Seq<u8> {
    be32(m.compatible_capabilities) + (be_i64(m.registration_expires_at) + (be_i64(
        m.ticket_expires_at,
    ) + enc_blob(m.ticket)))
}

/// The bytes of a positive answer.
pub open spec fn enc_resolved(m: ResolvedModel) -> Seq<u8> {
    m.request_id@ + (enc_short(m.server_peer_id) + (enc_text(m.upstream_id) + (
    m.selector_fingerprint@ + (be64(m.registration_revision) + (seq![m.relay_addresses.len() as u8] + (
    enc_addresses(m.relay_addresses) + enc_resolved_tail(m)))))))
}

/// The bytes of an answer.
pub open spec fn enc_response(m: ResolveResponseModel) -> Seq<u8> {
    seq![1u8] + match m {
        ResolveResponseModel::Resolved(r) => seq![0u8] + enc_resolved(r),
        ResolveResponseModel::Rejected(request_id, error) => seq![1u8] + (enc_optional_id(request_id)
            + enc_error(error)),
    }
}

/// The first `n` addresses and what follows them.
pub open spec fn split_addresses(s: Seq<u8>, n: nat) -> Option<(Seq<Seq<u8>>, Seq<u8>)>
    decreases n,
{
    if n == 0 {
        Some((Seq::empty(), s))
    } else {
        match split_addresses(s, (n - 1) as nat) {
            None => None,
            Some((addresses, s)) => match split_blob(s) {
                None => None,
                Some((address, s)) => Some((addresses.push(address), s)),
            },
        }
    }
}

/// Whether bytes read as the fields up to the capabilities of `m`, and what
/// follows them.
pub open spec fn reads_resolved_head(s: Seq<u8>, m: ResolvedModel, rest: Seq<u8>) -> bool {
    match split_bytes(s, 16) {
        None => false,
        Some((request_id, s)) => request_id == m.request_id@ && match split_short(s) {
            None => false,
            Some((peer, s)) => peer == m.server_peer_id && peer_id_bytes(peer) && match split_text(s) {
                None => false,
                Some((upstream, s)) => upstream == m.upstream_id && id_text(upstream)
                    && match split_bytes(s, 32) {
                    None => false,
                    Some((fingerprint, s)) => fingerprint == m.selector_fingerprint@ && match split_u64(s) {
                        None => false,
                        Some((revision, s)) => revision == m.registration_revision && revision != 0
                            && match split_u8(s) {
                            None => false,
                            Some((count, s)) => match split_addresses(s, count as nat) {
                                None => false,
                                Some((addresses, s)) => addresses == m.relay_addresses
                                    && valid_relay_addresses(addresses) && s == rest,
                            },
                        },
                    },
                },
            },
        },
    }
}

/// Whether bytes read as the fields from the capabilities of `m` on.
pub open spec fn reads_resolved_tail(s: Seq<u8>, m: ResolvedModel) -> bool {
    match split_u32(s) {
        None => false,
        Some((bits, s)) => bits == m.compatible_capabilities && known_bits(bits) && match split_i64(s) {
            None => false,
            Some((registration, s)) => registration == m.registration_expires_at && match split_i64(s) {
                None => false,
                Some((expires, s)) => expires == m.ticket_expires_at && match split_blob(s) {
                    None => false,
                    Some((ticket, s)) => ticket == m.ticket && ticket_sized(ticket) && s.len() == 0,
                },
            },
        },
    }
}

/// Whether bytes read as the positive answer `m`.
pub open spec fn reads_resolved(s: Seq<u8>, m: ResolvedModel) -> bool {
    exists|rest: Seq<u8>|
        #[trigger] reads_resolved_head(s, m, rest) && reads_resolved_tail(rest, m)
}

/// Whether bytes read as a refusal.
pub open spec fn reads_rejected(s: Seq<u8>, request_id: Option<[u8; 16]>, error: PublicError) -> bool {
    exists|rest: Seq<u8>|
        #[trigger] reads_optional_id(s, request_id, rest) && reads_error(rest, error, Seq::empty())
}

/// Whether bytes are a frame that says `m`.
pub open spec fn reads_response(s: Seq<u8>, m: ResolveResponseModel) -> bool {
    s.len() <= MAX_RESOLVE_FRAME && match split_u8(s) {
        None => false,
        Some((version, s)) => version == 1 && match split_u8(s) {
            None => false,
            Some((kind, s)) => match m {
                ResolveResponseModel::Resolved(r) => kind == 0 && reads_resolved(s, r),
                ResolveResponseModel::Rejected(request_id, error) => kind == 1 && reads_rejected(
                    s,
                    request_id,
                    error,
                ),
            },
        },
    }
}

/// Whether the fields of `m` are followed by capability bits that are not all
/// known.
pub open spec fn unknown_bits_after(s: Seq<u8>, m: ResolvedModel, rest: Seq<u8>) -> bool {
    reads_resolved_head(s, m, rest) && (split_u32(rest) matches Some((bits, _)) && !known_bits(bits))
}

/// Whether a positive answer starts well and then has unknown capability bits.
pub open spec fn has_unknown_bits(s: Seq<u8>) -> bool {
    exists|m: ResolvedModel, rest: Seq<u8>| unknown_bits_after(s, m, rest)
}

/// Whether bytes hold a positive answer whose capability bits are not all
/// known.
pub open spec fn unknown_capabilities(s: Seq<u8>) -> bool {
    match split_u8(s) {
        None => false,
        Some((version, s)) => version == 1 && match split_u8(s) {
            None => false,
            Some((kind, s)) => kind == 0 && has_unknown_bits(s),
        },
    }
}

/// Why bytes are not an answer.
pub open spec fn response_error(s: Seq<u8>) -> ResolveProtocolError {
    if s.len() > MAX_RESOLVE_FRAME {
        ResolveProtocolError::FrameTooLarge
    } else if s.len() > 0 && s[0] != 1 {
        ResolveProtocolError::UnsupportedVersion
    } else if unknown_capabilities(s) {
        ResolveProtocolError::CapabilityMismatch
    } else {
        ResolveProtocolError::Malformed
    }
}

proof fn lemma_addresses_round_trip(addresses: Seq<Seq<u8>>, rest: Seq<u8>)
    requires
        forall|i: int| 0 <= i < addresses.len() ==> (#[trigger] addresses[i]).len() <= u16::MAX,
    ensures
        split_addresses(enc_addresses(addresses) + rest, addresses.len()) == Some((addresses, rest)),
    decreases addresses.len(),
{
    if addresses.len() == 0 {
        assert(enc_addresses(addresses) + rest =~= rest);
        assert(addresses =~= Seq::<Seq<u8>>::empty());
    } else {
        let init = addresses.drop_last();
        let last = addresses.last();
        let tail = enc_blob(last) + rest;
        assert forall|i: int| 0 <= i < init.len() implies (#[trigger] init[i]).len() <= u16::MAX by {
            assert(init[i] == addresses[i]);
        }
        lemma_addresses_round_trip(init, tail);
        assert(enc_addresses(addresses) + rest =~= enc_addresses(init) + tail);
        crate::bytes::lemma_split_blob(last, rest);
        assert(init.push(last) =~= addresses);
    }
}

proof fn lemma_addresses_canonical(s: Seq<u8>, n: nat)
    ensures
        split_addresses(s, n) matches Some((addresses, rest)) ==> s == enc_addresses(addresses) + rest
            && addresses.len() == n,
    decreases n,
{
    if n == 0 {
        assert(enc_addresses(Seq::<Seq<u8>>::empty()) + s =~= s);
    } else {
        lemma_addresses_canonical(s, (n - 1) as nat);
        if let Some((addresses, s1)) = split_addresses(s, (n - 1) as nat) {
            crate::bytes::lemma_join_blob(s1);
            if let Some((address, s2)) = split_blob(s1) {
                let all = addresses.push(address);
                assert(all.drop_last() =~= addresses);
                assert(enc_addresses(all) + s2 =~= enc_addresses(addresses) + (enc_blob(address) + s2));
            }
        }
    }
}

proof fn lemma_split_addresses_stops(s: Seq<u8>, i: nat, n: nat)
    requires
        i <= n,
        split_addresses(s, i) is None,
    ensures
        split_addresses(s, n) is None,
    decreases n,
{
    if i < n {
        lemma_split_addresses_stops(s, i, (n - 1) as nat);
    }
}

proof fn lemma_head_reads(m: ResolvedModel, rest: Seq<u8>)
    requires
        valid_resolved(m),
    ensures
        reads_resolved_head(
            m.request_id@ + (enc_short(m.server_peer_id) + (enc_text(m.upstream_id) + (
            m.selector_fingerprint@ + (be64(m.registration_revision) + (seq![
                m.relay_addresses.len() as u8,
            ] + (enc_addresses(m.relay_addresses) + rest)))))),
            m,
            rest,
        ),
{
    lemma_id_utf8(m.upstream_id);
    let count: u8 = m.relay_addresses.len() as u8;
    let s6 = enc_addresses(m.relay_addresses) + rest;
    let s5 = seq![count] + s6;
    let s4 = be64(m.registration_revision) + s5;
    let s3 = m.selector_fingerprint@ + s4;
    let s2 = enc_text(m.upstream_id) + s3;
    let s1 = enc_short(m.server_peer_id) + s2;
    crate::bytes::lemma_split_bytes(m.request_id@, s1);
    crate::bytes::lemma_split_short(m.server_peer_id, s2);
    crate::bytes::lemma_split_text(m.upstream_id, s3);
    crate::bytes::lemma_split_bytes(m.selector_fingerprint@, s4);
    crate::bytes::lemma_split_u64(m.registration_revision, s5);
    crate::bytes::lemma_split_u8(count, s6);
    assert forall|i: int| 0 <= i < m.relay_addresses.len() implies (
    #[trigger] m.relay_addresses[i]).len() <= u16::MAX by {
        assert(relay_address(m.relay_addresses[i]));
    }
    lemma_addresses_round_trip(m.relay_addresses, rest);
}

proof fn lemma_head_joins(s: Seq<u8>, m: ResolvedModel, rest: Seq<u8>)
    requires
        reads_resolved_head(s, m, rest),
    ensures
        s == m.request_id@ + (enc_short(m.server_peer_id) + (enc_text(m.upstream_id) + (
        m.selector_fingerprint@ + (be64(m.registration_revision) + (seq![
            m.relay_addresses.len() as u8,
        ] + (enc_addresses(m.relay_addresses) + rest)))))),
{
    crate::bytes::lemma_join_bytes(s, 16);
    let s1 = (split_bytes(s, 16)->0).1;
    crate::bytes::lemma_join_short(s1);
    let s2 = (split_short(s1)->0).1;
    crate::bytes::lemma_join_text(s2);
    let s3 = (split_text(s2)->0).1;
    crate::bytes::lemma_join_bytes(s3, 32);
    let s4 = (split_bytes(s3, 32)->0).1;
    crate::bytes::lemma_join_u64(s4);
    let s5 = (split_u64(s4)->0).1;
    crate::bytes::lemma_join_u8(s5);
    let (count, s6) = split_u8(s5)->0;
    lemma_addresses_canonical(s6, count as nat);
}

proof fn lemma_tail_reads(s: Seq<u8>, m: ResolvedModel)
    requires
        known_bits(m.compatible_capabilities),
        ticket_sized(m.ticket),
    ensures
        reads_resolved_tail(s, m) <==> s == enc_resolved_tail(m),
{
    let none = Seq::<u8>::empty();
    if s == enc_resolved_tail(m) {
        let s3 = enc_blob(m.ticket);
        let s2 = be_i64(m.ticket_expires_at) + s3;
        let s1 = be_i64(m.registration_expires_at) + s2;
        crate::bytes::lemma_split_u32(m.compatible_capabilities, s1);
        crate::bytes::lemma_split_i64(m.registration_expires_at, s2);
        crate::bytes::lemma_split_i64(m.ticket_expires_at, s3);
        crate::bytes::lemma_split_blob(m.ticket, none);
        assert(enc_blob(m.ticket) + none =~= s3);
    }
    if reads_resolved_tail(s, m) {
        crate::bytes::lemma_join_u32(s);
        let s1 = (split_u32(s)->0).1;
        crate::bytes::lemma_join_i64(s1);
        let s2 = (split_i64(s1)->0).1;
        crate::bytes::lemma_join_i64(s2);
        let s3 = (split_i64(s2)->0).1;
        crate::bytes::lemma_join_blob(s3);
        let s4 = (split_blob(s3)->0).1;
        assert(enc_blob(m.ticket) + s4 =~= enc_blob(m.ticket));
    }
}

proof fn lemma_addresses_len(addresses: Seq<Seq<u8>>)
    requires
        forall|i: int| 0 <= i < addresses.len() ==> (#[trigger] addresses[i]).len() <= MAX_MULTIADDR_BYTES,
    ensures
        enc_addresses(addresses).len() <= addresses.len() * 514,
    decreases addresses.len(),
{
    if addresses.len() > 0 {
        let init = addresses.drop_last();
        assert forall|i: int| 0 <= i < init.len() implies (#[trigger] init[i]).len()
            <= MAX_MULTIADDR_BYTES by {
            assert(init[i] == addresses[i]);
        }
        lemma_addresses_len(init);
    }
}

/// Every valid answer fits its frame.
proof fn lemma_response_len(m: ResolveResponseModel)
    requires
        valid_response(m),
    ensures
        enc_response(m).len() <= MAX_RESOLVE_FRAME,
{
    match m {
        ResolveResponseModel::Resolved(r) => {
            lemma_id_utf8(r.upstream_id);
            assert forall|i: int| 0 <= i < r.relay_addresses.len() implies (
            #[trigger] r.relay_addresses[i]).len() <= MAX_MULTIADDR_BYTES by {
                assert(relay_address(r.relay_addresses[i]));
            }
            lemma_addresses_len(r.relay_addresses);
            lemma_resolved_tail_len(r);
            crate::bytes::lemma_field_lengths(0, 0, r.registration_revision, 0);
            crate::bytes::lemma_parts_len(
                r.request_id@,
                enc_short(r.server_peer_id),
                enc_text(r.upstream_id),
                r.selector_fingerprint@,
                be64(r.registration_revision),
                seq![r.relay_addresses.len() as u8],
                enc_addresses(r.relay_addresses),
                enc_resolved_tail(r),
            );
        },
        ResolveResponseModel::Rejected(request_id, error) => {
            crate::error::lemma_code_text_short(error.code);
        },
    }
}

proof fn lemma_resolved_tail_len(m: ResolvedModel)
    requires
        ticket_sized(m.ticket),
    ensures
        enc_resolved_tail(m).len() <= 22 + 2048,
{
    crate::bytes::lemma_field_lengths(0, m.compatible_capabilities, 0, m.registration_expires_at);
    crate::bytes::lemma_field_lengths(0, 0, 0, m.ticket_expires_at);
}

/// An answer that was written is read back.
pub proof fn law_response_round_trip(m: ResolveResponseModel)
    requires
        valid_response(m),
    ensures
        reads_response(enc_response(m), m),
{
    lemma_response_len(m);
    match m {
        ResolveResponseModel::Resolved(r) => {
            crate::bytes::lemma_split_u8(1, seq![0u8] + enc_resolved(r));
            crate::bytes::lemma_split_u8(0, enc_resolved(r));
            lemma_head_reads(r, enc_resolved_tail(r));
            lemma_tail_reads(enc_resolved_tail(r), r);
            assert(reads_resolved(enc_resolved(r), r));
        },
        ResolveResponseModel::Rejected(request_id, error) => {
            let s2 = enc_optional_id(request_id) + enc_error(error);
            crate::bytes::lemma_split_u8(1, seq![1u8] + s2);
            crate::bytes::lemma_split_u8(1, s2);
            lemma_optional_id_reads(s2, request_id, enc_error(error));
            assert(enc_error(error) + Seq::<u8>::empty() =~= enc_error(error));
            lemma_error_reads(enc_error(error), error, Seq::empty());
            assert(reads_rejected(s2, request_id, error));
        },
    }
}

/// Bytes that are read as an answer are the bytes that writing it gives.
pub proof fn law_response_is_canonical(s: Seq<u8>, m: ResolveResponseModel)
    requires
        reads_response(s, m),
    ensures
        s == enc_response(m),
{
    crate::bytes::lemma_join_u8(s);
    let s1 = (split_u8(s)->0).1;
    crate::bytes::lemma_join_u8(s1);
    let s2 = (split_u8(s1)->0).1;
    match m {
        ResolveResponseModel::Resolved(r) => {
            let rest = choose|rest: Seq<u8>|
                #[trigger] reads_resolved_head(s2, r, rest) && reads_resolved_tail(rest, r);
            lemma_head_joins(s2, r, rest);
            lemma_tail_reads(rest, r);
        },
        ResolveResponseModel::Rejected(request_id, error) => {
            let rest = choose|rest: Seq<u8>|
                #[trigger] reads_optional_id(s2, request_id, rest) && reads_error(
                    rest,
                    error,
                    Seq::empty(),
                );
            lemma_optional_id_reads(s2, request_id, rest);
            lemma_error_reads(rest, error, Seq::empty());
            assert(enc_error(error) + Seq::<u8>::empty() =~= enc_error(error));
        },
    }
}

proof fn lemma_same_head(s: Seq<u8>, a: ResolvedModel, x: Seq<u8>, b: ResolvedModel, y: Seq<u8>)
    requires
        reads_resolved_head(s, a, x),
        reads_resolved_head(s, b, y),
    ensures
        x == y,
        a.request_id == b.request_id,
        a.selector_fingerprint == b.selector_fingerprint,
        a.server_peer_id == b.server_peer_id,
        a.upstream_id == b.upstream_id,
        a.registration_revision == b.registration_revision,
        a.relay_addresses == b.relay_addresses,
{
    crate::bytes::lemma_array_view(a.request_id, b.request_id);
    crate::bytes::lemma_array_view(a.selector_fingerprint, b.selector_fingerprint);
}

/// Bytes say at most one thing.
pub proof fn law_response_is_unambiguous(s: Seq<u8>, a: ResolveResponseModel, b: ResolveResponseModel)
    requires
        reads_response(s, a),
        reads_response(s, b),
    ensures
        a == b,
{
    let none = Seq::<u8>::empty();
    let body = (split_u8((split_u8(s)->0).1)->0).1;
    match (a, b) {
        (ResolveResponseModel::Resolved(ra), ResolveResponseModel::Resolved(rb)) => {
            let x = choose|rest: Seq<u8>|
                #[trigger] reads_resolved_head(body, ra, rest) && reads_resolved_tail(rest, ra);
            let y = choose|rest: Seq<u8>|
                #[trigger] reads_resolved_head(body, rb, rest) && reads_resolved_tail(rest, rb);
            lemma_same_head(body, ra, x, rb, y);
            assert(ra =~= rb);
        },
        (ResolveResponseModel::Rejected(ida, ea), ResolveResponseModel::Rejected(idb, eb)) => {
            let x = choose|rest: Seq<u8>|
                #[trigger] reads_optional_id(body, ida, rest) && reads_error(rest, ea, none);
            let y = choose|rest: Seq<u8>|
                #[trigger] reads_optional_id(body, idb, rest) && reads_error(rest, eb, none);
            if let (Some(i), Some(j)) = (ida, idb) {
                crate::bytes::lemma_array_view(i, j);
            }
            crate::error::lemma_error_unique(x, ea, eb, none, none);
        },
        _ => {},
    }
}

proof fn lemma_resolved_then(m: ResolvedModel, added: Seq<u8>)
    requires
        valid_resolved(m),
        added.len() > 0,
    ensures
        forall|x: ResolvedModel| !reads_resolved(enc_resolved(m) + added, x),
        !has_unknown_bits(enc_resolved(m) + added),
{
    broadcast use crate::bytes::lemma_add_assoc;

    let s = enc_resolved(m) + added;
    let s3 = enc_blob(m.ticket) + added;
    let s2 = be_i64(m.ticket_expires_at) + s3;
    let s1 = be_i64(m.registration_expires_at) + s2;
    let tail = be32(m.compatible_capabilities) + s1;
    lemma_head_reads(m, tail);
    assert(reads_resolved_head(s, m, tail));
    crate::bytes::lemma_split_u32(m.compatible_capabilities, s1);
    crate::bytes::lemma_split_i64(m.registration_expires_at, s2);
    crate::bytes::lemma_split_i64(m.ticket_expires_at, s3);
    crate::bytes::lemma_split_blob(m.ticket, added);
    assert forall|x: ResolvedModel| !reads_resolved(s, x) by {
        if reads_resolved(s, x) {
            let rest = choose|rest: Seq<u8>|
                #[trigger] reads_resolved_head(s, x, rest) && reads_resolved_tail(rest, x);
            lemma_same_head(s, m, tail, x, rest);
        }
    }
    if has_unknown_bits(s) {
        let (x, rest) = choose|x: ResolvedModel, rest: Seq<u8>| unknown_bits_after(s, x, rest);
        lemma_same_head(s, m, tail, x, rest);
    }
}

/// An answer with anything after it is malformed, as long as the whole fits a
/// frame.
pub proof fn law_response_ends_its_frame(m: ResolveResponseModel, added: Seq<u8>)
    requires
        valid_response(m),
        added.len() > 0,
        enc_response(m).len() + added.len() <= MAX_RESOLVE_FRAME,
    ensures
        forall|x: ResolveResponseModel| !reads_response(enc_response(m) + added, x),
        response_error(enc_response(m) + added) == ResolveProtocolError::Malformed,
{
    broadcast use crate::bytes::lemma_add_assoc;

    let none = Seq::<u8>::empty();
    let s = enc_response(m) + added;
    assert(s[0] == 1);
    match m {
        ResolveResponseModel::Resolved(r) => {
            assert(s == seq![1u8] + (seq![0u8] + (enc_resolved(r) + added)));
            crate::bytes::lemma_split_u8(1, seq![0u8] + (enc_resolved(r) + added));
            crate::bytes::lemma_split_u8(0, enc_resolved(r) + added);
            lemma_resolved_then(r, added);
        },
        ResolveResponseModel::Rejected(request_id, error) => {
            let body = enc_optional_id(request_id) + (enc_error(error) + added);
            assert(s == seq![1u8] + (seq![1u8] + body));
            crate::bytes::lemma_split_u8(1, seq![1u8] + body);
            crate::bytes::lemma_split_u8(1, body);
            assert forall|x: ResolveResponseModel| !reads_response(s, x) by {
                if reads_response(s, x) {
                    law_response_is_canonical(s, x);
                    if let ResolveResponseModel::Rejected(id, other) = x {
                        let a = enc_optional_id(id) + (enc_error(other) + none);
                        assert(enc_error(other) + none =~= enc_error(other));
                        assert(s.subrange(2, s.len() as int) =~= a);
                        assert(s.subrange(2, s.len() as int) =~= body);
                        crate::proxy::lemma_same_after_refusals(id, other, none, request_id, error, added);
                    }
                }
            }
        },
    }
}

/// Bytes that do not fit a frame are too large, whatever they say.
pub proof fn law_response_fits_its_frame(s: Seq<u8>)
    requires
        s.len() > MAX_RESOLVE_FRAME,
    ensures
        forall|x: ResolveResponseModel| !reads_response(s, x),
        response_error(s) == ResolveProtocolError::FrameTooLarge,
{
}

/// Reads `count` addresses.
#[verifier::loop_isolation(false)]
fn read_addresses(reader: &mut Reader<'_>, count: u8) -> (r: Option<Vec<Vec<u8>>>)
    ensures
        match split_addresses(old(reader)@, count as nat) {
            Some((addresses, rest)) => r matches Some(v) && address_list(v@) == addresses
                && final(reader)@ == rest,
            None => r is None,
        },
{
    let ghost start = reader@;
    let mut out: Vec<Vec<u8>> = Vec::new();
    let mut i: u8 = 0;
    assert(address_list(out@) =~= Seq::<Seq<u8>>::empty());
    while i < count
        invariant
            i <= count,
            split_addresses(start, i as nat) == Some((address_list(out@), reader@)),
        decreases count - i,
    {
        let ghost before = address_list(out@);
        let address = match reader.blob() {
            Some(address) => address,
            None => {
                proof {
                    lemma_split_addresses_stops(start, (i + 1) as nat, count as nat);
                }
                return None;
            },
        };
        let copy = vstd::slice::slice_to_vec(address);
        out.push(copy);
        assert(address_list(out@) =~= before.push(address@));
        i = i + 1;
    }
    Some(out)
}

/// The fields of a positive answer up to the capabilities.
struct ResolvedHead {
    request_id: [u8; 16],
    server_peer_id: Vec<u8>,
    upstream_id: UpstreamId,
    selector_fingerprint: [u8; 32],
    registration_revision: RegistrationRevision,
    relay_addresses: Vec<Vec<u8>>,
}

/// Whether the head of `m` is what was read.
spec fn head_matches(h: ResolvedHead, m: ResolvedModel) -> bool {
    &&& m.request_id == h.request_id
    &&& m.server_peer_id == h.server_peer_id@
    &&& m.upstream_id == h.upstream_id@
    &&& m.selector_fingerprint == h.selector_fingerprint
    &&& m.registration_revision == h.registration_revision@
    &&& m.relay_addresses == address_list(h.relay_addresses@)
}

fn read_head(reader: &mut Reader<'_>) -> (r: Option<ResolvedHead>)
    ensures
        match r {
            Some(h) => {
                &&& forall|m: ResolvedModel| #[trigger]
                    head_matches(h, m) ==> reads_resolved_head(old(reader)@, m, final(reader)@)
                &&& forall|m: ResolvedModel, rest: Seq<u8>| #[trigger]
                    reads_resolved_head(old(reader)@, m, rest) ==> head_matches(h, m) && rest
                        == final(reader)@
            },
            None => forall|m: ResolvedModel, rest: Seq<u8>|
                !reads_resolved_head(old(reader)@, m, rest),
        },
{
    let request_id: [u8; 16] = reader.array()?;
    let peer = reader.short()?;
    if !is_peer_id(peer) {
        return None;
    }
    let server_peer_id = vstd::slice::slice_to_vec(peer);
    let name = reader.text()?;
    let upstream_id = match UpstreamId::new(name.as_str()) {
        Ok(id) => id,
        Err(_) => return None,
    };
    let selector_fingerprint: [u8; 32] = reader.array()?;
    let registration_revision = RegistrationRevision::new(reader.u64()?)?;
    let count: u8 = reader.u8()?;
    let ghost at = reader@;
    if count as usize == 0 || count as usize > MAX_RELAY_ADDRESSES {
        proof {
            lemma_addresses_canonical(at, count as nat);
        }
        return None;
    }
    let relay_addresses = read_addresses(reader, count)?;
    if !valid_addresses(&relay_addresses) {
        return None;
    }
    let h = ResolvedHead {
        request_id,
        server_peer_id,
        upstream_id,
        selector_fingerprint,
        registration_revision,
        relay_addresses,
    };
    proof {
        assert forall|m: ResolvedModel, rest: Seq<u8>| #[trigger]
            reads_resolved_head(old(reader)@, m, rest) implies head_matches(h, m) && rest == reader@ by {
            crate::bytes::lemma_array_view(m.request_id, h.request_id);
            crate::bytes::lemma_array_view(m.selector_fingerprint, h.selector_fingerprint);
        }
    }
    Some(h)
}

impl ResolveResponseV1 {
    /// The bytes of the answer. An invalid answer has none.
    pub fn canonical_bytes(&self) -> (r: Result<Vec<u8>, ResolveProtocolError>)
        ensures
            match r {
                Ok(bytes) => valid_response(self@) && bytes@ == enc_response(self@),
                Err(error) => !valid_response(self@) && error == ResolveProtocolError::Malformed,
            },
    {
        broadcast use crate::bytes::lemma_add_assoc;

        let mut out: Vec<u8> = Vec::new();
        put_u8(&mut out, 1);
        assert(out@ =~= seq![1u8]);
        match self {
            ResolveResponseV1::Resolved {
                request_id,
                server_peer_id,
                upstream_id,
                selector_fingerprint,
                registration_revision,
                relay_addresses,
                compatible_capabilities,
                registration_expires_at,
                ticket_expires_at,
                ticket,
            } => {
                let upstream = upstream_id.as_str();
                let revision: u64 = registration_revision.get();
                let bits: u32 = compatible_capabilities.bits();
                let ticket_bytes = ticket.as_bytes();
                if !valid_addresses(relay_addresses) || !is_peer_id(server_peer_id.as_slice())
                    || server_peer_id.len() > 255 || *ticket_expires_at > *registration_expires_at {
                    return Err(ResolveProtocolError::Malformed);
                }
                proof {
                    lemma_id_utf8(upstream@);
                }
                put_u8(&mut out, 0);
                put_bytes(&mut out, request_id);
                put_short(&mut out, server_peer_id.as_slice());
                put_text(&mut out, upstream);
                put_bytes(&mut out, selector_fingerprint);
                put_u64(&mut out, revision);
                put_u8(&mut out, relay_addresses.len() as u8);
                put_addresses(&mut out, relay_addresses);
                put_resolved_tail(
                    &mut out,
                    bits,
                    *registration_expires_at,
                    *ticket_expires_at,
                    ticket_bytes,
                );
            },
            ResolveResponseV1::Rejected { request_id, error } => {
                put_u8(&mut out, 1);
                put_optional_id(&mut out, *request_id);
                put_error(&mut out, *error);
            },
        }
        Ok(out)
    }

    /// The answer that bytes hold.
    pub fn decode(bytes: &[u8]) -> (r: Result<Self, ResolveProtocolError>)
        ensures
            match r {
                Ok(response) => reads_response(bytes@, response@),
                Err(error) => error == response_error(bytes@) && forall|m: ResolveResponseModel|
                    !reads_response(bytes@, m),
            },
    {
        if bytes.len() > MAX_RESOLVE_FRAME {
            return Err(ResolveProtocolError::FrameTooLarge);
        }
        let mut reader = Reader::new(bytes);
        let version: u8 = match reader.u8() {
            Some(version) => version,
            None => return Err(ResolveProtocolError::Malformed),
        };
        assert(bytes@.subrange(0, 1)[0] == bytes@[0]);
        if version != 1 {
            return Err(ResolveProtocolError::UnsupportedVersion);
        }
        let kind: u8 = match reader.u8() {
            Some(kind) => kind,
            None => return Err(ResolveProtocolError::Malformed),
        };
        let ghost body = reader@;
        if kind == 0 {
            let head = match read_head(&mut reader) {
                Some(head) => head,
                None => return Err(ResolveProtocolError::Malformed),
            };
            ResolveResponseV1::decode_tail(head, &mut reader, Ghost(body), Ghost(bytes@))
        } else if kind == 1 {
            let request_id = match read_optional_id(&mut reader) {
                Some(id) => id,
                None => return Err(ResolveProtocolError::Malformed),
            };
            let ghost tail = reader@;
            let error = match read_error(&mut reader) {
                Some(error) => error,
                None => return Err(ResolveProtocolError::Malformed),
            };
            if !reader.at_end() {
                proof {
                    assert forall|e: PublicError| !reads_error(tail, e, Seq::empty()) by {
                        if reads_error(tail, e, Seq::empty()) {
                            crate::error::lemma_error_unique(tail, error, e, reader@, Seq::empty());
                        }
                    }
                }
                return Err(ResolveProtocolError::Malformed);
            }
            assert(reader@ =~= Seq::<u8>::empty());
            assert(reads_rejected(body, request_id, error));
            Ok(ResolveResponseV1::Rejected { request_id, error })
        } else {
            Err(ResolveProtocolError::Malformed)
        }
    }

    /// Reads what follows the addresses of a positive answer.
    fn decode_tail(
        head: ResolvedHead,
        reader: &mut Reader<'_>,
        Ghost(body): Ghost<Seq<u8>>,
        Ghost(all): Ghost<Seq<u8>>,
    ) -> (r: Result<Self, ResolveProtocolError>)
        requires
            all.len() <= MAX_RESOLVE_FRAME,
            split_u8(all) matches Some((1u8, s)) && split_u8(s) == Some((0u8, body)),
            forall|m: ResolvedModel| #[trigger]
                head_matches(head, m) ==> reads_resolved_head(body, m, old(reader)@),
            forall|m: ResolvedModel, rest: Seq<u8>| #[trigger]
                reads_resolved_head(body, m, rest) ==> head_matches(head, m) && rest == old(reader)@,
        ensures
            match r {
                Ok(response) => reads_response(all, response@),
                Err(error) => error == response_error(all) && forall|m: ResolveResponseModel|
                    !reads_response(all, m),
            },
    {
        let ghost at = reader@;
        assert(all.subrange(0, 1)[0] == all[0]);
        let bits: u32 = match reader.u32() {
            Some(bits) => bits,
            None => return Err(ResolveProtocolError::Malformed),
        };
        let compatible_capabilities = match Capabilities::from_bits(bits) {
            Some(capabilities) => capabilities,
            None => {
                proof {
                    let m = ResolvedModel {
                        request_id: head.request_id,
                        server_peer_id: head.server_peer_id@,
                        upstream_id: head.upstream_id@,
                        selector_fingerprint: head.selector_fingerprint,
                        registration_revision: head.registration_revision@,
                        relay_addresses: address_list(head.relay_addresses@),
                        compatible_capabilities: bits,
                        registration_expires_at: 0,
                        ticket_expires_at: 0,
                        ticket: Seq::empty(),
                    };
                    assert(head_matches(head, m));
                    assert(unknown_bits_after(body, m, at));
                    assert(has_unknown_bits(body));
                }
                return Err(ResolveProtocolError::CapabilityMismatch);
            },
        };
        let registration_expires_at: i64 = match reader.i64() {
            Some(time) => time,
            None => return Err(ResolveProtocolError::Malformed),
        };
        let ticket_expires_at: i64 = match reader.i64() {
            Some(time) => time,
            None => return Err(ResolveProtocolError::Malformed),
        };
        let blob = match reader.blob() {
            Some(blob) => blob,
            None => return Err(ResolveProtocolError::Malformed),
        };
        let ticket = match RawTicket::new(vstd::slice::slice_to_vec(blob)) {
            Ok(ticket) => ticket,
            Err(_) => return Err(ResolveProtocolError::Malformed),
        };
        if !reader.at_end() {
            return Err(ResolveProtocolError::Malformed);
        }
        let response = ResolveResponseV1::Resolved {
            request_id: head.request_id,
            server_peer_id: head.server_peer_id,
            upstream_id: head.upstream_id,
            selector_fingerprint: head.selector_fingerprint,
            registration_revision: head.registration_revision,
            relay_addresses: head.relay_addresses,
            compatible_capabilities,
            registration_expires_at,
            ticket_expires_at,
            ticket,
        };
        proof {
            let m = response@->Resolved_0;
            assert(head_matches(head, m));
            assert(reads_resolved_head(body, m, at) && reads_resolved_tail(at, m));
            assert(reads_resolved(body, m));
        }
        Ok(response)
    }

    /// Whether this is a positive answer that is still good.
    pub fn resolved_at(&self, now: i64) -> (r: bool)
        ensures
            r == (self@ matches ResolveResponseModel::Resolved(m) && m.registration_expires_at > now
                && m.ticket_expires_at > now && m.ticket_expires_at <= m.registration_expires_at),
    {
        match self {
            ResolveResponseV1::Resolved { registration_expires_at, ticket_expires_at, .. } => {
                *registration_expires_at > now && *ticket_expires_at > now && *ticket_expires_at
                    <= *registration_expires_at
            },
            ResolveResponseV1::Rejected { .. } => false,
        }
    }
}

/// Appends the fields behind the addresses.
fn put_resolved_tail(
    out: &mut Vec<u8>,
    bits: u32,
    registration_expires_at: i64,
    ticket_expires_at: i64,
    ticket: &[u8],
)
    requires
        ticket_sized(ticket@),
    ensures
        final(out)@ == old(out)@ + (be32(bits) + (be_i64(registration_expires_at) + (be_i64(
            ticket_expires_at,
        ) + enc_blob(ticket@)))),
{
    broadcast use crate::bytes::lemma_add_assoc;

    put_u32(out, bits);
    put_i64(out, registration_expires_at);
    put_i64(out, ticket_expires_at);
    put_blob(out, ticket);
}

/// Appends addresses.
fn put_addresses(out: &mut Vec<u8>, addresses: &Vec<Vec<u8>>)
    requires
        forall|i: int| 0 <= i < addresses@.len() ==> (#[trigger] address_list(addresses@)[i]).len() <= u16::MAX,
    ensures
        final(out)@ == old(out)@ + enc_addresses(address_list(addresses@)),
{
    let ghost list = address_list(addresses@);
    let ghost before = out@;
    let mut i: usize = 0;
    assert(list.take(0) =~= Seq::<Seq<u8>>::empty());
    assert(out@ =~= before + enc_addresses(list.take(0)));
    while i < addresses.len()
        invariant
            i <= addresses@.len(),
            list == address_list(addresses@),
            forall|j: int| 0 <= j < addresses@.len() ==> (#[trigger] list[j]).len() <= u16::MAX,
            out@ == before + enc_addresses(list.take(i as int)),
        decreases addresses@.len() - i,
    {
        let bytes = addresses[i].as_slice();
        assert(bytes@ == list[i as int]);
        put_blob(out, bytes);
        proof {
            assert(list.take(i + 1).drop_last() =~= list.take(i as int));
            assert(list.take(i + 1).last() == bytes@);
            crate::bytes::lemma_add_assoc(
                before,
                enc_addresses(list.take(i as int)),
                enc_blob(bytes@),
            );
        }
        i = i + 1;
    }
    assert(list.take(i as int) =~= list);
}

/// A positive answer is good until its ticket runs out, provided that the ticket
/// does not outlive the registration; a refusal is never good.
pub proof fn law_answers_are_good_for_a_while(answer: ResolveResponseV1, now: i64, r: bool)
    requires
        call_ensures(ResolveResponseV1::resolved_at, (&answer, now), r),
    ensures
        answer@ is Rejected ==> !r,
        answer@ matches ResolveResponseModel::Resolved(m) ==> {
            &&& r <==> now < m.ticket_expires_at <= m.registration_expires_at
            &&& now >= m.registration_expires_at ==> !r
        },
{
}

/// What is wrong with a message is shown to the other side under a name of its own.
pub proof fn law_faults_are_shown_by_name(error: ResolveProtocolError, r: PublicErrorCode)
    requires
        call_ensures(ResolveProtocolError::public_code, (error,), r),
    ensures
        error is FrameTooLarge <==> r is ProtocolFrameTooLarge,
        error is Malformed <==> r is ProtocolMalformed,
        error is UnsupportedVersion <==> r is ProtocolUnsupportedVersion,
        error is CapabilityMismatch <==> r is ProtocolCapabilityMismatch,
{
}

/// A relay address leads to a relay, through it by a circuit, and to a peer at its
/// end; no other peer is named in it.
pub proof fn law_relay_addresses_name_relay_and_peer(parts: Seq<PartModel>, c: int)
    requires
        0 <= c < parts.len(),
        parts[c] == PartModel::P2pCircuit,
        forall|j: int| 0 <= j < c ==> #[trigger] parts[j] != PartModel::P2pCircuit,
    ensures
        circuit_route(parts) <==> {
            &&& c >= 1
            &&& parts[c - 1] is P2p
            &&& parts.last() is P2p
            &&& forall|i: int|
                0 <= i < parts.len() && i != c - 1 && i != parts.len() - 1 ==> !((#[trigger] parts[i]) is P2p)
        },
{
    lemma_first_circuit(parts, c);
}

/// Without a circuit an address leads through no relay.
pub proof fn law_direct_addresses_are_no_relay_addresses(parts: Seq<PartModel>)
    requires
        forall|j: int| 0 <= j < parts.len() ==> #[trigger] parts[j] != PartModel::P2pCircuit,
    ensures
        !circuit_route(parts),
{
}

/// An answer names between one and four relay addresses, each of up to five hundred
/// and twelve bytes, and a ticket that does not outlive the registration.
pub proof fn law_valid_answers_are_bounded(m: ResolvedModel)
    ensures
        valid_resolved(m) <==> {
            &&& peer_id_bytes(m.server_peer_id) && m.server_peer_id.len() < 256
            &&& id_text(m.upstream_id)
            &&& m.registration_revision >= 1
            &&& 1 <= m.relay_addresses.len() <= 4
            &&& forall|i: int|
                0 <= i < m.relay_addresses.len() ==> 1 <= (#[trigger] m.relay_addresses[i]).len() <= 512 && (
                address_parts(m.relay_addresses[i]) matches Some(parts) && circuit_route(parts))
            &&& m.compatible_capabilities < 16
            &&& m.ticket_expires_at <= m.registration_expires_at
            &&& ticket_sized(m.ticket)
        },
{
    if valid_resolved(m) {
        assert forall|i: int| 0 <= i < m.relay_addresses.len() implies 1 <= (
        #[trigger] m.relay_addresses[i]).len() <= 512 && (address_parts(m.relay_addresses[i]) matches Some(
            parts,
        ) && circuit_route(parts)) by {
            assert(relay_address(m.relay_addresses[i]));
        }
    }
    if 1 <= m.relay_addresses.len() <= 4 && forall|i: int|
        0 <= i < m.relay_addresses.len() ==> 1 <= (#[trigger] m.relay_addresses[i]).len() <= 512 && (
        address_parts(m.relay_addresses[i]) matches Some(parts) && circuit_route(parts)) {
        assert forall|i: int| 0 <= i < m.relay_addresses.len() implies relay_address(
            #[trigger] m.relay_addresses[i],
        ) by {
            assert(1 <= m.relay_addresses[i].len() <= 512);
        }
    }
}

/// A request is written as version, kind, its number, the session, the selector and
/// the capabilities.
pub proof fn law_requests_are_written_in_order(m: ResolveRequestModel)
    ensures
        enc_request(m) == seq![1u8, 0u8] + m.request_id@ + m.session_id@ + selector_bytes(m.selector) + be32(
            m.client_capabilities,
        ),
{
    assert(enc_request(m) =~= seq![1u8, 0u8] + m.request_id@ + m.session_id@ + selector_bytes(m.selector)
        + be32(m.client_capabilities));
}

/// A request with capabilities that are not known is refused for that.
pub proof fn law_unknown_capabilities_are_a_mismatch(m: ResolveRequestModel)
    requires
        valid_selector(m.selector),
        m.client_capabilities >= 16,
    ensures
        request_error(enc_request(m)) == ResolveProtocolError::CapabilityMismatch,
        forall|x: ResolveRequestModel| !reads_request(enc_request(m), x),
{
    let none = Seq::<u8>::empty();
    lemma_request_then(m, none);
    assert(enc_request(m) + none =~= enc_request(m));
    crate::bytes::lemma_field_lengths(0, m.client_capabilities, 0, 0);
    assert(enc_request(m).len() == 34 + selector_bytes(m.selector).len() + 4);
}

proof fn lemma_answer_in_order(m: ResolvedModel, addresses: Seq<u8>)
    requires
        addresses == enc_addresses(m.relay_addresses),
    ensures
        enc_response(ResolveResponseModel::Resolved(m)) == seq![1u8, 0u8] + m.request_id@ + enc_short(
            m.server_peer_id,
        ) + enc_text(m.upstream_id) + m.selector_fingerprint@ + be64(m.registration_revision) + seq![
            m.relay_addresses.len() as u8,
        ] + addresses + be32(m.compatible_capabilities) + be_i64(m.registration_expires_at) + be_i64(
            m.ticket_expires_at,
        ) + enc_blob(m.ticket),
{
    let (a, b, c, d) = (m.request_id@, enc_short(m.server_peer_id), enc_text(m.upstream_id), m.selector_fingerprint@);
    let (e, f) = (be64(m.registration_revision), seq![m.relay_addresses.len() as u8]);
    let (g, h, i, j) = (
        be32(m.compatible_capabilities),
        be_i64(m.registration_expires_at),
        be_i64(m.ticket_expires_at),
        enc_blob(m.ticket),
    );
    let head = seq![1u8, 0u8];
    assert(seq![1u8] + seq![0u8] =~= head);
    let whole = enc_response(ResolveResponseModel::Resolved(m));
    assert(whole == seq![1u8] + (seq![0u8] + (a + (b + (c + (d + (e + (f + (addresses + (g + (h + (i
        + j))))))))))));
    assert(whole == head + a + b + c + d + e + f + addresses + g + h + i + j) by {
        broadcast use crate::bytes::lemma_add_assoc;

    }
}

/// A positive answer is written as version, kind, the number of the request, the
/// server, its service, the fingerprint, the revision, the relay addresses after
/// their number, the capabilities, when the registration and the ticket run out,
/// and the ticket; a refusal as version, kind, the number of the request if it is
/// known, and the error.
pub proof fn law_answers_are_written_in_order(
    m: ResolvedModel,
    address: Seq<u8>,
    request_id: [u8; 16],
    error: PublicError,
)
    ensures
        enc_response(ResolveResponseModel::Resolved(m)) == seq![1u8, 0u8] + m.request_id@ + enc_short(
            m.server_peer_id,
        ) + enc_text(m.upstream_id) + m.selector_fingerprint@ + be64(m.registration_revision) + seq![
            m.relay_addresses.len() as u8,
        ] + enc_addresses(m.relay_addresses) + be32(m.compatible_capabilities) + be_i64(
            m.registration_expires_at,
        ) + be_i64(m.ticket_expires_at) + enc_blob(m.ticket),
        enc_response(ResolveResponseModel::Rejected(None, error)) == seq![1u8, 1u8, 0u8] + enc_error(error),
        enc_response(ResolveResponseModel::Rejected(Some(request_id), error)) == seq![1u8, 1u8, 1u8]
            + request_id@ + enc_error(error),
        enc_addresses(Seq::empty()) == Seq::<u8>::empty(),
        enc_addresses(m.relay_addresses.push(address)) == enc_addresses(m.relay_addresses) + enc_blob(
            address,
        ),
{
    assert(m.relay_addresses.push(address).drop_last() =~= m.relay_addresses);
    assert(enc_response(ResolveResponseModel::Rejected(None, error)) =~= seq![1u8, 1u8, 0u8] + enc_error(
        error,
    ));
    assert(enc_response(ResolveResponseModel::Rejected(Some(request_id), error)) =~= seq![1u8, 1u8, 1u8]
        + request_id@ + enc_error(error));
    let addresses = enc_addresses(m.relay_addresses);
    lemma_answer_in_order(m, addresses);
}

} // verus!
