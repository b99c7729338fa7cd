//! The handshake with which a client opens a tunnel.
use crate::bytes::{
    be64, enc_blob, enc_text, put_blob, put_bytes, put_text, put_u64, put_u8, split_blob, split_bytes,
    split_text, split_u64, split_u8, Reader,
};
use crate::error::{
    enc_error, lemma_error_reads, put_error, read_error, reads_error, PublicError, PublicErrorCode,
};
use crate::ids::{id_text, lemma_id_utf8, RegistrationRevision, UpstreamId};
use crate::ticket::{ticket_sized, RawTicket};
use vstd::prelude::*;

verus! {

/// The longest handshake frame.
pub const MAX_PROXY_HANDSHAKE_FRAME: usize = 4096;

/// How a tunnel came to the client.
#[derive(Clone, Copy, Debug, PartialEq, Eq, Structural)]
pub enum IngressKind {
    FixedTcp,
    HttpHost,
    TlsSni,
}

/// The byte that stands for a kind of ingress.
pub open spec fn ingress_wire(kind: IngressKind) -> u8 {
    match kind {
        IngressKind::FixedTcp => 0,
        IngressKind::HttpHost => 1,
        IngressKind::TlsSni => 2,
    }
}

/// The request for a tunnel.
#[derive(PartialEq, Eq)]
pub struct OpenProxyStreamV1 {
    pub request_id: [u8; 16],
    pub ticket: RawTicket,
    pub upstream_id: UpstreamId,
    pub registration_revision: RegistrationRevision,
    pub ingress_kind: IngressKind,
}

/// What a request for a tunnel says.
#[verifier::ext_equal]
pub struct OpenModel {
    pub request_id: [u8; 16],
    pub ticket: Seq<u8>,
    pub upstream_id: Seq<char>,
    pub registration_revision: u64,
    pub ingress_kind: IngressKind,
}

impl View for OpenProxyStreamV1 {
    type V = OpenModel;

    open spec fn view(&self) -> OpenModel {
        OpenModel {
            request_id: self.request_id,
            ticket: self.ticket@,
            upstream_id: self.upstream_id@,
            registration_revision: self.registration_revision@,
            ingress_kind: self.ingress_kind,
        }
    }
}

/// What a valid request is.
pub open spec fn valid_open(m: OpenModel) -> bool {
    ticket_sized(m.ticket) && id_text(m.upstream_id) && m.registration_revision != 0
}

/// The bytes of a request.
pub open spec fn enc_open(m: OpenModel) -> Seq<u8> {
    seq![1u8] + (seq![0u8] + (m.request_id@ + (enc_blob(m.ticket) + (enc_text(m.upstream_id) + (be64(
        m.registration_revision,
    ) + seq![ingress_wire(m.ingress_kind)])))))
}

/// How the far end of a tunnel is reached.
#[derive(Clone, Copy, Debug, PartialEq, Eq, Structural)]
pub enum UpstreamMode {
    Tcp,
}

/// The answer to a request for a tunnel.
#[allow(inconsistent_fields)]
#[derive(Clone, Copy, Debug, PartialEq, Eq)]
pub enum ProxyOpenResponseV1 {
    Authorized { request_id: [u8; 16], stream_id: [u8; 16] },
    Accepted { request_id: [u8; 16], stream_id: [u8; 16], selected_upstream_mode: UpstreamMode },
    Rejected { request_id: Option<[u8; 16]>, error: PublicError },
}

/// An optional request number: a byte that says whether it is there, and then
/// the number.
pub open spec fn enc_optional_id(id: Option<[u8; 16]>) -> Seq<u8> {
    match id {
        Some(id) => seq![1u8] + id@,
        None => seq![0u8],
    }
}

/// The bytes of an answer.
pub open spec fn enc_response(m: ProxyOpenResponseV1) -> Seq<u8> {
    seq![1u8] + match m {
        ProxyOpenResponseV1::Authorized { request_id, stream_id } => seq![0u8] + (request_id@
            + stream_id@),
        ProxyOpenResponseV1::Accepted { request_id, stream_id, selected_upstream_mode } => seq![1u8]
            + (request_id@ + (stream_id@ + seq![0u8])),
        ProxyOpenResponseV1::Rejected { request_id, error } => seq![2u8] + (enc_optional_id(request_id)
            + enc_error(error)),
    }
}

#[derive(Clone, Copy, Debug, PartialEq, Eq, Structural)]
pub enum ProxyProtocolError {
    FrameTooLarge,
    Malformed,
    UnsupportedVersion,
}

impl ProxyProtocolError {
    /// The code that is shown to the other side.
    pub fn public_code(self) -> (r: PublicErrorCode)
        ensures
            r == match self {
                ProxyProtocolError::FrameTooLarge => PublicErrorCode::ProtocolFrameTooLarge,
                ProxyProtocolError::Malformed => PublicErrorCode::ProtocolMalformed,
                ProxyProtocolError::UnsupportedVersion => PublicErrorCode::ProtocolUnsupportedVersion,
            },
    {
        match self {
            ProxyProtocolError::FrameTooLarge => PublicErrorCode::ProtocolFrameTooLarge,
            ProxyProtocolError::Malformed => PublicErrorCode::ProtocolMalformed,
            ProxyProtocolError::UnsupportedVersion => PublicErrorCode::ProtocolUnsupportedVersion,
        }
    }
}

/// Why bytes are not a message of this version.
pub open spec fn handshake_error(bytes: Seq<u8>) -> ProxyProtocolError {
    if bytes.len() > 0 && bytes[0] != 1 {
        ProxyProtocolError::UnsupportedVersion
    } else {
        ProxyProtocolError::Malformed
    }
}

/// Whether bytes read as the request `m`, field by field.
spec fn reads_open(s: Seq<u8>, m: OpenModel) -> bool {
    match split_u8(s) {
        None => false,
        Some((version, s)) => version == 1 && match split_u8(s) {
            None => false,
            Some((kind, s)) => kind == 0 && match split_bytes(s, 16) {
                None => false,
                Some((id, s)) => id == m.request_id@ && match split_blob(s) {
                    None => false,
                    Some((ticket, s)) => ticket == m.ticket && match split_text(s) {
                        None => false,
                        Some((upstream, s)) => upstream == m.upstream_id && match split_u64(s) {
                            None => false,
                            Some((revision, s)) => revision == m.registration_revision && match split_u8(
                                s,
                            ) {
                                None => false,
                                Some((ingress, s)) => ingress == ingress_wire(m.ingress_kind) && s.len()
                                    == 0,
                            },
                        },
                    },
                },
            },
        },
    }
}

proof fn lemma_open_reads(s: Seq<u8>, m: OpenModel)
    requires
        valid_open(m),
    ensures
        reads_open(s, m) <==> s == enc_open(m),
{
    lemma_id_utf8(m.upstream_id);
    let kind = ingress_wire(m.ingress_kind);
    if s == enc_open(m) {
        let s6 = seq![kind];
        let s5 = be64(m.registration_revision) + s6;
        let s4 = enc_text(m.upstream_id) + s5;
        let s3 = enc_blob(m.ticket) + s4;
        let s2 = m.request_id@ + s3;
        let s1 = seq![0u8] + s2;
        crate::bytes::lemma_split_u8(1, s1);
        crate::bytes::lemma_split_u8(0, s2);
        crate::bytes::lemma_split_bytes(m.request_id@, s3);
        crate::bytes::lemma_split_blob(m.ticket, s4);
        crate::bytes::lemma_split_text(m.upstream_id, s5);
        crate::bytes::lemma_split_u64(m.registration_revision, s6);
        crate::bytes::lemma_split_u8(kind, Seq::empty());
        assert(seq![kind] + Seq::<u8>::empty() =~= s6);
    }
    if reads_open(s, m) {
        crate::bytes::lemma_join_u8(s);
        let s1 = (split_u8(s)->0).1;
        crate::bytes::lemma_join_u8(s1);
        let s2 = (split_u8(s1)->0).1;
        crate::bytes::lemma_join_bytes(s2, 16);
        let s3 = (split_bytes(s2, 16)->0).1;
        crate::bytes::lemma_join_blob(s3);
        let s4 = (split_blob(s3)->0).1;
        crate::bytes::lemma_join_text(s4);
        let s5 = (split_text(s4)->0).1;
        crate::bytes::lemma_join_u64(s5);
        let s6 = (split_u64(s5)->0).1;
        crate::bytes::lemma_join_u8(s6);
        let s7 = (split_u8(s6)->0).1;
        assert(seq![kind] + s7 =~= seq![kind]);
    }
}

/// Different requests have different bytes, so that the bytes of a request can be
/// read as that request alone.
pub proof fn law_open_encoding_is_injective(a: OpenModel, b: OpenModel)
    requires
        valid_open(a),
        valid_open(b),
        enc_open(a) == enc_open(b),
    ensures
        a == b,
{
    lemma_open_reads(enc_open(a), a);
    lemma_open_reads(enc_open(a), b);
    crate::bytes::lemma_array_view(a.request_id, b.request_id);
}

/// A request with anything after it is the bytes of no request, and malformed.
pub proof fn law_open_ends_its_frame(m: OpenModel, added: Seq<u8>)
    requires
        valid_open(m),
        added.len() > 0,
    ensures
        forall|x: OpenModel| valid_open(x) ==> #[trigger] enc_open(x) != enc_open(m) + added,
        handshake_error(enc_open(m) + added) == ProxyProtocolError::Malformed,
{
    broadcast use crate::bytes::lemma_add_assoc;

    lemma_id_utf8(m.upstream_id);
    let kind = ingress_wire(m.ingress_kind);
    let s6 = seq![kind] + added;
    let s5 = be64(m.registration_revision) + s6;
    let s4 = enc_text(m.upstream_id) + s5;
    let s3 = enc_blob(m.ticket) + s4;
    let s2 = m.request_id@ + s3;
    let s1 = seq![0u8] + s2;
    assert(enc_open(m) + added == seq![1u8] + s1);
    crate::bytes::lemma_split_u8(1, s1);
    crate::bytes::lemma_split_u8(0, s2);
    crate::bytes::lemma_split_bytes(m.request_id@, s3);
    crate::bytes::lemma_split_blob(m.ticket, s4);
    crate::bytes::lemma_split_text(m.upstream_id, s5);
    crate::bytes::lemma_split_u64(m.registration_revision, s6);
    crate::bytes::lemma_split_u8(kind, added);
    assert forall|x: OpenModel| valid_open(x) implies #[trigger] enc_open(x) != enc_open(m) + added by {
        lemma_open_reads(enc_open(m) + added, x);
    }
    assert((enc_open(m) + added)[0] == 1);
}

/// Bytes that start with another version than one are of an unsupported
/// version and the bytes of no message.
pub proof fn law_handshake_version_is_one(s: Seq<u8>)
    requires
        s.len() > 0,
        s[0] != 1,
    ensures
        forall|x: OpenModel| #[trigger] enc_open(x) != s,
        forall|x: ProxyOpenResponseV1| #[trigger] enc_response(x) != s,
        handshake_error(s) == ProxyProtocolError::UnsupportedVersion,
{
    assert forall|x: OpenModel| #[trigger] enc_open(x) != s by {
        assert(enc_open(x)[0] == 1);
    }
    assert forall|x: ProxyOpenResponseV1| #[trigger] enc_response(x) != s by {
        assert(enc_response(x)[0] == 1);
    }
}

/// The kind of ingress that a byte stands for.
fn decode_ingress(byte: u8) -> (r: Option<IngressKind>)
    ensures
        match r {
            Some(kind) => ingress_wire(kind) == byte,
            None => forall|kind: IngressKind| #[trigger] ingress_wire(kind) != byte,
        },
{
    match byte {
        0 => Some(IngressKind::FixedTcp),
        1 => Some(IngressKind::HttpHost),
        2 => Some(IngressKind::TlsSni),
        _ => None,
    }
}

impl OpenProxyStreamV1 {
    /// The bytes of the request. Every request fits its frame.
    pub fn canonical_bytes(&self) -> (r: Result<Vec<u8>, ProxyProtocolError>)
        ensures
            r matches Ok(bytes) && bytes@ == enc_open(self@) && bytes@.len()
                <= MAX_PROXY_HANDSHAKE_FRAME,
    {
        broadcast use crate::bytes::lemma_add_assoc;

        let mut out: Vec<u8> = Vec::new();
        put_u8(&mut out, 1);
        assert(out@ =~= seq![1u8]);
        put_u8(&mut out, 0);
        put_bytes(&mut out, &self.request_id);
        let ticket = self.ticket.as_bytes();
        put_blob(&mut out, ticket);
        let upstream = self.upstream_id.as_str();
        proof {
            lemma_id_utf8(upstream@);
        }
        put_text(&mut out, upstream);
        put_u64(&mut out, self.registration_revision.get());
        let kind: u8 = match self.ingress_kind {
            IngressKind::FixedTcp => 0,
            IngressKind::HttpHost => 1,
            IngressKind::TlsSni => 2,
        };
        let ghost before = out@;
        proof {
            crate::bytes::lemma_field_lengths(0, 0, self.registration_revision@, 0);
            lemma_open_len(self@);
        }
        put_u8(&mut out, kind);
        Ok(out)
    }

    fn read(bytes: &[u8]) -> (r: Option<Self>)
        ensures
            match r {
                Some(open) => reads_open(bytes@, open@) && valid_open(open@),
                None => forall|m: OpenModel| valid_open(m) ==> !reads_open(bytes@, m),
            },
    {
        let mut reader = Reader::new(bytes);
        let version: u8 = reader.u8()?;
        let kind: u8 = reader.u8()?;
        if version != 1 || kind != 0 {
            return None;
        }
        let request_id: [u8; 16] = reader.array()?;
        let ticket = match RawTicket::new(vstd::slice::slice_to_vec(reader.blob()?)) {
            Ok(ticket) => ticket,
            Err(_) => return None,
        };
        let name = reader.text()?;
        let upstream_id = match UpstreamId::new(name.as_str()) {
            Ok(id) => id,
            Err(_) => return None,
        };
        let registration_revision = RegistrationRevision::new(reader.u64()?)?;
        let ingress_kind = decode_ingress(reader.u8()?)?;
        if !reader.at_end() {
            return None;
        }
        Some(
            OpenProxyStreamV1 {
                request_id,
                ticket,
                upstream_id,
                registration_revision,
                ingress_kind,
            },
        )
    }

    /// The request with the given bytes.
    pub fn decode(bytes: &[u8]) -> (r: Result<Self, ProxyProtocolError>)
        ensures
            match r {
                Ok(open) => valid_open(open@) && bytes@ == enc_open(open@),
                Err(error) => error == handshake_error(bytes@) && forall|m: OpenModel|
                    valid_open(m) ==> #[trigger] enc_open(m) != bytes@,
            },
    {
        assert forall|m: OpenModel| valid_open(m) implies (reads_open(bytes@, m) <==> bytes@
            == #[trigger] enc_open(m)) by {
            lemma_open_reads(bytes@, m);
        }
        if bytes.len() > 0 && bytes[0] != 1 {
            assert(bytes@.subrange(0, 1)[0] == bytes@[0]);
            return Err(ProxyProtocolError::UnsupportedVersion);
        }
        match OpenProxyStreamV1::read(bytes) {
            Some(open) => Ok(open),
            None => Err(ProxyProtocolError::Malformed),
        }
    }
}

/// A request fits into a frame.
pub proof fn lemma_open_len(m: OpenModel)
    requires
        valid_open(m),
    ensures
        enc_open(m).len() <= MAX_PROXY_HANDSHAKE_FRAME,
{
    lemma_id_utf8(m.upstream_id);
    crate::bytes::lemma_field_lengths(0, 0, m.registration_revision, 0);
}

impl Clone for OpenProxyStreamV1 {
    fn clone(&self) -> (r: Self)
        ensures
            r@ == self@,
    {
        OpenProxyStreamV1 {
            request_id: self.request_id,
            ticket: self.ticket.clone(),
            upstream_id: self.upstream_id.clone(),
            registration_revision: self.registration_revision,
            ingress_kind: self.ingress_kind,
        }
    }
}

/// Whether bytes start with the optional number `id`, and what follows it.
pub open spec fn reads_optional_id(s: Seq<u8>, id: Option<[u8; 16]>, rest: Seq<u8>) -> bool {
    match split_u8(s) {
        None => false,
        Some((flag, s)) => match id {
            None => flag == 0 && s == rest,
            Some(id) => flag == 1 && match split_bytes(s, 16) {
                None => false,
                Some((v, s)) => v == id@ && s == rest,
            },
        },
    }
}

/// An optional number reads as itself, and only its own bytes read as it.
pub proof fn lemma_optional_id_reads(s: Seq<u8>, id: Option<[u8; 16]>, rest: Seq<u8>)
    ensures
        reads_optional_id(s, id, rest) <==> s == enc_optional_id(id) + rest,
{
    match id {
        None => {
            crate::bytes::lemma_split_u8(0, rest);
            crate::bytes::lemma_join_u8(s);
        },
        Some(id) => {
            crate::bytes::lemma_add_assoc(seq![1u8], id@, rest);
            crate::bytes::lemma_split_u8(1, id@ + rest);
            crate::bytes::lemma_split_bytes(id@, rest);
            crate::bytes::lemma_join_u8(s);
            if let Some((_, tail)) = split_u8(s) {
                crate::bytes::lemma_join_bytes(tail, 16);
            }
        },
    }
}

/// Appends an optional number.
pub(crate) fn put_optional_id(out: &mut Vec<u8>, id: Option<[u8; 16]>)
    ensures
        final(out)@ == old(out)@ + enc_optional_id(id),
{
    broadcast use crate::bytes::lemma_add_assoc;

    match id {
        Some(id) => {
            put_u8(out, 1);
            put_bytes(out, &id);
        },
        None => put_u8(out, 0),
    }
}

/// Reads an optional number.
pub(crate) fn read_optional_id(reader: &mut Reader<'_>) -> (r: Option<Option<[u8; 16]>>)
    ensures
        match r {
            Some(id) => reads_optional_id(old(reader)@, id, final(reader)@),
            None => forall|id: Option<[u8; 16]>, rest: Seq<u8>|
                !reads_optional_id(old(reader)@, id, rest),
        },
{
    let flag: u8 = reader.u8()?;
    if flag == 0 {
        Some(None)
    } else if flag == 1 {
        let id: [u8; 16] = reader.array()?;
        Some(Some(id))
    } else {
        None
    }
}

/// Whether bytes read as the answer `m`, field by field.
spec fn reads_response(s: Seq<u8>, m: ProxyOpenResponseV1) -> bool {
    match split_u8(s) {
        None => false,
        Some((version, s)) => version == 1 && match split_u8(s) {
            None => false,
            Some((kind, s)) => match m {
                ProxyOpenResponseV1::Authorized { request_id, stream_id } => kind == 0
                    && match split_bytes(s, 16) {
                    None => false,
                    Some((a, s)) => a == request_id@ && match split_bytes(s, 16) {
                        None => false,
                        Some((b, s)) => b == stream_id@ && s.len() == 0,
                    },
                },
                ProxyOpenResponseV1::Accepted { request_id, stream_id, selected_upstream_mode } => kind
                    == 1 && match split_bytes(s, 16) {
                    None => false,
                    Some((a, s)) => a == request_id@ && match split_bytes(s, 16) {
                        None => false,
                        Some((b, s)) => b == stream_id@ && match split_u8(s) {
                            None => false,
                            Some((mode, s)) => mode == 0 && s.len() == 0,
                        },
                    },
                },
                ProxyOpenResponseV1::Rejected { request_id, error } => kind == 2 && exists|tail: Seq<u8>|
                    #[trigger] reads_optional_id(s, request_id, tail) && reads_error(
                        tail,
                        error,
                        Seq::empty(),
                    ),
            },
        },
    }
}

proof fn lemma_response_reads(s: Seq<u8>, m: ProxyOpenResponseV1)
    ensures
        reads_response(s, m) <==> s == enc_response(m),
{
    let none = Seq::<u8>::empty();
    crate::bytes::lemma_join_u8(s);
    if let Some((_, s1)) = split_u8(s) {
        crate::bytes::lemma_join_u8(s1);
    }
    match m {
        ProxyOpenResponseV1::Authorized { request_id, stream_id } => {
            if s == enc_response(m) {
                let s2 = request_id@ + stream_id@;
                crate::bytes::lemma_split_u8(1, seq![0u8] + s2);
                crate::bytes::lemma_split_u8(0, s2);
                crate::bytes::lemma_split_bytes(request_id@, stream_id@);
                crate::bytes::lemma_split_bytes(stream_id@, none);
                assert(stream_id@ + none =~= stream_id@);
            }
            if reads_response(s, m) {
                let s2 = (split_u8((split_u8(s)->0).1)->0).1;
                crate::bytes::lemma_join_bytes(s2, 16);
                let s3 = (split_bytes(s2, 16)->0).1;
                crate::bytes::lemma_join_bytes(s3, 16);
                let s4 = (split_bytes(s3, 16)->0).1;
                assert(stream_id@ + s4 =~= stream_id@);
            }
        },
        ProxyOpenResponseV1::Accepted { request_id, stream_id, selected_upstream_mode } => {
            if s == enc_response(m) {
                let s4 = seq![0u8];
                let s3 = stream_id@ + s4;
                let s2 = request_id@ + s3;
                crate::bytes::lemma_split_u8(1, seq![1u8] + s2);
                crate::bytes::lemma_split_u8(1, s2);
                crate::bytes::lemma_split_bytes(request_id@, s3);
                crate::bytes::lemma_split_bytes(stream_id@, s4);
                crate::bytes::lemma_split_u8(0, none);
                assert(seq![0u8] + none =~= s4);
            }
            if reads_response(s, m) {
                let s2 = (split_u8((split_u8(s)->0).1)->0).1;
                crate::bytes::lemma_join_bytes(s2, 16);
                let s3 = (split_bytes(s2, 16)->0).1;
                crate::bytes::lemma_join_bytes(s3, 16);
                let s4 = (split_bytes(s3, 16)->0).1;
                crate::bytes::lemma_join_u8(s4);
                let s5 = (split_u8(s4)->0).1;
                assert(seq![0u8] + s5 =~= seq![0u8]);
            }
        },
        ProxyOpenResponseV1::Rejected { request_id, error } => {
            let tail = enc_error(error);
            assert(tail + none =~= tail);
            if s == enc_response(m) {
                let s2 = enc_optional_id(request_id) + tail;
                crate::bytes::lemma_split_u8(1, seq![2u8] + s2);
                crate::bytes::lemma_split_u8(2, s2);
                lemma_optional_id_reads(s2, request_id, tail);
                lemma_error_reads(tail, error, none);
            }
            if reads_response(s, m) {
                let s2 = (split_u8((split_u8(s)->0).1)->0).1;
                let rest = choose|tail: Seq<u8>|
                    #[trigger] reads_optional_id(s2, request_id, tail) && reads_error(tail, error, none);
                lemma_optional_id_reads(s2, request_id, rest);
                lemma_error_reads(rest, error, none);
            }
        },
    }
}

/// Different answers have different bytes, so that the bytes of an answer can be
/// read as that answer alone.
pub proof fn law_response_encoding_is_injective(a: ProxyOpenResponseV1, b: ProxyOpenResponseV1)
    requires
        enc_response(a) == enc_response(b),
    ensures
        a == b,
{
    let s = enc_response(a);
    lemma_response_reads(s, a);
    lemma_response_reads(s, b);
    match (a, b) {
        (
            ProxyOpenResponseV1::Rejected { request_id: ida, error: ea },
            ProxyOpenResponseV1::Rejected { request_id: idb, error: eb },
        ) => {
            let s2 = (split_u8((split_u8(s)->0).1)->0).1;
            let ra = choose|tail: Seq<u8>|
                #[trigger] reads_optional_id(s2, ida, tail) && reads_error(tail, ea, Seq::empty());
            let rb = choose|tail: Seq<u8>|
                #[trigger] reads_optional_id(s2, idb, tail) && reads_error(tail, eb, Seq::empty());
            if let (Some(x), Some(y)) = (ida, idb) {
                crate::bytes::lemma_array_view(x, y);
            }
            crate::error::lemma_error_unique(ra, ea, eb, Seq::empty(), Seq::empty());
        },
        (
            ProxyOpenResponseV1::Authorized { request_id: ra, stream_id: sa },
            ProxyOpenResponseV1::Authorized { request_id: rb, stream_id: sb },
        ) => {
            crate::bytes::lemma_array_view(ra, rb);
            crate::bytes::lemma_array_view(sa, sb);
        },
        (
            ProxyOpenResponseV1::Accepted { request_id: ra, stream_id: sa, selected_upstream_mode: ma },
            ProxyOpenResponseV1::Accepted { request_id: rb, stream_id: sb, selected_upstream_mode: mb },
        ) => {
            crate::bytes::lemma_array_view(ra, rb);
            crate::bytes::lemma_array_view(sa, sb);
            assert(ma == mb);
        },
        _ => {},
    }
}

/// What follows a refusal is determined by the bytes.
pub proof fn lemma_same_after_refusals(
    ida: Option<[u8; 16]>,
    ea: PublicError,
    x: Seq<u8>,
    idb: Option<[u8; 16]>,
    eb: PublicError,
    y: Seq<u8>,
)
    requires
        enc_optional_id(ida) + (enc_error(ea) + x) == enc_optional_id(idb) + (enc_error(eb) + y),
    ensures
        x == y,
{
    let s = enc_optional_id(ida) + (enc_error(ea) + x);
    lemma_optional_id_reads(s, ida, enc_error(ea) + x);
    lemma_optional_id_reads(s, idb, enc_error(eb) + y);
    lemma_error_reads(enc_error(ea) + x, ea, x);
    lemma_error_reads(enc_error(eb) + y, eb, y);
    crate::error::lemma_error_unique(enc_error(ea) + x, ea, eb, x, y);
}

/// An answer with anything after it is the bytes of no answer, and malformed.
pub proof fn law_response_ends_its_frame(m: ProxyOpenResponseV1, added: Seq<u8>)
    requires
        added.len() > 0,
    ensures
        forall|x: ProxyOpenResponseV1| #[trigger] enc_response(x) != enc_response(m) + added,
        handshake_error(enc_response(m) + added) == ProxyProtocolError::Malformed,
{
    let none = Seq::<u8>::empty();
    let s = enc_response(m) + added;
    assert(s[0] == 1);
    assert forall|x: ProxyOpenResponseV1| #[trigger] enc_response(x) != s by {
        assert(s[1] == enc_response(m)[1]);
        if enc_response(x) == s {
            assert(enc_response(x)[1] == enc_response(m)[1]);
            if let (
                ProxyOpenResponseV1::Rejected { request_id: ida, error: ea },
                ProxyOpenResponseV1::Rejected { request_id: idb, error: eb },
            ) = (x, m) {
                let a = enc_optional_id(ida) + (enc_error(ea) + none);
                let b = enc_optional_id(idb) + (enc_error(eb) + added);
                assert(s.subrange(2, s.len() as int) =~= b);
                assert(enc_response(x).subrange(2, s.len() as int) =~= a);
                lemma_same_after_refusals(ida, ea, none, idb, eb, added);
            }
        }
    }
}

impl ProxyOpenResponseV1 {
    /// The bytes of the answer. Every answer fits its frame.
    pub fn canonical_bytes(&self) -> (r: Result<Vec<u8>, ProxyProtocolError>)
        ensures
            r matches Ok(bytes) && bytes@ == enc_response(*self) && bytes@.len()
                <= MAX_PROXY_HANDSHAKE_FRAME,
    {
        broadcast use crate::bytes::lemma_add_assoc;

        let mut out: Vec<u8> = Vec::new();
        put_u8(&mut out, 1);
        assert(out@ =~= seq![1u8]);
        match self {
            ProxyOpenResponseV1::Authorized { request_id, stream_id } => {
                put_u8(&mut out, 0);
                put_bytes(&mut out, request_id);
                put_bytes(&mut out, stream_id);
            },
            ProxyOpenResponseV1::Accepted { request_id, stream_id, selected_upstream_mode: _ } => {
                put_u8(&mut out, 1);
                put_bytes(&mut out, request_id);
                put_bytes(&mut out, stream_id);
                put_u8(&mut out, 0);
            },
            ProxyOpenResponseV1::Rejected { request_id, error } => {
                put_u8(&mut out, 2);
                put_optional_id(&mut out, *request_id);
                put_error(&mut out, *error);
                proof {
                    crate::error::lemma_code_text_short(error.code);
                }
            },
        }
        Ok(out)
    }

    fn read(bytes: &[u8]) -> (r: Option<Self>)
        ensures
            match r {
                Some(m) => reads_response(bytes@, m),
                None => forall|m: ProxyOpenResponseV1| !reads_response(bytes@, m),
            },
    {
        let mut reader = Reader::new(bytes);
        let version: u8 = reader.u8()?;
        if version != 1 {
            return None;
        }
        let kind: u8 = reader.u8()?;
        if kind == 0 {
            let request_id: [u8; 16] = reader.array()?;
            let stream_id: [u8; 16] = reader.array()?;
            if !reader.at_end() {
                return None;
            }
            Some(ProxyOpenResponseV1::Authorized { request_id, stream_id })
        } else if kind == 1 {
            let request_id: [u8; 16] = reader.array()?;
            let stream_id: [u8; 16] = reader.array()?;
            let mode: u8 = reader.u8()?;
            if mode != 0 || !reader.at_end() {
                return None;
            }
            Some(
                ProxyOpenResponseV1::Accepted {
                    request_id,
                    stream_id,
                    selected_upstream_mode: UpstreamMode::Tcp,
                },
            )
        } else if kind == 2 {
            let ghost start = reader@;
            let request_id = read_optional_id(&mut reader)?;
            let ghost tail = reader@;
            proof {
                assert forall|id: Option<[u8; 16]>, rest: Seq<u8>|
                    reads_optional_id(start, id, rest) implies rest == tail by {}
            }
            let error = read_error(&mut reader)?;
            if !reader.at_end() {
                proof {
                    assert forall|e: PublicError| !reads_error(tail, e, Seq::empty()) by {
                        if reads_error(tail, e, Seq::empty()) {
                            crate::error::lemma_error_unique(tail, error, e, reader@, Seq::empty());
                        }
                    }
                }
                return None;
            }
            assert(reader@ =~= Seq::<u8>::empty());
            Some(ProxyOpenResponseV1::Rejected { request_id, error })
        } else {
            None
        }
    }

    /// The answer with the given bytes.
    pub fn decode(bytes: &[u8]) -> (r: Result<Self, ProxyProtocolError>)
        ensures
            match r {
                Ok(m) => bytes@ == enc_response(m),
                Err(error) => error == handshake_error(bytes@) && forall|m: ProxyOpenResponseV1|
                    #[trigger] enc_response(m) != bytes@,
            },
    {
        assert forall|m: ProxyOpenResponseV1| reads_response(bytes@, m) <==> bytes@
            == #[trigger] enc_response(m) by {
            lemma_response_reads(bytes@, m);
        }
        if bytes.len() > 0 && bytes[0] != 1 {
            assert(bytes@.subrange(0, 1)[0] == bytes@[0]);
            return Err(ProxyProtocolError::UnsupportedVersion);
        }
        match ProxyOpenResponseV1::read(bytes) {
            Some(m) => Ok(m),
            None => Err(ProxyProtocolError::Malformed),
        }
    }
}

/// A kind of ingress is known by its byte.
pub proof fn law_ingress_is_known_by_its_byte(kind: IngressKind)
    ensures
        kind is FixedTcp <==> ingress_wire(kind) == 0,
        kind is HttpHost <==> ingress_wire(kind) == 1,
        kind is TlsSni <==> ingress_wire(kind) == 2,
{
}

/// A request for a tunnel is written as version, kind, its number, the ticket, the
/// service, the revision and how the tunnel came in.
pub proof fn law_opens_are_written_in_order(m: OpenModel)
    ensures
        enc_open(m) == seq![1u8, 0u8] + m.request_id@ + enc_blob(m.ticket) + enc_text(m.upstream_id) + be64(
            m.registration_revision,
        ) + seq![ingress_wire(m.ingress_kind)],
{
    assert(enc_open(m) =~= seq![1u8, 0u8] + m.request_id@ + enc_blob(m.ticket) + enc_text(m.upstream_id)
        + be64(m.registration_revision) + seq![ingress_wire(m.ingress_kind)]);
}

/// An answer is written as version and kind, and then what it says: the numbers of
/// the request and the stream, for an accepted one how the far end is reached; for
/// a refusal the number of the request, if it is known, and the error.
pub proof fn law_answers_are_written_in_order(
    request_id: [u8; 16],
    stream_id: [u8; 16],
    mode: UpstreamMode,
    error: PublicError,
)
    ensures
        enc_response(ProxyOpenResponseV1::Authorized { request_id, stream_id }) == seq![1u8, 0u8]
            + request_id@ + stream_id@,
        enc_response(
            ProxyOpenResponseV1::Accepted { request_id, stream_id, selected_upstream_mode: mode },
        ) == seq![1u8, 1u8] + request_id@ + stream_id@ + seq![0u8],
        enc_response(ProxyOpenResponseV1::Rejected { request_id: None, error }) == seq![1u8, 2u8, 0u8]
            + enc_error(error),
        enc_response(ProxyOpenResponseV1::Rejected { request_id: Some(request_id), error }) == seq![
            1u8,
            2u8,
            1u8,
        ] + request_id@ + enc_error(error),
{
    assert(enc_response(ProxyOpenResponseV1::Authorized { request_id, stream_id }) =~= seq![1u8, 0u8]
        + request_id@ + stream_id@);
    assert(enc_response(
        ProxyOpenResponseV1::Accepted { request_id, stream_id, selected_upstream_mode: mode },
    ) =~= seq![1u8, 1u8] + request_id@ + stream_id@ + seq![0u8]);
    assert(enc_response(ProxyOpenResponseV1::Rejected { request_id: None, error }) =~= seq![1u8, 2u8, 0u8]
        + enc_error(error));
    assert(enc_response(ProxyOpenResponseV1::Rejected { request_id: Some(request_id), error }) =~= seq![
        1u8,
        2u8,
        1u8,
    ] + request_id@ + enc_error(error));
}

/// What is wrong with a handshake is shown to the other side under a name of its
/// own; bytes of another version are told apart from bytes that say nothing.
pub proof fn law_faults_are_shown_by_name(error: ProxyProtocolError, r: PublicErrorCode, bytes: Seq<u8>)
    requires
        call_ensures(ProxyProtocolError::public_code, (error,), r),
    ensures
        error is FrameTooLarge <==> r is ProtocolFrameTooLarge,
        error is Malformed <==> r is ProtocolMalformed,
        error is UnsupportedVersion <==> r is ProtocolUnsupportedVersion,
        handshake_error(bytes) is UnsupportedVersion <==> bytes.len() > 0 && bytes[0] != 1,
        handshake_error(bytes) is Malformed <==> bytes.len() == 0 || bytes[0] == 1,
{
}

} // verus!
