//! Connection tickets: signed permissions to open one tunnel.
use crate::bytes::{
    be16, be32, be64, be_i64, enc_short, enc_text, put_bytes, put_i64, put_short, put_text, put_u16,
    put_u32, put_u64, put_u8, same_bytes, split_bytes, split_i64, split_short, split_text,
    split_u16, split_u32, split_u64, to_array, Reader,
};
use crate::crypto::{
    ed25519_accepts, ed25519_point, ed25519_public, ed25519_public_key, ed25519_sign,
    ed25519_signature, ed25519_verify, sha256, sha256_of, Seed,
};
use crate::ids::{id_text, lemma_id_utf8, Tenant};
use crate::peer::{is_peer_id, peer_id_bytes};
use crate::text::same_text;
use vstd::prelude::*;
use vstd::string::StringExecFns;
use vstd::utf8::encode_utf8;

verus! {

/// The longest encoding of a ticket's claims.
pub const MAX_TICKET_CLAIMS: usize = 1024;

/// The longest ticket.
pub const MAX_TICKET_ENVELOPE: usize = 2048;

/// The longest time in seconds for which a ticket is good.
pub const MAX_TICKET_LIFETIME: i64 = 60;

/// The greatest difference between clocks that may be allowed for.
pub const MAX_CLOCK_SKEW: i64 = 30;

/// The permission to open a tunnel, which every ticket grants.
pub const TICKET_PERMISSIONS: u32 = 4;

#[derive(Clone, Copy, Debug, PartialEq, Eq, Structural)]
pub enum TicketError {
    Invalid,
    Expired,
    TooLarge,
}

/// What a ticket permits: who may open a tunnel to which service, through
/// which exchange, and when.
#[derive(Debug, PartialEq, Eq)]
pub struct ConnectionTicketClaimsV1 {
    issuer_exchange_peer_id: Vec<u8>,
    tenant: String,
    client_peer_id: Vec<u8>,
    server_peer_id: Vec<u8>,
    upstream_id: String,
    selector_fingerprint: [u8; 32],
    registration_revision: u64,
    authorization_revision: u64,
    permissions: u32,
    not_before: i64,
    expires_at: i64,
    ticket_id: [u8; 16],
    max_streams: u16,
}

/// What the claims of a ticket say.
#[verifier::ext_equal]
pub struct ClaimsModel {
    pub issuer_exchange_peer_id: Seq<u8>,
    pub tenant: Seq<char>,
    pub client_peer_id: Seq<u8>,
    pub server_peer_id: Seq<u8>,
    pub upstream_id: Seq<char>,
    pub selector_fingerprint: [u8; 32],
    pub registration_revision: u64,
    pub authorization_revision: u64,
    pub permissions: u32,
    pub not_before: i64,
    pub expires_at: i64,
    pub ticket_id: [u8; 16],
    pub max_streams: u16,
}

impl View for ConnectionTicketClaimsV1 {
    type V = ClaimsModel;

    closed spec fn view(&self) -> ClaimsModel {
        ClaimsModel {
            issuer_exchange_peer_id: self.issuer_exchange_peer_id@,
            tenant: self.tenant@,
            client_peer_id: self.client_peer_id@,
            server_peer_id: self.server_peer_id@,
            upstream_id: self.upstream_id@,
            selector_fingerprint: self.selector_fingerprint,
            registration_revision: self.registration_revision,
            authorization_revision: self.authorization_revision,
            permissions: self.permissions,
            not_before: self.not_before,
            expires_at: self.expires_at,
            ticket_id: self.ticket_id,
            max_streams: self.max_streams,
        }
    }
}

/// Whether bytes name a peer in a field with a one-byte length.
pub open spec fn peer_field(bytes: Seq<u8>) -> bool {
    peer_id_bytes(bytes) && 1 <= bytes.len() <= u8::MAX
}

/// What valid claims are.
pub open spec fn valid_claims(c: ClaimsModel) -> bool {
    &&& peer_field(c.issuer_exchange_peer_id)
    &&& peer_field(c.client_peer_id)
    &&& peer_field(c.server_peer_id)
    &&& id_text(c.tenant)
    &&& id_text(c.upstream_id)
    &&& 0 <= c.expires_at - c.not_before <= MAX_TICKET_LIFETIME
    &&& c.permissions == TICKET_PERMISSIONS
    &&& c.max_streams == 1
}

/// The part of the encoding that has a fixed length.
pub open spec fn enc_claims_tail(c: ClaimsModel) -> Seq<u8> {
    c.selector_fingerprint@ + (be64(c.registration_revision) + (be64(c.authorization_revision) + (
    be32(c.permissions) + (be_i64(c.not_before) + (be_i64(c.expires_at) + (c.ticket_id@ + be16(
        c.max_streams,
    )))))))
}

/// The encoding of claims.
pub open spec fn enc_claims(c: ClaimsModel) -> Seq<u8> {
    be16(1) + (enc_short(c.issuer_exchange_peer_id) + (enc_text(c.tenant) + (enc_short(
        c.client_peer_id,
    ) + (enc_short(c.server_peer_id) + (enc_text(c.upstream_id) + enc_claims_tail(c))))))
}

/// Whether the fixed-length part of an encoding reads as that of `c`.
spec fn reads_claims_tail(s: Seq<u8>, c: ClaimsModel) -> bool {
    match split_bytes(s, 32) {
        None => false,
        Some((fingerprint, s)) => fingerprint == c.selector_fingerprint@ && match split_u64(s) {
            None => false,
            Some((registration, s)) => registration == c.registration_revision && match split_u64(s) {
                None => false,
                Some((authorization, s)) => authorization == c.authorization_revision
                    && match split_u32(s) {
                    None => false,
                    Some((permissions, s)) => permissions == c.permissions && match split_i64(s) {
                        None => false,
                        Some((not_before, s)) => not_before == c.not_before && match split_i64(s) {
                            None => false,
                            Some((expires_at, s)) => expires_at == c.expires_at && match split_bytes(
                                s,
                                16,
                            ) {
                                None => false,
                                Some((ticket_id, s)) => ticket_id == c.ticket_id@ && match split_u16(s) {
                                    None => false,
                                    Some((max_streams, s)) => max_streams == c.max_streams && s.len() == 0,
                                },
                            },
                        },
                    },
                },
            },
        },
    }
}

/// Whether bytes read as the encoding of `c`, field by field.
spec fn reads_claims(s: Seq<u8>, c: ClaimsModel) -> bool {
    match split_u16(s) {
        None => false,
        Some((version, s)) => version == 1 && match split_short(s) {
            None => false,
            Some((issuer, s)) => issuer == c.issuer_exchange_peer_id && match split_text(s) {
                None => false,
                Some((tenant, s)) => tenant == c.tenant && match split_short(s) {
                    None => false,
                    Some((client, s)) => client == c.client_peer_id && match split_short(s) {
                        None => false,
                        Some((server, s)) => server == c.server_peer_id && match split_text(s) {
                            None => false,
                            Some((upstream, s)) => upstream == c.upstream_id && reads_claims_tail(s, c),
                        },
                    },
                },
            },
        },
    }
}

proof fn lemma_tail_reads(c: ClaimsModel)
    ensures
        reads_claims_tail(enc_claims_tail(c), c),
{
    let s8 = be16(c.max_streams);
    let s7 = c.ticket_id@ + s8;
    let s6 = be_i64(c.expires_at) + s7;
    let s5 = be_i64(c.not_before) + s6;
    let s4 = be32(c.permissions) + s5;
    let s3 = be64(c.authorization_revision) + s4;
    let s2 = be64(c.registration_revision) + s3;
    crate::bytes::lemma_split_bytes(c.selector_fingerprint@, s2);
    crate::bytes::lemma_split_u64(c.registration_revision, s3);
    crate::bytes::lemma_split_u64(c.authorization_revision, s4);
    crate::bytes::lemma_split_u32(c.permissions, s5);
    crate::bytes::lemma_split_i64(c.not_before, s6);
    crate::bytes::lemma_split_i64(c.expires_at, s7);
    crate::bytes::lemma_split_bytes(c.ticket_id@, s8);
    crate::bytes::lemma_split_u16(c.max_streams, Seq::empty());
    assert(be16(c.max_streams) + Seq::<u8>::empty() =~= s8);
}

proof fn lemma_tail_joins(s: Seq<u8>, c: ClaimsModel)
    requires
        reads_claims_tail(s, c),
    ensures
        s == enc_claims_tail(c),
{
    crate::bytes::lemma_join_bytes(s, 32);
    let s2 = (split_bytes(s, 32)->0).1;
    crate::bytes::lemma_join_u64(s2);
    let s3 = (split_u64(s2)->0).1;
    crate::bytes::lemma_join_u64(s3);
    let s4 = (split_u64(s3)->0).1;
    crate::bytes::lemma_join_u32(s4);
    let s5 = (split_u32(s4)->0).1;
    crate::bytes::lemma_join_i64(s5);
    let s6 = (split_i64(s5)->0).1;
    crate::bytes::lemma_join_i64(s6);
    let s7 = (split_i64(s6)->0).1;
    crate::bytes::lemma_join_bytes(s7, 16);
    let s8 = (split_bytes(s7, 16)->0).1;
    crate::bytes::lemma_join_u16(s8);
    let s9 = (split_u16(s8)->0).1;
    assert(be16(c.max_streams) + s9 =~= be16(c.max_streams));
}

/// The encoding of claims reads as those claims and as nothing else.
proof fn lemma_claims_read(s: Seq<u8>, c: ClaimsModel)
    requires
        valid_claims(c),
    ensures
        reads_claims(s, c) <==> s == enc_claims(c),
{
    lemma_id_utf8(c.tenant);
    lemma_id_utf8(c.upstream_id);
    if s == enc_claims(c) {
        let s6 = enc_claims_tail(c);
        let s5 = enc_text(c.upstream_id) + s6;
        let s4 = enc_short(c.server_peer_id) + s5;
        let s3 = enc_short(c.client_peer_id) + s4;
        let s2 = enc_text(c.tenant) + s3;
        let s1 = enc_short(c.issuer_exchange_peer_id) + s2;
        crate::bytes::lemma_split_u16(1, s1);
        crate::bytes::lemma_split_short(c.issuer_exchange_peer_id, s2);
        crate::bytes::lemma_split_text(c.tenant, s3);
        crate::bytes::lemma_split_short(c.client_peer_id, s4);
        crate::bytes::lemma_split_short(c.server_peer_id, s5);
        crate::bytes::lemma_split_text(c.upstream_id, s6);
        lemma_tail_reads(c);
    }
    if reads_claims(s, c) {
        crate::bytes::lemma_join_u16(s);
        let s1 = (split_u16(s)->0).1;
        crate::bytes::lemma_join_short(s1);
        let s2 = (split_short(s1)->0).1;
        crate::bytes::lemma_join_text(s2);
        let s3 = (split_text(s2)->0).1;
        crate::bytes::lemma_join_short(s3);
        let s4 = (split_short(s3)->0).1;
        crate::bytes::lemma_join_short(s4);
        let s5 = (split_short(s4)->0).1;
        crate::bytes::lemma_join_text(s5);
        let s6 = (split_text(s5)->0).1;
        lemma_tail_joins(s6, c);
    }
}

/// Valid claims are short enough to be encoded.
proof fn lemma_claims_len(c: ClaimsModel)
    requires
        valid_claims(c),
    ensures
        enc_claims(c).len() <= MAX_TICKET_CLAIMS,
{
    lemma_claims_tail_len(c);
    lemma_id_utf8(c.tenant);
    lemma_id_utf8(c.upstream_id);
    let a = be16(1);
    let b = enc_short(c.issuer_exchange_peer_id);
    let d = enc_text(c.tenant);
    let e = enc_short(c.client_peer_id);
    let f = enc_short(c.server_peer_id);
    let g = enc_text(c.upstream_id);
    let h = enc_claims_tail(c);
    assert(b.len() <= 256 && e.len() <= 256 && f.len() <= 256);
    assert(d.len() <= 66 && g.len() <= 66);
    crate::bytes::lemma_seven_parts_len(a, b, d, e, f, g, h);
}

proof fn lemma_claims_tail_len(c: ClaimsModel)
    ensures
        enc_claims_tail(c).len() == 86,
{
    crate::bytes::lemma_field_lengths(
        c.max_streams,
        c.permissions,
        c.registration_revision,
        c.not_before,
    );
    crate::bytes::lemma_field_lengths(0, 0, c.authorization_revision, c.expires_at);
    crate::bytes::lemma_parts_len(
        c.selector_fingerprint@,
        be64(c.registration_revision),
        be64(c.authorization_revision),
        be32(c.permissions),
        be_i64(c.not_before),
        be_i64(c.expires_at),
        c.ticket_id@,
        be16(c.max_streams),
    );
}

/// Different claims have different encodings, so that an encoding can be read as
/// the claims that it was made of alone.
pub proof fn law_claims_encoding_is_injective(a: ClaimsModel, b: ClaimsModel)
    requires
        valid_claims(a),
        valid_claims(b),
        enc_claims(a) == enc_claims(b),
    ensures
        a == b,
{
    lemma_claims_read(enc_claims(a), a);
    lemma_claims_read(enc_claims(a), b);
    crate::bytes::lemma_array_view(a.selector_fingerprint, b.selector_fingerprint);
    crate::bytes::lemma_array_view(a.ticket_id, b.ticket_id);
}

fn validate_identifier(value: &str) -> (r: bool)
    ensures
        r == id_text(value@),
{
    Tenant::new(value).is_ok()
}

/// Whether bytes name a peer and fit their field.
fn is_peer_field(bytes: &[u8]) -> (r: bool)
    ensures
        r == peer_field(bytes@),
{
    is_peer_id(bytes) && bytes.len() > 0 && bytes.len() <= 255
}

impl ConnectionTicketClaimsV1 {
    /// Makes valid claims; anything else is refused.
    pub fn new(
        issuer_exchange_peer_id: Vec<u8>,
        tenant: String,
        client_peer_id: Vec<u8>,
        server_peer_id: Vec<u8>,
        upstream_id: String,
        selector_fingerprint: [u8; 32],
        registration_revision: u64,
        authorization_revision: u64,
        permissions: u32,
        not_before: i64,
        expires_at: i64,
        ticket_id: [u8; 16],
        max_streams: u16,
    ) -> (r: Result<Self, TicketError>)
        ensures
            ({
                let c = ClaimsModel {
                    issuer_exchange_peer_id: issuer_exchange_peer_id@,
                    tenant: tenant@,
                    client_peer_id: client_peer_id@,
                    server_peer_id: server_peer_id@,
                    upstream_id: upstream_id@,
                    selector_fingerprint,
                    registration_revision,
                    authorization_revision,
                    permissions,
                    not_before,
                    expires_at,
                    ticket_id,
                    max_streams,
                };
                match r {
                    Ok(claims) => valid_claims(c) && claims@ == c,
                    Err(error) => !valid_claims(c) && error == TicketError::Invalid,
                }
            }),
    {
        let claims = ConnectionTicketClaimsV1 {
            issuer_exchange_peer_id,
            tenant,
            client_peer_id,
            server_peer_id,
            upstream_id,
            selector_fingerprint,
            registration_revision,
            authorization_revision,
            permissions,
            not_before,
            expires_at,
            ticket_id,
            max_streams,
        };
        match claims.encode() {
            Ok(_) => Ok(claims),
            Err(error) => Err(error),
        }
    }

    pub fn issuer_exchange_peer_id(&self) -> (r: &[u8])
        ensures
            r@ == self@.issuer_exchange_peer_id,
    {
        self.issuer_exchange_peer_id.as_slice()
    }

    pub fn tenant(&self) -> (r: &str)
        ensures
            r@ == self@.tenant,
    {
        self.tenant.as_str()
    }

    pub fn client_peer_id(&self) -> (r: &[u8])
        ensures
            r@ == self@.client_peer_id,
    {
        self.client_peer_id.as_slice()
    }

    pub fn server_peer_id(&self) -> (r: &[u8])
        ensures
            r@ == self@.server_peer_id,
    {
        self.server_peer_id.as_slice()
    }

    pub fn upstream_id(&self) -> (r: &str)
        ensures
            r@ == self@.upstream_id,
    {
        self.upstream_id.as_str()
    }

    pub fn selector_fingerprint(&self) -> (r: [u8; 32])
        ensures
            r == self@.selector_fingerprint,
    {
        self.selector_fingerprint
    }

    pub fn registration_revision(&self) -> (r: u64)
        ensures
            r == self@.registration_revision,
    {
        self.registration_revision
    }

    pub fn authorization_revision(&self) -> (r: u64)
        ensures
            r == self@.authorization_revision,
    {
        self.authorization_revision
    }

    pub fn permissions(&self) -> (r: u32)
        ensures
            r == self@.permissions,
    {
        self.permissions
    }

    pub fn not_before(&self) -> (r: i64)
        ensures
            r == self@.not_before,
    {
        self.not_before
    }

    pub fn expires_at(&self) -> (r: i64)
        ensures
            r == self@.expires_at,
    {
        self.expires_at
    }

    pub fn ticket_id(&self) -> (r: [u8; 16])
        ensures
            r == self@.ticket_id,
    {
        self.ticket_id
    }

    pub fn max_streams(&self) -> (r: u16)
        ensures
            r == self@.max_streams,
    {
        self.max_streams
    }

    /// Whether the claims are valid.
    fn is_valid(&self) -> (r: bool)
        ensures
            r == valid_claims(self@),
    {
        is_peer_field(self.issuer_exchange_peer_id.as_slice()) && is_peer_field(
            self.client_peer_id.as_slice(),
        ) && is_peer_field(self.server_peer_id.as_slice()) && validate_identifier(
            self.tenant.as_str(),
        ) && validate_identifier(self.upstream_id.as_str()) && self.not_before <= self.expires_at && (
        self.expires_at as i128 - self.not_before as i128) <= MAX_TICKET_LIFETIME as i128
            && self.permissions == TICKET_PERMISSIONS && self.max_streams == 1
    }

    /// The encoding of the claims. Invalid claims have none.
    pub fn encode(&self) -> (r: Result<Vec<u8>, TicketError>)
        ensures
            match r {
                Ok(bytes) => valid_claims(self@) && bytes@ == enc_claims(self@),
                Err(error) => !valid_claims(self@) && error == TicketError::Invalid,
            },
    {
        broadcast use crate::bytes::lemma_add_assoc;

        if !self.is_valid() {
            return Err(TicketError::Invalid);
        }
        proof {
            lemma_id_utf8(self@.tenant);
            lemma_id_utf8(self@.upstream_id);
            lemma_claims_len(self@);
        }
        let mut out: Vec<u8> = Vec::new();
        put_u16(&mut out, 1);
        assert(out@ =~= be16(1));
        put_short(&mut out, self.issuer_exchange_peer_id.as_slice());
        put_text(&mut out, self.tenant.as_str());
        put_short(&mut out, self.client_peer_id.as_slice());
        put_short(&mut out, self.server_peer_id.as_slice());
        put_text(&mut out, self.upstream_id.as_str());
        put_bytes(&mut out, &self.selector_fingerprint);
        put_u64(&mut out, self.registration_revision);
        put_u64(&mut out, self.authorization_revision);
        put_u32(&mut out, self.permissions);
        put_i64(&mut out, self.not_before);
        put_i64(&mut out, self.expires_at);
        put_bytes(&mut out, &self.ticket_id);
        put_u16(&mut out, self.max_streams);
        if out.len() > MAX_TICKET_CLAIMS {
            Err(TicketError::TooLarge)
        } else {
            Ok(out)
        }
    }

    /// Reads the fields of an encoding.
    fn read(bytes: &[u8]) -> (r: Option<Self>)
        ensures
            match r {
                Some(claims) => reads_claims(bytes@, claims@),
                None => forall|c: ClaimsModel| !reads_claims(bytes@, c),
            },
    {
        let mut reader = Reader::new(bytes);
        let version: u16 = reader.u16()?;
        if version != 1 {
            return None;
        }
        let issuer = reader.short()?;
        let tenant = reader.text()?;
        let client = reader.short()?;
        let server = reader.short()?;
        let upstream = reader.text()?;
        let selector_fingerprint: [u8; 32] = reader.array()?;
        let registration_revision: u64 = reader.u64()?;
        let authorization_revision: u64 = reader.u64()?;
        let permissions: u32 = reader.u32()?;
        let not_before: i64 = reader.i64()?;
        let expires_at: i64 = reader.i64()?;
        let ticket_id: [u8; 16] = reader.array()?;
        let max_streams: u16 = reader.u16()?;
        if !reader.at_end() {
            return None;
        }
        Some(
            ConnectionTicketClaimsV1 {
                issuer_exchange_peer_id: vstd::slice::slice_to_vec(issuer),
                tenant,
                client_peer_id: vstd::slice::slice_to_vec(client),
                server_peer_id: vstd::slice::slice_to_vec(server),
                upstream_id: upstream,
                selector_fingerprint,
                registration_revision,
                authorization_revision,
                permissions,
                not_before,
                expires_at,
                ticket_id,
                max_streams,
            },
        )
    }

    /// The claims with the given encoding.
    pub fn decode(bytes: &[u8]) -> (r: Result<Self, TicketError>)
        ensures
            match r {
                Ok(claims) => valid_claims(claims@) && bytes@ == enc_claims(claims@),
                Err(TicketError::TooLarge) => bytes@.len() > MAX_TICKET_CLAIMS,
                Err(TicketError::Invalid) => bytes@.len() <= MAX_TICKET_CLAIMS && forall|c: ClaimsModel|
                    valid_claims(c) ==> #[trigger] enc_claims(c) != bytes@,
                Err(TicketError::Expired) => false,
            },
    {
        if bytes.len() > MAX_TICKET_CLAIMS {
            return Err(TicketError::TooLarge);
        }
        assert forall|c: ClaimsModel| valid_claims(c) implies (reads_claims(bytes@, c) <==> bytes@
            == #[trigger] enc_claims(c)) by {
            lemma_claims_read(bytes@, c);
        }
        match ConnectionTicketClaimsV1::read(bytes) {
            None => Err(TicketError::Invalid),
            Some(claims) => {
                if claims.is_valid() {
                    Ok(claims)
                } else {
                    assert forall|c: ClaimsModel| valid_claims(c) implies #[trigger] enc_claims(c)
                        != bytes@ by {
                        if enc_claims(c) == bytes@ {
                            assert(reads_claims(bytes@, c));
                            assert(c.tenant == claims@.tenant);
                        }
                    }
                    Err(TicketError::Invalid)
                }
            },
        }
    }
}

impl Clone for ConnectionTicketClaimsV1 {
    fn clone(&self) -> (r: Self)
        ensures
            r@ == self@,
    {
        ConnectionTicketClaimsV1 {
            issuer_exchange_peer_id: vstd::slice::slice_to_vec(self.issuer_exchange_peer_id.as_slice()),
            tenant: self.tenant.clone(),
            client_peer_id: vstd::slice::slice_to_vec(self.client_peer_id.as_slice()),
            server_peer_id: vstd::slice::slice_to_vec(self.server_peer_id.as_slice()),
            upstream_id: self.upstream_id.clone(),
            selector_fingerprint: self.selector_fingerprint,
            registration_revision: self.registration_revision,
            authorization_revision: self.authorization_revision,
            permissions: self.permissions,
            not_before: self.not_before,
            expires_at: self.expires_at,
            ticket_id: self.ticket_id,
            max_streams: self.max_streams,
        }
    }
}

/// A ticket as it travels. It is not shown when printed.
#[derive(PartialEq, Eq)]
pub struct RawTicket {
    bytes: Vec<u8>,
}

impl View for RawTicket {
    type V = Seq<u8>;

    closed spec fn view(&self) -> Seq<u8> {
        self.bytes@
    }
}

/// Whether bytes are short enough, and enough, to be a ticket.
pub open spec fn ticket_sized(bytes: Seq<u8>) -> bool {
    1 <= bytes.len() <= MAX_TICKET_ENVELOPE
}

impl RawTicket {
    #[verifier::type_invariant]
    pub open spec fn valid(self) -> bool {
        ticket_sized(self@)
    }

    /// Accepts bytes of a ticket's size; what they say is looked at later.
    pub fn new(bytes: Vec<u8>) -> (r: Result<Self, TicketError>)
        ensures
            match r {
                Ok(ticket) => ticket_sized(bytes@) && ticket@ == bytes@,
                Err(TicketError::TooLarge) => bytes@.len() > MAX_TICKET_ENVELOPE,
                Err(TicketError::Invalid) => bytes@.len() == 0,
                Err(TicketError::Expired) => false,
            },
    {
        if bytes.len() == 0 {
            return Err(TicketError::Invalid);
        }
        if bytes.len() > MAX_TICKET_ENVELOPE {
            return Err(TicketError::TooLarge);
        }
        Ok(RawTicket { bytes })
    }

    pub fn as_bytes(&self) -> (r: &[u8])
        ensures
            r@ == self@,
            ticket_sized(self@),
    {
        proof {
            use_type_invariant(self);
        }
        self.bytes.as_slice()
    }

    /// Whether two tickets are the same bytes.
    pub fn same(&self, other: &Self) -> (r: bool)
        ensures
            r == (self@ == other@),
    {
        same_bytes(self.bytes.as_slice(), other.bytes.as_slice())
    }

    /// What may be printed of a ticket.
    pub fn redacted(&self) -> (r: String)
        ensures
            r@ == "RawTicket(REDACTED)"@,
    {
        String::from_str("RawTicket(REDACTED)")
    }
}

impl Clone for RawTicket {
    fn clone(&self) -> (r: Self)
        ensures
            r@ == self@,
    {
        proof {
            use_type_invariant(self);
        }
        RawTicket { bytes: vstd::slice::slice_to_vec(self.bytes.as_slice()) }
    }
}

/// A key that checks signatures.
#[derive(Clone, Copy, Debug, PartialEq, Eq)]
pub struct VerifyingKey {
    bytes: [u8; 32],
}

impl View for VerifyingKey {
    type V = Seq<u8>;

    closed spec fn view(&self) -> Seq<u8> {
        self.bytes@
    }
}

impl VerifyingKey {
    #[verifier::type_invariant]
    pub open spec fn valid(self) -> bool {
        ed25519_point(self@)
    }

    /// The key with the given bytes, if they are the encoding of a key.
    pub fn from_bytes(bytes: &[u8; 32]) -> (r: Result<Self, TicketError>)
        ensures
            match r {
                Ok(key) => ed25519_point(bytes@) && key@ == bytes@,
                Err(error) => !ed25519_point(bytes@) && error == TicketError::Invalid,
            },
    {
        if crate::crypto::ed25519_is_point(bytes) {
            Ok(VerifyingKey { bytes: *bytes })
        } else {
            Err(TicketError::Invalid)
        }
    }

    /// The key that checks what the key of a seed signs.
    pub fn of_seed(seed: &[u8; 32]) -> (r: Self)
        ensures
            r@ == ed25519_public(seed@),
    {
        VerifyingKey { bytes: ed25519_public_key(seed) }
    }

    pub fn as_bytes(&self) -> (r: &[u8; 32])
        ensures
            r@ == self@,
    {
        &self.bytes
    }

    /// Whether the key accepts a signature.
    fn accepts(&self, message: &[u8], signature: &[u8; 64]) -> (r: bool)
        ensures
            r == ed25519_accepts(self@, message@, signature@),
    {
        proof {
            use_type_invariant(self);
        }
        ed25519_verify(&self.bytes, message, signature)
    }
}

/// The identifier of a public key: the first half of its digest.
pub open spec fn key_id_of(public: Seq<u8>) -> Seq<u8> {
    sha256_of(public).subrange(0, 16)
}

/// The identifier of a public key.
pub fn key_id_for(public: &[u8; 32]) -> (r: [u8; 16])
    ensures
        r@ == key_id_of(public@),
{
    let digest = sha256(public);
    to_array(vstd::slice::slice_subrange(&digest, 0, 16))
}

/// What is signed of a ticket.
pub open spec fn signing_message(claims: Seq<u8>) -> Seq<u8> {
    encode_utf8("p2x-ticket-v1\0"@) + (be16(claims.len() as u16) + claims)
}

/// The bytes of a ticket: a fixed head, the key's identifier, the claims and
/// the signature on them.
pub open spec fn envelope_bytes(key_id: Seq<u8>, claims: Seq<u8>, signature: Seq<u8>) -> Seq<u8> {
    encode_utf8("P2XT"@) + (seq![1u8] + (seq![16u8] + (key_id + (crate::bytes::enc_blob(claims)
        + signature))))
}

/// Whether bytes are a well-formed ticket with the given parts.
pub open spec fn is_envelope(
    envelope: Seq<u8>,
    key_id: Seq<u8>,
    claims: ClaimsModel,
    signature: Seq<u8>,
) -> bool {
    &&& valid_claims(claims)
    &&& key_id.len() == 16
    &&& signature.len() == 64
    &&& envelope == envelope_bytes(key_id, enc_claims(claims), signature)
}

/// The parts of a well-formed ticket.
pub struct EnvelopeModel {
    pub key_id: Seq<u8>,
    pub claims: ClaimsModel,
    pub signature: Seq<u8>,
}

/// The parts of a ticket, if it is well formed.
pub open spec fn opened(envelope: Seq<u8>) -> Option<EnvelopeModel> {
    if exists|p: EnvelopeModel| is_envelope(envelope, p.key_id, p.claims, p.signature) {
        Some(choose|p: EnvelopeModel| is_envelope(envelope, p.key_id, p.claims, p.signature))
    } else {
        None
    }
}

/// The pieces of a ticket, whatever the claims hold.
pub open spec fn envelope_pieces(envelope: Seq<u8>) -> Option<(Seq<u8>, Seq<u8>, Seq<u8>)> {
    match split_bytes(envelope, 4) {
        None => None,
        Some((magic, s)) => if magic != encode_utf8("P2XT"@) {
            None
        } else {
            match crate::bytes::split_u8(s) {
                None => None,
                Some((version, s)) => if version != 1 {
                    None
                } else {
                    match crate::bytes::split_u8(s) {
                        None => None,
                        Some((length, s)) => if length != 16 {
                            None
                        } else {
                            match split_bytes(s, 16) {
                                None => None,
                                Some((key_id, s)) => match crate::bytes::split_blob(s) {
                                    None => None,
                                    Some((claims, s)) => if s.len() == 64 {
                                        Some((key_id, claims, s))
                                    } else {
                                        None
                                    },
                                },
                            }
                        },
                    }
                },
            }
        },
    }
}

/// The fixed head of a ticket has four bytes.
proof fn lemma_magic()
    ensures
        encode_utf8("P2XT"@).len() == 4,
{
    reveal_strlit("P2XT");
    vstd::utf8::is_ascii_chars_encode_utf8("P2XT"@);
}

/// The pieces of a ticket are those that it was made of.
proof fn lemma_envelope_pieces(envelope: Seq<u8>, key_id: Seq<u8>, claims: Seq<u8>, signature: Seq<u8>)
    requires
        key_id.len() == 16,
        signature.len() == 64,
        claims.len() <= u16::MAX,
    ensures
        envelope_pieces(envelope) == Some((key_id, claims, signature)) <==> envelope
            == envelope_bytes(key_id, claims, signature),
{
    lemma_magic();
    let magic = encode_utf8("P2XT"@);
    if envelope == envelope_bytes(key_id, claims, signature) {
        let s4 = crate::bytes::enc_blob(claims) + signature;
        let s3 = key_id + s4;
        let s2 = seq![16u8] + s3;
        let s1 = seq![1u8] + s2;
        crate::bytes::lemma_split_bytes(magic, s1);
        crate::bytes::lemma_split_u8(1, s2);
        crate::bytes::lemma_split_u8(16, s3);
        crate::bytes::lemma_split_bytes(key_id, s4);
        crate::bytes::lemma_split_blob(claims, signature);
    }
    if envelope_pieces(envelope) == Some((key_id, claims, signature)) {
        crate::bytes::lemma_join_bytes(envelope, 4);
        let s1 = (split_bytes(envelope, 4)->0).1;
        crate::bytes::lemma_join_u8(s1);
        let s2 = (crate::bytes::split_u8(s1)->0).1;
        crate::bytes::lemma_join_u8(s2);
        let s3 = (crate::bytes::split_u8(s2)->0).1;
        crate::bytes::lemma_join_bytes(s3, 16);
        let s4 = (split_bytes(s3, 16)->0).1;
        crate::bytes::lemma_join_blob(s4);
    }
}

/// What holds of the pieces of any bytes that have them.
proof fn lemma_pieces_shape(envelope: Seq<u8>)
    ensures
        envelope_pieces(envelope) matches Some((key_id, claims, signature)) ==> key_id.len() == 16
            && signature.len() == 64 && claims.len() <= u16::MAX && envelope.len() == 88 + claims.len(),
{
    lemma_magic();
    if let Some((key_id, claims, signature)) = envelope_pieces(envelope) {
        let s1 = (split_bytes(envelope, 4)->0).1;
        let s2 = (crate::bytes::split_u8(s1)->0).1;
        let s3 = (crate::bytes::split_u8(s2)->0).1;
        let s4 = (split_bytes(s3, 16)->0).1;
        crate::bytes::lemma_join_blob(s4);
        lemma_envelope_pieces(envelope, key_id, claims, signature);
    }
}

/// A ticket opens to the parts that it was made of, and to no others.
pub proof fn law_ticket_parts_are_unique(
    envelope: Seq<u8>,
    key_id: Seq<u8>,
    claims: ClaimsModel,
    signature: Seq<u8>,
)
    requires
        is_envelope(envelope, key_id, claims, signature),
    ensures
        opened(envelope) == Some(EnvelopeModel { key_id, claims, signature }),
{
    let p = EnvelopeModel { key_id, claims, signature };
    assert(is_envelope(envelope, p.key_id, p.claims, p.signature));
    let q = opened(envelope)->0;
    assert(is_envelope(envelope, q.key_id, q.claims, q.signature));
    lemma_claims_len(p.claims);
    lemma_claims_len(q.claims);
    lemma_envelope_pieces(envelope, p.key_id, enc_claims(p.claims), p.signature);
    lemma_envelope_pieces(envelope, q.key_id, enc_claims(q.claims), q.signature);
    law_claims_encoding_is_injective(p.claims, q.claims);
}

/// Whether bytes have the shape of a ticket whose claims are too long.
pub open spec fn oversized_claims(envelope: Seq<u8>) -> bool {
    envelope.len() <= MAX_TICKET_ENVELOPE && (envelope_pieces(envelope) matches Some((_, claims, _))
        && claims.len() > MAX_TICKET_CLAIMS)
}

/// Why bytes are not a well-formed ticket.
pub open spec fn envelope_error(envelope: Seq<u8>) -> TicketError {
    if oversized_claims(envelope) {
        TicketError::TooLarge
    } else {
        TicketError::Invalid
    }
}

/// Cuts a ticket into its pieces.
fn read_envelope<'a>(envelope: &'a [u8]) -> (r: Option<([u8; 16], &'a [u8], [u8; 64])>)
    ensures
        match r {
            Some((key_id, claims, signature)) => envelope_pieces(envelope@) == Some(
                (key_id@, claims@, signature@),
            ),
            None => envelope_pieces(envelope@) is None,
        },
{
    proof {
        lemma_magic();
    }
    let mut reader = Reader::new(envelope);
    let magic = reader.take(4)?;
    if !same_bytes(magic, "P2XT".as_bytes()) {
        return None;
    }
    let version: u8 = reader.u8()?;
    if version != 1 {
        return None;
    }
    let length: u8 = reader.u8()?;
    if length != 16 {
        return None;
    }
    let key_id: [u8; 16] = reader.array()?;
    let claims = reader.blob()?;
    let ghost rest = reader@;
    let signature: [u8; 64] = reader.array()?;
    if !reader.at_end() {
        return None;
    }
    assert(rest.subrange(0, 64) =~= rest);
    Some((key_id, claims, signature))
}

/// Takes a ticket apart without looking at the signature.
pub fn decode_envelope(envelope: &[u8]) -> (r: Result<
    ([u8; 16], ConnectionTicketClaimsV1, [u8; 64]),
    TicketError,
>)
    ensures
        match r {
            Ok((key_id, claims, signature)) => is_envelope(envelope@, key_id@, claims@, signature@)
                && opened(envelope@) == Some(
                EnvelopeModel { key_id: key_id@, claims: claims@, signature: signature@ },
            ),
            Err(error) => opened(envelope@) is None && error == envelope_error(envelope@),
        },
{
    proof {
        lemma_pieces_shape(envelope@);
        assert forall|p: EnvelopeModel|
            is_envelope(envelope@, p.key_id, p.claims, p.signature) implies envelope_pieces(envelope@)
            == Some((p.key_id, enc_claims(p.claims), p.signature)) && enc_claims(p.claims).len()
            <= MAX_TICKET_CLAIMS by {
            lemma_claims_len(p.claims);
            lemma_envelope_pieces(envelope@, p.key_id, enc_claims(p.claims), p.signature);
        }
    }
    if envelope.len() > MAX_TICKET_ENVELOPE {
        return Err(TicketError::Invalid);
    }
    let (key_id, bytes, signature) = match read_envelope(envelope) {
        Some(pieces) => pieces,
        None => return Err(TicketError::Invalid),
    };
    match ConnectionTicketClaimsV1::decode(bytes) {
        Ok(claims) => {
            proof {
                lemma_envelope_pieces(envelope@, key_id@, bytes@, signature@);
                law_ticket_parts_are_unique(envelope@, key_id@, claims@, signature@);
            }
            Ok((key_id, claims, signature))
        },
        Err(error) => Err(error),
    }
}

/// Makes tickets.
pub struct TicketSigner {
    seed: Seed,
    public: VerifyingKey,
    key_id: [u8; 16],
}

impl View for TicketSigner {
    type V = Seq<u8>;

    /// The seed of the signing key.
    closed spec fn view(&self) -> Seq<u8> {
        self.seed@
    }
}

/// The message that is signed for a ticket with the given claims.
fn message_for(claims: &[u8]) -> (r: Vec<u8>)
    requires
        claims@.len() <= u16::MAX,
    ensures
        r@ == signing_message(claims@),
{
    broadcast use crate::bytes::lemma_add_assoc;

    let mut message: Vec<u8> = vstd::slice::slice_to_vec("p2x-ticket-v1\0".as_bytes());
    put_u16(&mut message, claims.len() as u16);
    put_bytes(&mut message, claims);
    message
}

impl TicketSigner {
    #[verifier::type_invariant]
    spec fn consistent(self) -> bool {
        &&& self.public@ == ed25519_public(self.seed@)
        &&& self.key_id@ == key_id_of(self.public@)
    }

    pub fn from_seed(seed: [u8; 32]) -> (r: Self)
        ensures
            r@ == seed@,
    {
        let bytes = ed25519_public_key(&seed);
        let key_id = key_id_for(&bytes);
        TicketSigner { seed: Seed::new(seed), public: VerifyingKey { bytes }, key_id }
    }

    pub fn key_id(&self) -> (r: [u8; 16])
        ensures
            r@ == key_id_of(ed25519_public(self@)),
    {
        proof {
            use_type_invariant(self);
        }
        self.key_id
    }

    pub fn public_key(&self) -> (r: VerifyingKey)
        ensures
            r@ == ed25519_public(self@),
    {
        proof {
            use_type_invariant(self);
        }
        self.public
    }

    /// A ticket with the given claims. Invalid claims get none.
    pub fn sign(&self, claims: &ConnectionTicketClaimsV1) -> (r: Result<RawTicket, TicketError>)
        ensures
            match r {
                Ok(ticket) => {
                    let message = signing_message(enc_claims(claims@));
                    let signature = ed25519_signature(self@, message);
                    &&& is_envelope(
                        ticket@,
                        key_id_of(ed25519_public(self@)),
                        claims@,
                        signature,
                    )
                    &&& ed25519_accepts(ed25519_public(self@), message, signature)
                },
                Err(error) => !valid_claims(claims@) && error == TicketError::Invalid,
            },
    {
        broadcast use crate::bytes::lemma_add_assoc;

        proof {
            use_type_invariant(self);
            lemma_magic();
        }
        let bytes = match claims.encode() {
            Ok(bytes) => bytes,
            Err(error) => return Err(error),
        };
        proof {
            lemma_claims_len(claims@);
        }
        let message = message_for(bytes.as_slice());
        let signature = ed25519_sign(self.seed.as_bytes(), message.as_slice());
        let mut out: Vec<u8> = vstd::slice::slice_to_vec("P2XT".as_bytes());
        put_u8(&mut out, 1);
        put_u8(&mut out, 16);
        put_bytes(&mut out, &self.key_id);
        crate::bytes::put_blob(&mut out, bytes.as_slice());
        put_bytes(&mut out, &signature);
        proof {
            lemma_envelope_pieces(out@, self.key_id@, bytes@, signature@);
            lemma_pieces_shape(out@);
        }
        RawTicket::new(out)
    }
}

/// A ticket that has been checked.
#[derive(Debug, PartialEq, Eq)]
pub struct VerifiedTicket {
    ticket_id: [u8; 16],
    claims: ConnectionTicketClaimsV1,
}

impl View for VerifiedTicket {
    type V = ClaimsModel;

    closed spec fn view(&self) -> ClaimsModel {
        self.claims@
    }
}

impl VerifiedTicket {
    #[verifier::type_invariant]
    spec fn consistent(self) -> bool {
        self.ticket_id == self.claims@.ticket_id
    }

    pub fn ticket_id(&self) -> (r: [u8; 16])
        ensures
            r == self@.ticket_id,
    {
        proof {
            use_type_invariant(self);
        }
        self.ticket_id
    }

    pub fn claims(&self) -> (r: &ConnectionTicketClaimsV1)
        ensures
            r@ == self@,
    {
        &self.claims
    }
}

/// Finds the key with which a ticket must be signed.
pub trait TicketKeyResolver {
    /// The key that goes by `key_id` at the time `now`.
    spec fn resolves(&self, key_id: Seq<u8>, now: i64) -> Option<Seq<u8>>;

    fn key(&self, key_id: [u8; 16], now: i64) -> (r: Option<&VerifyingKey>)
        ensures
            match r {
                Some(key) => self.resolves(key_id@, now) == Some(key@),
                None => self.resolves(key_id@, now) is None,
            },
    ;
}

/// What a ticket is expected to say.
pub struct TicketValidation<'a> {
    pub issuer_exchange_peer_id: &'a [u8],
    pub client_peer_id: &'a [u8],
    pub server_peer_id: &'a [u8],
    pub tenant: &'a str,
    pub upstream_id: &'a str,
    pub selector_fingerprint: [u8; 32],
    pub registration_revision: u64,
    pub authorization_revision: u64,
    pub permissions: u32,
    pub max_streams: u16,
    pub now: i64,
    pub clock_skew: i64,
}

/// What a ticket is expected to say, as the contracts see it.
#[verifier::ext_equal]
pub struct ValidationModel {
    pub issuer_exchange_peer_id: Seq<u8>,
    pub client_peer_id: Seq<u8>,
    pub server_peer_id: Seq<u8>,
    pub tenant: Seq<char>,
    pub upstream_id: Seq<char>,
    pub selector_fingerprint: Seq<u8>,
    pub registration_revision: u64,
    pub authorization_revision: u64,
    pub permissions: u32,
    pub max_streams: u16,
    pub now: i64,
    pub clock_skew: i64,
}

impl View for TicketValidation<'_> {
    type V = ValidationModel;

    open spec fn view(&self) -> ValidationModel {
        ValidationModel {
            issuer_exchange_peer_id: self.issuer_exchange_peer_id@,
            client_peer_id: self.client_peer_id@,
            server_peer_id: self.server_peer_id@,
            tenant: self.tenant@,
            upstream_id: self.upstream_id@,
            selector_fingerprint: self.selector_fingerprint@,
            registration_revision: self.registration_revision,
            authorization_revision: self.authorization_revision,
            permissions: self.permissions,
            max_streams: self.max_streams,
            now: self.now,
            clock_skew: self.clock_skew,
        }
    }
}

/// Whether claims are bound to exactly what is expected.
pub open spec fn bound_to(c: ClaimsModel, expected: ValidationModel) -> bool {
    &&& c.issuer_exchange_peer_id == expected.issuer_exchange_peer_id
    &&& c.client_peer_id == expected.client_peer_id
    &&& c.server_peer_id == expected.server_peer_id
    &&& c.tenant == expected.tenant
    &&& c.upstream_id == expected.upstream_id
    &&& c.selector_fingerprint@ == expected.selector_fingerprint
    &&& c.registration_revision == expected.registration_revision
    &&& c.authorization_revision == expected.authorization_revision
    &&& c.permissions == expected.permissions
    &&& c.max_streams == expected.max_streams
}

/// Whether a difference between clocks may be allowed for.
pub open spec fn skew_allowed(skew: i64) -> bool {
    0 <= skew <= MAX_CLOCK_SKEW
}

/// Whether claims have expired. The moment of expiry itself is too late.
pub open spec fn has_expired(c: ClaimsModel, now: i64, skew: i64) -> bool {
    c.expires_at <= crate::clock::clamp_i64(now - skew)
}

/// Whether claims are not good yet.
pub open spec fn is_early(c: ClaimsModel, now: i64, skew: i64) -> bool {
    c.not_before > crate::clock::clamp_i64(now + skew)
}

/// What becomes of claims at a time.
pub open spec fn time_verdict(c: ClaimsModel, now: i64, skew: i64) -> Result<(), TicketError> {
    if !skew_allowed(skew) {
        Err(TicketError::Invalid)
    } else if has_expired(c, now, skew) {
        Err(TicketError::Expired)
    } else if is_early(c, now, skew) {
        Err(TicketError::Invalid)
    } else {
        Ok(())
    }
}

/// What becomes of a ticket whose signature is checked with a resolver's key.
pub open spec fn signature_outcome<R: TicketKeyResolver>(
    envelope: Seq<u8>,
    resolver: &R,
    now: i64,
    skew: i64,
) -> Result<ClaimsModel, TicketError> {
    match opened(envelope) {
        None => Err(envelope_error(envelope)),
        Some(p) => match resolver.resolves(p.key_id, now) {
            None => Err(TicketError::Invalid),
            Some(key) => if !ed25519_accepts(
                key,
                signing_message(enc_claims(p.claims)),
                p.signature,
            ) {
                Err(TicketError::Invalid)
            } else {
                match time_verdict(p.claims, now, skew) {
                    Err(error) => Err(error),
                    Ok(()) => Ok(p.claims),
                }
            },
        },
    }
}

/// What becomes of a ticket that must also say what is expected.
pub open spec fn ticket_outcome<R: TicketKeyResolver>(
    envelope: Seq<u8>,
    resolver: &R,
    expected: ValidationModel,
) -> Result<ClaimsModel, TicketError> {
    match signature_outcome(envelope, resolver, expected.now, expected.clock_skew) {
        Err(error) => Err(error),
        Ok(claims) => if bound_to(claims, expected) {
            Ok(claims)
        } else {
            Err(TicketError::Invalid)
        },
    }
}

/// Checks the signature and the times of a ticket that has been taken apart.
fn verify_signed(
    claims: ConnectionTicketClaimsV1,
    signature: [u8; 64],
    key: &VerifyingKey,
    now: i64,
    clock_skew: i64,
) -> (r: Result<VerifiedTicket, TicketError>)
    requires
        valid_claims(claims@),
    ensures
        match r {
            Ok(ticket) => ticket@ == claims@ && ed25519_accepts(
                key@,
                signing_message(enc_claims(claims@)),
                signature@,
            ) && time_verdict(claims@, now, clock_skew) is Ok,
            Err(error) => if ed25519_accepts(
                key@,
                signing_message(enc_claims(claims@)),
                signature@,
            ) {
                time_verdict(claims@, now, clock_skew) == Err::<(), TicketError>(error)
            } else {
                error == TicketError::Invalid
            },
        },
{
    let bytes = match claims.encode() {
        Ok(bytes) => bytes,
        Err(error) => return Err(error),
    };
    proof {
        lemma_claims_len(claims@);
    }
    let message = message_for(bytes.as_slice());
    if !key.accepts(message.as_slice(), &signature) {
        return Err(TicketError::Invalid);
    }
    if clock_skew < 0 || clock_skew > MAX_CLOCK_SKEW {
        return Err(TicketError::Invalid);
    }
    if claims.expires_at <= crate::clock::saturating_sub(now, clock_skew) {
        return Err(TicketError::Expired);
    }
    if claims.not_before > crate::clock::saturating_add(now, clock_skew) {
        return Err(TicketError::Invalid);
    }
    Ok(VerifiedTicket { ticket_id: claims.ticket_id, claims })
}

/// Checks a ticket's signature and times, but not what it is bound to.
pub fn verify_signature_with_key_resolver<R: TicketKeyResolver>(
    envelope: &[u8],
    resolver: &R,
    now: i64,
    clock_skew: i64,
) -> (r: Result<VerifiedTicket, TicketError>)
    ensures
        match r {
            Ok(ticket) => signature_outcome(envelope@, resolver, now, clock_skew) == Ok::<
                ClaimsModel,
                TicketError,
            >(ticket@),
            Err(error) => signature_outcome(envelope@, resolver, now, clock_skew) == Err::<
                ClaimsModel,
                TicketError,
            >(error),
        },
{
    let (key_id, claims, signature) = match decode_envelope(envelope) {
        Ok(parts) => parts,
        Err(error) => return Err(error),
    };
    let key = match resolver.key(key_id, now) {
        Some(key) => key,
        None => return Err(TicketError::Invalid),
    };
    verify_signed(claims, signature, key, now, clock_skew)
}

/// Checks a ticket against everything that is expected of it.
pub fn verify_with_key_resolver<R: TicketKeyResolver>(
    envelope: &[u8],
    resolver: &R,
    expected: &TicketValidation<'_>,
) -> (r: Result<VerifiedTicket, TicketError>)
    ensures
        match r {
            Ok(ticket) => ticket_outcome(envelope@, resolver, expected@) == Ok::<
                ClaimsModel,
                TicketError,
            >(ticket@),
            Err(error) => ticket_outcome(envelope@, resolver, expected@) == Err::<
                ClaimsModel,
                TicketError,
            >(error),
        },
{
    let ticket = match verify_signature_with_key_resolver(
        envelope,
        resolver,
        expected.now,
        expected.clock_skew,
    ) {
        Ok(ticket) => ticket,
        Err(error) => return Err(error),
    };
    if is_bound_to(&ticket.claims, expected) {
        Ok(ticket)
    } else {
        Err(TicketError::Invalid)
    }
}

/// Whether claims are bound to exactly what is expected.
fn is_bound_to(claims: &ConnectionTicketClaimsV1, expected: &TicketValidation<'_>) -> (r: bool)
    ensures
        r == bound_to(claims@, expected@),
{
    same_bytes(claims.issuer_exchange_peer_id.as_slice(), expected.issuer_exchange_peer_id)
        && same_bytes(claims.client_peer_id.as_slice(), expected.client_peer_id) && same_bytes(
        claims.server_peer_id.as_slice(),
        expected.server_peer_id,
    ) && same_text(claims.tenant.as_str(), expected.tenant) && same_text(
        claims.upstream_id.as_str(),
        expected.upstream_id,
    ) && same_bytes(&claims.selector_fingerprint, &expected.selector_fingerprint)
        && claims.registration_revision == expected.registration_revision
        && claims.authorization_revision == expected.authorization_revision && claims.permissions
        == expected.permissions && claims.max_streams == expected.max_streams
}

/// A ticket that a signer made is accepted by whoever resolves the signer's
/// identifier to its public key, while it is good and where it is bound.
pub proof fn law_signed_ticket_is_accepted<R: TicketKeyResolver>(
    seed: Seq<u8>,
    claims: ClaimsModel,
    envelope: Seq<u8>,
    resolver: &R,
    expected: ValidationModel,
)
    requires
        ({
            let message = signing_message(enc_claims(claims));
            let signature = ed25519_signature(seed, message);
            &&& is_envelope(envelope, key_id_of(ed25519_public(seed)), claims, signature)
            &&& ed25519_accepts(ed25519_public(seed), message, signature)
        }),
        resolver.resolves(key_id_of(ed25519_public(seed)), expected.now) == Some(
            ed25519_public(seed),
        ),
        time_verdict(claims, expected.now, expected.clock_skew) is Ok,
        bound_to(claims, expected),
    ensures
        ticket_outcome(envelope, resolver, expected) == Ok::<ClaimsModel, TicketError>(claims),
{
    law_ticket_parts_are_unique(
        envelope,
        key_id_of(ed25519_public(seed)),
        claims,
        ed25519_signature(seed, signing_message(enc_claims(claims))),
    );
}

/// A ticket is accepted only for what it is bound to: no ticket is good for
/// two different expectations.
pub proof fn law_accepted_ticket_is_bound<R: TicketKeyResolver>(
    envelope: Seq<u8>,
    resolver: &R,
    expected: ValidationModel,
)
    ensures
        ticket_outcome(envelope, resolver, expected) matches Ok(claims) ==> {
            &&& valid_claims(claims)
            &&& bound_to(claims, expected)
            &&& claims.expires_at > crate::clock::clamp_i64(expected.now - expected.clock_skew)
            &&& claims.not_before <= crate::clock::clamp_i64(expected.now + expected.clock_skew)
        },
{
    if let Some(p) = opened(envelope) {
        assert(is_envelope(envelope, p.key_id, p.claims, p.signature));
    }
}

/// A ticket is good from its start to its end, the end excluded, give or take
/// the difference between clocks that is allowed for, which is at most half a
/// minute. What is past its end is told apart from what is not good yet.
pub proof fn law_tickets_are_good_in_their_time(c: ClaimsModel, now: i64, skew: i64)
    requires
        -1_000_000_000_000 <= now <= 1_000_000_000_000,
    ensures
        0 <= skew <= 30 && c.expires_at > now - skew && c.not_before <= now + skew <==> time_verdict(
            c,
            now,
            skew,
        ) is Ok,
        0 <= skew <= 30 && c.expires_at <= now - skew <==> time_verdict(c, now, skew) == Err::<
            (),
            TicketError,
        >(TicketError::Expired),
        skew < 0 || skew > 30 || (c.expires_at > now - skew && c.not_before > now + skew) <==> time_verdict(
            c,
            now,
            skew,
        ) == Err::<(), TicketError>(TicketError::Invalid),
{
}

/// What is accepted says what was expected, of everything that was: who issued
/// it, who may use it, where, for what, and under which revisions. And it was
/// signed with the key that its identifier stands for at the time.
pub proof fn law_accepted_tickets_say_what_was_expected<R: TicketKeyResolver>(
    envelope: Seq<u8>,
    resolver: &R,
    expected: ValidationModel,
    key_id: Seq<u8>,
    claims: ClaimsModel,
    signature: Seq<u8>,
)
    requires
        is_envelope(envelope, key_id, claims, signature),
        ticket_outcome(envelope, resolver, expected) is Ok,
    ensures
        ticket_outcome(envelope, resolver, expected)->Ok_0 == claims,
        claims.issuer_exchange_peer_id == expected.issuer_exchange_peer_id,
        claims.client_peer_id == expected.client_peer_id,
        claims.server_peer_id == expected.server_peer_id,
        claims.tenant == expected.tenant,
        claims.upstream_id == expected.upstream_id,
        claims.selector_fingerprint@ == expected.selector_fingerprint,
        claims.registration_revision == expected.registration_revision,
        claims.authorization_revision == expected.authorization_revision,
        claims.permissions == expected.permissions,
        claims.max_streams == expected.max_streams,
        resolver.resolves(key_id, expected.now) matches Some(key) && ed25519_accepts(
            key,
            signing_message(enc_claims(claims)),
            signature,
        ),
{
    law_ticket_parts_are_unique(envelope, key_id, claims, signature);
}

/// A ticket that says what was expected, in its time, with a signature that the
/// key of its identifier accepts, is accepted; without such a key or such a
/// signature none is, and one that says anything else is refused.
pub proof fn law_sound_tickets_are_accepted<R: TicketKeyResolver>(
    envelope: Seq<u8>,
    resolver: &R,
    expected: ValidationModel,
    key_id: Seq<u8>,
    claims: ClaimsModel,
    signature: Seq<u8>,
)
    requires
        is_envelope(envelope, key_id, claims, signature),
        -1_000_000_000_000 <= expected.now <= 1_000_000_000_000,
        0 <= expected.clock_skew <= 30,
    ensures
        ({
            let outcome = ticket_outcome(envelope, resolver, expected);
            let signed = resolver.resolves(key_id, expected.now) matches Some(key) && ed25519_accepts(
                key,
                signing_message(enc_claims(claims)),
                signature,
            );
            let says = claims.issuer_exchange_peer_id == expected.issuer_exchange_peer_id
                && claims.client_peer_id == expected.client_peer_id && claims.server_peer_id
                == expected.server_peer_id && claims.tenant == expected.tenant && claims.upstream_id
                == expected.upstream_id && claims.selector_fingerprint@ == expected.selector_fingerprint
                && claims.registration_revision == expected.registration_revision
                && claims.authorization_revision == expected.authorization_revision && claims.permissions
                == expected.permissions && claims.max_streams == expected.max_streams;
            let over = claims.expires_at <= expected.now - expected.clock_skew;
            let early = claims.not_before > expected.now + expected.clock_skew;
            &&& signed && says && !over && !early ==> outcome == Ok::<ClaimsModel, TicketError>(claims)
            &&& !signed ==> outcome == Err::<ClaimsModel, TicketError>(TicketError::Invalid)
            &&& signed && over ==> outcome == Err::<ClaimsModel, TicketError>(TicketError::Expired)
            &&& signed && !over && early ==> outcome == Err::<ClaimsModel, TicketError>(TicketError::Invalid)
            &&& signed && !over && !early && !says ==> outcome == Err::<ClaimsModel, TicketError>(
                TicketError::Invalid,
            )
            &&& signature_outcome(envelope, resolver, expected.now, expected.clock_skew) is Ok <==> signed
                && !over && !early
        }),
{
    law_ticket_parts_are_unique(envelope, key_id, claims, signature);
}

/// No ticket lives for more than a minute, ends before it starts, allows
/// anything but opening a stream, or allows more than one.
pub proof fn law_tickets_allow_one_stream_for_a_minute(c: ClaimsModel)
    ensures
        valid_claims(c) ==> c.not_before <= c.expires_at && c.expires_at - c.not_before <= 60
            && c.permissions == 4 && c.max_streams == 1 && id_text(c.tenant) && id_text(c.upstream_id)
            && 1 <= c.client_peer_id.len() <= 255 && 1 <= c.server_peer_id.len() <= 255 && 1
            <= c.issuer_exchange_peer_id.len() <= 255,
        c.not_before <= c.expires_at && c.expires_at - c.not_before <= 60 && c.permissions == 4
            && c.max_streams == 1 && id_text(c.tenant) && id_text(c.upstream_id) && peer_field(
            c.client_peer_id,
        ) && peer_field(c.server_peer_id) && peer_field(c.issuer_exchange_peer_id) ==> valid_claims(c),
{
}

/// A key goes by the first half of the digest of its public part.
pub proof fn law_keys_go_by_their_digest(public: Seq<u8>)
    requires
        sha256_of(public).len() == 32,
    ensures
        key_id_of(public).len() == 16,
        forall|i: int| 0 <= i < 16 ==> #[trigger] key_id_of(public)[i] == sha256_of(public)[i],
{
}

/// A ticket whose claims are longer than they may be is too large; whatever else is
/// wrong with its form, it is invalid.
pub proof fn law_malformed_tickets_are_told_apart(envelope: Seq<u8>)
    ensures
        envelope_error(envelope) is TooLarge <==> envelope.len() <= 2048 && (envelope_pieces(
            envelope,
        ) matches Some((_, claims, _)) && claims.len() > 1024),
        envelope_error(envelope) is TooLarge || envelope_error(envelope) is Invalid,
{
}

/// Claims are written if they are in order, and are invalid if not.
pub proof fn law_only_claims_in_order_are_written(claims: ConnectionTicketClaimsV1, r: Result<Vec<u8>, TicketError>)
    requires
        call_ensures(ConnectionTicketClaimsV1::encode, (&claims,), r),
    ensures
        r is Ok <==> valid_claims(claims@),
        r is Ok ==> r->Ok_0@ == enc_claims(claims@),
        r is Err ==> r->Err_0 == TicketError::Invalid,
{
}

} // verus!
