//! The bytes of the authentication protocol.
use crate::auth::{
    AuthRequest, AuthRequestModel, AuthResponse, AuthResponseModel, Role, KNOWN_AUTH_FEATURES_V1,
};
use crate::bytes::{
    be32, be64, be_i64, enc_text, put_bytes, put_i64, put_text, put_u32, put_u64, put_u8, split_bytes,
    split_i64, split_text, split_u32, split_u64, split_u8, Reader,
};
use crate::credential::TokenSecret;
use crate::error::{code_text, enc_error, parsed_code, put_error, PublicError, PublicErrorCode};
use crate::frame::{
    framed, read_frame_within, split_frame, write_frame_within, FrameError, MAX_AUTH_FRAME,
};
use crate::ids::{id_text, lemma_id_utf8, CredentialId, QuotaProfile, Tenant};
use crate::proxy::{enc_optional_id, put_optional_id};
use vstd::prelude::*;

verus! {

/// The name of the authentication protocol.
pub const AUTH_PROTOCOL: &'static str = "/p2x/auth/1";

#[derive(Clone, Copy, Debug, PartialEq, Eq, Structural)]
pub enum AuthProtocolError {
    FrameTooLarge,
    Malformed,
    UnsupportedVersion,
    CapabilityMismatch,
}

/// Whether a set of features holds one that this version does not know.
pub open spec fn unknown_features(features: u64) -> bool {
    features & !KNOWN_AUTH_FEATURES_V1 != 0
}

/// The byte that stands for a role.
pub open spec fn role_wire(role: Role) -> u8 {
    match role {
        Role::Client => 0,
        Role::Server => 1,
    }
}

/// The role that a byte stands for.
pub open spec fn role_of(byte: u8) -> Option<Role> {
    match byte {
        0 => Some(Role::Client),
        1 => Some(Role::Server),
        _ => None,
    }
}

/// The bytes of a request.
pub open spec fn enc_request(m: AuthRequestModel) -> Seq<u8> {
    seq![1u8] + match m {
        AuthRequestModel::Authenticate {
            request_id,
            credential_id,
            token_secret,
            requested_role,
            supported_features,
        } => seq![0u8] + (request_id@ + (enc_text(credential_id) + (token_secret@ + (seq![
            role_wire(requested_role),
        ] + be64(supported_features))))),
        AuthRequestModel::Ping { request_id, session_id, nonce } => seq![1u8] + (request_id@ + (
        session_id@ + be64(nonce))),
    }
}

/// The fields of a request to authenticate, and what follows them.
pub open spec fn split_authenticate(s: Seq<u8>) -> Option<
    (Seq<u8>, Seq<char>, Seq<u8>, Role, u64, Seq<u8>),
> {
    match split_bytes(s, 16) {
        None => None,
        Some((request_id, s)) => match split_text(s) {
            None => None,
            Some((id, s)) => if !id_text(id) {
                None
            } else {
                match split_bytes(s, 32) {
                    None => None,
                    Some((secret, s)) => match split_u8(s) {
                        None => None,
                        Some((byte, s)) => match role_of(byte) {
                            None => None,
                            Some(role) => match split_u64(s) {
                                None => None,
                                Some((features, s)) => Some((request_id, id, secret, role, features, s)),
                            },
                        },
                    },
                }
            },
        },
    }
}

/// The fields of a ping, and what follows them.
pub open spec fn split_ping(s: Seq<u8>) -> Option<(Seq<u8>, Seq<u8>, u64, Seq<u8>)> {
    match split_bytes(s, 16) {
        None => None,
        Some((request_id, s)) => match split_bytes(s, 16) {
            None => None,
            Some((session_id, s)) => match split_u64(s) {
                None => None,
                Some((nonce, s)) => Some((request_id, session_id, nonce, s)),
            },
        },
    }
}

/// The kind of a message of this version, and what follows it.
pub open spec fn split_kind(s: Seq<u8>) -> Option<(u8, Seq<u8>)> {
    match split_u8(s) {
        None => None,
        Some((version, s)) => if version != 1 {
            None
        } else {
            split_u8(s)
        },
    }
}

/// Whether bytes say `m`.
pub open spec fn reads_request(s: Seq<u8>, m: AuthRequestModel) -> bool {
    match split_kind(s) {
        None => false,
        Some((kind, s)) => match m {
            AuthRequestModel::Authenticate {
                request_id,
                credential_id,
                token_secret,
                requested_role,
                supported_features,
            } => kind == 0 && match split_authenticate(s) {
                None => false,
                Some((a, id, secret, role, features, s)) => a == request_id@ && id == credential_id && secret
                    == token_secret@ && role == requested_role && features == supported_features
                    && !unknown_features(features) && s.len() == 0,
            },
            AuthRequestModel::Ping { request_id, session_id, nonce } => kind == 1 && match split_ping(s) {
                None => false,
                Some((a, b, c, s)) => a == request_id@ && b == session_id@ && c == nonce && s.len() == 0,
            },
        },
    }
}

/// Why bytes are not a request.
pub open spec fn request_error(s: Seq<u8>) -> AuthProtocolError {
    if s.len() > 0 && s[0] != 1 {
        AuthProtocolError::UnsupportedVersion
    } else if split_kind(s) matches Some((kind, body)) && kind == 0 && (split_authenticate(
        body,
    ) matches Some((_, _, _, _, features, _)) && unknown_features(features)) {
        AuthProtocolError::CapabilityMismatch
    } else {
        AuthProtocolError::Malformed
    }
}

/// What a request that can be sent is: its features are known.
pub open spec fn valid_request(m: AuthRequestModel) -> bool {
    match m {
        AuthRequestModel::Authenticate { credential_id, supported_features, .. } => id_text(
            credential_id,
        ) && !unknown_features(supported_features),
        AuthRequestModel::Ping { .. } => true,
    }
}

proof fn lemma_kind(kind: u8, body: Seq<u8>)
    ensures
        split_kind(seq![1u8] + (seq![kind] + body)) == Some((kind, body)),
{
    crate::bytes::lemma_split_u8(1, seq![kind] + body);
    crate::bytes::lemma_split_u8(kind, body);
}

proof fn lemma_request_then(m: AuthRequestModel, rest: Seq<u8>)
    requires
        valid_request(m),
    ensures
        rest.len() == 0 ==> reads_request(enc_request(m) + rest, m),
        rest.len() > 0 ==> forall|x: AuthRequestModel| !reads_request(enc_request(m) + rest, x),
        request_error(enc_request(m) + rest) == AuthProtocolError::Malformed,
{
    broadcast use crate::bytes::lemma_add_assoc;

    assert((enc_request(m) + rest)[0] == 1);
    match m {
        AuthRequestModel::Authenticate {
            request_id,
            credential_id,
            token_secret,
            requested_role,
            supported_features,
        } => {
            lemma_id_utf8(credential_id);
            let byte = role_wire(requested_role);
            let s4 = be64(supported_features) + rest;
            let s3 = seq![byte] + s4;
            let s2 = token_secret@ + s3;
            let s1 = enc_text(credential_id) + s2;
            assert(enc_request(m) + rest == seq![1u8] + (seq![0u8] + (request_id@ + s1)));
            lemma_kind(0, request_id@ + s1);
            crate::bytes::lemma_split_bytes(request_id@, s1);
            crate::bytes::lemma_split_text(credential_id, s2);
            crate::bytes::lemma_split_bytes(token_secret@, s3);
            crate::bytes::lemma_split_u8(byte, s4);
            crate::bytes::lemma_split_u64(supported_features, rest);
        },
        AuthRequestModel::Ping { request_id, session_id, nonce } => {
            let s2 = be64(nonce) + rest;
            let s1 = session_id@ + s2;
            assert(enc_request(m) + rest == seq![1u8] + (seq![1u8] + (request_id@ + s1)));
            lemma_kind(1, request_id@ + s1);
            crate::bytes::lemma_split_bytes(request_id@, s1);
            crate::bytes::lemma_split_bytes(session_id@, s2);
            crate::bytes::lemma_split_u64(nonce, rest);
        },
    }
}

/// A request that was written is read back.
pub proof fn law_request_round_trip(m: AuthRequestModel)
    requires
        valid_request(m),
    ensures
        reads_request(enc_request(m), m),
{
    let none = Seq::<u8>::empty();
    lemma_request_then(m, none);
    assert(enc_request(m) + none =~= enc_request(m));
}

/// A request with anything after it is malformed.
pub proof fn law_request_ends_its_frame(m: AuthRequestModel, added: Seq<u8>)
    requires
        valid_request(m),
        added.len() > 0,
    ensures
        forall|x: AuthRequestModel| !reads_request(enc_request(m) + added, x),
        request_error(enc_request(m) + added) == AuthProtocolError::Malformed,
{
    lemma_request_then(m, added);
}

/// Bytes that start with another version than one are of an unsupported
/// version, whatever follows.
pub proof fn law_request_version_is_one(s: Seq<u8>)
    requires
        s.len() > 0,
        s[0] != 1,
    ensures
        forall|x: AuthRequestModel| !reads_request(s, x),
        request_error(s) == AuthProtocolError::UnsupportedVersion,
{
    assert(s.subrange(0, 1)[0] == s[0]);
}

/// What is read as a request is what writing it gives.
pub proof fn law_request_is_canonical(s: Seq<u8>, m: AuthRequestModel)
    requires
        reads_request(s, m),
    ensures
        s == enc_request(m),
{
    crate::bytes::lemma_join_u8(s);
    let t1 = (split_u8(s)->0).1;
    crate::bytes::lemma_join_u8(t1);
    let t2 = (split_u8(t1)->0).1;
    crate::bytes::lemma_join_bytes(t2, 16);
    let t3 = (split_bytes(t2, 16)->0).1;
    match m {
        AuthRequestModel::Authenticate { supported_features, .. } => {
            crate::bytes::lemma_join_text(t3);
            let t4 = (split_text(t3)->0).1;
            crate::bytes::lemma_join_bytes(t4, 32);
            let t5 = (split_bytes(t4, 32)->0).1;
            crate::bytes::lemma_join_u8(t5);
            let t6 = (split_u8(t5)->0).1;
            crate::bytes::lemma_join_u64(t6);
            let t7 = (split_u64(t6)->0).1;
            assert(be64(supported_features) + t7 =~= be64(supported_features));
        },
        AuthRequestModel::Ping { nonce, .. } => {
            crate::bytes::lemma_join_bytes(t3, 16);
            let t4 = (split_bytes(t3, 16)->0).1;
            crate::bytes::lemma_join_u64(t4);
            let t5 = (split_u64(t4)->0).1;
            assert(be64(nonce) + t5 =~= be64(nonce));
        },
    }
}

fn read_role(reader: &mut Reader<'_>) -> (r: Option<Role>)
    ensures
        match split_u8(old(reader)@) {
            None => r is None,
            Some((byte, rest)) => match role_of(byte) {
                None => r is None,
                Some(role) => r == Some(role) && final(reader)@ == rest,
            },
        },
{
    let byte: u8 = reader.u8()?;
    if byte == 0 {
        Some(Role::Client)
    } else if byte == 1 {
        Some(Role::Server)
    } else {
        None
    }
}

fn put_role(out: &mut Vec<u8>, role: Role)
    ensures
        final(out)@ == old(out)@ + seq![role_wire(role)],
{
    match role {
        Role::Client => put_u8(out, 0),
        Role::Server => put_u8(out, 1),
    }
}

/// The bytes of a request. Every request can be written.
pub fn encode_request(request: &AuthRequest) -> (r: Result<Vec<u8>, AuthProtocolError>)
    ensures
        r matches Ok(bytes) && bytes@ == enc_request(request@) && bytes@.len() <= MAX_AUTH_FRAME,
{
    broadcast use crate::bytes::lemma_add_assoc;

    let mut out: Vec<u8> = Vec::new();
    put_u8(&mut out, 1);
    assert(out@ =~= seq![1u8]);
    match request {
        AuthRequest::Authenticate {
            request_id,
            credential_id,
            token_secret,
            requested_role,
            supported_features,
        } => {
            proof {
                use_type_invariant(credential_id);
                lemma_id_utf8(credential_id@);
                crate::bytes::lemma_field_lengths(0, 0, *supported_features, 0);
            }
            put_u8(&mut out, 0);
            put_bytes(&mut out, request_id);
            put_text(&mut out, credential_id.as_str());
            put_bytes(&mut out, token_secret.as_bytes());
            put_role(&mut out, *requested_role);
            put_u64(&mut out, *supported_features);
        },
        AuthRequest::Ping { request_id, session_id, nonce } => {
            proof {
                crate::bytes::lemma_field_lengths(0, 0, *nonce, 0);
            }
            put_u8(&mut out, 1);
            put_bytes(&mut out, request_id);
            put_bytes(&mut out, session_id);
            put_u64(&mut out, *nonce);
        },
    }
    Ok(out)
}

fn read_kind(reader: &mut Reader<'_>) -> (r: Option<u8>)
    ensures
        match split_kind(old(reader)@) {
            None => r is None,
            Some((kind, rest)) => r == Some(kind) && final(reader)@ == rest,
        },
{
    let version: u8 = reader.u8()?;
    if version != 1 {
        return None;
    }
    reader.u8()
}

fn read_authenticate(reader: &mut Reader<'_>) -> (r: Option<
    ([u8; 16], CredentialId, [u8; 32], Role, u64),
>)
    ensures
        match split_authenticate(old(reader)@) {
            None => r is None,
            Some((a, id, secret, role, features, rest)) => r matches Some(v) && v.0@ == a && v.1@ == id
                && v.2@ == secret && v.3 == role && v.4 == features && final(reader)@ == rest,
        },
{
    let request_id: [u8; 16] = reader.array()?;
    let name = reader.text()?;
    let id = match CredentialId::new(name.as_str()) {
        Ok(id) => id,
        Err(_) => return None,
    };
    let secret: [u8; 32] = reader.array()?;
    let role = read_role(reader)?;
    let features: u64 = reader.u64()?;
    Some((request_id, id, secret, role, features))
}

fn read_ping(reader: &mut Reader<'_>) -> (r: Option<([u8; 16], [u8; 16], u64)>)
    ensures
        match split_ping(old(reader)@) {
            None => r is None,
            Some((a, b, c, rest)) => r matches Some(v) && v.0@ == a && v.1@ == b && v.2 == c
                && final(reader)@ == rest,
        },
{
    let request_id: [u8; 16] = reader.array()?;
    let session_id: [u8; 16] = reader.array()?;
    let nonce: u64 = reader.u64()?;
    Some((request_id, session_id, nonce))
}

/// The request that bytes hold.
pub fn decode_request(bytes: &[u8]) -> (r: Result<AuthRequest, AuthProtocolError>)
    ensures
        match r {
            Ok(request) => reads_request(bytes@, request@),
            Err(error) => error == request_error(bytes@) && forall|m: AuthRequestModel|
                !reads_request(bytes@, m),
        },
{
    if bytes.len() > 0 && bytes[0] != 1 {
        assert(bytes@.subrange(0, 1)[0] == bytes@[0]);
        return Err(AuthProtocolError::UnsupportedVersion);
    }
    let mut reader = Reader::new(bytes);
    let kind: u8 = match read_kind(&mut reader) {
        Some(kind) => kind,
        None => return Err(AuthProtocolError::Malformed),
    };
    if kind == 0 {
        let (request_id, credential_id, secret, requested_role, supported_features) =
            match read_authenticate(&mut reader) {
            Some(fields) => fields,
            None => return Err(AuthProtocolError::Malformed),
        };
        if supported_features & !KNOWN_AUTH_FEATURES_V1 != 0 {
            return Err(AuthProtocolError::CapabilityMismatch);
        }
        if !reader.at_end() {
            return Err(AuthProtocolError::Malformed);
        }
        let token_secret = TokenSecret::from_bytes(secret);
        Ok(
            AuthRequest::Authenticate {
                request_id,
                credential_id,
                token_secret,
                requested_role,
                supported_features,
            },
        )
    } else if kind == 1 {
        let (request_id, session_id, nonce) = match read_ping(&mut reader) {
            Some(fields) => fields,
            None => return Err(AuthProtocolError::Malformed),
        };
        if !reader.at_end() {
            return Err(AuthProtocolError::Malformed);
        }
        Ok(AuthRequest::Ping { request_id, session_id, nonce })
    } else {
        Err(AuthProtocolError::Malformed)
    }
}

/// The request that bytes hold.
pub fn decode_auth_request(bytes: &[u8]) -> (r: Result<AuthRequest, AuthProtocolError>)
    ensures
        match r {
            Ok(request) => reads_request(bytes@, request@),
            Err(error) => error == request_error(bytes@) && forall|m: AuthRequestModel|
                !reads_request(bytes@, m),
        },
{
    decode_request(bytes)
}

/// What becomes of bytes that should be one frame and nothing more.
pub open spec fn whole_frame(s: Seq<u8>) -> Result<Seq<u8>, AuthProtocolError> {
    match split_u32(s) {
        None => Err(AuthProtocolError::Malformed),
        Some((n, body)) => if n == 0 || n > MAX_AUTH_FRAME {
            Err(AuthProtocolError::FrameTooLarge)
        } else if body.len() != n {
            Err(AuthProtocolError::Malformed)
        } else {
            Ok(body)
        },
    }
}

/// The request in bytes that are exactly one frame.
pub fn decode_auth_frame(frame: &[u8]) -> (r: Result<AuthRequest, AuthProtocolError>)
    ensures
        match whole_frame(frame@) {
            Ok(body) => match r {
                Ok(request) => reads_request(body, request@),
                Err(error) => error == request_error(body) && forall|m: AuthRequestModel|
                    !reads_request(body, m),
            },
            Err(error) => r == Err::<AuthRequest, AuthProtocolError>(error),
        },
{
    let mut reader = Reader::new(frame);
    let n: u32 = match reader.u32() {
        Some(n) => n,
        None => return Err(AuthProtocolError::Malformed),
    };
    let length: usize = n as usize;
    if length == 0 || length > MAX_AUTH_FRAME {
        return Err(AuthProtocolError::FrameTooLarge);
    }
    let ghost tail = reader@;
    match reader.take(length) {
        Some(body) => {
            if !reader.at_end() {
                return Err(AuthProtocolError::Malformed);
            }
            assert(body@ =~= tail);
            decode_request(body)
        },
        None => Err(AuthProtocolError::Malformed),
    }
}

/// The bytes of an answer.
pub open spec fn enc_response(m: AuthResponseModel) -> Seq<u8> {
    seq![1u8] + match m {
        AuthResponseModel::Authenticated {
            request_id,
            session_id,
            tenant,
            role,
            scopes,
            quota_profile,
            authorization_revision,
            expires_at,
            exchange_features,
        } => seq![0u8] + (request_id@ + (session_id@ + (enc_text(tenant) + (seq![role_wire(role)] + (
        be32(scopes) + (enc_text(quota_profile) + (be64(authorization_revision) + (be_i64(expires_at)
            + be64(exchange_features))))))))),
        AuthResponseModel::Pong { request_id, nonce, exchange_time } => seq![1u8] + (request_id@ + (be64(
            nonce,
        ) + be_i64(exchange_time))),
        AuthResponseModel::Rejected { request_id, error } => seq![2u8] + (enc_optional_id(request_id)
            + enc_error(error)),
    }
}

/// The session that an exchange granted, as it stands on the wire.
#[verifier::ext_equal]
pub struct SessionFields {
    pub request_id: Seq<u8>,
    pub session_id: Seq<u8>,
    pub tenant: Seq<char>,
    pub role: Role,
    pub scopes: u32,
    pub quota_profile: Seq<char>,
    pub authorization_revision: u64,
    pub expires_at: i64,
    pub exchange_features: u64,
}

/// The first fields of a granted session, and what follows them.
pub open spec fn split_session_head(s: Seq<u8>) -> Option<
    (Seq<u8>, Seq<u8>, Seq<char>, Role, Seq<u8>),
> {
    match split_bytes(s, 16) {
        None => None,
        Some((request_id, s)) => match split_bytes(s, 16) {
            None => None,
            Some((session_id, s)) => match split_text(s) {
                None => None,
                Some((tenant, s)) => if !id_text(tenant) {
                    None
                } else {
                    match split_u8(s) {
                        None => None,
                        Some((byte, s)) => match role_of(byte) {
                            None => None,
                            Some(role) => Some((request_id, session_id, tenant, role, s)),
                        },
                    }
                },
            },
        },
    }
}

/// The last fields of a granted session, and what follows them.
pub open spec fn split_session_tail(s: Seq<u8>) -> Option<
    (u32, Seq<char>, u64, i64, u64, Seq<u8>),
> {
    match split_u32(s) {
        None => None,
        Some((scopes, s)) => match split_text(s) {
            None => None,
            Some((quota, s)) => if !id_text(quota) {
                None
            } else {
                match split_u64(s) {
                    None => None,
                    Some((revision, s)) => match split_i64(s) {
                        None => None,
                        Some((expires_at, s)) => match split_u64(s) {
                            None => None,
                            Some((features, s)) => Some((scopes, quota, revision, expires_at, features, s)),
                        },
                    },
                }
            },
        },
    }
}

/// The fields of a granted session, and what follows them.
pub open spec fn split_session(s: Seq<u8>) -> Option<(SessionFields, Seq<u8>)> {
    match split_session_head(s) {
        None => None,
        Some((request_id, session_id, tenant, role, s)) => match split_session_tail(s) {
            None => None,
            Some((scopes, quota_profile, authorization_revision, expires_at, exchange_features, s)) =>
                Some(
                (
                    SessionFields {
                        request_id,
                        session_id,
                        tenant,
                        role,
                        scopes,
                        quota_profile,
                        authorization_revision,
                        expires_at,
                        exchange_features,
                    },
                    s,
                ),
            ),
        },
    }
}

/// Whether the fields of a granted session are those of an answer.
pub open spec fn session_is(f: SessionFields, m: AuthResponseModel) -> bool {
    m matches AuthResponseModel::Authenticated {
        request_id,
        session_id,
        tenant,
        role,
        scopes,
        quota_profile,
        authorization_revision,
        expires_at,
        exchange_features,
    } && f == (SessionFields {
        request_id: request_id@,
        session_id: session_id@,
        tenant,
        role,
        scopes,
        quota_profile,
        authorization_revision,
        expires_at,
        exchange_features,
    })
}

/// The fields of a pong, and what follows them.
pub open spec fn split_pong(s: Seq<u8>) -> Option<(Seq<u8>, u64, i64, Seq<u8>)> {
    match split_bytes(s, 16) {
        None => None,
        Some((request_id, s)) => match split_u64(s) {
            None => None,
            Some((nonce, s)) => match split_i64(s) {
                None => None,
                Some((exchange_time, s)) => Some((request_id, nonce, exchange_time, s)),
            },
        },
    }
}

/// The number with which a refusal starts, and what follows it. A first byte
/// other than one says that there is none.
pub open spec fn split_refused_id(s: Seq<u8>) -> Option<(Option<Seq<u8>>, Seq<u8>)> {
    match split_u8(s) {
        None => None,
        Some((flag, s)) => if flag == 1 {
            match split_bytes(s, 16) {
                None => None,
                Some((id, s)) => Some((Some(id), s)),
            }
        } else {
            Some((None, s))
        },
    }
}

/// Whether two optional numbers are the same.
pub open spec fn same_id(read: Option<Seq<u8>>, id: Option<[u8; 16]>) -> bool {
    match id {
        Some(id) => read == Some(id@),
        None => read is None,
    }
}

/// Whether bytes read as a refusal. A code that is not known reads as a
/// malformed message.
pub open spec fn reads_refusal(s: Seq<u8>, request_id: Option<[u8; 16]>, error: PublicError) -> bool {
    match split_refused_id(s) {
        None => false,
        Some((id, s)) => same_id(id, request_id) && match split_text(s) {
            None => false,
            Some((name, s)) => error.code == parsed_code(name) && match split_u8(s) {
                None => false,
                Some((flag, s)) => flag <= 1 && error.retryable == (flag == 1) && s.len() == 0,
            },
        },
    }
}

/// Whether bytes say `m`.
pub open spec fn reads_response(s: Seq<u8>, m: AuthResponseModel) -> bool {
    match split_kind(s) {
        None => false,
        Some((kind, s)) => match m {
            AuthResponseModel::Authenticated { exchange_features, .. } => kind == 0 && match split_session(
                s,
            ) {
                None => false,
                Some((fields, s)) => session_is(fields, m) && !unknown_features(exchange_features)
                    && s.len() == 0,
            },
            AuthResponseModel::Pong { request_id, nonce, exchange_time } => kind == 1 && match split_pong(
                s,
            ) {
                None => false,
                Some((a, b, c, s)) => a == request_id@ && b == nonce && c == exchange_time && s.len() == 0,
            },
            AuthResponseModel::Rejected { request_id, error } => kind == 2 && reads_refusal(
                s,
                request_id,
                error,
            ),
        },
    }
}

/// Why bytes are not an answer.
pub open spec fn response_error(s: Seq<u8>) -> AuthProtocolError {
    if s.len() > 0 && s[0] != 1 {
        AuthProtocolError::UnsupportedVersion
    } else if split_kind(s) matches Some((kind, body)) && kind == 0 && (split_session(
        body,
    ) matches Some((fields, _)) && unknown_features(fields.exchange_features)) {
        AuthProtocolError::CapabilityMismatch
    } else {
        AuthProtocolError::Malformed
    }
}

/// What an answer that the other side understands is.
pub open spec fn valid_response(m: AuthResponseModel) -> bool {
    match m {
        AuthResponseModel::Authenticated { tenant, quota_profile, exchange_features, .. } => id_text(tenant)
            && id_text(quota_profile) && !unknown_features(exchange_features),
        _ => true,
    }
}

proof fn lemma_session_head(a: [u8; 16], b: [u8; 16], tenant: Seq<char>, role: Role, rest: Seq<u8>)
    requires
        id_text(tenant),
    ensures
        split_session_head(a@ + (b@ + (enc_text(tenant) + (seq![role_wire(role)] + rest)))) == Some(
            (a@, b@, tenant, role, rest),
        ),
{
    lemma_id_utf8(tenant);
    let s3 = seq![role_wire(role)] + rest;
    let s2 = enc_text(tenant) + s3;
    let s1 = b@ + s2;
    crate::bytes::lemma_split_bytes(a@, s1);
    crate::bytes::lemma_split_bytes(b@, s2);
    crate::bytes::lemma_split_text(tenant, s3);
    crate::bytes::lemma_split_u8(role_wire(role), rest);
}

proof fn lemma_session_tail(
    scopes: u32,
    quota: Seq<char>,
    revision: u64,
    expires_at: i64,
    features: u64,
    rest: Seq<u8>,
)
    requires
        id_text(quota),
    ensures
        split_session_tail(
            be32(scopes) + (enc_text(quota) + (be64(revision) + (be_i64(expires_at) + (be64(features)
                + rest)))),
        ) == Some((scopes, quota, revision, expires_at, features, rest)),
{
    lemma_id_utf8(quota);
    let s4 = be64(features) + rest;
    let s3 = be_i64(expires_at) + s4;
    let s2 = be64(revision) + s3;
    let s1 = enc_text(quota) + s2;
    crate::bytes::lemma_split_u32(scopes, s1);
    crate::bytes::lemma_split_text(quota, s2);
    crate::bytes::lemma_split_u64(revision, s3);
    crate::bytes::lemma_split_i64(expires_at, s4);
    crate::bytes::lemma_split_u64(features, rest);
}

proof fn lemma_grant_then(m: AuthResponseModel, rest: Seq<u8>)
    requires
        m is Authenticated,
        valid_response(m),
    ensures
        exists|f: SessionFields, s: Seq<u8>|
            split_kind(enc_response(m) + rest) == Some((0u8, s)) && #[trigger] split_session(s) == Some(
                (f, rest),
            ) && #[trigger] session_is(f, m),
{
    broadcast use crate::bytes::lemma_add_assoc;

    if let AuthResponseModel::Authenticated {
        request_id,
        session_id,
        tenant,
        role,
        scopes,
        quota_profile,
        authorization_revision,
        expires_at,
        exchange_features,
    } = m {
        let tail = be32(scopes) + (enc_text(quota_profile) + (be64(authorization_revision) + (be_i64(
            expires_at,
        ) + (be64(exchange_features) + rest))));
        let s = request_id@ + (session_id@ + (enc_text(tenant) + (seq![role_wire(role)] + tail)));
        lemma_session_tail(
            scopes,
            quota_profile,
            authorization_revision,
            expires_at,
            exchange_features,
            rest,
        );
        lemma_session_head(request_id, session_id, tenant, role, tail);
        lemma_kind(0, s);
        assert(enc_response(m) + rest == seq![1u8] + (seq![0u8] + s));
        let f = SessionFields {
            request_id: request_id@,
            session_id: session_id@,
            tenant,
            role,
            scopes,
            quota_profile,
            authorization_revision,
            expires_at,
            exchange_features,
        };
        assert(split_session(s) == Some((f, rest)));
        assert(session_is(f, m));
    }
}

proof fn lemma_pong_then(m: AuthResponseModel, rest: Seq<u8>)
    requires
        m is Pong,
    ensures
        exists|s: Seq<u8>|
            split_kind(enc_response(m) + rest) == Some((1u8, s)) && #[trigger] split_pong(s) == Some(
                (m->Pong_request_id@, m->nonce, m->exchange_time, rest),
            ),
{
    broadcast use crate::bytes::lemma_add_assoc;

    if let AuthResponseModel::Pong { request_id, nonce, exchange_time } = m {
        let s2 = be_i64(exchange_time) + rest;
        let s1 = be64(nonce) + s2;
        let s = request_id@ + s1;
        lemma_kind(1, s);
        assert(enc_response(m) + rest == seq![1u8] + (seq![1u8] + s));
        crate::bytes::lemma_split_bytes(request_id@, s1);
        crate::bytes::lemma_split_u64(nonce, s2);
        crate::bytes::lemma_split_i64(exchange_time, rest);
        assert(split_pong(s) is Some);
    }
}

proof fn lemma_refusal_then(request_id: Option<[u8; 16]>, error: PublicError, rest: Seq<u8>)
    ensures
        ({
            let m = AuthResponseModel::Rejected { request_id, error };
            &&& split_kind(enc_response(m) + rest) == Some(
                (2u8, enc_optional_id(request_id) + enc_error(error) + rest),
            )
            &&& rest.len() == 0 ==> reads_refusal(
                enc_optional_id(request_id) + enc_error(error) + rest,
                request_id,
                error,
            )
            &&& rest.len() > 0 ==> forall|id: Option<[u8; 16]>, other: PublicError|
                !reads_refusal(enc_optional_id(request_id) + enc_error(error) + rest, id, other)
        }),
{
    broadcast use crate::bytes::lemma_add_assoc;

    let name = code_text(error.code);
    let flag: u8 = if error.retryable {
        1u8
    } else {
        0u8
    };
    crate::error::lemma_code_text_short(error.code);
    crate::error::lemma_code_text_injective(error.code, parsed_code(name));
    let tail = enc_text(name) + (seq![flag] + rest);
    let s = enc_optional_id(request_id) + enc_error(error) + rest;
    lemma_kind(2, s);
    match request_id {
        None => crate::bytes::lemma_split_u8(0, tail),
        Some(id) => {
            crate::bytes::lemma_split_u8(1, id@ + tail);
            crate::bytes::lemma_split_bytes(id@, tail);
        },
    }
    crate::bytes::lemma_split_text(name, seq![flag] + rest);
    crate::bytes::lemma_split_u8(flag, rest);
}

proof fn lemma_response_then(m: AuthResponseModel, rest: Seq<u8>)
    requires
        valid_response(m),
    ensures
        rest.len() == 0 ==> reads_response(enc_response(m) + rest, m),
        rest.len() > 0 ==> forall|x: AuthResponseModel| !reads_response(enc_response(m) + rest, x),
        response_error(enc_response(m) + rest) == AuthProtocolError::Malformed,
{
    assert((enc_response(m) + rest)[0] == 1);
    match m {
        AuthResponseModel::Authenticated { .. } => lemma_grant_then(m, rest),
        AuthResponseModel::Pong { .. } => lemma_pong_then(m, rest),
        AuthResponseModel::Rejected { request_id, error } => lemma_refusal_then(request_id, error, rest),
    }
}

/// An answer that was written is read back.
pub proof fn law_response_round_trip(m: AuthResponseModel)
    requires
        valid_response(m),
    ensures
        reads_response(enc_response(m), m),
{
    let none = Seq::<u8>::empty();
    lemma_response_then(m, none);
    assert(enc_response(m) + none =~= enc_response(m));
}

/// An answer with anything after it is malformed.
pub proof fn law_response_ends_its_frame(m: AuthResponseModel, added: Seq<u8>)
    requires
        valid_response(m),
        added.len() > 0,
    ensures
        forall|x: AuthResponseModel| !reads_response(enc_response(m) + added, x),
        response_error(enc_response(m) + added) == AuthProtocolError::Malformed,
{
    lemma_response_then(m, added);
}

/// Bytes that start with another version than one are of an unsupported
/// version, whatever follows.
pub proof fn law_response_version_is_one(s: Seq<u8>)
    requires
        s.len() > 0,
        s[0] != 1,
    ensures
        forall|x: AuthResponseModel| !reads_response(s, x),
        response_error(s) == AuthProtocolError::UnsupportedVersion,
{
    assert(s.subrange(0, 1)[0] == s[0]);
}

/// Bytes say at most one thing.
pub proof fn law_response_is_unambiguous(s: Seq<u8>, a: AuthResponseModel, b: AuthResponseModel)
    requires
        reads_response(s, a),
        reads_response(s, b),
    ensures
        a == b,
{
    match (a, b) {
        (
            AuthResponseModel::Authenticated { request_id: a1, session_id: a2, .. },
            AuthResponseModel::Authenticated { request_id: b1, session_id: b2, .. },
        ) => {
            crate::bytes::lemma_array_view(a1, b1);
            crate::bytes::lemma_array_view(a2, b2);
        },
        (AuthResponseModel::Pong { request_id: a1, .. }, AuthResponseModel::Pong { request_id: b1, .. }) => {
            crate::bytes::lemma_array_view(a1, b1);
        },
        (
            AuthResponseModel::Rejected { request_id: Some(a1), .. },
            AuthResponseModel::Rejected { request_id: Some(b1), .. },
        ) => {
            crate::bytes::lemma_array_view(a1, b1);
        },
        _ => {},
    }
}

/// Appends the first fields of a granted session.
fn put_session_head(
    out: &mut Vec<u8>,
    request_id: &[u8; 16],
    session_id: &[u8; 16],
    tenant: &Tenant,
    role: Role,
)
    ensures
        final(out)@ == old(out)@ + (request_id@ + (session_id@ + (enc_text(tenant@) + seq![
            role_wire(role),
        ]))),
        final(out)@.len() <= old(out)@.len() + 99,
{
    broadcast use crate::bytes::lemma_add_assoc;

    proof {
        use_type_invariant(tenant);
        lemma_id_utf8(tenant@);
    }
    put_bytes(out, request_id);
    put_bytes(out, session_id);
    put_text(out, tenant.as_str());
    put_role(out, role);
}

/// The last fields of a granted session.
fn session_tail(scopes: u32, quota_profile: &QuotaProfile, revision: u64, expires_at: i64, features: u64) -> (r:
    Vec<u8>)
    ensures
        r@ == be32(scopes) + (enc_text(quota_profile@) + (be64(revision) + (be_i64(expires_at) + be64(
            features,
        )))),
        r@.len() <= 94,
{
    broadcast use crate::bytes::lemma_add_assoc;

    proof {
        use_type_invariant(quota_profile);
        lemma_id_utf8(quota_profile@);
        crate::bytes::lemma_field_lengths(0, scopes, revision, expires_at);
        crate::bytes::lemma_field_lengths(0, scopes, features, expires_at);
    }
    let mut out: Vec<u8> = Vec::new();
    put_u32(&mut out, scopes);
    assert(out@ =~= be32(scopes));
    put_text(&mut out, quota_profile.as_str());
    put_u64(&mut out, revision);
    put_i64(&mut out, expires_at);
    put_u64(&mut out, features);
    out
}

/// The bytes of an answer. Every answer can be written.
pub fn encode_response(response: &AuthResponse) -> (r: Result<Vec<u8>, AuthProtocolError>)
    ensures
        r matches Ok(bytes) && bytes@ == enc_response(response@) && bytes@.len() <= MAX_AUTH_FRAME,
{
    broadcast use crate::bytes::lemma_add_assoc;

    let mut out: Vec<u8> = Vec::new();
    put_u8(&mut out, 1);
    assert(out@ =~= seq![1u8]);
    match response {
        AuthResponse::Authenticated {
            request_id,
            session_id,
            tenant,
            role,
            scopes,
            quota_profile,
            authorization_revision,
            expires_at,
            exchange_features,
        } => {
            put_u8(&mut out, 0);
            put_session_head(&mut out, request_id, session_id, tenant, *role);
            let tail = session_tail(
                *scopes,
                quota_profile,
                *authorization_revision,
                *expires_at,
                *exchange_features,
            );
            put_bytes(&mut out, &tail);
        },
        AuthResponse::Pong { request_id, nonce, exchange_time } => {
            proof {
                crate::bytes::lemma_field_lengths(0, 0, *nonce, *exchange_time);
            }
            put_u8(&mut out, 1);
            put_bytes(&mut out, request_id);
            put_u64(&mut out, *nonce);
            put_i64(&mut out, *exchange_time);
        },
        AuthResponse::Rejected { request_id, error } => {
            proof {
                crate::error::lemma_code_text_short(error.code);
            }
            put_u8(&mut out, 2);
            put_optional_id(&mut out, *request_id);
            put_error(&mut out, *error);
        },
    }
    Ok(out)
}

fn read_session(reader: &mut Reader<'_>) -> (r: Option<AuthResponse>)
    ensures
        match split_session(old(reader)@) {
            None => r is None,
            Some((fields, rest)) => r matches Some(v) && session_is(fields, v@) && final(reader)@ == rest,
        },
{
    let request_id: [u8; 16] = reader.array()?;
    let session_id: [u8; 16] = reader.array()?;
    let name = reader.text()?;
    let tenant = match Tenant::new(name.as_str()) {
        Ok(tenant) => tenant,
        Err(_) => return None,
    };
    let role = read_role(reader)?;
    let scopes: u32 = reader.u32()?;
    let quota = reader.text()?;
    let quota_profile = match QuotaProfile::new(quota.as_str()) {
        Ok(profile) => profile,
        Err(_) => return None,
    };
    let authorization_revision: u64 = reader.u64()?;
    let expires_at: i64 = reader.i64()?;
    let exchange_features: u64 = reader.u64()?;
    Some(
        AuthResponse::Authenticated {
            request_id,
            session_id,
            tenant,
            role,
            scopes,
            quota_profile,
            authorization_revision,
            expires_at,
            exchange_features,
        },
    )
}

fn read_pong(reader: &mut Reader<'_>) -> (r: Option<([u8; 16], u64, i64)>)
    ensures
        match split_pong(old(reader)@) {
            None => r is None,
            Some((a, b, c, rest)) => r matches Some(v) && v.0@ == a && v.1 == b && v.2 == c
                && final(reader)@ == rest,
        },
{
    let request_id: [u8; 16] = reader.array()?;
    let nonce: u64 = reader.u64()?;
    let exchange_time: i64 = reader.i64()?;
    Some((request_id, nonce, exchange_time))
}

fn read_refused_id(reader: &mut Reader<'_>) -> (r: Option<Option<[u8; 16]>>)
    ensures
        match split_refused_id(old(reader)@) {
            None => r is None,
            Some((id, rest)) => r matches Some(v) && same_id(id, v) && final(reader)@ == rest,
        },
{
    let flag: u8 = reader.u8()?;
    if flag == 1 {
        let id: [u8; 16] = reader.array()?;
        Some(Some(id))
    } else {
        Some(None)
    }
}

fn read_refusal(reader: &mut Reader<'_>) -> (r: Option<(Option<[u8; 16]>, PublicError)>)
    ensures
        match r {
            Some((id, error)) => reads_refusal(old(reader)@, id, error),
            None => forall|id: Option<[u8; 16]>, error: PublicError| !reads_refusal(old(reader)@, id, error),
        },
{
    let request_id = read_refused_id(reader)?;
    let name = reader.text()?;
    let code = PublicErrorCode::parse(name.as_str());
    let flag: u8 = reader.u8()?;
    if flag > 1 || !reader.at_end() {
        return None;
    }
    Some((request_id, PublicError::new(code, flag == 1)))
}

/// The answer that bytes hold.
pub fn decode_response(bytes: &[u8]) -> (r: Result<AuthResponse, AuthProtocolError>)
    ensures
        match r {
            Ok(response) => reads_response(bytes@, response@),
            Err(error) => error == response_error(bytes@) && forall|m: AuthResponseModel|
                !reads_response(bytes@, m),
        },
{
    if bytes.len() > 0 && bytes[0] != 1 {
        assert(bytes@.subrange(0, 1)[0] == bytes@[0]);
        return Err(AuthProtocolError::UnsupportedVersion);
    }
    let mut reader = Reader::new(bytes);
    let kind: u8 = match read_kind(&mut reader) {
        Some(kind) => kind,
        None => return Err(AuthProtocolError::Malformed),
    };
    if kind == 0 {
        let response = match read_session(&mut reader) {
            Some(response) => response,
            None => return Err(AuthProtocolError::Malformed),
        };
        if let AuthResponse::Authenticated { exchange_features, .. } = &response {
            if *exchange_features & !KNOWN_AUTH_FEATURES_V1 != 0 {
                return Err(AuthProtocolError::CapabilityMismatch);
            }
        }
        if !reader.at_end() {
            return Err(AuthProtocolError::Malformed);
        }
        Ok(response)
    } else if kind == 1 {
        let (request_id, nonce, exchange_time) = match read_pong(&mut reader) {
            Some(fields) => fields,
            None => return Err(AuthProtocolError::Malformed),
        };
        if !reader.at_end() {
            return Err(AuthProtocolError::Malformed);
        }
        Ok(AuthResponse::Pong { request_id, nonce, exchange_time })
    } else if kind == 2 {
        match read_refusal(&mut reader) {
            Some((request_id, error)) => Ok(AuthResponse::Rejected { request_id, error }),
            None => Err(AuthProtocolError::Malformed),
        }
    } else {
        Err(AuthProtocolError::Malformed)
    }
}

/// The answer that bytes hold.
pub fn decode_auth_response(bytes: &[u8]) -> (r: Result<AuthResponse, AuthProtocolError>)
    ensures
        match r {
            Ok(response) => reads_response(bytes@, response@),
            Err(error) => error == response_error(bytes@) && forall|m: AuthResponseModel|
                !reads_response(bytes@, m),
        },
{
    decode_response(bytes)
}

/// What a frame error means in this protocol.
pub open spec fn frame_failure(error: FrameError) -> AuthProtocolError {
    match error {
        FrameError::UnexpectedEof => AuthProtocolError::Malformed,
        _ => AuthProtocolError::FrameTooLarge,
    }
}

/// Reads a frame.
pub fn read_frame(reader: &mut Reader<'_>) -> (r: Result<Vec<u8>, AuthProtocolError>)
    ensures
        match split_frame(old(reader)@, MAX_AUTH_FRAME as int) {
            Ok((body, rest)) => r matches Ok(b) && b@ == body && final(reader)@ == rest,
            Err(error) => r == Err::<Vec<u8>, AuthProtocolError>(frame_failure(error)),
        },
{
    match read_frame_within(reader, MAX_AUTH_FRAME) {
        Ok(body) => Ok(body),
        Err(FrameError::UnexpectedEof) => Err(AuthProtocolError::Malformed),
        Err(_) => Err(AuthProtocolError::FrameTooLarge),
    }
}

/// Writes a frame.
pub fn write_frame(out: &mut Vec<u8>, body: &[u8]) -> (r: Result<(), AuthProtocolError>)
    ensures
        match r {
            Ok(()) => 1 <= body@.len() <= MAX_AUTH_FRAME && final(out)@ == old(out)@ + framed(body@),
            Err(error) => (body@.len() == 0 || body@.len() > MAX_AUTH_FRAME) && error
                == AuthProtocolError::FrameTooLarge && final(out)@ == old(out)@,
        },
{
    match write_frame_within(out, body, MAX_AUTH_FRAME) {
        Ok(()) => Ok(()),
        Err(_) => Err(AuthProtocolError::FrameTooLarge),
    }
}

/// A role is known by its byte, and by no other; whoever has other features than
/// none is of another version.
pub proof fn law_roles_are_known_by_their_byte(role: Role, byte: u8, features: u64)
    ensures
        role is Client <==> role_wire(role) == 0,
        role is Server <==> role_wire(role) == 1,
        role_of(byte) == Some(role) <==> role_wire(role) == byte,
        byte > 1 <==> role_of(byte) is None,
        unknown_features(features) <==> features != 0,
{
    assert(features & !0u64 == features) by (bit_vector);
}

/// A request to authenticate is written as version, kind, its number, the
/// credential, the secret, the role and the features; a ping as version, kind, its
/// number, the session and the nonce.
pub proof fn law_requests_are_written_in_order(
    request_id: [u8; 16],
    credential_id: Seq<char>,
    token_secret: [u8; 32],
    requested_role: Role,
    supported_features: u64,
    session_id: [u8; 16],
    nonce: u64,
)
    ensures
        enc_request(
            AuthRequestModel::Authenticate {
                request_id,
                credential_id,
                token_secret,
                requested_role,
                supported_features,
            },
        ) == seq![1u8, 0u8] + request_id@ + enc_text(credential_id) + token_secret@ + seq![
            role_wire(requested_role),
        ] + be64(supported_features),
        enc_request(AuthRequestModel::Ping { request_id, session_id, nonce }) == seq![1u8, 1u8] + request_id@
            + session_id@ + be64(nonce),
{
    broadcast use crate::bytes::lemma_add_assoc;

    assert(seq![1u8] + seq![0u8] =~= seq![1u8, 0u8]);
    assert(seq![1u8] + seq![1u8] =~= seq![1u8, 1u8]);
}

/// A granted session is written as version, kind, the number of the request, the
/// session, the tenant, the role, the scopes, the quota, the revision, when it runs
/// out and the features; a pong as version, kind, the number of the request, the
/// nonce and the time; a refusal as version, kind, the number of the request if it
/// is known, and the error.
pub proof fn law_answers_are_written_in_order(
    request_id: [u8; 16],
    session_id: [u8; 16],
    tenant: Seq<char>,
    role: Role,
    scopes: u32,
    quota_profile: Seq<char>,
    authorization_revision: u64,
    expires_at: i64,
    exchange_features: u64,
    error: PublicError,
)
    ensures
        enc_response(
            AuthResponseModel::Authenticated {
                request_id,
                session_id,
                tenant,
                role,
                scopes,
                quota_profile,
                authorization_revision,
                expires_at,
                exchange_features,
            },
        ) == seq![1u8, 0u8] + request_id@ + session_id@ + enc_text(tenant) + seq![role_wire(role)] + be32(
            scopes,
        ) + enc_text(quota_profile) + be64(authorization_revision) + be_i64(expires_at) + be64(
            exchange_features,
        ),
        enc_response(
            AuthResponseModel::Pong {
                request_id,
                nonce: authorization_revision,
                exchange_time: expires_at,
            },
        ) == seq![1u8, 1u8] + request_id@ + be64(authorization_revision) + be_i64(expires_at),
        enc_response(AuthResponseModel::Rejected { request_id: None, error }) == seq![1u8, 2u8, 0u8]
            + enc_error(error),
        enc_response(AuthResponseModel::Rejected { request_id: Some(request_id), error }) == seq![
            1u8,
            2u8,
            1u8,
        ] + request_id@ + enc_error(error),
{
    broadcast use crate::bytes::lemma_add_assoc;

    assert(seq![1u8] + seq![0u8] =~= seq![1u8, 0u8]);
    assert(seq![1u8] + seq![1u8] =~= seq![1u8, 1u8]);
    assert(seq![1u8] + (seq![2u8] + seq![0u8]) =~= seq![1u8, 2u8, 0u8]);
    assert(seq![1u8] + (seq![2u8] + seq![1u8]) =~= seq![1u8, 2u8, 1u8]);
}

/// Bytes are one frame if their first four announce just the rest, which is not
/// empty and no longer than four kibibytes.
pub proof fn law_a_frame_is_the_whole(s: Seq<u8>)
    ensures
        s.len() < 4 ==> whole_frame(s) == Err::<Seq<u8>, AuthProtocolError>(AuthProtocolError::Malformed),
        s.len() >= 4 ==> ({
            let n = s[0] * 0x100_0000 + s[1] * 0x1_0000 + s[2] * 0x100 + s[3];
            &&& n == 0 || n > 4096 ==> whole_frame(s) == Err::<Seq<u8>, AuthProtocolError>(
                AuthProtocolError::FrameTooLarge,
            )
            &&& 1 <= n <= 4096 && s.len() != 4 + n ==> whole_frame(s) == Err::<Seq<u8>, AuthProtocolError>(
                AuthProtocolError::Malformed,
            )
            &&& 1 <= n <= 4096 && s.len() == 4 + n ==> whole_frame(s) == Ok::<Seq<u8>, AuthProtocolError>(
                s.subrange(4, s.len() as int),
            )
        }),
{
    crate::bytes::law_numbers_are_read_from_the_top(s);
}

/// A frame that ends too soon is malformed; one of a length that is not allowed is
/// too large.
pub proof fn law_frame_errors_are_told_apart(error: FrameError)
    ensures
        error is UnexpectedEof <==> frame_failure(error) is Malformed,
        error is InvalidData ==> frame_failure(error) is FrameTooLarge,
        error is InvalidInput ==> frame_failure(error) is FrameTooLarge,
{
}

/// A request with features that are not known is refused for that, not as
/// malformed.
pub proof fn law_unknown_features_are_a_mismatch(
    request_id: [u8; 16],
    credential_id: Seq<char>,
    token_secret: [u8; 32],
    requested_role: Role,
    features: u64,
)
    requires
        id_text(credential_id),
        features != 0,
    ensures
        ({
            let s = enc_request(
                AuthRequestModel::Authenticate {
                    request_id,
                    credential_id,
                    token_secret,
                    requested_role,
                    supported_features: features,
                },
            );
            &&& request_error(s) == AuthProtocolError::CapabilityMismatch
            &&& forall|m: AuthRequestModel| !reads_request(s, m)
        }),
{
    broadcast use crate::bytes::lemma_add_assoc;

    law_roles_are_known_by_their_byte(requested_role, 0, features);
    lemma_id_utf8(credential_id);
    let none = Seq::<u8>::empty();
    let s5 = be64(features) + none;
    let s4 = seq![role_wire(requested_role)] + s5;
    let s3 = token_secret@ + s4;
    let s2 = enc_text(credential_id) + s3;
    let s1 = request_id@ + s2;
    let s = enc_request(
        AuthRequestModel::Authenticate {
            request_id,
            credential_id,
            token_secret,
            requested_role,
            supported_features: features,
        },
    );
    assert(be64(features) + none =~= be64(features));
    assert(s == seq![1u8] + (seq![0u8] + s1));
    crate::bytes::lemma_split_u8(1, seq![0u8] + s1);
    crate::bytes::lemma_split_u8(0, s1);
    crate::bytes::lemma_split_bytes(request_id@, s2);
    crate::bytes::lemma_split_text(credential_id, s3);
    crate::bytes::lemma_split_bytes(token_secret@, s4);
    crate::bytes::lemma_split_u8(role_wire(requested_role), s5);
    crate::bytes::lemma_split_u64(features, none);
}

/// A body is written as a frame behind what was there, if it is not empty and no
/// longer than four kibibytes; another one is refused and nothing is written.
pub proof fn law_frames_are_written_within_bounds(out: &mut Vec<u8>, body: &[u8], r: Result<(), AuthProtocolError>)
    requires
        call_ensures(write_frame, (out, body), r),
    ensures
        r is Ok <==> 1 <= body@.len() <= 4096,
        r is Err ==> r->Err_0 == AuthProtocolError::FrameTooLarge && final(out)@ == old(out)@,
        r is Ok ==> {
            let n = body@.len();
            let s = final(out)@;
            &&& s.len() == old(out)@.len() + 4 + n
            &&& s.subrange(0, old(out)@.len() as int) == old(out)@
            &&& s.subrange(old(out)@.len() as int + 4, s.len() as int) == body@
        },
{
    crate::bytes::law_numbers_are_written_from_the_top(0, body@.len() as u32, 0);
    if r is Ok {
        let s = final(out)@;
        assert(s.subrange(0, old(out)@.len() as int) =~= old(out)@);
        assert(s.subrange(old(out)@.len() as int + 4, s.len() as int) =~= body@);
    }
}

} // verus!
