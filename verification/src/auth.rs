//! Messages of the authentication exchange.
use crate::credential::TokenSecret;
use crate::error::PublicError;
use crate::hex::{hex, hex_text};
use crate::ids::{CredentialId, QuotaProfile, Tenant};
use vstd::prelude::*;
use vstd::string::StringExecFns;

verus! {

/// The authentication features that this version knows: none.
pub const KNOWN_AUTH_FEATURES_V1: u64 = 0;

/// On which side of a tunnel a peer stands.
#[derive(Clone, Copy, Debug, PartialEq, Eq, Structural)]
pub enum Role {
    Client,
    Server,
}

/// Something that a session may be allowed to do.
#[derive(Clone, Copy, Debug, PartialEq, Eq, Structural)]
pub enum Scope {
    RegisterServices,
    ReserveRelay,
    OpenProxyStream,
}

/// The bit that stands for a scope in a set of scopes.
pub open spec fn scope_bit(scope: Scope) -> u32 {
    match scope {
        Scope::RegisterServices => 1,
        Scope::ReserveRelay => 2,
        Scope::OpenProxyStream => 4,
    }
}

impl Scope {
    /// The bit that stands for the scope in a set of scopes.
    pub fn bit(self) -> (r: u32)
        ensures
            r == scope_bit(self),
    {
        match self {
            Scope::RegisterServices => 1,
            Scope::ReserveRelay => 2,
            Scope::OpenProxyStream => 4,
        }
    }
}

/// The bits of different scopes do not overlap.
pub proof fn law_scope_bits_are_disjoint(a: Scope, b: Scope)
    ensures
        (scope_bit(a) & scope_bit(b) != 0) <==> a == b,
{
    let x: u32 = scope_bit(a);
    let y: u32 = scope_bit(b);
    assert((x == 1 || x == 2 || x == 4) && (y == 1 || y == 2 || y == 4) ==> ((x & y != 0) <==> x
        == y)) by (bit_vector);
}

/// What a peer asks of the exchange.
pub enum AuthRequest {
    Authenticate {
        request_id: [u8; 16],
        credential_id: CredentialId,
        token_secret: TokenSecret,
        requested_role: Role,
        supported_features: u64,
    },
    Ping { request_id: [u8; 16], session_id: [u8; 16], nonce: u64 },
}

/// What an authentication request says.
#[verifier::ext_equal]
pub enum AuthRequestModel {
    Authenticate {
        request_id: [u8; 16],
        credential_id: Seq<char>,
        token_secret: [u8; 32],
        requested_role: Role,
        supported_features: u64,
    },
    Ping { request_id: [u8; 16], session_id: [u8; 16], nonce: u64 },
}

impl View for AuthRequest {
    type V = AuthRequestModel;

    open spec fn view(&self) -> AuthRequestModel {
        match *self {
            AuthRequest::Authenticate {
                request_id,
                credential_id,
                token_secret,
                requested_role,
                supported_features,
            } => AuthRequestModel::Authenticate {
                request_id,
                credential_id: credential_id@,
                token_secret: token_secret@,
                requested_role,
                supported_features,
            },
            AuthRequest::Ping { request_id, session_id, nonce } => AuthRequestModel::Ping {
                request_id,
                session_id,
                nonce,
            },
        }
    }
}

/// What may be shown of a request: everything about a ping, but of a credential
/// only its name.
pub open spec fn shown_request(request: AuthRequestModel) -> Seq<char> {
    match request {
        AuthRequestModel::Authenticate { request_id, credential_id, .. } =>
            "Authenticate { request_id: "@ + hex_text(request_id@) + ", credential_id: "@ + credential_id
            + ", token_secret: REDACTED }"@,
        AuthRequestModel::Ping { request_id, session_id, .. } => "Ping { request_id: "@ + hex_text(
            request_id@,
        ) + ", session_id: "@ + hex_text(session_id@) + " }"@,
    }
}

impl AuthRequest {
    /// What may be shown of a request.
    pub fn redacted(&self) -> (r: String)
        ensures
            r@ == shown_request(self@),
    {
        match self {
            AuthRequest::Authenticate { request_id, credential_id, .. } => {
                let mut text = String::from_str("Authenticate { request_id: ");
                text.append(hex(request_id).as_str());
                text.append(", credential_id: ");
                text.append(credential_id.as_str());
                text.append(", token_secret: REDACTED }");
                text
            },
            AuthRequest::Ping { request_id, session_id, .. } => {
                let mut text = String::from_str("Ping { request_id: ");
                text.append(hex(request_id).as_str());
                text.append(", session_id: ");
                text.append(hex(session_id).as_str());
                text.append(" }");
                text
            },
        }
    }
}

/// Two requests that differ in their secrets alone show the same: what is shown
/// of a request says nothing about its secret.
pub proof fn law_shown_requests_keep_the_secret(
    request_id: [u8; 16],
    credential_id: Seq<char>,
    one: [u8; 32],
    other: [u8; 32],
    requested_role: Role,
    supported_features: u64,
)
    ensures
        shown_request(
            AuthRequestModel::Authenticate {
                request_id,
                credential_id,
                token_secret: one,
                requested_role,
                supported_features,
            },
        ) == shown_request(
            AuthRequestModel::Authenticate {
                request_id,
                credential_id,
                token_secret: other,
                requested_role,
                supported_features,
            },
        ),
{
}

/// What the exchange answers.
#[allow(inconsistent_fields)]
#[derive(Debug, PartialEq, Eq)]
pub enum AuthResponse {
    Authenticated {
        request_id: [u8; 16],
        session_id: [u8; 16],
        tenant: Tenant,
        role: Role,
        scopes: u32,
        quota_profile: QuotaProfile,
        authorization_revision: u64,
        expires_at: i64,
        exchange_features: u64,
    },
    Pong { request_id: [u8; 16], nonce: u64, exchange_time: i64 },
    Rejected { request_id: Option<[u8; 16]>, error: PublicError },
}

/// What an authentication response says.
#[allow(inconsistent_fields)]
#[verifier::ext_equal]
pub enum AuthResponseModel {
    Authenticated {
        request_id: [u8; 16],
        session_id: [u8; 16],
        tenant: Seq<char>,
        role: Role,
        scopes: u32,
        quota_profile: Seq<char>,
        authorization_revision: u64,
        expires_at: i64,
        exchange_features: u64,
    },
    Pong { request_id: [u8; 16], nonce: u64, exchange_time: i64 },
    Rejected { request_id: Option<[u8; 16]>, error: PublicError },
}

impl View for AuthResponse {
    type V = AuthResponseModel;

    open spec fn view(&self) -> AuthResponseModel {
        match *self {
            AuthResponse::Authenticated {
                request_id,
                session_id,
                tenant,
                role,
                scopes,
                quota_profile,
                authorization_revision,
                expires_at,
                exchange_features,
            } => AuthResponseModel::Authenticated {
                request_id,
                session_id,
                tenant: tenant@,
                role,
                scopes,
                quota_profile: quota_profile@,
                authorization_revision,
                expires_at,
                exchange_features,
            },
            AuthResponse::Pong { request_id, nonce, exchange_time } => AuthResponseModel::Pong {
                request_id,
                nonce,
                exchange_time,
            },
            AuthResponse::Rejected { request_id, error } => AuthResponseModel::Rejected {
                request_id,
                error,
            },
        }
    }
}

/// Each scope has its own bit: registering services the first, reserving a relay
/// the second, and opening streams the third.
pub proof fn law_scopes_have_their_bits(granted: u32)
    ensures
        scope_bit(Scope::RegisterServices) == 1,
        scope_bit(Scope::ReserveRelay) == 2,
        scope_bit(Scope::OpenProxyStream) == 4,
        granted & scope_bit(Scope::RegisterServices) != 0 <==> granted % 2 == 1,
{
    assert(granted & 1 != 0 <==> granted % 2 == 1) by (bit_vector);
}

/// What is shown of a request names what it asks for by its number, and a
/// credential by its name.
pub proof fn law_shown_requests_name_their_number(
    request_id: [u8; 16],
    credential_id: Seq<char>,
    token_secret: [u8; 32],
    requested_role: Role,
    supported_features: u64,
)
    ensures
        ({
            let shown = shown_request(
                AuthRequestModel::Authenticate {
                    request_id,
                    credential_id,
                    token_secret,
                    requested_role,
                    supported_features,
                },
            );
            let head = "Authenticate { request_id: "@.len() as int;
            let digits = hex_text(request_id@).len() as int;
            let middle = ", credential_id: "@.len() as int;
            &&& shown.subrange(head, head + digits) == hex_text(request_id@)
            &&& shown.subrange(
                head + digits + middle,
                head + digits + middle + credential_id.len() as int,
            ) == credential_id
        }),
{
    let shown = shown_request(
        AuthRequestModel::Authenticate {
            request_id,
            credential_id,
            token_secret,
            requested_role,
            supported_features,
        },
    );
    let head = "Authenticate { request_id: "@.len() as int;
    let digits = hex_text(request_id@).len() as int;
    let middle = ", credential_id: "@.len() as int;
    assert(shown.subrange(head, head + digits) =~= hex_text(request_id@));
    assert(shown.subrange(head + digits + middle, head + digits + middle + credential_id.len() as int)
        =~= credential_id);
}

} // verus!
