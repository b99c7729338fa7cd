//! The closed set of error codes that peers show each other.
use crate::bytes::{enc_text, put_text, put_u8, split_text, split_u8, Reader};
use crate::text::same_text;
use vstd::prelude::*;

verus! {

/// A reason that may be shown to the other side of a connection.
#[derive(Clone, Copy, Debug, PartialEq, Eq, Hash, Structural)]
#[non_exhaustive]
pub enum PublicErrorCode {
    AuthInvalidCredential,
    AuthExchangeIdentityMismatch,
    AuthSessionRequired,
    AuthSessionExpired,
    AuthRoleForbidden,
    AuthTicketInvalid,
    AuthTicketExpired,
    AuthTicketReplayed,
    ExchangeOverloaded,
    ExchangeTimeout,
    LimitAuthConnections,
    LimitAuthRequests,
    LimitAuthSessions,
    LimitProxyStreams,
    PeerSetupTimeout,
    PeerDraining,
    PeerConnectionFailed,
    ProtocolFrameTooLarge,
    ProtocolMalformed,
    ProtocolUnsupportedVersion,
    ProtocolCapabilityMismatch,
    RegistryInvalidAdvertisement,
    RegistryConflict,
    RegistryReservationRequired,
    RegistryStaleRevision,
    RegistryNotFound,
    RegistryOffline,
    RelayUnauthorized,
    RelayQuota,
    LimitServices,
    LimitRegistryRequests,
    ExchangeDraining,
    UpstreamConnectTimeout,
    UpstreamConnectFailed,
    UpstreamIdleTimeout,
}

/// The name of a code on the wire.
pub open spec fn code_text(code: PublicErrorCode) -> Seq<char> {
    match code {
        PublicErrorCode::AuthInvalidCredential => "auth.invalid_credential"@,
        PublicErrorCode::AuthExchangeIdentityMismatch => "auth.exchange_identity_mismatch"@,
        PublicErrorCode::AuthSessionRequired => "auth.session_required"@,
        PublicErrorCode::AuthSessionExpired => "auth.session_expired"@,
        PublicErrorCode::AuthRoleForbidden => "auth.role_forbidden"@,
        PublicErrorCode::AuthTicketInvalid => "auth.ticket_invalid"@,
        PublicErrorCode::AuthTicketExpired => "auth.ticket_expired"@,
        PublicErrorCode::AuthTicketReplayed => "auth.ticket_replayed"@,
        PublicErrorCode::ExchangeOverloaded => "exchange.overloaded"@,
        PublicErrorCode::ExchangeTimeout => "exchange.timeout"@,
        PublicErrorCode::LimitAuthConnections => "limit.auth_connections"@,
        PublicErrorCode::LimitAuthRequests => "limit.auth_requests"@,
        PublicErrorCode::LimitAuthSessions => "limit.auth_sessions"@,
        PublicErrorCode::LimitProxyStreams => "limit.proxy_streams"@,
        PublicErrorCode::PeerSetupTimeout => "peer.setup_timeout"@,
        PublicErrorCode::PeerDraining => "peer.draining"@,
        PublicErrorCode::PeerConnectionFailed => "peer.connection_failed"@,
        PublicErrorCode::ProtocolFrameTooLarge => "protocol.frame_too_large"@,
        PublicErrorCode::ProtocolMalformed => "protocol.malformed"@,
        PublicErrorCode::ProtocolUnsupportedVersion => "protocol.unsupported_version"@,
        PublicErrorCode::ProtocolCapabilityMismatch => "protocol.capability_mismatch"@,
        PublicErrorCode::RegistryInvalidAdvertisement => "registry.invalid_advertisement"@,
        PublicErrorCode::RegistryConflict => "registry.conflict"@,
        PublicErrorCode::RegistryReservationRequired => "registry.reservation_required"@,
        PublicErrorCode::RegistryStaleRevision => "registry.stale_revision"@,
        PublicErrorCode::RegistryNotFound => "registry.not_found"@,
        PublicErrorCode::RegistryOffline => "registry.offline"@,
        PublicErrorCode::RelayUnauthorized => "relay.unauthorized"@,
        PublicErrorCode::RelayQuota => "relay.quota"@,
        PublicErrorCode::LimitServices => "limit.services"@,
        PublicErrorCode::LimitRegistryRequests => "limit.registry_requests"@,
        PublicErrorCode::ExchangeDraining => "exchange.draining"@,
        PublicErrorCode::UpstreamConnectTimeout => "upstream.connect_timeout"@,
        PublicErrorCode::UpstreamConnectFailed => "upstream.connect_failed"@,
        PublicErrorCode::UpstreamIdleTimeout => "upstream.idle_timeout"@,
    }
}

/// A number by which the names tell themselves apart: their length and the
/// characters at fixed places.
spec fn mark(s: Seq<char>) -> int {
    s.len() * 0x80 + s[s.len() - 5] as int
}

/// The mark of each code's name.
spec fn code_mark(code: PublicErrorCode) -> int {
    match code {
        PublicErrorCode::AuthInvalidCredential => 3054,
        PublicErrorCode::AuthExchangeIdentityMismatch => 4077,
        PublicErrorCode::AuthSessionRequired => 2805,
        PublicErrorCode::AuthSessionExpired => 2672,
        PublicErrorCode::AuthRoleForbidden => 2537,
        PublicErrorCode::AuthTicketInvalid => 2550,
        PublicErrorCode::AuthTicketExpired => 2544,
        PublicErrorCode::AuthTicketReplayed => 2668,
        PublicErrorCode::ExchangeOverloaded => 2543,
        PublicErrorCode::ExchangeTimeout => 2157,
        PublicErrorCode::LimitAuthConnections => 2932,
        PublicErrorCode::LimitAuthRequests => 2549,
        PublicErrorCode::LimitAuthSessions => 2547,
        PublicErrorCode::LimitProxyStreams => 2546,
        PublicErrorCode::PeerSetupTimeout => 2413,
        PublicErrorCode::PeerDraining => 1769,
        PublicErrorCode::PeerConnectionFailed => 2913,
        PublicErrorCode::ProtocolFrameTooLarge => 3180,
        PublicErrorCode::ProtocolMalformed => 2415,
        PublicErrorCode::ProtocolUnsupportedVersion => 3698,
        PublicErrorCode::ProtocolCapabilityMismatch => 3693,
        PublicErrorCode::RegistryInvalidAdvertisement => 3941,
        PublicErrorCode::RegistryConflict => 2278,
        PublicErrorCode::RegistryReservationRequired => 3829,
        PublicErrorCode::RegistryStaleRevision => 3049,
        PublicErrorCode::RegistryNotFound => 2406,
        PublicErrorCode::RegistryOffline => 2150,
        PublicErrorCode::RelayUnauthorized => 2418,
        PublicErrorCode::RelayQuota => 1521,
        PublicErrorCode::LimitServices => 1910,
        PublicErrorCode::LimitRegistryRequests => 3061,
        PublicErrorCode::ExchangeDraining => 2281,
        PublicErrorCode::UpstreamConnectTimeout => 3181,
        PublicErrorCode::UpstreamConnectFailed => 3041,
        PublicErrorCode::UpstreamIdleTimeout => 2797,
    }
}

proof fn lemma_code_mark(code: PublicErrorCode)
    ensures
        mark(code_text(code)) == code_mark(code),
        code_text(code).len() <= 32,
        forall|i: int| 0 <= i < code_text(code).len() ==> '\0' <= #[trigger] code_text(code)[i] <= '\u{7f}',
{
    match code {
        PublicErrorCode::AuthInvalidCredential => {
            reveal_strlit("auth.invalid_credential");
        },
        PublicErrorCode::AuthExchangeIdentityMismatch => {
            reveal_strlit("auth.exchange_identity_mismatch");
        },
        PublicErrorCode::AuthSessionRequired => {
            reveal_strlit("auth.session_required");
        },
        PublicErrorCode::AuthSessionExpired => {
            reveal_strlit("auth.session_expired");
        },
        PublicErrorCode::AuthRoleForbidden => {
            reveal_strlit("auth.role_forbidden");
        },
        PublicErrorCode::AuthTicketInvalid => {
            reveal_strlit("auth.ticket_invalid");
        },
        PublicErrorCode::AuthTicketExpired => {
            reveal_strlit("auth.ticket_expired");
        },
        PublicErrorCode::AuthTicketReplayed => {
            reveal_strlit("auth.ticket_replayed");
        },
        PublicErrorCode::ExchangeOverloaded => {
            reveal_strlit("exchange.overloaded");
        },
        PublicErrorCode::ExchangeTimeout => {
            reveal_strlit("exchange.timeout");
        },
        PublicErrorCode::LimitAuthConnections => {
            reveal_strlit("limit.auth_connections");
        },
        PublicErrorCode::LimitAuthRequests => {
            reveal_strlit("limit.auth_requests");
        },
        PublicErrorCode::LimitAuthSessions => {
            reveal_strlit("limit.auth_sessions");
        },
        PublicErrorCode::LimitProxyStreams => {
            reveal_strlit("limit.proxy_streams");
        },
        PublicErrorCode::PeerSetupTimeout => {
            reveal_strlit("peer.setup_timeout");
        },
        PublicErrorCode::PeerDraining => {
            reveal_strlit("peer.draining");
        },
        PublicErrorCode::PeerConnectionFailed => {
            reveal_strlit("peer.connection_failed");
        },
        PublicErrorCode::ProtocolFrameTooLarge => {
            reveal_strlit("protocol.frame_too_large");
        },
        PublicErrorCode::ProtocolMalformed => {
            reveal_strlit("protocol.malformed");
        },
        PublicErrorCode::ProtocolUnsupportedVersion => {
            reveal_strlit("protocol.unsupported_version");
        },
        PublicErrorCode::ProtocolCapabilityMismatch => {
            reveal_strlit("protocol.capability_mismatch");
        },
        PublicErrorCode::RegistryInvalidAdvertisement => {
            reveal_strlit("registry.invalid_advertisement");
        },
        PublicErrorCode::RegistryConflict => {
            reveal_strlit("registry.conflict");
        },
        PublicErrorCode::RegistryReservationRequired => {
            reveal_strlit("registry.reservation_required");
        },
        PublicErrorCode::RegistryStaleRevision => {
            reveal_strlit("registry.stale_revision");
        },
        PublicErrorCode::RegistryNotFound => {
            reveal_strlit("registry.not_found");
        },
        PublicErrorCode::RegistryOffline => {
            reveal_strlit("registry.offline");
        },
        PublicErrorCode::RelayUnauthorized => {
            reveal_strlit("relay.unauthorized");
        },
        PublicErrorCode::RelayQuota => {
            reveal_strlit("relay.quota");
        },
        PublicErrorCode::LimitServices => {
            reveal_strlit("limit.services");
        },
        PublicErrorCode::LimitRegistryRequests => {
            reveal_strlit("limit.registry_requests");
        },
        PublicErrorCode::ExchangeDraining => {
            reveal_strlit("exchange.draining");
        },
        PublicErrorCode::UpstreamConnectTimeout => {
            reveal_strlit("upstream.connect_timeout");
        },
        PublicErrorCode::UpstreamConnectFailed => {
            reveal_strlit("upstream.connect_failed");
        },
        PublicErrorCode::UpstreamIdleTimeout => {
            reveal_strlit("upstream.idle_timeout");
        },
    }
}

/// No two codes have the same name.
pub proof fn lemma_code_text_injective(a: PublicErrorCode, b: PublicErrorCode)
    requires
        code_text(a) == code_text(b),
    ensures
        a == b,
{
    lemma_code_mark(a);
    lemma_code_mark(b);
}

/// Every name is short and plain ASCII, so it fits a length-prefixed field.
pub proof fn lemma_code_text_short(code: PublicErrorCode)
    ensures
        code_text(code).len() <= 32,
        vstd::utf8::encode_utf8(code_text(code)).len() == code_text(code).len(),
{
    lemma_code_mark(code);
    vstd::utf8::is_ascii_chars_encode_utf8(code_text(code));
}

impl PublicErrorCode {
    /// The name of the code on the wire.
    pub fn as_str(self) -> (r: &'static str)
        ensures
            r@ == code_text(self),
    {
        match self {
            PublicErrorCode::AuthInvalidCredential => "auth.invalid_credential",
            PublicErrorCode::AuthExchangeIdentityMismatch => "auth.exchange_identity_mismatch",
            PublicErrorCode::AuthSessionRequired => "auth.session_required",
            PublicErrorCode::AuthSessionExpired => "auth.session_expired",
            PublicErrorCode::AuthRoleForbidden => "auth.role_forbidden",
            PublicErrorCode::AuthTicketInvalid => "auth.ticket_invalid",
            PublicErrorCode::AuthTicketExpired => "auth.ticket_expired",
            PublicErrorCode::AuthTicketReplayed => "auth.ticket_replayed",
            PublicErrorCode::ExchangeOverloaded => "exchange.overloaded",
            PublicErrorCode::ExchangeTimeout => "exchange.timeout",
            PublicErrorCode::LimitAuthConnections => "limit.auth_connections",
            PublicErrorCode::LimitAuthRequests => "limit.auth_requests",
            PublicErrorCode::LimitAuthSessions => "limit.auth_sessions",
            PublicErrorCode::LimitProxyStreams => "limit.proxy_streams",
            PublicErrorCode::PeerSetupTimeout => "peer.setup_timeout",
            PublicErrorCode::PeerDraining => "peer.draining",
            PublicErrorCode::PeerConnectionFailed => "peer.connection_failed",
            PublicErrorCode::ProtocolFrameTooLarge => "protocol.frame_too_large",
            PublicErrorCode::ProtocolMalformed => "protocol.malformed",
            PublicErrorCode::ProtocolUnsupportedVersion => "protocol.unsupported_version",
            PublicErrorCode::ProtocolCapabilityMismatch => "protocol.capability_mismatch",
            PublicErrorCode::RegistryInvalidAdvertisement => "registry.invalid_advertisement",
            PublicErrorCode::RegistryConflict => "registry.conflict",
            PublicErrorCode::RegistryReservationRequired => "registry.reservation_required",
            PublicErrorCode::RegistryStaleRevision => "registry.stale_revision",
            PublicErrorCode::RegistryNotFound => "registry.not_found",
            PublicErrorCode::RegistryOffline => "registry.offline",
            PublicErrorCode::RelayUnauthorized => "relay.unauthorized",
            PublicErrorCode::RelayQuota => "relay.quota",
            PublicErrorCode::LimitServices => "limit.services",
            PublicErrorCode::LimitRegistryRequests => "limit.registry_requests",
            PublicErrorCode::ExchangeDraining => "exchange.draining",
            PublicErrorCode::UpstreamConnectTimeout => "upstream.connect_timeout",
            PublicErrorCode::UpstreamConnectFailed => "upstream.connect_failed",
            PublicErrorCode::UpstreamIdleTimeout => "upstream.idle_timeout",
        }
    }

    /// The code with the given name; an error where there is none.
    pub fn try_from_wire(value: &str) -> (r: Result<Self, ()>)
        ensures
            match r {
                Ok(code) => code_text(code) == value@,
                Err(()) => forall|code: PublicErrorCode| #[trigger] code_text(code) != value@,
            },
    {
        if same_text(value, "auth.invalid_credential") {
            return Ok(PublicErrorCode::AuthInvalidCredential);
        }
        if same_text(value, "auth.exchange_identity_mismatch") {
            return Ok(PublicErrorCode::AuthExchangeIdentityMismatch);
        }
        if same_text(value, "auth.session_required") {
            return Ok(PublicErrorCode::AuthSessionRequired);
        }
        if same_text(value, "auth.session_expired") {
            return Ok(PublicErrorCode::AuthSessionExpired);
        }
        if same_text(value, "auth.role_forbidden") {
            return Ok(PublicErrorCode::AuthRoleForbidden);
        }
        if same_text(value, "auth.ticket_invalid") {
            return Ok(PublicErrorCode::AuthTicketInvalid);
        }
        if same_text(value, "auth.ticket_expired") {
            return Ok(PublicErrorCode::AuthTicketExpired);
        }
        if same_text(value, "auth.ticket_replayed") {
            return Ok(PublicErrorCode::AuthTicketReplayed);
        }
        if same_text(value, "exchange.overloaded") {
            return Ok(PublicErrorCode::ExchangeOverloaded);
        }
        if same_text(value, "exchange.timeout") {
            return Ok(PublicErrorCode::ExchangeTimeout);
        }
        if same_text(value, "limit.auth_connections") {
            return Ok(PublicErrorCode::LimitAuthConnections);
        }
        if same_text(value, "limit.auth_requests") {
            return Ok(PublicErrorCode::LimitAuthRequests);
        }
        if same_text(value, "limit.auth_sessions") {
            return Ok(PublicErrorCode::LimitAuthSessions);
        }
        if same_text(value, "limit.proxy_streams") {
            return Ok(PublicErrorCode::LimitProxyStreams);
        }
        if same_text(value, "peer.setup_timeout") {
            return Ok(PublicErrorCode::PeerSetupTimeout);
        }
        if same_text(value, "peer.draining") {
            return Ok(PublicErrorCode::PeerDraining);
        }
        if same_text(value, "peer.connection_failed") {
            return Ok(PublicErrorCode::PeerConnectionFailed);
        }
        if same_text(value, "protocol.frame_too_large") {
            return Ok(PublicErrorCode::ProtocolFrameTooLarge);
        }
        if same_text(value, "protocol.malformed") {
            return Ok(PublicErrorCode::ProtocolMalformed);
        }
        if same_text(value, "protocol.unsupported_version") {
            return Ok(PublicErrorCode::ProtocolUnsupportedVersion);
        }
        if same_text(value, "protocol.capability_mismatch") {
            return Ok(PublicErrorCode::ProtocolCapabilityMismatch);
        }
        if same_text(value, "registry.invalid_advertisement") {
            return Ok(PublicErrorCode::RegistryInvalidAdvertisement);
        }
        if same_text(value, "registry.conflict") {
            return Ok(PublicErrorCode::RegistryConflict);
        }
        if same_text(value, "registry.reservation_required") {
            return Ok(PublicErrorCode::RegistryReservationRequired);
        }
        if same_text(value, "registry.stale_revision") {
            return Ok(PublicErrorCode::RegistryStaleRevision);
        }
        if same_text(value, "registry.not_found") {
            return Ok(PublicErrorCode::RegistryNotFound);
        }
        if same_text(value, "registry.offline") {
            return Ok(PublicErrorCode::RegistryOffline);
        }
        if same_text(value, "relay.unauthorized") {
            return Ok(PublicErrorCode::RelayUnauthorized);
        }
        if same_text(value, "relay.quota") {
            return Ok(PublicErrorCode::RelayQuota);
        }
        if same_text(value, "limit.services") {
            return Ok(PublicErrorCode::LimitServices);
        }
        if same_text(value, "limit.registry_requests") {
            return Ok(PublicErrorCode::LimitRegistryRequests);
        }
        if same_text(value, "exchange.draining") {
            return Ok(PublicErrorCode::ExchangeDraining);
        }
        if same_text(value, "upstream.connect_timeout") {
            return Ok(PublicErrorCode::UpstreamConnectTimeout);
        }
        if same_text(value, "upstream.connect_failed") {
            return Ok(PublicErrorCode::UpstreamConnectFailed);
        }
        if same_text(value, "upstream.idle_timeout") {
            return Ok(PublicErrorCode::UpstreamIdleTimeout);
        }
        proof {
            assert forall|code: PublicErrorCode| #[trigger] code_text(code) != value@ by {
                match code {
                    PublicErrorCode::AuthInvalidCredential => {},
                    PublicErrorCode::AuthExchangeIdentityMismatch => {},
                    PublicErrorCode::AuthSessionRequired => {},
                    PublicErrorCode::AuthSessionExpired => {},
                    PublicErrorCode::AuthRoleForbidden => {},
                    PublicErrorCode::AuthTicketInvalid => {},
                    PublicErrorCode::AuthTicketExpired => {},
                    PublicErrorCode::AuthTicketReplayed => {},
                    PublicErrorCode::ExchangeOverloaded => {},
                    PublicErrorCode::ExchangeTimeout => {},
                    PublicErrorCode::LimitAuthConnections => {},
                    PublicErrorCode::LimitAuthRequests => {},
                    PublicErrorCode::LimitAuthSessions => {},
                    PublicErrorCode::LimitProxyStreams => {},
                    PublicErrorCode::PeerSetupTimeout => {},
                    PublicErrorCode::PeerDraining => {},
                    PublicErrorCode::PeerConnectionFailed => {},
                    PublicErrorCode::ProtocolFrameTooLarge => {},
                    PublicErrorCode::ProtocolMalformed => {},
                    PublicErrorCode::ProtocolUnsupportedVersion => {},
                    PublicErrorCode::ProtocolCapabilityMismatch => {},
                    PublicErrorCode::RegistryInvalidAdvertisement => {},
                    PublicErrorCode::RegistryConflict => {},
                    PublicErrorCode::RegistryReservationRequired => {},
                    PublicErrorCode::RegistryStaleRevision => {},
                    PublicErrorCode::RegistryNotFound => {},
                    PublicErrorCode::RegistryOffline => {},
                    PublicErrorCode::RelayUnauthorized => {},
                    PublicErrorCode::RelayQuota => {},
                    PublicErrorCode::LimitServices => {},
                    PublicErrorCode::LimitRegistryRequests => {},
                    PublicErrorCode::ExchangeDraining => {},
                    PublicErrorCode::UpstreamConnectTimeout => {},
                    PublicErrorCode::UpstreamConnectFailed => {},
                    PublicErrorCode::UpstreamIdleTimeout => {},
                }
            }
        }
        Err(())
    }

    /// The code with the given name; `ProtocolMalformed` stands for any
    /// text that is no name.
    pub fn parse(value: &str) -> (r: Self)
        ensures
            r == parsed_code(value@),
            code_text(r) == value@ || (r == PublicErrorCode::ProtocolMalformed && forall|
                code: PublicErrorCode,
            | #[trigger] code_text(code) != value@),
    {
        match PublicErrorCode::try_from_wire(value) {
            Ok(code) => {
                proof {
                    lemma_code_text_injective(code, parsed_code(value@));
                }
                code
            },
            Err(()) => PublicErrorCode::ProtocolMalformed,
        }
    }
}

/// What `parse` makes of a text.
pub open spec fn parsed_code(text: Seq<char>) -> PublicErrorCode {
    if exists|code: PublicErrorCode| code_text(code) == text {
        choose|code: PublicErrorCode| code_text(code) == text
    } else {
        PublicErrorCode::ProtocolMalformed
    }
}

/// An error code together with whether trying again may help.
#[derive(Clone, Copy, Debug, PartialEq, Eq, Structural)]
pub struct PublicError {
    pub code: PublicErrorCode,
    pub retryable: bool,
}

impl PublicError {
    pub fn new(code: PublicErrorCode, retryable: bool) -> (r: Self)
        ensures
            r == (PublicError { code, retryable }),
    {
        PublicError { code, retryable }
    }
}

/// The bytes of an error: the name of its code, then one byte for whether
/// trying again may help.
pub open spec fn enc_error(error: PublicError) -> Seq<u8> {
    enc_text(code_text(error.code)) + seq![
        if error.retryable {
            1u8
        } else {
            0u8
        },
    ]
}

/// Whether bytes start with `error`, and what follows it.
pub open spec fn reads_error(s: Seq<u8>, error: PublicError, rest: Seq<u8>) -> bool {
    match split_text(s) {
        None => false,
        Some((name, s)) => name == code_text(error.code) && match split_u8(s) {
            None => false,
            Some((flag, s)) => flag <= 1 && error.retryable == (flag == 1) && s == rest,
        },
    }
}

/// An error reads as itself, and only its own bytes read as it.
pub proof fn lemma_error_reads(s: Seq<u8>, error: PublicError, rest: Seq<u8>)
    ensures
        reads_error(s, error, rest) <==> s == enc_error(error) + rest,
{
    lemma_code_text_short(error.code);
    let name = enc_text(code_text(error.code));
    let flag: u8 = if error.retryable {
        1u8
    } else {
        0u8
    };
    crate::bytes::lemma_add_assoc(name, seq![flag], rest);
    if s == enc_error(error) + rest {
        crate::bytes::lemma_split_text(code_text(error.code), seq![flag] + rest);
        crate::bytes::lemma_split_u8(flag, rest);
    }
    if reads_error(s, error, rest) {
        crate::bytes::lemma_join_text(s);
        let tail = (split_text(s)->0).1;
        crate::bytes::lemma_join_u8(tail);
    }
}

/// Bytes start with at most one error.
pub proof fn lemma_error_unique(
    s: Seq<u8>,
    a: PublicError,
    b: PublicError,
    rest_a: Seq<u8>,
    rest_b: Seq<u8>,
)
    requires
        reads_error(s, a, rest_a),
        reads_error(s, b, rest_b),
    ensures
        a == b,
        rest_a == rest_b,
{
    lemma_code_text_injective(a.code, b.code);
}

/// Appends an error.
pub(crate) fn put_error(out: &mut Vec<u8>, error: PublicError)
    ensures
        final(out)@ == old(out)@ + enc_error(error),
{
    broadcast use crate::bytes::lemma_add_assoc;

    proof {
        lemma_code_text_short(error.code);
    }
    put_text(out, error.code.as_str());
    put_u8(
        out,
        if error.retryable {
            1u8
        } else {
            0u8
        },
    );
}

/// Reads an error.
pub(crate) fn read_error(reader: &mut Reader<'_>) -> (r: Option<PublicError>)
    ensures
        match r {
            Some(error) => reads_error(old(reader)@, error, final(reader)@),
            None => forall|error: PublicError, rest: Seq<u8>| !reads_error(old(reader)@, error, rest),
        },
{
    let name = reader.text()?;
    let code = match PublicErrorCode::try_from_wire(name.as_str()) {
        Ok(code) => code,
        Err(()) => return None,
    };
    let flag: u8 = reader.u8()?;
    if flag > 1 {
        return None;
    }
    Some(PublicError { code, retryable: flag == 1 })
}

proof fn lemma_name_of(code: PublicErrorCode, name: Seq<char>)
    requires
        code_text(code) == name,
    ensures
        parsed_code(name) == code,
{
    lemma_code_text_injective(code, parsed_code(name));
}

/// The code of each name.
pub proof fn law_names_stand_for_their_codes()
    ensures
        parsed_code("auth.invalid_credential"@) == PublicErrorCode::AuthInvalidCredential,
        parsed_code("auth.exchange_identity_mismatch"@) == PublicErrorCode::AuthExchangeIdentityMismatch,
        parsed_code("auth.session_required"@) == PublicErrorCode::AuthSessionRequired,
        parsed_code("auth.session_expired"@) == PublicErrorCode::AuthSessionExpired,
        parsed_code("auth.role_forbidden"@) == PublicErrorCode::AuthRoleForbidden,
        parsed_code("auth.ticket_invalid"@) == PublicErrorCode::AuthTicketInvalid,
        parsed_code("auth.ticket_expired"@) == PublicErrorCode::AuthTicketExpired,
        parsed_code("auth.ticket_replayed"@) == PublicErrorCode::AuthTicketReplayed,
        parsed_code("exchange.overloaded"@) == PublicErrorCode::ExchangeOverloaded,
        parsed_code("exchange.timeout"@) == PublicErrorCode::ExchangeTimeout,
        parsed_code("limit.auth_connections"@) == PublicErrorCode::LimitAuthConnections,
        parsed_code("limit.auth_requests"@) == PublicErrorCode::LimitAuthRequests,
        parsed_code("limit.auth_sessions"@) == PublicErrorCode::LimitAuthSessions,
        parsed_code("limit.proxy_streams"@) == PublicErrorCode::LimitProxyStreams,
        parsed_code("peer.setup_timeout"@) == PublicErrorCode::PeerSetupTimeout,
        parsed_code("peer.draining"@) == PublicErrorCode::PeerDraining,
        parsed_code("peer.connection_failed"@) == PublicErrorCode::PeerConnectionFailed,
        parsed_code("protocol.frame_too_large"@) == PublicErrorCode::ProtocolFrameTooLarge,
        parsed_code("protocol.malformed"@) == PublicErrorCode::ProtocolMalformed,
        parsed_code("protocol.unsupported_version"@) == PublicErrorCode::ProtocolUnsupportedVersion,
        parsed_code("protocol.capability_mismatch"@) == PublicErrorCode::ProtocolCapabilityMismatch,
        parsed_code("registry.invalid_advertisement"@) == PublicErrorCode::RegistryInvalidAdvertisement,
        parsed_code("registry.conflict"@) == PublicErrorCode::RegistryConflict,
        parsed_code("registry.reservation_required"@) == PublicErrorCode::RegistryReservationRequired,
        parsed_code("registry.stale_revision"@) == PublicErrorCode::RegistryStaleRevision,
        parsed_code("registry.not_found"@) == PublicErrorCode::RegistryNotFound,
        parsed_code("registry.offline"@) == PublicErrorCode::RegistryOffline,
        parsed_code("relay.unauthorized"@) == PublicErrorCode::RelayUnauthorized,
        parsed_code("relay.quota"@) == PublicErrorCode::RelayQuota,
        parsed_code("limit.services"@) == PublicErrorCode::LimitServices,
        parsed_code("limit.registry_requests"@) == PublicErrorCode::LimitRegistryRequests,
        parsed_code("exchange.draining"@) == PublicErrorCode::ExchangeDraining,
        parsed_code("upstream.connect_timeout"@) == PublicErrorCode::UpstreamConnectTimeout,
        parsed_code("upstream.connect_failed"@) == PublicErrorCode::UpstreamConnectFailed,
        parsed_code("upstream.idle_timeout"@) == PublicErrorCode::UpstreamIdleTimeout,
{
    lemma_name_of(PublicErrorCode::AuthInvalidCredential, "auth.invalid_credential"@);
    lemma_name_of(PublicErrorCode::AuthExchangeIdentityMismatch, "auth.exchange_identity_mismatch"@);
    lemma_name_of(PublicErrorCode::AuthSessionRequired, "auth.session_required"@);
    lemma_name_of(PublicErrorCode::AuthSessionExpired, "auth.session_expired"@);
    lemma_name_of(PublicErrorCode::AuthRoleForbidden, "auth.role_forbidden"@);
    lemma_name_of(PublicErrorCode::AuthTicketInvalid, "auth.ticket_invalid"@);
    lemma_name_of(PublicErrorCode::AuthTicketExpired, "auth.ticket_expired"@);
    lemma_name_of(PublicErrorCode::AuthTicketReplayed, "auth.ticket_replayed"@);
    lemma_name_of(PublicErrorCode::ExchangeOverloaded, "exchange.overloaded"@);
    lemma_name_of(PublicErrorCode::ExchangeTimeout, "exchange.timeout"@);
    lemma_name_of(PublicErrorCode::LimitAuthConnections, "limit.auth_connections"@);
    lemma_name_of(PublicErrorCode::LimitAuthRequests, "limit.auth_requests"@);
    lemma_name_of(PublicErrorCode::LimitAuthSessions, "limit.auth_sessions"@);
    lemma_name_of(PublicErrorCode::LimitProxyStreams, "limit.proxy_streams"@);
    lemma_name_of(PublicErrorCode::PeerSetupTimeout, "peer.setup_timeout"@);
    lemma_name_of(PublicErrorCode::PeerDraining, "peer.draining"@);
    lemma_name_of(PublicErrorCode::PeerConnectionFailed, "peer.connection_failed"@);
    lemma_name_of(PublicErrorCode::ProtocolFrameTooLarge, "protocol.frame_too_large"@);
    lemma_name_of(PublicErrorCode::ProtocolMalformed, "protocol.malformed"@);
    lemma_name_of(PublicErrorCode::ProtocolUnsupportedVersion, "protocol.unsupported_version"@);
    lemma_name_of(PublicErrorCode::ProtocolCapabilityMismatch, "protocol.capability_mismatch"@);
    lemma_name_of(PublicErrorCode::RegistryInvalidAdvertisement, "registry.invalid_advertisement"@);
    lemma_name_of(PublicErrorCode::RegistryConflict, "registry.conflict"@);
    lemma_name_of(PublicErrorCode::RegistryReservationRequired, "registry.reservation_required"@);
    lemma_name_of(PublicErrorCode::RegistryStaleRevision, "registry.stale_revision"@);
    lemma_name_of(PublicErrorCode::RegistryNotFound, "registry.not_found"@);
    lemma_name_of(PublicErrorCode::RegistryOffline, "registry.offline"@);
    lemma_name_of(PublicErrorCode::RelayUnauthorized, "relay.unauthorized"@);
    lemma_name_of(PublicErrorCode::RelayQuota, "relay.quota"@);
    lemma_name_of(PublicErrorCode::LimitServices, "limit.services"@);
    lemma_name_of(PublicErrorCode::LimitRegistryRequests, "limit.registry_requests"@);
    lemma_name_of(PublicErrorCode::ExchangeDraining, "exchange.draining"@);
    lemma_name_of(PublicErrorCode::UpstreamConnectTimeout, "upstream.connect_timeout"@);
    lemma_name_of(PublicErrorCode::UpstreamConnectFailed, "upstream.connect_failed"@);
    lemma_name_of(PublicErrorCode::UpstreamIdleTimeout, "upstream.idle_timeout"@);
}

/// A code is read from its name, and a text that is no name reads as a malformed
/// message.
pub proof fn law_codes_are_read_from_their_names(code: PublicErrorCode, text: Seq<char>)
    ensures
        parsed_code(code_text(code)) == code,
        code_text(parsed_code(text)) == text || parsed_code(text) == PublicErrorCode::ProtocolMalformed,
{
    lemma_name_of(code, code_text(code));
}

/// An error on the wire ends with one where trying again may help, with zero where
/// it does not, after the name of its code.
pub proof fn law_errors_say_whether_to_try_again(error: PublicError, rest: Seq<u8>)
    ensures
        error.retryable ==> enc_error(error) == enc_text(code_text(error.code)).push(1),
        !error.retryable ==> enc_error(error) == enc_text(code_text(error.code)).push(0),
        reads_error(enc_error(error) + rest, error, rest),
{
    assert(error.retryable ==> enc_error(error) =~= enc_text(code_text(error.code)).push(1));
    assert(!error.retryable ==> enc_error(error) =~= enc_text(code_text(error.code)).push(0));
    lemma_error_reads(enc_error(error) + rest, error, rest);
}

} // verus!
