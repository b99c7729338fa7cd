use base64::engine::general_purpose::URL_SAFE_NO_PAD;
use base64::Engine;
use p2x::auth::Scope;
use p2x::bytes::Reader;
use p2x::credential::{CredentialError, TokenDigest, TokenSecret};
use p2x::error::{PublicError, PublicErrorCode};
use p2x::frame::{
    frame_length, read_frame, read_frame_within, write_frame, write_frame_within, FrameError,
    MAX_AUTH_FRAME,
};
use p2x::hex::{decode_hex_id, hex};
use p2x::ids::{
    CorrelationIdExhausted, CorrelationIdGenerator, CredentialId, InstanceId, QuotaProfile,
    RegistrationRevision, Tenant, UpstreamId,
};
use p2x::proxy::{
    IngressKind, OpenProxyStreamV1, ProxyOpenResponseV1, ProxyProtocolError, UpstreamMode,
};
use p2x::registry::{
    Capabilities, Health, RegistryRequestV1, ServiceAdvertisementV1, ServiceSet, RELAY_V2,
};
use p2x::resolve::{
    valid_addresses, ResolveProtocolError, ResolveRequestV1, ResolveResponseV1, MAX_RESOLVE_FRAME,
};
use p2x::selector::{
    Metadata, MetadataKey, MetadataValue, ProtocolClass, ScopedSelector, SelectorError,
    UnscopedSelector,
};
use p2x::ticket::{
    decode_envelope, key_id_for, verify_signature_with_key_resolver, verify_with_key_resolver,
    ConnectionTicketClaimsV1, RawTicket, TicketError, TicketSigner, TicketValidation,
    VerifiedTicket, VerifyingKey,
};
use p2x::ticket_key::{VerificationKey, VerificationKeyRing};

const PEER: &[u8] = &[
    0, 36, 8, 1, 18, 32, 107, 117, 237, 81, 229, 13, 170, 0, 121, 162, 207, 180, 128, 192, 5, 180,
    135, 200, 156, 15, 161, 190, 109, 221, 66, 55, 60, 198, 198, 8, 78, 161,
];

fn random_peer() -> libp2p::PeerId {
    libp2p::identity::Keypair::generate_ed25519()
        .public()
        .to_peer_id()
}

fn metadata(entries: &[(&str, &str)]) -> Metadata {
    let mut table = Metadata::new();
    for (key, value) in entries {
        table.insert(
            MetadataKey::new(key).unwrap(),
            MetadataValue::new(value).unwrap(),
        );
    }
    table
}

fn http_selector(entries: &[(&str, &str)]) -> UnscopedSelector {
    UnscopedSelector::new(ProtocolClass::Http, metadata(entries)).unwrap()
}

fn service(id: &str, value: &str) -> ServiceAdvertisementV1 {
    ServiceAdvertisementV1::new(
        UpstreamId::new(id).unwrap(),
        http_selector(&[("service", value)]),
        Health::Ready,
    )
}

fn open() -> OpenProxyStreamV1 {
    OpenProxyStreamV1 {
        request_id: [1; 16],
        ticket: RawTicket::new(vec![7; 16]).unwrap(),
        upstream_id: UpstreamId::new("orders").unwrap(),
        registration_revision: RegistrationRevision::new(1).unwrap(),
        ingress_kind: IngressKind::FixedTcp,
    }
}

fn validation() -> TicketValidation<'static> {
    TicketValidation {
        issuer_exchange_peer_id: PEER,
        client_peer_id: PEER,
        server_peer_id: PEER,
        tenant: "t",
        upstream_id: "u",
        selector_fingerprint: [4; 32],
        registration_revision: 1,
        authorization_revision: 2,
        permissions: 4,
        max_streams: 1,
        now: 15,
        clock_skew: 0,
    }
}

fn claims_living(not_before: i64, expires_at: i64) -> Result<ConnectionTicketClaimsV1, TicketError> {
    ConnectionTicketClaimsV1::new(
        PEER.to_vec(),
        "t".to_string(),
        PEER.to_vec(),
        PEER.to_vec(),
        "u".to_string(),
        [4; 32],
        1,
        2,
        4,
        not_before,
        expires_at,
        [5; 16],
        1,
    )
}

fn claims() -> ConnectionTicketClaimsV1 {
    claims_living(10, 20).unwrap()
}

fn ring_of(key_id: [u8; 16], public: VerifyingKey) -> VerificationKeyRing {
    let mut ring = VerificationKeyRing::default();
    ring.add(VerificationKey {
        key_id,
        public,
        activates_at: 0,
        retires_at: None,
    })
    .unwrap();
    ring
}

fn verify_envelope(envelope: &[u8], signer: &TicketSigner) -> Result<VerifiedTicket, TicketError> {
    let ring = ring_of(signer.key_id(), signer.public_key());
    verify_signature_with_key_resolver(envelope, &ring, 15, 0)
}

fn verify_and_validate(
    envelope: &[u8],
    signer: &TicketSigner,
    expected: &TicketValidation<'_>,
) -> Result<VerifiedTicket, TicketError> {
    let ring = ring_of(signer.key_id(), signer.public_key());
    verify_with_key_resolver(envelope, &ring, expected)
}

#[test]
fn scope_bits_are_stable() {
    assert_eq!(Scope::OpenProxyStream.bit(), 4);
}

#[test]
fn scope_bits_are_disjoint() {
    let scopes = [
        Scope::RegisterServices,
        Scope::ReserveRelay,
        Scope::OpenProxyStream,
    ];
    let mut seen: u32 = 0;
    for scope in scopes {
        assert_eq!(seen & scope.bit(), 0);
        seen |= scope.bit();
    }
    assert_eq!(seen, 7);
}

#[test]
fn parses_canonical_token_and_redacts() {
    let value = format!("p2x1.server-1.{}", URL_SAFE_NO_PAD.encode([7u8; 32]));
    let (_, token) = TokenSecret::parse(&value).unwrap();
    assert!(token.redacted().contains("REDACTED"));
    assert!(token.digest().matches(&token));
    assert!(TokenSecret::parse(&format!("{value}=")).is_err());
}

#[test]
fn tokens_name_their_credential_and_hold_their_bytes() {
    let value = format!("p2x1.server-1.{}", URL_SAFE_NO_PAD.encode([7u8; 32]));
    let (id, token) = TokenSecret::parse(&value).unwrap();
    assert_eq!(id.as_str(), "server-1");
    assert_eq!(token.as_bytes(), &[7u8; 32]);
    assert!(!token.digest().matches(&TokenSecret::from_bytes([8; 32])));
    let other = TokenDigest::from_bytes(*TokenSecret::from_bytes([8; 32]).digest().as_bytes());
    assert!(!other.matches(&token));
    assert!(other.redacted().contains("REDACTED"));
    for bad in [
        "p2x2.server-1.BwcHBwcHBwcHBwcHBwcHBwcHBwcHBwcHBwcHBwcHBwc".to_string(),
        "p2x1.server-1".to_string(),
        "p2x1..BwcHBwcHBwcHBwcHBwcHBwcHBwcHBwcHBwcHBwcHBwc".to_string(),
        format!("p2x1.server-1.{}", URL_SAFE_NO_PAD.encode([7u8; 31])),
        format!("{value}.x"),
    ] {
        assert!(matches!(
            TokenSecret::parse(&bad),
            Err(CredentialError::Invalid)
        ));
    }
}

#[test]
fn codes_round_trip() {
    for code in [
        PublicErrorCode::AuthInvalidCredential,
        PublicErrorCode::ProtocolMalformed,
        PublicErrorCode::LimitAuthSessions,
    ] {
        assert_eq!(PublicErrorCode::parse(code.as_str()), code);
    }
    assert_eq!(
        PublicErrorCode::parse("secret"),
        PublicErrorCode::ProtocolMalformed
    );
    assert!(PublicErrorCode::try_from_wire("secret").is_err());
}

#[test]
fn code_names_are_stable() {
    assert_eq!(
        PublicErrorCode::AuthInvalidCredential.as_str(),
        "auth.invalid_credential"
    );
    assert_eq!(
        PublicErrorCode::ProtocolMalformed.as_str(),
        "protocol.malformed"
    );
    assert_eq!(
        PublicErrorCode::try_from_wire("registry.not_found"),
        Ok(PublicErrorCode::RegistryNotFound)
    );
}

#[test]
fn frame_bounds() {
    let mut out = Vec::new();
    assert!(write_frame(&mut out, &[]).is_err());
    assert!(write_frame(&mut out, &[1; MAX_AUTH_FRAME + 1]).is_err());
    assert_eq!(
        read_frame(&mut Reader::new(&[0, 0, 0, 0])).unwrap_err(),
        FrameError::InvalidData
    );
}

#[test]
fn frames_come_back_and_say_what_is_wrong() {
    let mut out = Vec::new();
    write_frame(&mut out, &[9, 8, 7]).unwrap();
    assert_eq!(out, [0, 0, 0, 3, 9, 8, 7]);
    out.push(1);
    let mut reader = Reader::new(&out);
    assert_eq!(read_frame(&mut reader), Ok(vec![9, 8, 7]));
    assert_eq!(
        read_frame(&mut Reader::new(&out[..5])),
        Err(FrameError::UnexpectedEof)
    );
    assert_eq!(
        read_frame_within(&mut Reader::new(&out), 2),
        Err(FrameError::InvalidData)
    );
    assert_eq!(
        write_frame_within(&mut Vec::new(), &[1, 2, 3], 2),
        Err(FrameError::InvalidInput)
    );
    assert_eq!(frame_length([0, 0, 1, 0], 256), Ok(256));
    assert_eq!(frame_length([0, 0, 1, 1], 256), Err(FrameError::InvalidData));
}

#[test]
fn correlation_ids_are_checked_big_endian_and_fail_closed() {
    let mut generator = CorrelationIdGenerator::new(u128::MAX - 1);
    assert_eq!(generator.allocate().unwrap(), (u128::MAX - 1).to_be_bytes());
    assert_eq!(generator.allocate().unwrap(), u128::MAX.to_be_bytes());
    assert_eq!(generator.allocate(), Err(CorrelationIdExhausted));
}

#[test]
fn correlation_ids_are_distinct() {
    let mut generator = CorrelationIdGenerator::new(255);
    let first = generator.allocate().unwrap();
    let second = generator.allocate().unwrap();
    assert_eq!(first, 255u128.to_be_bytes());
    assert_eq!(second, 256u128.to_be_bytes());
}

#[test]
fn identifiers_are_bounded_and_plain() {
    assert_eq!(UpstreamId::new("orders").unwrap().as_str(), "orders");
    assert!(UpstreamId::new("").is_err());
    assert!(UpstreamId::new("or ders").is_err());
    assert!(CredentialId::new(&"a".repeat(64)).is_ok());
    assert!(CredentialId::new(&"a".repeat(65)).is_err());
    assert!(Tenant::new("t").unwrap().same(&Tenant::new("t").unwrap()));
    assert!(!QuotaProfile::new("a")
        .unwrap()
        .same(&QuotaProfile::new("b").unwrap()));
    assert!(RegistrationRevision::new(0).is_none());
    assert_eq!(RegistrationRevision::new(7).unwrap().get(), 7);
    assert!(InstanceId::new([3; 16]).same(&InstanceId::new([3; 16])));
}

#[test]
fn hex_round_trips() {
    assert_eq!(hex(&[0, 15, 255]), "000fff");
    let id = [0xabu8; 16];
    assert_eq!(decode_hex_id(&hex(&id)), Some(id));
    assert!(decode_hex_id("ab").is_none());
    assert!(decode_hex_id(&"AB".repeat(16)).is_none());
}

#[test]
fn open_and_all_responses_round_trip() {
    let open = open();
    assert!(OpenProxyStreamV1::decode(&open.canonical_bytes().unwrap()).unwrap_or_else(|_| panic!()) == open);
    for response in [
        ProxyOpenResponseV1::Authorized {
            request_id: [1; 16],
            stream_id: [2; 16],
        },
        ProxyOpenResponseV1::Accepted {
            request_id: [1; 16],
            stream_id: [2; 16],
            selected_upstream_mode: UpstreamMode::Tcp,
        },
        ProxyOpenResponseV1::Rejected {
            request_id: None,
            error: PublicError::new(PublicErrorCode::AuthTicketReplayed, false),
        },
    ] {
        assert_eq!(
            ProxyOpenResponseV1::decode(&response.canonical_bytes().unwrap()).unwrap(),
            response
        );
    }
}

#[test]
fn trailing_and_unknown_values_are_rejected() {
    let response = ProxyOpenResponseV1::Authorized {
        request_id: [1; 16],
        stream_id: [2; 16],
    };
    let mut bytes = response.canonical_bytes().unwrap();
    bytes.push(0);
    assert_eq!(
        ProxyOpenResponseV1::decode(&bytes),
        Err(ProxyProtocolError::Malformed)
    );
    let mut open = open().canonical_bytes().unwrap();
    *open.last_mut().unwrap() = 9;
    assert!(OpenProxyStreamV1::decode(&open) == Err(ProxyProtocolError::Malformed));
}

#[test]
fn proxy_messages_end_their_frames() {
    let mut bytes = open().canonical_bytes().unwrap();
    bytes.push(7);
    assert_eq!(
        OpenProxyStreamV1::decode(&bytes).err(),
        Some(ProxyProtocolError::Malformed)
    );
    bytes[0] = 3;
    assert_eq!(
        OpenProxyStreamV1::decode(&bytes).err(),
        Some(ProxyProtocolError::UnsupportedVersion)
    );
    let refusal = ProxyOpenResponseV1::Rejected {
        request_id: None,
        error: PublicError::new(PublicErrorCode::AuthTicketReplayed, false),
    };
    let mut bytes = refusal.canonical_bytes().unwrap();
    bytes.push(0);
    assert_eq!(
        ProxyOpenResponseV1::decode(&bytes),
        Err(ProxyProtocolError::Malformed)
    );
    bytes[0] = 0;
    assert_eq!(
        ProxyOpenResponseV1::decode(&bytes),
        Err(ProxyProtocolError::UnsupportedVersion)
    );
}

#[test]
fn proxy_errors_have_public_codes() {
    let mut bytes = open().canonical_bytes().unwrap();
    bytes[0] = 2;
    assert!(OpenProxyStreamV1::decode(&bytes) == Err(ProxyProtocolError::UnsupportedVersion));
    assert_eq!(
        ProxyProtocolError::FrameTooLarge.public_code(),
        PublicErrorCode::ProtocolFrameTooLarge
    );
    assert_eq!(
        ProxyProtocolError::Malformed.public_code(),
        PublicErrorCode::ProtocolMalformed
    );
}

#[test]
fn service_sets_are_sorted_and_unique() {
    let set = ServiceSet::new(vec![service("z", "z"), service("a", "a")]).unwrap();
    assert_eq!(set.as_slice()[0].upstream_id().as_str(), "a");
    assert!(matches!(
        ServiceSet::new(vec![service("a", "a"), service("a", "b")]),
        Err(SelectorError::DuplicateService)
    ));
    assert!(matches!(
        ServiceSet::new(vec![
            service("a", "same"),
            service("b", "other"),
            service("c", "same")
        ]),
        Err(SelectorError::DuplicateService)
    ));
    let _ = Tenant::new("t");
}

#[test]
fn service_sets_do_not_depend_on_order() {
    let one = ServiceSet::new(vec![service("z", "z"), service("a", "a")]).unwrap();
    let two = ServiceSet::new(vec![service("a", "a"), service("z", "z")]).unwrap();
    assert_eq!(one, two);
    assert_eq!(one.hash(), two.hash());
    let other = ServiceSet::new(vec![service("a", "a")]).unwrap();
    assert_ne!(one.hash(), other.hash());
    assert!(matches!(
        ServiceSet::new(vec![]),
        Err(SelectorError::ServiceCount)
    ));
    let many = (0..129)
        .map(|i| service(&format!("s{i}"), &format!("v{i}")))
        .collect::<Vec<_>>();
    assert!(matches!(
        ServiceSet::new(many),
        Err(SelectorError::ServiceCount)
    ));
}

#[test]
fn service_set_forms_start_with_a_label_and_a_count() {
    let one = ServiceSet::new(vec![service("z", "z"), service("a", "a")]).unwrap();
    let two = ServiceSet::new(vec![service("a", "a"), service("z", "z")]).unwrap();
    let bytes = one.canonical_bytes();
    assert_eq!(bytes, two.canonical_bytes());
    assert_eq!(&bytes[..19], b"p2x-service-set-v1\0");
    assert_eq!(&bytes[19..21], &[0, 2]);
    let other = ServiceSet::new(vec![service("a", "z"), service("z", "a")]).unwrap();
    assert_ne!(bytes, other.canonical_bytes());
}

#[test]
fn capabilities_are_closed() {
    assert!(Capabilities::from_bits(16).is_none());
    assert!(Capabilities::from_bits(7).unwrap().direct_transport());
}

#[test]
fn capabilities_contain_their_parts() {
    assert_eq!(Capabilities::all().bits(), 15);
    assert!(Capabilities::all().contains(Capabilities::from_bits(9).unwrap()));
    assert!(!Capabilities::empty().contains(Capabilities::from_bits(1).unwrap()));
    assert!(!Capabilities::from_bits(9).unwrap().direct_transport());
}

#[test]
fn request_hashes_depend_on_the_request() {
    let withdraw = |id: u8| RegistryRequestV1::Withdraw {
        request_id: [id; 16],
        session_id: [2; 16],
        instance_id: InstanceId::new([3; 16]),
        expected_registration_revision: RegistrationRevision::new(7).unwrap(),
    };
    assert_eq!(withdraw(1).hash(), withdraw(1).hash());
    assert_ne!(withdraw(1).hash(), withdraw(2).hash());
}

#[test]
fn digested_forms_tell_requests_apart() {
    let instance_id = InstanceId::new([3; 16]);
    let revision = RegistrationRevision::new(7).unwrap();
    let register = RegistryRequestV1::Register {
        request_id: [1; 16],
        session_id: [2; 16],
        instance_id,
        requested_lease_seconds: 30,
        capabilities: Capabilities::from_bits(RELAY_V2).unwrap(),
        services: ServiceSet::new(vec![service("a", "a")]).unwrap(),
    }
    .canonical_bytes();
    let refresh = |lease| {
        RegistryRequestV1::Refresh {
            request_id: [1; 16],
            session_id: [2; 16],
            instance_id,
            expected_registration_revision: revision,
            requested_lease_seconds: lease,
        }
        .canonical_bytes()
    };
    let withdraw = RegistryRequestV1::Withdraw {
        request_id: [1; 16],
        session_id: [2; 16],
        instance_id,
        expected_registration_revision: revision,
    }
    .canonical_bytes();
    for (kind, bytes) in [&register, &refresh(30), &withdraw].into_iter().enumerate() {
        assert_eq!(&bytes[..24], b"p2x-registry-request-v1\0");
        assert_eq!(bytes[24] as usize, kind);
        assert_eq!(&bytes[25..41], &[1; 16]);
    }
    assert_eq!(refresh(30).len(), 83);
    assert_eq!(withdraw.len(), 81);
    assert_eq!(refresh(30), refresh(30));
    assert_ne!(refresh(30), refresh(31));
}

#[test]
fn request_and_rejection_are_canonical() {
    let request = ResolveRequestV1::Resolve {
        request_id: [1; 16],
        session_id: [2; 16],
        selector: http_selector(&[("service", "orders")]),
        client_capabilities: Capabilities::from_bits(9).unwrap(),
    };
    assert_eq!(
        ResolveRequestV1::decode(&request.canonical_bytes().unwrap()).unwrap(),
        request
    );
    let response = ResolveResponseV1::Rejected {
        request_id: Some([1; 16]),
        error: PublicError::new(PublicErrorCode::RegistryNotFound, true),
    };
    let decoded = ResolveResponseV1::decode(&response.canonical_bytes().unwrap());
    assert!(decoded == Ok(response));
}

fn relay_address(server: &libp2p::PeerId) -> Vec<u8> {
    let exchange = random_peer();
    format!("/ip4/127.0.0.1/tcp/1/p2p/{exchange}/p2p-circuit/p2p/{server}")
        .parse::<multiaddr::Multiaddr>()
        .unwrap()
        .to_vec()
}

#[test]
fn binary_multiaddr_bytes_are_accepted() {
    let relay = relay_address(&random_peer());
    assert!(valid_addresses(&vec![relay]));
}

#[test]
fn addresses_that_do_not_parse_are_refused() {
    assert!(!valid_addresses(&vec![]));
    assert!(!valid_addresses(&vec![vec![255, 255, 255]]));
    let relay = relay_address(&random_peer());
    assert!(!valid_addresses(&vec![relay; 5]));
}

#[test]
fn oversized_frames_are_rejected_before_parsing() {
    assert_eq!(
        ResolveRequestV1::decode(&vec![0; MAX_RESOLVE_FRAME + 1]),
        Err(ResolveProtocolError::FrameTooLarge)
    );
    assert!(
        ResolveResponseV1::decode(&vec![0; MAX_RESOLVE_FRAME + 1])
            == Err(ResolveProtocolError::FrameTooLarge)
    );
}

#[test]
fn response_bounds_and_expiry_are_checked() {
    let peer = random_peer();
    let response = ResolveResponseV1::Resolved {
        request_id: [1; 16],
        server_peer_id: peer.to_bytes(),
        upstream_id: UpstreamId::new("orders").unwrap(),
        selector_fingerprint: [3; 32],
        registration_revision: RegistrationRevision::new(1).unwrap(),
        relay_addresses: vec![relay_address(&peer)],
        compatible_capabilities: Capabilities::from_bits(RELAY_V2).unwrap(),
        registration_expires_at: 20,
        ticket_expires_at: 19,
        ticket: RawTicket::new(vec![7; 16]).unwrap(),
    };
    assert!(response.resolved_at(10));
    assert!(!response.resolved_at(19));
    assert!(ResolveResponseV1::decode(&response.canonical_bytes().unwrap()).is_ok());
    let mut bytes = response.canonical_bytes().unwrap();
    bytes.push(0);
    assert!(ResolveResponseV1::decode(&bytes) == Err(ResolveProtocolError::Malformed));
}

#[test]
fn resolve_messages_end_their_frames() {
    let request = ResolveRequestV1::Resolve {
        request_id: [1; 16],
        session_id: [2; 16],
        selector: http_selector(&[("service", "orders")]),
        client_capabilities: Capabilities::from_bits(RELAY_V2).unwrap(),
    };
    let mut bytes = request.canonical_bytes().unwrap();
    bytes.push(0);
    assert_eq!(
        ResolveRequestV1::decode(&bytes),
        Err(ResolveProtocolError::Malformed)
    );
    bytes[0] = 2;
    assert_eq!(
        ResolveRequestV1::decode(&bytes),
        Err(ResolveProtocolError::UnsupportedVersion)
    );
    bytes.resize(MAX_RESOLVE_FRAME + 1, 0);
    assert_eq!(
        ResolveRequestV1::decode(&bytes),
        Err(ResolveProtocolError::FrameTooLarge)
    );
    let refusal = ResolveResponseV1::Rejected {
        request_id: None,
        error: PublicError::new(PublicErrorCode::RegistryNotFound, true),
    };
    let mut bytes = refusal.canonical_bytes().unwrap();
    bytes.push(0);
    assert!(ResolveResponseV1::decode(&bytes) == Err(ResolveProtocolError::Malformed));
    bytes[0] = 0;
    assert!(ResolveResponseV1::decode(&bytes) == Err(ResolveProtocolError::UnsupportedVersion));
}

#[test]
fn selector_order_is_required() {
    let request = ResolveRequestV1::Resolve {
        request_id: [1; 16],
        session_id: [2; 16],
        selector: http_selector(&[("service", "orders")]),
        client_capabilities: Capabilities::from_bits(RELAY_V2).unwrap(),
    };
    let mut bytes = request.canonical_bytes().unwrap();
    bytes[35] = b'z';
    assert!(ResolveRequestV1::decode(&bytes).is_err());
    let _ = (
        Tenant::new("tenant").unwrap(),
        ServiceSet::new(vec![service("orders", "orders")]).unwrap(),
    );
}

#[test]
fn canonicalizes_and_fingerprints() {
    let tenant = Tenant::new("tenant-a").unwrap();
    let selector = http_selector(&[("environment", " production "), ("service", "orders")]);
    assert_eq!(
        selector
            .metadata()
            .get(&MetadataKey::new("environment").unwrap())
            .unwrap()
            .as_str(),
        "production"
    );
    assert_eq!(
        selector.fingerprint(&tenant),
        [
            0x89, 0xff, 0xc2, 0xc6, 0x29, 0x67, 0xad, 0x3c, 0xa6, 0x45, 0x0e, 0x3d, 0xe4, 0x5a,
            0xc5, 0xc8, 0x6f, 0xfd, 0x7a, 0x7d, 0xfc, 0x6f, 0x4d, 0xb2, 0x40, 0xef, 0x35, 0xaa,
            0x5b, 0x73, 0x00, 0xdb,
        ]
    );
}

#[test]
fn rejects_reserved_keys_and_invalid_counts() {
    assert_eq!(
        MetadataKey::new("p2x.secret"),
        Err(SelectorError::InvalidMetadataKey)
    );
    assert_eq!(
        MetadataValue::new("  "),
        Err(SelectorError::InvalidMetadataValue)
    );
    assert_eq!(
        UnscopedSelector::new(ProtocolClass::Tcp, Metadata::new()),
        Err(SelectorError::MetadataCount)
    );
}

#[test]
fn metadata_is_kept_in_the_order_of_its_keys() {
    let one = metadata(&[("b", "2"), ("a", "1")]);
    let two = metadata(&[("a", "0"), ("b", "2"), ("a", "1")]);
    assert_eq!(one, two);
    assert_eq!(one.key_at(0).as_str(), "a");
    assert_eq!(one.value_at(1).as_str(), "2");
    let large = metadata(
        &(0..20)
            .map(|i| (format!("key{i}"), "v".repeat(250)))
            .collect::<Vec<_>>()
            .iter()
            .map(|(k, v)| (k.as_str(), v.as_str()))
            .collect::<Vec<_>>(),
    );
    assert_eq!(
        UnscopedSelector::new(ProtocolClass::Tcp, large),
        Err(SelectorError::TooLarge)
    );
}

#[test]
fn canonical_forms_tell_selectors_and_tenants_apart() {
    let one = http_selector(&[("b", "2"), ("a", "1")]);
    let two = http_selector(&[("a", "1"), ("b", "2")]);
    let plain = one.canonical_bytes(None);
    assert_eq!(
        plain,
        [0, 2, 0, 1, b'a', 0, 1, b'1', 0, 1, b'b', 0, 1, b'2']
    );
    assert_eq!(plain, two.canonical_bytes(None));
    let tenant = Tenant::new("tenant").unwrap();
    let scoped = one.canonical_bytes(Some(&tenant));
    assert_eq!(&scoped[..8], b"\0\x06tenant");
    assert_eq!(scoped[8..], plain);
    let other = Tenant::new("tenan").unwrap();
    assert_ne!(scoped, one.canonical_bytes(Some(&other)));
    assert_ne!(plain, http_selector(&[("a", "1b")]).canonical_bytes(None));
}

#[test]
fn values_lose_white_space_of_every_kind() {
    for space in [
        "\t", "\n", "\u{b}", "\u{c}", "\r", " ", "\u{85}", "\u{a0}", "\u{1680}", "\u{2000}",
        "\u{200a}", "\u{2028}", "\u{2029}", "\u{202f}", "\u{205f}", "\u{3000}",
    ] {
        let value = MetadataValue::new(&format!("{space}a{space}b{space}")).unwrap();
        assert_eq!(value.as_str(), format!("a{space}b"));
    }
    for kept in ["\u{8}", "\u{e}", "\u{84}", "\u{180e}", "\u{200b}", "\u{2060}", "\u{feff}"] {
        assert_eq!(MetadataValue::new(kept).unwrap().as_str(), kept);
    }
}

#[test]
fn scoped_selectors_hold_both_parts() {
    let tenant = Tenant::new("t").unwrap();
    let scoped = ScopedSelector::new(tenant.clone(), http_selector(&[("service", "orders")]));
    assert!(scoped.tenant().same(&tenant));
    assert!(scoped
        .selector()
        .same(&http_selector(&[("service", "orders")])));
}

#[test]
fn decode_is_canonical() {
    let c = claims();
    assert_eq!(
        ConnectionTicketClaimsV1::decode(&c.encode().unwrap()).unwrap(),
        c
    )
}

#[test]
fn rejects_overflowed_lifetime() {
    assert_eq!(
        claims_living(i64::MIN, i64::MAX),
        Err(TicketError::Invalid)
    );
}

#[test]
fn lifetimes_are_bounded() {
    assert!(claims_living(10, 70).is_ok());
    assert_eq!(claims_living(10, 71), Err(TicketError::Invalid));
    assert_eq!(claims_living(11, 10), Err(TicketError::Invalid));
}

#[test]
fn raw_ticket_and_verified_ticket_redact_bytes() {
    let signer = TicketSigner::from_seed([9; 32]);
    let raw = signer.sign(&claims()).unwrap_or_else(|_| panic!());
    assert!(raw.redacted().contains("REDACTED"));
    let verified = verify_and_validate(raw.as_bytes(), &signer, &validation()).unwrap();
    assert_eq!(verified.ticket_id(), [5; 16]);
    assert_eq!(verified.claims().tenant(), "t");
}

#[test]
fn expiry_boundary_is_exclusive() {
    let signer = TicketSigner::from_seed([9; 32]);
    let mut expected = validation();
    expected.now = 20;
    let ticket = signer.sign(&claims()).unwrap_or_else(|_| panic!());
    assert_eq!(
        verify_and_validate(ticket.as_bytes(), &signer, &expected),
        Err(TicketError::Expired)
    );
}

#[test]
fn vector_and_mutation() {
    let s = TicketSigner::from_seed([9; 32]);
    let t = s.sign(&claims()).unwrap_or_else(|_| panic!());
    verify_and_validate(t.as_bytes(), &s, &validation()).unwrap();
    let mut x = t.as_bytes().to_vec();
    *x.last_mut().unwrap() ^= 1;
    assert!(verify_envelope(&x, &s).is_err());
    for index in 24..t.as_bytes().len() - 64 {
        let mut mutated = t.as_bytes().to_vec();
        mutated[index] ^= 1;
        assert!(verify_envelope(&mutated, &s).is_err());
    }
    let wrong_key = TicketSigner::from_seed([8; 32]);
    assert!(verify_envelope(t.as_bytes(), &wrong_key).is_err());
    let misnamed = ring_of(s.key_id(), wrong_key.public_key());
    assert!(verify_signature_with_key_resolver(t.as_bytes(), &misnamed, 15, 0).is_err());
    assert_eq!(
        hex(&s.key_id()),
        "dbc298251c51321b7266e78d1c151c2b"
    );
    let (key_id, signed, _) = decode_envelope(t.as_bytes()).unwrap();
    assert_eq!(key_id, s.key_id());
    assert_eq!(signed, claims());
}

#[test]
fn tickets_say_when_and_where_they_are_good() {
    let s = TicketSigner::from_seed([9; 32]);
    let t = s.sign(&claims()).unwrap_or_else(|_| panic!());
    let early = TicketValidation {
        now: 4,
        clock_skew: 5,
        ..validation()
    };
    assert_eq!(
        verify_and_validate(t.as_bytes(), &s, &early),
        Err(TicketError::Invalid)
    );
    let late = TicketValidation {
        now: 24,
        clock_skew: 5,
        ..validation()
    };
    assert!(verify_and_validate(t.as_bytes(), &s, &late).is_ok());
    let skewed = TicketValidation {
        clock_skew: 31,
        ..validation()
    };
    assert_eq!(
        verify_and_validate(t.as_bytes(), &s, &skewed),
        Err(TicketError::Invalid)
    );
    let elsewhere = TicketValidation {
        upstream_id: "v",
        ..validation()
    };
    assert_eq!(
        verify_and_validate(t.as_bytes(), &s, &elsewhere),
        Err(TicketError::Invalid)
    );
}

#[test]
fn keys_are_known_by_their_digest() {
    let key = VerifyingKey::of_seed(&[9; 32]);
    assert_eq!(key, TicketSigner::from_seed([9; 32]).public_key());
    assert_eq!(
        key_id_for(key.as_bytes()),
        TicketSigner::from_seed([9; 32]).key_id()
    );
    assert_eq!(VerifyingKey::from_bytes(key.as_bytes()), Ok(key));
    assert!(RawTicket::new(vec![]).is_err());
    assert!(RawTicket::new(vec![0; 2049]).is_err());
}

#[test]
fn a_copied_digest_outlives_the_one_it_was_made_of() {
    let secret = TokenSecret::from_bytes([7; 32]);
    let digest = secret.digest();
    let copy = digest.clone();
    drop(digest);
    assert!(copy.matches(&secret));
    assert_ne!(copy.as_bytes(), &[0; 32]);
}
