use p2x::address::Address;
use p2x::auth::{AuthRequest, AuthResponse, Role};
use p2x::auth_codec::{
    decode_auth_frame, decode_auth_request, decode_auth_response, encode_request, encode_response,
    read_frame, write_frame, AuthProtocolError,
};
use p2x::auth_state::{AuthAction, AuthPhase, AuthState, AUTH_TIMEOUT_SECONDS};
use p2x::builder::{
    lab_seed, BuildError, ExchangeSwarmConfig, PeerSwarmConfig, RelayProfile, RuntimeMode,
    MAX_NEGOTIATIONS, MAX_STREAMS,
};
use p2x::bytes::Reader;
use p2x::connection_book::{
    classify_address, classify_connected_point, classify_path, ConnectedPoint, ConnectionBook,
    ConnectionBookError, PathKind, TransportKind, MAX_CONNECTION_LIFECYCLES, TOMBSTONE_TTL,
};
use p2x::credential::TokenSecret;
use p2x::error::{PublicError, PublicErrorCode};
use p2x::frame::MAX_AUTH_FRAME;
use p2x::ids::{CredentialId, QuotaProfile, Tenant};
use p2x::peer::{ConnectionId, PeerId};
use p2x::trust::{validate_exchange_pin, TrustError};

const AUTH: [u8; 16] = [1; 16];
const PING: [u8; 16] = [2; 16];
const SESSION: [u8; 16] = [3; 16];

fn peer_text() -> String {
    libp2p::identity::Keypair::generate_ed25519()
        .public()
        .to_peer_id()
        .to_string()
}

fn peer() -> PeerId {
    PeerId::from_text(&peer_text()).unwrap()
}

fn address(text: &str) -> Address {
    Address::parse(text).unwrap()
}

fn endpoint(text: &str) -> ConnectedPoint {
    ConnectedPoint::Dialer {
        address: address(text),
    }
}

fn id(n: usize) -> ConnectionId {
    ConnectionId(n as u64)
}

fn exchange_config(mode: RuntimeMode) -> ExchangeSwarmConfig {
    ExchangeSwarmConfig {
        tcp_listen: address("/ip4/127.0.0.1/tcp/0"),
        quic_listen: address("/ip4/127.0.0.1/udp/0/quic-v1"),
        allow_public: false,
        relay_profile: RelayProfile::default(),
        relay_admission: false,
        mode,
    }
}

fn peer_config(mode: RuntimeMode) -> PeerSwarmConfig {
    PeerSwarmConfig {
        tcp_listen: address("/ip4/127.0.0.1/tcp/0"),
        quic_listen: address("/ip4/127.0.0.1/udp/0/quic-v1"),
        mode,
        relay_client_enabled: false,
        registry_enabled: false,
    }
}

#[test]
fn binary_round_trip() {
    let r = AuthRequest::Ping {
        request_id: [1; 16],
        session_id: [2; 16],
        nonce: 9,
    };
    let mut w = Vec::new();
    write_frame(&mut w, &encode_request(&r).unwrap()).unwrap();
    let body = read_frame(&mut Reader::new(&w)).unwrap();
    let d = decode_auth_request(&body).unwrap_or_else(|_| panic!());
    assert!(matches!(d, AuthRequest::Ping { nonce: 9, .. }));
}

#[test]
fn rejects_version_capability_and_trailing() {
    for b in [vec![2, 1], vec![1, 1]] {
        let mut w = (b.len() as u32).to_be_bytes().to_vec();
        w.extend(b);
        assert!(decode_auth_frame(&w).is_err())
    }
    let mut capability = encode_request(&AuthRequest::Authenticate {
        request_id: [0; 16],
        credential_id: CredentialId::new("id").unwrap(),
        token_secret: TokenSecret::from_bytes([7; 32]),
        requested_role: Role::Client,
        supported_features: 0,
    })
    .unwrap()
    .to_vec();
    *capability.last_mut().unwrap() = 1;
    assert_eq!(
        decode_auth_request(&capability).err(),
        Some(AuthProtocolError::CapabilityMismatch)
    );
}

#[test]
fn rejects_zero_oversize_and_truncated_frames_before_decode() {
    for frame in [
        0u32.to_be_bytes().to_vec(),
        ((MAX_AUTH_FRAME as u32) + 1).to_be_bytes().to_vec(),
        vec![0, 0, 0],
    ] {
        assert!(read_frame(&mut Reader::new(&frame)).is_err());
    }
    let mut truncated = (3u32).to_be_bytes().to_vec();
    truncated.extend_from_slice(&[1, 0]);
    assert!(read_frame(&mut Reader::new(&truncated)).is_err());
}

#[test]
fn auth_errors_say_what_is_wrong() {
    assert_eq!(
        read_frame(&mut Reader::new(&[0, 0, 0])),
        Err(AuthProtocolError::Malformed)
    );
    assert_eq!(
        read_frame(&mut Reader::new(&[0, 0, 0, 0])),
        Err(AuthProtocolError::FrameTooLarge)
    );
    assert_eq!(
        decode_auth_request(&[2, 1]).err(),
        Some(AuthProtocolError::UnsupportedVersion)
    );
    assert_eq!(
        decode_auth_request(&[1, 1]).err(),
        Some(AuthProtocolError::Malformed)
    );
}

#[test]
fn authentication_requests_hold_what_they_were_given() {
    let bytes = encode_request(&AuthRequest::Authenticate {
        request_id: [4; 16],
        credential_id: CredentialId::new("server-1").unwrap(),
        token_secret: TokenSecret::from_bytes([7; 32]),
        requested_role: Role::Server,
        supported_features: 0,
    })
    .unwrap();
    match decode_auth_request(&bytes).unwrap_or_else(|_| panic!()) {
        AuthRequest::Authenticate {
            request_id,
            credential_id,
            token_secret,
            requested_role,
            supported_features,
        } => {
            assert_eq!(request_id, [4; 16]);
            assert_eq!(credential_id.as_str(), "server-1");
            assert_eq!(token_secret.as_bytes(), &[7; 32]);
            assert_eq!(requested_role, Role::Server);
            assert_eq!(supported_features, 0);
        }
        AuthRequest::Ping { .. } => panic!(),
    }
}

#[test]
fn authentication_answers_round_trip() {
    for response in [
        AuthResponse::Authenticated {
            request_id: [1; 16],
            session_id: [2; 16],
            tenant: Tenant::new("tenant").unwrap(),
            role: Role::Server,
            scopes: 3,
            quota_profile: QuotaProfile::new("default").unwrap(),
            authorization_revision: 4,
            expires_at: 60,
            exchange_features: 0,
        },
        AuthResponse::Pong {
            request_id: [1; 16],
            nonce: 7,
            exchange_time: -5,
        },
        AuthResponse::Rejected {
            request_id: Some([1; 16]),
            error: PublicError::new(PublicErrorCode::ExchangeOverloaded, true),
        },
        AuthResponse::Rejected {
            request_id: None,
            error: PublicError::new(PublicErrorCode::AuthInvalidCredential, false),
        },
    ] {
        let bytes = encode_response(&response).unwrap();
        assert_eq!(decode_auth_response(&bytes).unwrap(), response);
    }
}

#[test]
fn authentication_messages_end_their_frames() {
    for response in [
        AuthResponse::Authenticated {
            request_id: [1; 16],
            session_id: [2; 16],
            tenant: Tenant::new("tenant").unwrap(),
            role: Role::Client,
            scopes: 3,
            quota_profile: QuotaProfile::new("default").unwrap(),
            authorization_revision: 4,
            expires_at: 60,
            exchange_features: 0,
        },
        AuthResponse::Pong {
            request_id: [1; 16],
            nonce: 7,
            exchange_time: 5,
        },
        AuthResponse::Rejected {
            request_id: None,
            error: PublicError::new(PublicErrorCode::AuthInvalidCredential, false),
        },
    ] {
        let mut bytes = encode_response(&response).unwrap();
        bytes.push(0);
        assert_eq!(
            decode_auth_response(&bytes),
            Err(AuthProtocolError::Malformed)
        );
        bytes.pop();
        bytes[0] = 2;
        assert_eq!(
            decode_auth_response(&bytes),
            Err(AuthProtocolError::UnsupportedVersion)
        );
    }
    let mut ping = encode_request(&AuthRequest::Ping {
        request_id: [1; 16],
        session_id: [2; 16],
        nonce: 9,
    })
    .unwrap();
    ping.push(0);
    assert_eq!(
        decode_auth_request(&ping).err(),
        Some(AuthProtocolError::Malformed)
    );
}

#[test]
fn correlation_and_readiness_require_pong() {
    let mut state = AuthState::new();
    assert_eq!(
        state.connected(AUTH, 10),
        AuthAction::Authenticate { request_id: AUTH }
    );
    assert_eq!(
        state.authenticated([9; 16], SESSION, PING, 7, 10),
        AuthAction::Ignore
    );
    assert!(matches!(state.phase(), AuthPhase::Authenticating { .. }));
    assert_eq!(
        state.authenticated(AUTH, SESSION, PING, 7, 10),
        AuthAction::Ping {
            request_id: PING,
            session_id: SESSION,
            nonce: 7
        }
    );
    assert_eq!(state.pong([9; 16], 7), AuthAction::Ignore);
    assert_eq!(state.pong(PING, 7), AuthAction::Ready);
    assert!(matches!(state.phase(), AuthPhase::Authenticated { .. }));
}

#[test]
fn timeout_enters_bounded_backoff_and_retries() {
    let mut state = AuthState::new();
    assert!(matches!(
        state.connected(AUTH, 0),
        AuthAction::Authenticate { .. }
    ));
    assert_eq!(state.tick(AUTH, AUTH_TIMEOUT_SECONDS), AuthAction::Retry);
    assert_eq!(state.tick(AUTH, AUTH_TIMEOUT_SECONDS), AuthAction::Ignore);
    assert_eq!(
        state.tick(AUTH, AUTH_TIMEOUT_SECONDS + 1),
        AuthAction::Authenticate { request_id: AUTH }
    );
}

#[test]
fn non_retryable_rejection_is_terminal() {
    let mut state = AuthState::new();
    state.connected(AUTH, 0);
    assert_eq!(
        state.rejected(Some(AUTH), PublicErrorCode::AuthInvalidCredential, 1),
        AuthAction::Terminal(PublicErrorCode::AuthInvalidCredential)
    );
    assert_eq!(state.connected([4; 16], 2), AuthAction::Ignore);
    assert_eq!(state.disconnected(), AuthAction::Ignore);
    state.connected(AUTH, 3);
    assert_eq!(
        state.transport_failure(PublicErrorCode::ProtocolCapabilityMismatch, 3),
        AuthAction::Terminal(PublicErrorCode::ProtocolCapabilityMismatch)
    );
}

#[test]
fn stale_answers_change_nothing() {
    let mut state = AuthState::new();
    state.connected(AUTH, 0);
    assert_eq!(
        state.rejected(Some([8; 16]), PublicErrorCode::AuthInvalidCredential, 1),
        AuthAction::Ignore
    );
    assert_eq!(
        state.authenticated(AUTH, SESSION, PING, 7, 1),
        AuthAction::Ping {
            request_id: PING,
            session_id: SESSION,
            nonce: 7
        }
    );
    assert_eq!(state.pong(PING, 8), AuthAction::Ignore);
    assert!(!state.ready());
    assert_eq!(state.pong(PING, 7), AuthAction::Ready);
    assert!(state.ready());
}

#[test]
fn product_and_lab_surfaces_are_distinct() {
    assert!(!exchange_config(RuntimeMode::Product).relay_enabled());
    assert!(exchange_config(RuntimeMode::ConnectivityLab).relay_enabled());
    let product = peer_config(RuntimeMode::Product).protocols();
    assert!(!product.probe_stream);
    assert!(!product.relay_client);
    assert!(!product.dcutr);
    let lab = peer_config(RuntimeMode::ConnectivityLab).protocols();
    assert!(lab.probe_stream);
    assert!(lab.relay_client);
    assert!(lab.dcutr);
}

#[test]
fn protocol_surface_is_exact() {
    assert_eq!(MAX_STREAMS, 256);
    assert_eq!(MAX_NEGOTIATIONS, 64);
}

#[test]
fn validates_listener_transport_and_exchange_safety() {
    let public = ExchangeSwarmConfig {
        tcp_listen: address("/ip4/0.0.0.0/tcp/1"),
        quic_listen: address("/ip4/0.0.0.0/udp/1/quic-v1"),
        ..exchange_config(RuntimeMode::Product)
    };
    assert!(matches!(public.validate(), Err(BuildError::PublicListener)));
    let invalid = PeerSwarmConfig {
        tcp_listen: address("/ip4/127.0.0.1/udp/1/quic-v1"),
        ..peer_config(RuntimeMode::Product)
    };
    assert!(matches!(
        invalid.validate(),
        Err(BuildError::InvalidListener {
            transport: "tcp",
            ..
        })
    ));
}

#[test]
fn safe_listeners_are_accepted() {
    assert!(exchange_config(RuntimeMode::Product).validate().is_ok());
    assert!(peer_config(RuntimeMode::Product).validate().is_ok());
    let public = ExchangeSwarmConfig {
        tcp_listen: address("/ip4/0.0.0.0/tcp/1"),
        quic_listen: address("/ip4/0.0.0.0/udp/1/quic-v1"),
        allow_public: true,
        ..exchange_config(RuntimeMode::Product)
    };
    assert!(public.validate().is_ok());
    assert!(peer_config(RuntimeMode::ConnectivityLab).is_connectivity_lab());
    assert_ne!(lab_seed(1), lab_seed(2));
}

#[test]
fn relay_profiles_apply_all_effective_limits() {
    let default = RelayProfile::Product.config();
    assert_eq!(default.max_reservations, 64);
    assert_eq!(default.max_circuits, 128);
    assert_eq!(default.max_reservations_per_peer, 0);
    assert_eq!(default.max_circuits_per_peer, 31);
    let lab = RelayProfile::DefaultLab.config();
    assert_eq!(lab.max_reservations_per_peer, 1);
    assert_eq!(lab.max_circuits_per_peer, 3);
    assert_eq!(default.max_circuit_bytes, 1024 * 1024 * 1024);
    assert_eq!(default.reservation_rate_limiters.len(), 2);
    assert_eq!(default.circuit_src_rate_limiters.len(), 2);

    let limited = RelayProfile::LimitTest.config();
    assert_eq!(limited.max_reservations, 2);
    assert_eq!(limited.max_reservations_per_peer, 1);
    assert_eq!(limited.max_circuits, 2);
    assert_eq!(limited.max_circuits_per_peer, 0);
    assert_eq!(limited.max_circuit_bytes, 16 * 1024 * 1024);
}

#[test]
fn dcutr_reordering_and_selection() {
    let exchange = peer();
    let peer = peer();
    let now = 0;
    let mut book = ConnectionBook::new(exchange);
    book.on_dcutr_succeeded(&peer, id(1), now).unwrap();
    book.on_connection_established(&peer, id(1), &endpoint("/ip4/127.0.0.1/tcp/1"), now)
        .unwrap();
    assert!(book.is_direct(&peer, id(1)));
    book.on_connection_established(&peer, id(2), &endpoint("/ip4/127.0.0.1/udp/1/quic-v1"), now)
        .unwrap();
    book.on_dcutr_succeeded(&peer, id(2), now).unwrap();
    assert_eq!(book.direct(&peer).unwrap().connection_id, id(2));
}

#[test]
fn close_tombstone_blocks_late_success() {
    let now = 0;
    let peer_id = peer();
    let mut book = ConnectionBook::new(peer());
    book.on_connection_closed_at(&peer_id, id(1), now).unwrap();
    book.on_dcutr_succeeded(&peer_id, id(1), now).unwrap();
    assert_eq!(book.pending_count(), 0);
    book.sweep(now + TOMBSTONE_TTL);
    assert_eq!(book.tombstone_count(), 0);
}

#[test]
fn wrong_relay_is_rejected() {
    let mut book = ConnectionBook::new(peer());
    let address = format!("/ip4/127.0.0.1/tcp/1/p2p/{}/p2p-circuit", peer_text());
    assert_eq!(
        book.on_connection_established(&peer(), id(1), &endpoint(&address), 0),
        Err(ConnectionBookError::WrongExchange)
    );
}

#[test]
fn relayed_endpoint_without_identity_is_rejected() {
    let mut book = ConnectionBook::new(peer());
    assert_eq!(
        book.on_connection_established(
            &peer(),
            id(1),
            &endpoint("/ip4/127.0.0.1/tcp/1/p2p-circuit"),
            0,
        ),
        Err(ConnectionBookError::WrongExchange)
    );
}

#[test]
fn relayed_listener_validates_its_authoritative_local_circuit() {
    let exchange = peer_text();
    let client = peer_text();
    let client_id = PeerId::from_text(&client).unwrap();
    let mut book = ConnectionBook::new(PeerId::from_text(&exchange).unwrap());
    book.on_connection_established(
        &client_id,
        id(1),
        &ConnectedPoint::Listener {
            local_addr: address(&format!("/ip4/127.0.0.1/tcp/1/p2p/{exchange}/p2p-circuit")),
            send_back_addr: address(&format!("/p2p/{client}")),
        },
        0,
    )
    .unwrap();
    assert!(matches!(
        book.get(&client_id, id(1)).unwrap().path,
        PathKind::Relay { .. }
    ));
}

#[test]
fn pending_slot_can_become_active_at_capacity() {
    let exchange = peer();
    let peer = peer();
    let now = 0;
    let mut book = ConnectionBook::new(exchange);
    for index in 0..MAX_CONNECTION_LIFECYCLES {
        book.on_dcutr_succeeded(&peer, id(index), now).unwrap();
    }
    assert_eq!(book.lifecycle_count(), MAX_CONNECTION_LIFECYCLES);
    book.on_connection_established(&peer, id(0), &endpoint("/ip4/127.0.0.1/tcp/1"), now)
        .unwrap();
    assert!(book.is_direct(&peer, id(0)));
    assert_eq!(book.lifecycle_count(), MAX_CONNECTION_LIFECYCLES);
}

#[test]
fn full_ledger_rejects_untracked_lifecycle_without_eviction() {
    let peer_id = peer();
    let now = 0;
    let mut book = ConnectionBook::new(peer());
    for index in 0..MAX_CONNECTION_LIFECYCLES {
        book.on_connection_closed_at(&peer_id, id(index), now).unwrap();
    }
    assert_eq!(
        book.on_dcutr_succeeded(&peer_id, id(MAX_CONNECTION_LIFECYCLES), now),
        Err(ConnectionBookError::Capacity)
    );
    assert_eq!(book.tombstone_count(), MAX_CONNECTION_LIFECYCLES);
}

#[test]
fn closed_connections_stay_closed() {
    let peer_id = peer();
    let mut book = ConnectionBook::new(peer());
    book.on_connection_established(&peer_id, id(1), &endpoint("/ip4/127.0.0.1/tcp/1"), 0)
        .unwrap();
    book.mark_ping(&peer_id, id(1), 3);
    assert_eq!(book.get(&peer_id, id(1)).unwrap().last_ping, Some(3));
    assert_eq!(book.iter().len(), 1);
    book.on_connection_closed(&peer_id, id(1), 5).unwrap();
    assert!(book.is_empty());
    book.on_dcutr_succeeded(&peer_id, id(1), 6).unwrap();
    assert!(book.get(&peer_id, id(1)).is_none());
    assert!(book.direct(&peer_id).is_none());
}

#[test]
fn closed_connections_stay_closed_whatever_else_happens() {
    let first = peer();
    let second = peer();
    let mut book = ConnectionBook::new(peer());
    book.on_connection_established(&first, id(1), &endpoint("/ip4/127.0.0.1/tcp/1"), 0)
        .unwrap();
    book.on_connection_closed_at(&first, id(1), 1).unwrap();
    book.on_connection_established(&second, id(2), &endpoint("/ip4/127.0.0.1/tcp/2"), 2)
        .unwrap();
    book.on_dcutr_succeeded(&second, id(2), 3).unwrap();
    book.mark_ping(&second, id(2), 4);
    book.on_connection_closed_at(&second, id(2), 5).unwrap();
    book.sweep(TOMBSTONE_TTL);
    let before = book.iter().len();
    book.on_dcutr_succeeded(&first, id(1), TOMBSTONE_TTL).unwrap();
    assert!(!book.is_direct(&first, id(1)));
    assert_eq!(book.iter().len(), before);
    assert_eq!(book.pending_count(), 0);
}

#[test]
fn endpoints_are_classified_by_the_address_that_counts() {
    let relay = peer_text();
    let circuit = format!("/ip4/127.0.0.1/tcp/1/p2p/{relay}/p2p-circuit");
    let plain = "/ip4/127.0.0.1/tcp/1";
    assert!(!matches!(
        classify_connected_point(&endpoint(plain)),
        PathKind::Relay { .. }
    ));
    assert!(matches!(
        classify_connected_point(&endpoint(&circuit)),
        PathKind::Relay { .. }
    ));
    assert!(matches!(
        classify_connected_point(&ConnectedPoint::Listener {
            local_addr: address(&circuit),
            send_back_addr: address(plain),
        }),
        PathKind::Relay { .. }
    ));
    assert!(!matches!(
        classify_connected_point(&ConnectedPoint::Listener {
            local_addr: address(plain),
            send_back_addr: address(plain),
        }),
        PathKind::Relay { .. }
    ));
}

#[test]
fn addresses_are_classified_by_their_parts() {
    assert_eq!(
        classify_address(&address("/ip4/127.0.0.1/tcp/1")),
        TransportKind::Tcp
    );
    assert_eq!(
        classify_address(&address("/ip4/127.0.0.1/udp/1/quic-v1")),
        TransportKind::Quic
    );
    assert!(matches!(
        classify_path(&address("/ip4/127.0.0.1/tcp/1")),
        PathKind::Direct(TransportKind::Tcp)
    ));
    assert!(Address::parse("not an address").is_none());
    let text = "/ip4/127.0.0.1/tcp/1";
    let parsed = address(text);
    let again = Address::from_bytes(parsed.as_bytes()).unwrap();
    assert!(parsed.same(&again));
    assert!(Address::from_bytes(&[255, 255]).is_none());
    assert!(parsed.ip().unwrap().is_loopback());
}

#[test]
fn addresses_name_the_peer_that_comes_first() {
    let (one, two) = (peer_text(), peer_text());
    let relayed = address(&format!("/ip4/127.0.0.1/tcp/1/p2p/{one}/p2p-circuit/p2p/{two}"));
    let named = relayed.named_peer().unwrap();
    assert_eq!(
        libp2p::PeerId::from_bytes(named.as_bytes()).unwrap().to_string(),
        one
    );
    assert!(address("/ip4/127.0.0.1/tcp/1").named_peer().is_none());
}

#[test]
fn pin_is_required() {
    let peer = peer_text();
    assert!(validate_exchange_pin(&peer, &[peer.as_str()]).is_ok());
    assert!(matches!(
        validate_exchange_pin(&peer, &["bad"]),
        Err(TrustError::AddressMismatch)
    ));
}

#[test]
fn pins_must_agree() {
    let peer = peer_text();
    let other = peer_text();
    assert!(matches!(
        validate_exchange_pin(&peer, &[peer.as_str(), other.as_str()]),
        Err(TrustError::AddressMismatch)
    ));
    assert!(matches!(
        validate_exchange_pin("nobody", &["nobody"]),
        Err(TrustError::InvalidPeerId)
    ));
    assert!(PeerId::from_text("nobody").is_err());
    assert!(PeerId::from_bytes(&[1, 2, 3]).is_err());
}

#[test]
fn shown_requests_keep_the_secret() {
    let shown = |secret: u8| {
        AuthRequest::Authenticate {
            request_id: [1; 16],
            credential_id: CredentialId::new("server-1").unwrap(),
            token_secret: TokenSecret::from_bytes([secret; 32]),
            requested_role: Role::Server,
            supported_features: 0,
        }
        .redacted()
    };
    assert_eq!(shown(7), shown(8));
    assert_eq!(
        shown(7),
        format!(
            "Authenticate {{ request_id: {}, credential_id: server-1, token_secret: REDACTED }}",
            "01".repeat(16)
        )
    );
    let ping = AuthRequest::Ping { request_id: [1; 16], session_id: [2; 16], nonce: 9 };
    assert_eq!(
        ping.redacted(),
        format!("Ping {{ request_id: {}, session_id: {} }}", "01".repeat(16), "02".repeat(16))
    );
}
