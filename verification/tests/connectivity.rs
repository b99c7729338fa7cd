use p2x::address::Address;
use p2x::auth::{Role, Scope};
use p2x::bytes::Reader;
use p2x::error::{PublicError, PublicErrorCode};
use p2x::ids::{InstanceId, RegistrationRevision, UpstreamId};
use p2x::lifecycle::{hash_id, stable_hash, TerminalGate, TerminalResult};
use p2x::path_selector::{
    AttemptId, PathAction, PathAttempt, PathEvent, PathEventKind, PathFailure, PathState,
    DIRECT_PREFERENCE, SETUP_BUDGET,
};
use p2x::peer::{ConnectionId, ListenerId, PeerId};
use p2x::probe::{
    decode_header, frame_length, pattern_byte, pattern_chunk, pattern_hash, ProbeError,
    ProbeHeader, ProbeMode, ProbeTerminal, BUFFER_SIZE, MAX_HEADER, MAX_TRANSFER,
};
use p2x::probe_stream::{ProbeOutput, ProbeStreamBehaviour, MAX_INBOUND_WORKERS_PER_PEER};
use p2x::proxy::{IngressKind, OpenProxyStreamV1, ProxyOpenResponseV1, ProxyProtocolError};
use p2x::proxy_codec;
use p2x::proxy_stream::ProxyStreamBehaviour;
use p2x::registry::{
    Capabilities, Health, RegistryRequestV1, RegistryResponseV1, ServiceAdvertisementV1,
    ServiceSet, RELAY_V2,
};
use p2x::registry_codec::{self, RegistryProtocolError};
use p2x::relay_admission::{RelayAdmissionHandle, RelayLimits, RelaySession};
use p2x::reservation::{
    ReservationAction, ReservationContext, ReservationError, ReservationEvent, ReservationState,
    MAX_RETRY,
};
use p2x::resolve::{ResolveProtocolError, ResolveRequestV1};
use p2x::resolve_codec;
use p2x::selector::{Metadata, MetadataKey, MetadataValue, ProtocolClass, UnscopedSelector};
use p2x::streams::{RequestId, StreamAction, StreamEvent, StreamOutput, MAX_PER_PEER, OPEN_DEADLINE};
use p2x::ticket::RawTicket;
use p2x::workers::Workers;

fn peer() -> PeerId {
    PeerId::from_bytes(
        &libp2p::identity::Keypair::generate_ed25519()
            .public()
            .to_peer_id()
            .to_bytes(),
    )
    .unwrap()
}

fn id(value: u64) -> ConnectionId {
    ConnectionId(value)
}

fn event(attempt: &PathAttempt, now: u64, kind: PathEventKind) -> PathEvent {
    PathEvent {
        attempt_id: attempt.id,
        now,
        kind,
    }
}

fn open() -> OpenProxyStreamV1 {
    OpenProxyStreamV1 {
        request_id: [1; 16],
        ticket: RawTicket::new(vec![7; 16]).unwrap_or_else(|_| panic!()),
        upstream_id: UpstreamId::new("orders").unwrap(),
        registration_revision: RegistrationRevision::new(1).unwrap(),
        ingress_kind: IngressKind::FixedTcp,
    }
}

fn selector() -> UnscopedSelector {
    let mut metadata = Metadata::new();
    metadata.insert(
        MetadataKey::new("service").unwrap(),
        MetadataValue::new("orders").unwrap(),
    );
    UnscopedSelector::new(ProtocolClass::Http, metadata).unwrap()
}

fn register_request() -> RegistryRequestV1 {
    let service = ServiceAdvertisementV1::new(
        UpstreamId::new("orders").unwrap(),
        selector(),
        Health::Ready,
    );
    RegistryRequestV1::Register {
        request_id: [1; 16],
        session_id: [2; 16],
        instance_id: InstanceId::new([3; 16]),
        requested_lease_seconds: 30,
        capabilities: Capabilities::from_bits(7).unwrap(),
        services: ServiceSet::new(vec![service]).unwrap(),
    }
}

#[test]
fn begin_uses_pooled_direct_without_dialing_relay() {
    let now = 0;
    let mut attempt = PathAttempt::with_id(AttemptId(1), now);
    let begin = event(
        &attempt,
        now,
        PathEventKind::Begin {
            relay: Some(id(1)),
            direct: Some(id(2)),
        },
    );
    assert_eq!(
        attempt.apply(begin),
        vec![PathAction::OpenExact { connection: id(2) }]
    );
}

#[test]
fn relay_readiness_starts_deadline_and_early_timer_is_ignored() {
    let now = 1_000_000_000;
    let mut attempt = PathAttempt::new(now);
    let attempt_id = attempt.id;
    assert_eq!(
        attempt.apply(PathEvent {
            attempt_id,
            now,
            kind: PathEventKind::Begin {
                relay: None,
                direct: None,
            },
        }),
        vec![PathAction::DialRelay]
    );
    let ready = event(&attempt, now, PathEventKind::RelayReady(id(1)));
    assert!(attempt.apply(ready).is_empty());
    let early = event(
        &attempt,
        now + DIRECT_PREFERENCE - 1_000_000,
        PathEventKind::DirectDeadlineElapsed,
    );
    assert!(attempt.apply(early).is_empty());
    let elapsed = event(
        &attempt,
        now + DIRECT_PREFERENCE,
        PathEventKind::DirectDeadlineElapsed,
    );
    assert_eq!(
        attempt.apply(elapsed),
        vec![PathAction::OpenExact { connection: id(1) }]
    );
}

#[test]
fn direct_failure_uses_one_fresh_relay_open() {
    let now = 0;
    let mut attempt = PathAttempt::new(now);
    let attempt_id = attempt.id;
    let at = |kind| PathEvent {
        attempt_id,
        now,
        kind,
    };
    attempt.apply(at(PathEventKind::Begin {
        relay: Some(id(1)),
        direct: Some(id(2)),
    }));
    attempt.apply(at(PathEventKind::ExactOpenQueued {
        request_id: RequestId(7),
        connection: id(2),
    }));
    assert_eq!(
        attempt.apply(at(PathEventKind::ExactOpenFailed {
            request_id: RequestId(7),
            connection: id(2),
        })),
        vec![PathAction::OpenExact { connection: id(1) }]
    );
    assert!(attempt
        .apply(at(PathEventKind::ExactOpenSucceeded {
            request_id: RequestId(7),
            connection: id(2),
        }))
        .is_empty());
    attempt.apply(at(PathEventKind::ExactOpenQueued {
        request_id: RequestId(8),
        connection: id(1),
    }));
    assert_eq!(
        attempt.apply(at(PathEventKind::ExactOpenFailed {
            request_id: RequestId(8),
            connection: id(1),
        })),
        vec![
            PathAction::CancelOpen {
                request_id: RequestId(8)
            },
            PathAction::Finish(PathFailure::ExactOpenFailed),
        ]
    );
}

#[test]
fn cancellation_returns_cleanup_once() {
    let now = 0;
    let mut attempt = PathAttempt::new(now);
    let attempt_id = attempt.id;
    let at = |kind| PathEvent {
        attempt_id,
        now,
        kind,
    };
    attempt.apply(at(PathEventKind::Begin {
        relay: None,
        direct: Some(id(2)),
    }));
    attempt.apply(at(PathEventKind::ExactOpenQueued {
        request_id: RequestId(1),
        connection: id(2),
    }));
    assert_eq!(
        attempt.apply(at(PathEventKind::Cancelled)),
        vec![
            PathAction::CancelOpen {
                request_id: RequestId(1)
            },
            PathAction::Finish(PathFailure::Cancelled),
        ]
    );
    assert!(attempt.apply(at(PathEventKind::Cancelled)).is_empty());
}

#[test]
fn relay_loss_does_not_fail_direct_stream() {
    let now = 0;
    let mut attempt = PathAttempt::new(now);
    let attempt_id = attempt.id;
    let at = |kind| PathEvent {
        attempt_id,
        now,
        kind,
    };
    attempt.apply(at(PathEventKind::Begin {
        relay: Some(id(1)),
        direct: Some(id(2)),
    }));
    attempt.apply(at(PathEventKind::ExactOpenQueued {
        request_id: RequestId(1),
        connection: id(2),
    }));
    attempt.apply(at(PathEventKind::ExactOpenSucceeded {
        request_id: RequestId(1),
        connection: id(2),
    }));
    attempt.apply(at(PathEventKind::PayloadAccepted));
    assert!(attempt
        .apply(at(PathEventKind::RelayLost(id(1))))
        .is_empty());
    assert!(matches!(attempt.state, PathState::Streaming { .. }));
}

#[test]
fn stale_attempt_is_ignored() {
    let now = 0;
    let mut attempt = PathAttempt::with_id(AttemptId(9), now);
    assert!(attempt
        .apply(PathEvent {
            attempt_id: AttemptId(8),
            now,
            kind: PathEventKind::Cancelled,
        })
        .is_empty());
    assert!(matches!(attempt.state, PathState::Absent));
}

#[test]
fn setup_expires_when_its_budget_is_used() {
    let mut attempt = PathAttempt::new(5);
    assert!(!attempt.expired(5 + SETUP_BUDGET - 1));
    assert!(attempt.expired(5 + SETUP_BUDGET));
    let late = event(
        &attempt,
        5 + SETUP_BUDGET,
        PathEventKind::RelayReady(id(1)),
    );
    assert_eq!(
        attempt.apply(late),
        vec![PathAction::Finish(PathFailure::SetupExpired)]
    );
}

struct Fixture {
    peer: PeerId,
    connection: ConnectionId,
    listener: ListenerId,
}

fn fixture() -> Fixture {
    Fixture {
        peer: peer(),
        connection: id(1),
        listener: ListenerId(1),
    }
}

fn circuit() -> Address {
    Address::parse("/ip4/127.0.0.1/tcp/1/p2p-circuit").unwrap()
}

fn start(context: &mut ReservationContext, fixture: &Fixture) {
    context
        .apply(
            ReservationEvent::GenerationStarted {
                generation: 1,
                peer_id: fixture.peer.clone(),
                connection_id: fixture.connection,
            },
            0,
        )
        .unwrap();
}

fn accept(context: &mut ReservationContext, fixture: &Fixture, renewal: bool) {
    context
        .apply(
            ReservationEvent::ReservationAccepted {
                generation: 1,
                peer_id: fixture.peer.clone(),
                connection_id: fixture.connection,
                listener_id: fixture.listener,
                renewal,
            },
            0,
        )
        .unwrap();
}

fn confirm(context: &mut ReservationContext, fixture: &Fixture) {
    context
        .apply(
            ReservationEvent::RelayAddressConfirmed {
                generation: 1,
                peer_id: fixture.peer.clone(),
                connection_id: fixture.connection,
                listener_id: fixture.listener,
                address: circuit(),
            },
            0,
        )
        .unwrap();
}

#[test]
fn acceptance_and_address_commute_and_renewal_does_not_flap() {
    let fixture = fixture();
    let mut context = ReservationContext::new(0);
    start(&mut context, &fixture);
    confirm(&mut context, &fixture);
    accept(&mut context, &fixture, false);
    assert!(context.is_ready());
    accept(&mut context, &fixture, true);
    assert!(context.is_ready());
    assert_eq!(context.renewal_count, 1);
}

#[test]
fn acceptance_may_come_before_the_address() {
    let fixture = fixture();
    let mut context = ReservationContext::new(0);
    assert_eq!(context.phase(), ReservationState::Disconnected);
    start(&mut context, &fixture);
    assert_eq!(context.phase(), ReservationState::ExchangeConnected);
    accept(&mut context, &fixture, false);
    assert!(!context.is_ready());
    confirm(&mut context, &fixture);
    assert!(context.is_ready());
    assert_eq!(context.phase(), ReservationState::Ready);
}

#[test]
fn identical_generation_is_idempotent_but_conflict_fails() {
    let fixture = fixture();
    let mut context = ReservationContext::new(0);
    start(&mut context, &fixture);
    assert!(context
        .apply(
            ReservationEvent::GenerationStarted {
                generation: 1,
                peer_id: fixture.peer.clone(),
                connection_id: fixture.connection,
            },
            0
        )
        .unwrap()
        .is_empty());
    assert_eq!(
        context.apply(
            ReservationEvent::GenerationStarted {
                generation: 1,
                peer_id: peer(),
                connection_id: fixture.connection,
            },
            0
        ),
        Err(ReservationError::GenerationConflict(1))
    );
}

#[test]
fn duplicate_loss_schedules_only_one_retry() {
    let fixture = fixture();
    let now = 0;
    let mut context = ReservationContext::new(0);
    start(&mut context, &fixture);
    let loss = || ReservationEvent::ListenerClosed {
        generation: 1,
        peer_id: fixture.peer.clone(),
        connection_id: fixture.connection,
        listener_id: fixture.listener,
    };
    context.listener_id = Some(fixture.listener);
    let first = context.apply_at(loss(), now, 0).unwrap();
    let second = context.apply_at(loss(), now, 0).unwrap();
    assert_eq!(context.retry_attempt, 1);
    assert!(matches!(
        first.as_slice(),
        [
            ReservationAction::PublishDegraded { .. },
            ReservationAction::ScheduleRetry { .. }
        ]
    ));
    assert!(second.is_empty());
}

#[test]
fn jitter_covers_both_sides_and_is_capped() {
    let mut context = ReservationContext::new(1);
    context.retry_attempt = 1;
    assert_eq!(context.retry_delay(-200), 200_000_000);
    assert_eq!(context.retry_delay(200), 300_000_000);
    context.retry_attempt = 20;
    assert_eq!(context.retry_delay(0), MAX_RETRY);
}

#[test]
fn past_generations_change_nothing() {
    let fixture = fixture();
    let mut context = ReservationContext::new(0);
    start(&mut context, &fixture);
    context
        .apply(
            ReservationEvent::GenerationStarted {
                generation: 4,
                peer_id: fixture.peer.clone(),
                connection_id: id(2),
            },
            5,
        )
        .unwrap();
    accept(&mut context, &fixture, false);
    confirm(&mut context, &fixture);
    assert!(!context.is_ready());
    assert_eq!(context.phase(), ReservationState::ExchangeConnected);
    start(&mut context, &fixture);
    assert_eq!(context.generation, 4);
}

#[test]
fn stale_retry_cannot_replace_current_generation() {
    let fixture = fixture();
    let mut context = ReservationContext::new(0);
    start(&mut context, &fixture);
    assert!(context
        .apply(
            ReservationEvent::RetryElapsed {
                generation: 0,
                attempt: 1,
            },
            0
        )
        .unwrap()
        .is_empty());
}

fn session(role: Role, scopes: u32) -> RelaySession {
    RelaySession {
        role,
        scopes,
        quota_profile: "standard".to_string(),
        authorization_revision: 1,
        expires_at: 30_000_000_000,
    }
}

#[test]
fn gates_role_scope_expiry_and_drain_fail_closed() {
    let mut admission = RelayAdmissionHandle::default();
    let server = peer();
    let client = peer();
    assert!(admission.install(
        server.clone(),
        session(Role::Server, Scope::ReserveRelay.bit())
    ));
    assert!(admission.is_reservation_authorized(&server, 0));
    assert!(!admission.is_circuit_source_authorized(&server, 0));
    assert!(admission.install(
        client.clone(),
        session(Role::Client, Scope::OpenProxyStream.bit())
    ));
    assert!(admission.is_circuit_source_authorized(&client, 0));
    admission.set_draining(true);
    assert!(!admission.is_circuit_source_authorized(&client, 0));
    admission.set_draining(false);
    admission.sweep(31_000_000_000);
    assert_eq!(admission.len(), 0);
}

#[test]
fn sessions_end_when_they_expire_or_are_removed() {
    let mut admission = RelayAdmissionHandle::default();
    let server = peer();
    assert!(admission.install(
        server.clone(),
        session(Role::Server, Scope::ReserveRelay.bit())
    ));
    assert!(admission.is_reservation_authorized(&server, 29_999_999_999));
    assert!(!admission.is_reservation_authorized(&server, 30_000_000_000));
    admission.remove(&server);
    assert!(admission.is_empty());
    assert!(!admission.is_reservation_authorized(&server, 0));
}

#[test]
fn per_peer_limit_translation_is_n_minus_one() {
    assert_eq!(
        RelayLimits {
            max_circuits_per_peer: 32,
            ..Default::default()
        }
        .to_libp2p_config()
        .max_circuits_per_peer,
        31
    );
}

#[test]
fn rejects_large_header() {
    assert_eq!(
        decode_header(&vec![b'x'; MAX_HEADER + 1], Err("malformed".to_string())),
        Err(ProbeError::TooLarge)
    );
}

#[test]
fn rejects_oversized_declared_length_before_body() {
    assert_eq!(
        p2x::probe::read_frame(&mut Reader::new(
            (MAX_HEADER as u32 + 1).to_be_bytes().as_slice()
        )),
        Err(ProbeError::TooLarge)
    );
}

#[test]
fn rejects_truncated_frame() {
    assert_eq!(
        p2x::probe::read_frame(&mut Reader::new(&[0, 0, 0, 2, b'{'])),
        Err(ProbeError::Truncated)
    );
}

fn header(length: u64) -> ProbeHeader {
    ProbeHeader {
        schema_version: 1,
        request_id: 1,
        mode: ProbeMode::NonceEcho,
        nonce: 1,
        length,
        slow_delay_ms: 0,
        slow_chunk_size: 0,
    }
}

#[test]
fn rejects_transfer_above_configured_limit() {
    assert!(matches!(
        decode_header(b"{}", Ok(header(MAX_TRANSFER + 1))),
        Err(ProbeError::Invalid(_))
    ));
}

#[test]
fn probe_headers_within_bounds_are_accepted() {
    assert_eq!(decode_header(b"{}", Ok(header(0))), Ok(header(0)));
    assert!(matches!(
        decode_header(b"{}", Ok(header(10))),
        Err(ProbeError::Invalid(_))
    ));
    assert!(header(10).is_echoed());
    assert!(!ProbeHeader {
        mode: ProbeMode::HalfClose,
        ..header(10)
    }
    .is_echoed());
    assert_eq!(frame_length(3), Ok(3));
    let mut out = Vec::new();
    p2x::probe::write_frame(&mut out, b"ab").unwrap();
    assert_eq!(
        p2x::probe::read_frame(&mut Reader::new(&out)),
        Ok(b"ab".to_vec())
    );
}

#[test]
fn mode_is_closed_and_pattern_is_streamable() {
    assert!(decode_header(
        br#"{"mode":"unknown","nonce":1,"length":0}"#,
        Err("unknown variant".to_string())
    )
    .is_err());
    assert_eq!(pattern_byte(251), 0);
    assert_ne!(pattern_hash(1), pattern_hash(2));
}

#[test]
fn patterns_are_cut_into_chunks() {
    let chunk = pattern_chunk(0, 256 * 1024);
    assert_eq!(chunk.len(), BUFFER_SIZE);
    assert_eq!(chunk[251], 0);
    assert_eq!(chunk[1], pattern_byte(1));
    assert_eq!(pattern_chunk(5, 7), vec![pattern_byte(5), pattern_byte(6)]);
    assert!(pattern_chunk(7, 7).is_empty());
}

#[test]
fn every_error_has_a_stable_terminal_code() {
    assert_eq!(ProbeError::TooLarge.terminal(), ProbeTerminal::Oversize);
    assert_eq!(
        ProbeError::HashMismatch.terminal(),
        ProbeTerminal::HashMismatch
    );
    assert_eq!(
        ProbeError::EofMismatch.terminal(),
        ProbeTerminal::EofMismatch
    );
    assert_eq!(
        ProbeError::AdmissionRejected.terminal(),
        ProbeTerminal::AdmissionRejected
    );
}

#[test]
fn inbound_admission_is_bounded_and_released_once() {
    let mut behaviour: ProbeStreamBehaviour<()> = ProbeStreamBehaviour::default();
    let p = peer();
    for _ in 0..MAX_INBOUND_WORKERS_PER_PEER {
        assert!(behaviour.inbound_admit(&p).is_ok());
    }
    assert_eq!(behaviour.inbound_admit(&p), Err("limit.inbound_workers"));
    behaviour.inbound_release(&p);
    assert!(behaviour.inbound_admit(&p).is_ok());
    behaviour.inbound_release(&p);
    behaviour.inbound_release(&p);
}

#[test]
fn outbound_pending_count_tracks_completion() {
    let mut behaviour: ProbeStreamBehaviour<()> = ProbeStreamBehaviour::default();
    let p = peer();
    let connection = id(1);
    behaviour.connection_established(&p, connection);
    let request = behaviour.open_on(&p, connection, (), 0).unwrap();
    assert_eq!(behaviour.pending_count(), 1);
    assert!(behaviour.fail(request, "probe.test"));
    assert_eq!(behaviour.pending_count(), 1);
    assert_eq!(behaviour.terminal_count(), 1);
    assert!(matches!(
        behaviour.pop_terminal(),
        Some(ProbeOutput::OutboundFailed {
            code: "probe.test",
            ..
        })
    ));
    assert_eq!(behaviour.pending_count(), 0);
}

#[test]
fn expiry_removes_stale_command_and_delivers_once() {
    let now = 0;
    let mut behaviour: ProbeStreamBehaviour<()> = ProbeStreamBehaviour::default();
    let p = peer();
    let connection = id(1);
    behaviour.connection_established(&p, connection);
    let request = behaviour.open_on_at(&p, connection, (), now).unwrap();
    behaviour.expire(now + OPEN_DEADLINE);
    assert_eq!(behaviour.command_count(), 0);
    assert_eq!(behaviour.pending_count(), 1);
    assert!(!behaviour.cancel(request));
    assert!(matches!(
        behaviour.pop_terminal(),
        Some(ProbeOutput::OutboundFailed {
            code: "probe.open_timeout",
            ..
        })
    ));
    assert!(behaviour.pop_terminal().is_none());
    assert_eq!(behaviour.pending_count(), 0);
}

#[test]
fn per_peer_limit_counts_terminals_until_delivery() {
    let now = 0;
    let mut behaviour: ProbeStreamBehaviour<()> = ProbeStreamBehaviour::default();
    let p = peer();
    let connection = id(1);
    behaviour.connection_established(&p, connection);
    let mut requests = Vec::new();
    for _ in 0..MAX_PER_PEER {
        requests.push(behaviour.open_on_at(&p, connection, (), now).unwrap());
    }
    for request in requests {
        assert!(behaviour.fail(request, "probe.test"));
    }
    assert_eq!(
        behaviour.open_on_at(&p, connection, (), now),
        Err("limit.command_queue_full")
    );
    let _ = behaviour.pop_terminal();
    assert!(behaviour.open_on_at(&p, connection, (), now).is_ok());
}

#[test]
fn streams_are_opened_where_they_were_asked_for() {
    let mut behaviour: ProbeStreamBehaviour<u8> = ProbeStreamBehaviour::default();
    let p = peer();
    assert_eq!(
        behaviour.open_on(&p, id(1), (), 0),
        Err("connection_unknown")
    );
    behaviour.connection_established(&p, id(1));
    let request = behaviour.open_on(&p, id(1), (), 0).unwrap();
    match behaviour.poll() {
        StreamAction::Notify(open) => {
            assert_eq!(open.request_id, request);
            assert_eq!(open.connection_id, id(1));
        }
        _ => panic!(),
    }
    behaviour.on_connection_handler_event(
        &p,
        id(1),
        StreamEvent::OutboundOpened {
            request_id: request,
            stream: 9,
        },
    );
    assert!(matches!(
        behaviour.poll(),
        StreamAction::Output(StreamOutput::OutboundOpened { stream: 9, .. })
    ));
    assert!(matches!(behaviour.poll(), StreamAction::Pending));
    let waiting = behaviour.open_on(&p, id(1), (), 0).unwrap();
    behaviour.connection_closed(&p, id(1));
    assert!(matches!(
        behaviour.poll(),
        StreamAction::Output(StreamOutput::OutboundFailed {
            code: "probe.connection_closed",
            ..
        })
    ));
    assert!(!behaviour.cancel(waiting));
    behaviour.on_connection_handler_event(&p, id(2), StreamEvent::InboundOpened { stream: 4 });
    assert_eq!(behaviour.inbound_event_count(), 1);
}

#[test]
fn the_first_answer_is_handed_on_once() {
    let mut behaviour: ProbeStreamBehaviour<u8> = ProbeStreamBehaviour::default();
    let p = peer();
    behaviour.connection_established(&p, id(1));
    let request = behaviour.open_on(&p, id(1), (), 0).unwrap();
    behaviour.on_connection_handler_event(
        &p,
        id(1),
        StreamEvent::OutboundOpened {
            request_id: request,
            stream: 9,
        },
    );
    assert!(!behaviour.fail(request, "probe.test"));
    let other = behaviour.open_on(&p, id(1), (), 1).unwrap();
    behaviour.expire(1 + OPEN_DEADLINE);
    behaviour.connection_closed(&p, id(1));
    behaviour.shutdown();
    assert!(matches!(
        behaviour.poll(),
        StreamAction::Output(StreamOutput::OutboundOpened { stream: 9, .. })
    ));
    behaviour.on_connection_handler_event(
        &p,
        id(1),
        StreamEvent::OutboundOpened {
            request_id: request,
            stream: 8,
        },
    );
    assert!(matches!(
        behaviour.pop_terminal(),
        Some(StreamOutput::OutboundFailed { request_id, code: "probe.open_timeout", .. })
            if request_id == other
    ));
    assert!(matches!(behaviour.poll(), StreamAction::Pending));
}

#[test]
fn shutdown_answers_everything() {
    let mut behaviour: ProxyStreamBehaviour<()> = ProxyStreamBehaviour::with_surface(true, true);
    let p = peer();
    behaviour.connection_established(&p, id(1));
    behaviour.open_on(&p, id(1), open(), 0).unwrap();
    behaviour.open_on(&p, id(1), open(), 0).unwrap();
    behaviour.shutdown();
    assert_eq!(behaviour.terminal_count(), 2);
    assert!(matches!(
        behaviour.pop_terminal(),
        Some(StreamOutput::OutboundFailed {
            code: "proxy.shutdown",
            ..
        })
    ));
}

#[test]
fn exact_open_is_bounded_and_terminal_once() {
    let peer = peer();
    let connection = id(1);
    let mut behaviour: ProxyStreamBehaviour<()> = ProxyStreamBehaviour::product();
    behaviour.connection_established(&peer, connection);
    let request = behaviour.open_on(&peer, connection, open(), 0).unwrap();
    assert!(behaviour.cancel(request));
    assert!(!behaviour.cancel(request));
    assert_eq!(behaviour.pending_count(), 1);
}

#[test]
fn opened_stream_codec_round_trips() {
    let mut bytes = Vec::new();
    proxy_codec::write_open(&mut bytes, &open()).unwrap();
    let read = proxy_codec::read_open(&mut Reader::new(&bytes));
    assert!(read == Ok(open()));
}

#[test]
fn open_reads_one_frame_without_waiting_for_write_half_close() {
    let body = open().canonical_bytes().unwrap();
    let mut frame = Vec::with_capacity(4 + body.len());
    frame.extend_from_slice(&(body.len() as u32).to_be_bytes());
    frame.extend_from_slice(&body);
    assert!(proxy_codec::read_open(&mut Reader::new(&frame)) == Ok(open()));
    frame.push(0x42);
    assert!(proxy_codec::read_open(&mut Reader::new(&frame)) == Ok(open()));
}

#[test]
fn proxy_answers_come_back() {
    let response = ProxyOpenResponseV1::Rejected {
        request_id: Some([1; 16]),
        error: PublicError::new(PublicErrorCode::RegistryOffline, true),
    };
    let mut bytes = Vec::new();
    proxy_codec::write_response(&mut bytes, &response).unwrap();
    assert_eq!(
        proxy_codec::read_response(&mut Reader::new(&bytes)),
        Ok(response)
    );
    assert_eq!(
        proxy_codec::body_length([0, 0, 0, 0]),
        Err(ProxyProtocolError::Malformed)
    );
    assert_eq!(
        proxy_codec::body_length([0, 0, 0x10, 1]),
        Err(ProxyProtocolError::FrameTooLarge)
    );
    assert_eq!(proxy_codec::body_length([0, 0, 0, 7]), Ok(7));
}

#[test]
fn binary_round_trip_and_bounds() {
    let mut bytes = Vec::new();
    let body = registry_codec::encode_request(&register_request()).unwrap();
    registry_codec::write_frame(&mut bytes, &body).unwrap();
    let read = registry_codec::read_frame(&mut Reader::new(&bytes)).unwrap();
    assert!(matches!(
        registry_codec::decode_request(&read),
        Ok(RegistryRequestV1::Register { .. })
    ));
    assert_eq!(
        registry_codec::read_frame(&mut Reader::new(&[0, 0, 0, 0])),
        Err(RegistryProtocolError::FrameTooLarge)
    );
    assert_eq!(
        registry_codec::read_frame(&mut Reader::new(&[0, 0, 0])),
        Err(RegistryProtocolError::Malformed)
    );
}

#[test]
fn rejects_noncanonical_and_capability() {
    let mut encoded = registry_codec::encode_request(&register_request()).unwrap();
    encoded.push(0);
    assert_eq!(
        registry_codec::decode_request(&encoded),
        Err(RegistryProtocolError::Malformed)
    );
    let mut capability = registry_codec::encode_request(&register_request()).unwrap();
    capability[1] = 0;
    capability[2 + 16 + 16 + 16 + 2] = 0xff;
    assert_eq!(
        registry_codec::decode_request(&capability),
        Err(RegistryProtocolError::CapabilityMismatch)
    );
}

#[test]
fn registry_messages_round_trip() {
    let revision = RegistrationRevision::new(7).unwrap();
    for request in [
        register_request(),
        RegistryRequestV1::Refresh {
            request_id: [1; 16],
            session_id: [2; 16],
            instance_id: InstanceId::new([3; 16]),
            expected_registration_revision: revision,
            requested_lease_seconds: 30,
        },
        RegistryRequestV1::Withdraw {
            request_id: [1; 16],
            session_id: [2; 16],
            instance_id: InstanceId::new([3; 16]),
            expected_registration_revision: revision,
        },
    ] {
        let bytes = registry_codec::encode_request(&request).unwrap();
        assert_eq!(registry_codec::decode_request(&bytes), Ok(request));
    }
    for response in [
        RegistryResponseV1::Registered {
            request_id: [1; 16],
            instance_id: InstanceId::new([3; 16]),
            registration_revision: revision,
            service_set_hash: [5; 32],
            expires_at: 60,
            effective_lease_seconds: 30,
        },
        RegistryResponseV1::Refreshed {
            request_id: [1; 16],
            instance_id: InstanceId::new([3; 16]),
            registration_revision: revision,
            expires_at: 60,
        },
        RegistryResponseV1::Withdrawn {
            request_id: [1; 16],
            instance_id: InstanceId::new([3; 16]),
            registration_revision: revision,
        },
        RegistryResponseV1::Rejected {
            request_id: None,
            error: PublicError::new(PublicErrorCode::RegistryNotFound, false),
        },
    ] {
        let mut bytes = registry_codec::encode_response(&response).unwrap();
        assert_eq!(registry_codec::decode_response(&bytes), Ok(response));
        bytes.push(0);
        assert_eq!(
            registry_codec::decode_response(&bytes),
            Err(RegistryProtocolError::Malformed)
        );
        bytes[0] = 2;
        assert_eq!(
            registry_codec::decode_response(&bytes),
            Err(RegistryProtocolError::UnsupportedVersion)
        );
    }
    assert_eq!(
        registry_codec::decode_request(&[2]),
        Err(RegistryProtocolError::UnsupportedVersion)
    );
    assert_eq!(
        RegistryProtocolError::Malformed.public_code(),
        PublicErrorCode::ProtocolMalformed
    );
}

#[test]
fn request_response_codec_round_trips_and_rejects_bad_length() {
    let request = ResolveRequestV1::Resolve {
        request_id: [1; 16],
        session_id: [2; 16],
        selector: selector(),
        client_capabilities: Capabilities::from_bits(RELAY_V2).unwrap(),
    };
    let mut bytes = Vec::new();
    resolve_codec::write_frame(&mut bytes, &request.canonical_bytes().unwrap()).unwrap();
    let body = resolve_codec::read_frame(&mut Reader::new(&bytes)).unwrap();
    assert!(matches!(
        ResolveRequestV1::decode(&body),
        Ok(ResolveRequestV1::Resolve { .. })
    ));
    assert!(resolve_codec::read_frame(&mut Reader::new(&[0, 0, 0, 0])).is_err());
    assert_eq!(
        resolve_codec::body_length([0, 0, 0x40, 1]),
        Err(ResolveProtocolError::FrameTooLarge)
    );
    let _ = UpstreamId::new("orders").unwrap();
}

#[test]
fn hashes_are_stable() {
    assert_eq!(stable_hash(""), 0);
    assert_eq!(stable_hash("ab"), 97 * 31 + 98);
    let number = [0, 1, 9, 10, 99, 100, 255, 7, 0, 0, 0, 0, 0, 0, 0, 16];
    assert_eq!(hash_id(&number), stable_hash(&format!("{number:?}")));
}

#[test]
fn one_result_is_reported() {
    let mut gate = TerminalGate::new();
    assert!(gate.take());
    assert!(!gate.take());
    let passed = TerminalResult::simple("C01", "passed", "probe.ok");
    assert_eq!(passed.terminal, ProbeTerminal::Success);
    assert_eq!(passed.final_workers, 0);
    assert_eq!(passed.bytes_read, 0);
    assert_eq!(
        TerminalResult::simple("C01", "failed", "x").terminal,
        ProbeTerminal::Io
    );
}

#[test]
fn workers_are_counted_by_peer() {
    let mut workers = Workers::new();
    let p = peer();
    workers.start(p.clone());
    workers.start(p.clone());
    workers.start(peer());
    assert_eq!(workers.total(), 3);
    assert_eq!(workers.of_peer(&p), 2);
    workers.stop(&p);
    assert_eq!(workers.of_peer(&p), 1);
}
