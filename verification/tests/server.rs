use p2x::address::Address;
use p2x::auth_state::AuthState;
use p2x::availability::{Availability, AvailabilityAction, AvailabilityState};
use p2x::error::{PublicError, PublicErrorCode};
use p2x::exchange_link::{
    current_session, AddressCursor, ConnectionLoss, ExchangeConnections, ExchangeSession,
    PendingRequest, RedialBackoff,
};
use p2x::hex::hex;
use p2x::ids::{
    CorrelationIdExhausted, CorrelationIdGenerator, InstanceId, RegistrationRevision, Tenant,
    UpstreamId,
};
use p2x::lifecycle::{hash_id, TunnelTerminalClass};
use p2x::peer::{ConnectionId, ListenerId, PeerId};
use p2x::probe::ProbePath;
use p2x::proxy::{IngressKind, OpenProxyStreamV1, ProxyOpenResponseV1, UpstreamMode};
use p2x::proxy_open::{
    hold_completes, hold_time, open_outcome, random_stream_id, rejection, transition_failure_code,
    verdict_of, verify_open, Candidate, Grant, OpenRead, ProxyWorker, ServerDecision,
    TestDeadlineStage, Verdict, WorkerAction, WorkerEvent, WorkerPhase,
};
use p2x::proxy_owner::{
    serving, ProxyDecisionContext, ProxyWorkerId, ProxyWorkerTable, ServerProxyOwner,
};
use p2x::registry::{
    Health, RegistryRequestV1, RegistryResponseV1, ServiceAdvertisementV1,
};
use p2x::registry_operation::{
    jitter_from, new_refresh, new_register, new_withdraw, random_jitter_per_mille,
    registry_retry_at, request_id_start, start_from, RegistrationClient, RegistryOperation,
    RegistryOperationKind, ResponseContext, ResponseOutcome, Standing,
};
use p2x::reservation::{reservation_due, ReservationContext, ReservationEvent};
use p2x::selector::{Metadata, MetadataKey, MetadataValue, ProtocolClass, UnscopedSelector};
use p2x::service_config::{
    Entry, File, IpLiteral, LocalUpstream, Proxy, Registration, Selector, ServiceConfig,
    ServiceConfigError, SocketAddress,
};
use p2x::stream_admission::{AdmissionToken, StreamAdmission};
use p2x::ticket::{ConnectionTicketClaimsV1, RawTicket, TicketSigner, TicketValidation};
use p2x::ticket_admission::{TicketAdmission, TicketAdmissionLedger, ValidationCandidate};
use p2x::ticket_key::{VerificationKey, VerificationKeyRing};
use p2x::tunnel::{proxy_terminal_class, PumpResult, Terminal};
use p2x::upstream::{classify, connect_time, hold_fits, timeout_for, ConnectError, ConnectOutcome};
use p2x::worker_finish::{
    finish_proxy_worker, finish_proxy_worker_record, finish_worker, lost_release, release_of,
};

fn peer() -> PeerId {
    PeerId::from_bytes(
        &libp2p::identity::Keypair::generate_ed25519()
            .public()
            .to_peer_id()
            .to_bytes(),
    )
    .unwrap()
}

fn orders() -> UpstreamId {
    UpstreamId::new("orders").unwrap()
}

fn selector(protocol: ProtocolClass) -> UnscopedSelector {
    let mut metadata = Metadata::new();
    metadata.insert(
        MetadataKey::new("service").unwrap(),
        MetadataValue::new("orders").unwrap(),
    );
    UnscopedSelector::new(protocol, metadata).unwrap()
}

#[test]
fn readiness_requires_current_auth_reservation_and_lease() {
    let mut state = Availability::new([1; 16]);
    assert!(!state.readiness(0).auth);
    assert_eq!(state.auth_ready(), AvailabilityAction::Reserve(0));
    assert_eq!(state.reservation_ready(0), AvailabilityAction::Register(0));
    assert_eq!(
        state.registered(0, 30, 1),
        AvailabilityAction::Publish(true)
    );
    assert!(state.readiness(1).registration);
    assert_eq!(state.tick(30), AvailabilityAction::Publish(false));
    assert!(!state.readiness(30).registration);
}

#[test]
fn stale_generation_cannot_restore_readiness() {
    let mut state = Availability::new([1; 16]);
    state.auth_ready();
    state.reservation_ready(0);
    state.reservation_lost();
    assert_eq!(state.generation(), 1);
    assert_eq!(
        state.reservation_ready(0),
        AvailabilityAction::Publish(false)
    );
    assert!(!state.readiness(0).reservation);
}

#[test]
fn lost_generations_stay_lost_whatever_is_reported() {
    let mut state = Availability::new([1; 16]);
    state.auth_ready();
    state.reservation_ready(3);
    state.registered(3, 30, 1);
    state.reservation_lost();
    assert!(!state.readiness(2).reservation);
    state.session_lost();
    state.auth_ready();
    assert_eq!(state.reservation_ready(5), AvailabilityAction::Register(5));
    state.registration_lost();
    state.tick(9);
    assert_eq!(
        state.reservation_ready(3),
        AvailabilityAction::Publish(false)
    );
    assert_eq!(
        state.registered(3, 30, 10),
        AvailabilityAction::Publish(false)
    );
    assert_eq!(state.generation(), 5);
}

#[test]
fn refresh_is_due_before_expiry() {
    let mut state = Availability::new([1; 16]);
    state.auth_ready();
    state.reservation_ready(0);
    state.registered(0, 30, 0);
    assert_eq!(state.tick(10), AvailabilityAction::Refresh);
}

#[test]
fn a_server_that_closes_down_is_not_available() {
    let mut state = Availability::with_refresh_seconds([1; 16], 20);
    state.auth_ready();
    state.reservation_ready(0);
    state.registered(0, 30, 0);
    assert_eq!(state.tick(19), AvailabilityAction::Publish(true));
    assert_eq!(state.tick(20), AvailabilityAction::Refresh);
    assert_eq!(state.readiness_generation(), 1);
    assert_eq!(state.begin_shutdown(), AvailabilityAction::Withdraw);
    assert!(state.readiness(1).draining);
    assert!(!state.readiness(1).auth);
    state.withdrawn();
    assert_eq!(state.state(), AvailabilityState::Withdrawn);
    assert_eq!(state.session_lost(), AvailabilityAction::Authenticate);
    state.stopped();
    assert_eq!(state.state(), AvailabilityState::Stopped);
    assert_eq!(state.instance_id(), [1; 16]);
}

fn entry(protocol: &str, enabled: bool) -> Entry {
    Entry {
        upstream_id: "orders".to_string(),
        selector: Selector {
            protocol: protocol.to_string(),
            metadata: vec![("service".to_string(), "orders".to_string())],
        },
        enabled,
        connect: Some(SocketAddress {
            ip: IpLiteral::V4([127, 0, 0, 1]),
            port: 5432,
        }),
        connect_timeout_ms: None,
        idle_timeout_ms: None,
        concurrency_limit: None,
    }
}

fn file(services: Vec<Entry>) -> File {
    File {
        schema_version: 1,
        registration: Registration {
            requested_lease_seconds: None,
            refresh_seconds: None,
        },
        services,
        proxy: None,
    }
}

fn fault(file: &File) -> String {
    match ServiceConfig::load(file) {
        Err(ServiceConfigError::Invalid(text)) => text,
        _ => panic!(),
    }
}

fn load(file: &File) -> ServiceConfig {
    ServiceConfig::load(file).unwrap_or_else(|_| panic!())
}

#[test]
fn disabled_services_are_retained_as_unavailable() {
    let config = load(&file(vec![entry("http", false)]));
    assert_eq!(config.services.as_slice()[0].health(), Health::Unavailable);
}

#[test]
fn immutable_upstream_is_private_and_redacted() {
    let config = load(&file(vec![entry("tcp", false)]));
    let upstream = config.upstreams.get(&orders()).unwrap();
    assert_eq!(
        upstream.connect,
        SocketAddress {
            ip: IpLiteral::V4([127, 0, 0, 1]),
            port: 5432,
        }
    );
    assert!(!upstream.redacted().contains("5432"));
    assert_eq!(config.service_set_hash, config.services.hash());
}

#[test]
fn strict_service_config_requires_enabled_service() {
    let config = load(&file(vec![entry("http", true)]));
    assert_eq!(config.services.as_slice().len(), 1);
    assert!(ServiceConfig::load(&file(vec![])).is_err());
}

#[test]
fn service_files_have_defaults() {
    let config = load(&file(vec![entry("tcp", true)]));
    assert_eq!(config.requested_lease_seconds, 30);
    assert_eq!(config.refresh_seconds, 10);
    assert_eq!(config.proxy.max_workers, 256);
    assert_eq!(config.proxy.max_workers_per_client, 32);
    assert_eq!(config.proxy.max_upstream_dials, 64);
    assert_eq!(config.proxy.copy_buffer_bytes, 32 * 1024);
    assert_eq!(config.proxy.max_replay_entries, 8_192);
    assert_eq!(config.proxy.ticket_clock_skew, 5);
    let upstream = config.upstreams.get(&orders()).unwrap();
    assert_eq!(upstream.connect_timeout, 3_000_000_000);
    assert_eq!(upstream.idle_timeout, 300_000_000_000);
    assert_eq!(upstream.concurrency_limit, 64);
    assert_eq!(
        config.service(&orders()).unwrap().health(),
        Health::Ready
    );
    assert!(config.service(&UpstreamId::new("other").unwrap()).is_none());
}

#[test]
fn service_files_say_what_is_wrong() {
    let old = File {
        schema_version: 2,
        ..file(vec![entry("tcp", true)])
    };
    assert_eq!(fault(&old), "schema_version must be 1");
    let hasty = File {
        registration: Registration {
            requested_lease_seconds: Some(10),
            refresh_seconds: Some(6),
        },
        ..file(vec![entry("tcp", true)])
    };
    assert_eq!(fault(&hasty), "invalid registration lease or refresh");
    assert_eq!(fault(&file(vec![])), "service entry count is out of bounds");
    let with = |change: &dyn Fn(&mut Entry)| {
        let mut entry = entry("tcp", true);
        change(&mut entry);
        fault(&file(vec![entry]))
    };
    assert_eq!(
        with(&|e| e.upstream_id = "bad id".to_string()),
        "invalid upstream_id"
    );
    assert_eq!(
        with(&|e| e.selector.protocol = "udp".to_string()),
        "invalid protocol"
    );
    assert_eq!(
        with(&|e| e.selector.metadata[0].0 = "p2x.key".to_string()),
        "invalid metadata key"
    );
    assert_eq!(
        with(&|e| e.selector.metadata[0].1 = " ".to_string()),
        "invalid metadata value"
    );
    assert_eq!(
        with(&|e| e.selector.metadata.clear()),
        "metadata count is out of bounds"
    );
    assert_eq!(
        with(&|e| e.selector.metadata = (0..20)
            .map(|i| (format!("key{i}"), "v".repeat(250)))
            .collect()),
        "selector is too large"
    );
    assert_eq!(
        with(&|e| e.connect = None),
        "connect must be an IP-literal socket address"
    );
    assert_eq!(
        with(&|e| e.connect = Some(SocketAddress {
            ip: IpLiteral::V4([127, 0, 0, 1]),
            port: 0
        })),
        "connect port must be nonzero"
    );
    assert_eq!(
        with(&|e| e.connect_timeout_ms = Some(99)),
        "invalid upstream bounds"
    );
    assert_eq!(
        with(&|e| e.idle_timeout_ms = Some(999)),
        "invalid upstream bounds"
    );
    assert_eq!(
        with(&|e| e.concurrency_limit = Some(0)),
        "invalid upstream bounds"
    );
    assert_eq!(
        fault(&file(vec![entry("tcp", true), entry("tcp", true)])),
        "duplicate service identifier or selector"
    );
    let narrow = File {
        proxy: Some(Proxy {
            max_workers: Some(1),
            max_workers_per_client: None,
            max_upstream_dials: Some(1),
            copy_buffer_bytes: None,
            max_replay_entries: None,
            ticket_clock_skew: None,
        }),
        ..file(vec![entry("tcp", true)])
    };
    assert_eq!(fault(&narrow), "invalid proxy limits");
}

fn operation(kind: RegistryOperationKind) -> RegistryOperation {
    RegistryOperation {
        request: RegistryRequestV1::Withdraw {
            request_id: [1; 16],
            session_id: [2; 16],
            instance_id: InstanceId::new([3; 16]),
            expected_registration_revision: RegistrationRevision::new(7).unwrap(),
        },
        kind,
        reservation_generation: 4,
        expected_service_set_hash: [5; 32],
        attempts: 0,
    }
}

#[test]
fn register_correlation_rejects_stale_hash_and_generation() {
    let operation = operation(RegistryOperationKind::Register);
    assert!(operation.accepts_registered([1; 16], true, [5; 32], 4, true));
    assert!(!operation.accepts_registered([1; 16], true, [6; 32], 4, true));
    assert!(!operation.accepts_registered([1; 16], true, [5; 32], 5, true));
}

#[test]
fn late_refresh_cannot_resurrect_an_expired_lease() {
    let revision = RegistrationRevision::new(7).unwrap();
    let operation = operation(RegistryOperationKind::Refresh(revision));
    assert!(operation.accepts_refreshed([1; 16], true, revision, 4, true, true));
    assert!(!operation.accepts_refreshed([1; 16], true, revision, 4, true, false));
}

#[test]
fn registry_retry_preserves_request_bytes_and_is_bounded() {
    let mut operation = operation(RegistryOperationKind::Register);
    let hash = operation.request.hash();
    assert_eq!(registry_retry_at(&mut operation, 1_000, -100), 1_225);
    for _ in 0..20 {
        let due = registry_retry_at(&mut operation, 0, 100);
        assert!(due <= 11_000);
    }
    assert_eq!(operation.request.hash(), hash);
    assert_eq!(operation.request_id(), [1; 16]);
}

#[test]
fn retries_wait_longer_and_longer() {
    let mut operation = operation(RegistryOperationKind::Register);
    let waits: Vec<i64> = (0..7)
        .map(|_| registry_retry_at(&mut operation, 0, 0))
        .collect();
    assert_eq!(waits, [250, 500, 1_000, 2_000, 4_000, 8_000, 8_000]);
    assert_eq!(registry_retry_at(&mut operation, i64::MAX, 0), i64::MAX);
    let mut fresh = fresh_operation();
    assert_eq!(registry_retry_at(&mut fresh, 0, -1), 250);
    assert_eq!(operation.session_id(), [2; 16]);
}

fn fresh_operation() -> RegistryOperation {
    operation(RegistryOperationKind::Register)
}

#[test]
fn random_numbers_are_brought_into_range() {
    assert_eq!(start_from(&[0; 16]), 1);
    assert_eq!(start_from(&[0xff; 16]), 2);
    let mut bytes = [0; 16];
    bytes[15] = 9;
    assert_eq!(start_from(&bytes), 10);
    assert!(request_id_start().unwrap() >= 1);
    assert_eq!(jitter_from([0, 0]), -100);
    assert_eq!(jitter_from([0, 200]), 100);
    assert_eq!(jitter_from([0, 201]), -100);
    assert!(random_jitter_per_mille().unwrap().abs() <= 100);
}

#[test]
fn requests_are_built_from_what_is_known() {
    let config = load(&file(vec![entry("tcp", true)]));
    let mut ids = CorrelationIdGenerator::new(5);
    let instance = InstanceId::new([3; 16]);
    let revision = RegistrationRevision::new(7).unwrap();
    let register = new_register(&mut ids, [2; 16], instance, &config, 4).unwrap();
    assert_eq!(register.request_id(), 5u128.to_be_bytes());
    assert!(register.accepts_registered(
        5u128.to_be_bytes(),
        true,
        config.service_set_hash,
        4,
        true
    ));
    match &register.request {
        RegistryRequestV1::Register {
            capabilities,
            requested_lease_seconds,
            ..
        } => {
            assert_eq!(capabilities.bits(), 15);
            assert_eq!(*requested_lease_seconds, 30);
        }
        _ => panic!(),
    }
    let refresh = new_refresh(&mut ids, [2; 16], instance, revision, 30, 4, [5; 32]).unwrap();
    assert!(refresh.accepts_refreshed(6u128.to_be_bytes(), true, revision, 4, true, true));
    let withdraw = new_withdraw(&mut ids, [2; 16], instance, revision, 4).unwrap();
    assert_eq!(withdraw.kind, RegistryOperationKind::Withdraw(revision));
    let mut last = CorrelationIdGenerator::new(u128::MAX);
    let _ = last.allocate();
    assert!(matches!(
        new_withdraw(&mut last, [2; 16], instance, revision, 4),
        Err(CorrelationIdExhausted)
    ));
}

fn ready_server() -> Availability {
    let mut state = Availability::new([3; 16]);
    state.auth_ready();
    state.reservation_ready(4);
    state
}

fn context(services: Option<&ServiceConfig>) -> ResponseContext<'_> {
    ResponseContext {
        instance_id: InstanceId::new([3; 16]),
        reservation_generation: 4,
        reservation_ready: true,
        session_id: Some([2; 16]),
        services,
        now: 10,
        now_millis: 10_000,
        jitter: 0,
    }
}

fn refused(code: PublicErrorCode) -> RegistryResponseV1 {
    RegistryResponseV1::Rejected {
        request_id: Some([1; 16]),
        error: PublicError::new(code, false),
    }
}

#[test]
fn answers_of_the_registry_are_taken_once() {
    let mut ids = CorrelationIdGenerator::new(5);
    let mut availability = ready_server();
    let mut client = RegistrationClient::new();
    assert!(client.idle());
    client.begin(operation(RegistryOperationKind::Register));
    assert!(!client.idle());
    let registered = RegistryResponseV1::Registered {
        request_id: [1; 16],
        instance_id: InstanceId::new([3; 16]),
        registration_revision: RegistrationRevision::new(7).unwrap(),
        service_set_hash: [5; 32],
        expires_at: 40,
        effective_lease_seconds: 30,
    };
    assert_eq!(
        client.on_response(&registered, &context(None), &mut availability, &mut ids),
        Ok(ResponseOutcome::Registered)
    );
    assert_eq!(client.revision(), RegistrationRevision::new(7));
    assert_eq!(client.expires_at(), 40);
    assert!(availability.readiness(11).registration);
    assert_eq!(
        client.on_response(&registered, &context(None), &mut availability, &mut ids),
        Ok(ResponseOutcome::Ignored)
    );
    client.begin(operation(RegistryOperationKind::Refresh(
        RegistrationRevision::new(7).unwrap(),
    )));
    let refreshed = RegistryResponseV1::Refreshed {
        request_id: [1; 16],
        instance_id: InstanceId::new([3; 16]),
        registration_revision: RegistrationRevision::new(7).unwrap(),
        expires_at: 70,
    };
    assert_eq!(
        client.on_response(&refreshed, &context(None), &mut availability, &mut ids),
        Ok(ResponseOutcome::Refreshed)
    );
    assert_eq!(client.expires_at(), 70);
    client.lapse();
    assert_eq!(client.expires_at(), 0);
    client.reset();
    assert!(client.revision().is_none());
}

#[test]
fn refusals_of_the_registry_are_told_apart() {
    let config = load(&file(vec![entry("tcp", true)]));
    for (code, outcome, again) in [
        (
            PublicErrorCode::RegistryNotFound,
            ResponseOutcome::Lapsed,
            true,
        ),
        (
            PublicErrorCode::AuthSessionExpired,
            ResponseOutcome::SessionGone,
            false,
        ),
        (
            PublicErrorCode::ExchangeOverloaded,
            ResponseOutcome::Retry,
            true,
        ),
        (
            PublicErrorCode::RegistryReservationRequired,
            ResponseOutcome::Lost,
            false,
        ),
        (
            PublicErrorCode::AuthInvalidCredential,
            ResponseOutcome::Terminal(PublicErrorCode::AuthInvalidCredential),
            false,
        ),
    ] {
        let mut ids = CorrelationIdGenerator::new(5);
        let mut availability = ready_server();
        let mut client = RegistrationClient::new();
        client.begin(operation(RegistryOperationKind::Register));
        assert_eq!(
            client.on_response(
                &refused(code),
                &context(Some(&config)),
                &mut availability,
                &mut ids
            ),
            Ok(outcome)
        );
        assert_eq!(client.operation().is_some(), again);
        assert_eq!(client.retry_due(10_250, true), again);
        assert!(!client.retry_due(10_249, true));
        if again {
            client.resent();
            assert!(!client.retry_due(10_250, true));
        }
    }
    let mut ids = CorrelationIdGenerator::new(5);
    let mut availability = ready_server();
    let mut client = RegistrationClient::new();
    client.begin(operation(RegistryOperationKind::Register));
    let other = RegistryResponseV1::Rejected {
        request_id: None,
        error: PublicError::new(PublicErrorCode::RegistryNotFound, false),
    };
    assert_eq!(
        client.on_response(&other, &context(Some(&config)), &mut availability, &mut ids),
        Ok(ResponseOutcome::Mismatch)
    );
    client.begin(operation(RegistryOperationKind::Register));
    client.on_failure(&mut availability, 10_000, 0);
    assert!(client.retry_due(10_250, true));
}

#[test]
fn deadline_stage_names_are_closed_and_stable() {
    for (name, stage, fault) in [
        (
            "verification",
            TestDeadlineStage::Verification,
            "hold_server_verification",
        ),
        (
            "owner-decision",
            TestDeadlineStage::OwnerDecision,
            "hold_server_owner_decision",
        ),
        (
            "promotion",
            TestDeadlineStage::Promotion,
            "hold_server_promotion",
        ),
        (
            "upstream-dial",
            TestDeadlineStage::UpstreamDial,
            "hold_server_upstream_dial",
        ),
        (
            "accepted-write",
            TestDeadlineStage::AcceptedWrite,
            "hold_server_accepted_write",
        ),
    ] {
        assert_eq!(name.parse::<TestDeadlineStage>(), Ok(stage));
        assert_eq!(stage.fault(), fault);
    }
    assert!("synthetic".parse::<TestDeadlineStage>().is_err());
}

fn worker_table() -> (ProxyWorkerTable, ProxyWorkerId) {
    let mut table = ProxyWorkerTable::default();
    let id = table.insert(peer(), ConnectionId(1), ProbePath::Direct);
    (table, id)
}

#[test]
fn worker_record_requires_one_admission_and_one_acceptance() {
    let (mut table, id) = worker_table();
    assert!(table.mark_accepted(id, 0, 1, 2).is_err());
    let admission = AdmissionToken::new([7; 16]);
    table.attach_admission(id, admission).unwrap();
    assert!(table.attach_admission(id, admission).is_err());
    table.mark_accepted(id, 0, 1, 2).unwrap();
    assert!(table.mark_accepted(id, 0, 1, 2).is_err());
    assert_eq!(table.remove(id).unwrap().admission, Some(admission));
    assert!(table.remove(id).is_none());
}

#[test]
fn workers_are_listed_once() {
    let (mut table, first) = worker_table();
    let second = table.insert(peer(), ConnectionId(2), ProbePath::Relay);
    let mut ids = table.ids();
    ids.sort_by_key(|id| id.0);
    assert_eq!(ids, [first, second]);
    assert_eq!(table.len(), 2);
    assert!(table.get(second).unwrap().selected_path == ProbePath::Relay);
    assert_eq!(
        table.attach_admission(first, AdmissionToken::empty()),
        Err("proxy worker admission already attached")
    );
    assert_eq!(
        table.attach_admission(ProxyWorkerId(9), AdmissionToken::new([1; 16])),
        Err("proxy worker missing")
    );
    table.remove(first);
    table.remove(second);
    assert!(table.is_empty());
}

#[test]
fn owner_exposes_exact_release_transition() {
    let tickets = TicketAdmissionLedger::new(1, 0).unwrap_or_else(|_| panic!());
    let mut owner = ServerProxyOwner::new(tickets, None);
    let admission = AdmissionToken::new([8; 16]);
    assert!(owner.promote(ProxyWorkerId(1), admission).is_err());
    assert!(owner.complete(ProxyWorkerId(1), None).is_ok());
    assert!(owner.stream_admission().is_empty());
}

#[test]
fn preflight_reserve_promote_release_is_exactly_once() {
    let peer = peer();
    let mut admission = StreamAdmission::new(2, 2, 1);
    let first = AdmissionToken::new([1; 16]);
    admission.reserve(first, peer.clone(), orders(), 1).unwrap();
    assert_eq!(admission.dialing(), 1);
    assert_eq!(
        admission.preflight(&peer, &orders(), 1),
        Err(PublicErrorCode::LimitProxyStreams)
    );
    assert!(admission.promote(first));
    assert!(!admission.promote(first));
    assert!(admission.release(first));
    assert!(!admission.release(first));
    assert_eq!(admission.len(), 0);
}

#[test]
fn stream_limits_hold_whatever_is_asked() {
    let mut admission = StreamAdmission::new(3, 2, 1);
    let (one, two) = (peer(), peer());
    for n in 0..20u8 {
        let client = if n % 3 == 0 { &two } else { &one };
        let token = AdmissionToken::new([n + 1; 16]);
        let _ = admission.reserve(token, client.clone(), orders(), 2);
        if n % 2 == 0 {
            admission.promote(token);
        }
        if n == 7 {
            assert!(admission.release(AdmissionToken::new([1; 16])));
        }
        assert!(admission.len() <= 2);
        assert!(admission.dialing() <= 1);
        assert!(admission.peer_count(&one) <= 2);
    }
    assert!(!admission.contains(AdmissionToken::new([1; 16])));
    assert!(!admission.release(AdmissionToken::new([1; 16])));
}

#[test]
fn global_and_dial_bounds_reject_before_reservation() {
    let peer = peer();
    let mut admission = StreamAdmission::new(1, 1, 1);
    admission
        .reserve(AdmissionToken::new([1; 16]), peer.clone(), orders(), 2)
        .unwrap();
    assert_eq!(
        admission.preflight(&peer, &UpstreamId::new("other").unwrap(), 2),
        Err(PublicErrorCode::LimitProxyStreams)
    );
    assert_eq!(admission.len(), 1);
}

#[test]
fn streams_are_counted_by_client_and_phase() {
    let client = peer();
    let mut admission = StreamAdmission::new(4, 2, 4);
    let one = AdmissionToken::new([1; 16]);
    let two = AdmissionToken::new([2; 16]);
    admission.reserve(one, client.clone(), orders(), 4).unwrap();
    assert_eq!(
        admission.reserve(one, client.clone(), orders(), 4),
        Err(PublicErrorCode::ProtocolMalformed)
    );
    admission.reserve(two, client.clone(), orders(), 4).unwrap();
    assert_eq!(
        admission.preflight(&client, &orders(), 4),
        Err(PublicErrorCode::LimitProxyStreams)
    );
    assert!(admission.preflight(&peer(), &orders(), 4).is_ok());
    assert!(admission.promote(one));
    assert_eq!(admission.active(), 1);
    assert_eq!(admission.dialing(), 1);
    assert_eq!(admission.peer_count(&client), 2);
    assert!(admission.contains(two));
    assert!(!admission.is_empty());
    assert!(AdmissionToken::empty().is_empty());
}

fn claims_for(id: &[u8], ticket_id: [u8; 16], fingerprint: [u8; 32]) -> ConnectionTicketClaimsV1 {
    ConnectionTicketClaimsV1::new(
        id.to_vec(),
        "tenant".to_string(),
        id.to_vec(),
        id.to_vec(),
        "orders".to_string(),
        fingerprint,
        1,
        2,
        4,
        10,
        20,
        ticket_id,
        1,
    )
    .unwrap()
}

fn validation_for(id: &[u8], now: i64, clock_skew: i64) -> TicketValidation<'_> {
    TicketValidation {
        issuer_exchange_peer_id: id,
        client_peer_id: id,
        server_peer_id: id,
        tenant: "tenant",
        upstream_id: "orders",
        selector_fingerprint: [3; 32],
        registration_revision: 1,
        authorization_revision: 2,
        permissions: 4,
        max_streams: 1,
        now,
        clock_skew,
    }
}

fn verification_ring(signer: &TicketSigner) -> VerificationKeyRing {
    let mut ring = VerificationKeyRing::default();
    ring.add(VerificationKey {
        key_id: signer.key_id(),
        public: signer.public_key(),
        activates_at: 0,
        retires_at: None,
    })
    .unwrap();
    ring
}

fn ledger(capacity: usize, clock_skew: i64) -> TicketAdmissionLedger {
    TicketAdmissionLedger::new(capacity, clock_skew).unwrap_or_else(|_| panic!())
}

fn candidate(id: &[u8], ticket_id: [u8; 16]) -> ValidationCandidate {
    ValidationCandidate {
        ticket_id,
        claims: claims_for(id, ticket_id, [4; 32]),
        owner_fingerprint: [6; 32],
    }
}

fn sign(signer: &TicketSigner, claims: &ConnectionTicketClaimsV1) -> RawTicket {
    signer.sign(claims).unwrap_or_else(|_| panic!())
}

#[test]
fn invalid_binding_does_not_consume_replay_entry() {
    let signer = TicketSigner::from_seed([9; 32]);
    let id = peer().as_bytes().to_vec();
    let envelope = sign(&signer, &claims_for(&id, [5; 16], [3; 32]));
    let ring = verification_ring(&signer);
    let mut expected = validation_for(&id, 15, 0);
    expected.upstream_id = "wrong";
    let mut admission = ledger(1, 0);
    assert_eq!(
        admission.validate_and_consume_drawn(
            &ring,
            envelope.as_bytes(),
            &expected,
            [7; 32],
            Ok([9; 16])
        ),
        TicketAdmission::Rejected(PublicErrorCode::AuthTicketInvalid)
    );
    expected.upstream_id = "orders";
    assert_eq!(
        admission.validate_and_consume_drawn(
            &ring,
            envelope.as_bytes(),
            &expected,
            [7; 32],
            Ok([9; 16])
        ),
        TicketAdmission::Authorized([9; 16])
    );
    assert_eq!(admission.len(), 1);
}

#[test]
fn explicit_stream_id_is_consumed_only_after_admission() {
    let id = peer().as_bytes().to_vec();
    let mut admission = ledger(1, 0);
    assert_eq!(
        admission
            .allocate_drawn(&candidate(&id, [8; 16]), Ok([9; 16]), 11)
            .unwrap(),
        [9; 16]
    );
    assert_eq!(admission.len(), 0);
    assert_eq!(
        admission.consume_candidate_with_stream_id(candidate(&id, [8; 16]), [9; 16], 11),
        TicketAdmission::Authorized([9; 16])
    );
    assert_eq!(admission.len(), 1);
}

#[test]
fn stream_id_failure_does_not_consume_replay_capacity() {
    let id = peer().as_bytes().to_vec();
    let mut admission = ledger(1, 0);
    assert_eq!(
        admission.consume_drawn(
            candidate(&id, [5; 16]),
            Err(PublicErrorCode::LimitProxyStreams),
            11
        ),
        TicketAdmission::Rejected(PublicErrorCode::LimitProxyStreams)
    );
    assert_eq!(admission.len(), 0);
}

fn open_with(ticket: RawTicket) -> OpenProxyStreamV1 {
    OpenProxyStreamV1 {
        request_id: [1; 16],
        ticket,
        upstream_id: orders(),
        registration_revision: RegistrationRevision::new(1).unwrap(),
        ingress_kind: IngressKind::FixedTcp,
    }
}

#[test]
fn stale_current_registration_rejects_before_replay_consume() {
    let signer = TicketSigner::from_seed([9; 32]);
    let id = peer();
    let tenant = Tenant::new("tenant").unwrap();
    let service =
        ServiceAdvertisementV1::new(orders(), selector(ProtocolClass::Http), Health::Ready);
    let claims = claims_for(id.as_bytes(), [5; 16], [3; 32]);
    let open = open_with(sign(&signer, &claims));
    let mut admission = ledger(1, 0);
    assert_eq!(
        admission.authorize_candidate(
            ValidationCandidate {
                ticket_id: [5; 16],
                claims,
                owner_fingerprint: [7; 32],
            },
            &id,
            &id,
            &id,
            &tenant,
            &service,
            RegistrationRevision::new(2),
            30,
            2,
            &open,
            15,
        ),
        TicketAdmission::Rejected(PublicErrorCode::RegistryStaleRevision)
    );
    assert_eq!(admission.len(), 0);
}

#[test]
fn ticket_binding_matrix_rejects_without_consuming_replay() {
    let signer = TicketSigner::from_seed([9; 32]);
    let id = peer().as_bytes().to_vec();
    let envelope = sign(&signer, &claims_for(&id, [5; 16], [3; 32]));
    let ring = verification_ring(&signer);
    let base = || validation_for(&id, 15, 0);
    let mut other = [0; 38];
    other[0] = 1;
    for expected in [
        TicketValidation {
            issuer_exchange_peer_id: &other,
            ..base()
        },
        TicketValidation {
            client_peer_id: &other,
            ..base()
        },
        TicketValidation {
            server_peer_id: &other,
            ..base()
        },
        TicketValidation {
            tenant: "other",
            ..base()
        },
        TicketValidation {
            upstream_id: "other",
            ..base()
        },
        TicketValidation {
            selector_fingerprint: [4; 32],
            ..base()
        },
        TicketValidation {
            registration_revision: 2,
            ..base()
        },
        TicketValidation {
            authorization_revision: 3,
            ..base()
        },
        TicketValidation {
            permissions: 0,
            ..base()
        },
        TicketValidation {
            max_streams: 2,
            ..base()
        },
        TicketValidation { now: 1, ..base() },
    ] {
        let mut admission = ledger(32, 0);
        assert_eq!(
            admission.validate_and_consume(&ring, envelope.as_bytes(), &expected, [7; 32]),
            TicketAdmission::Rejected(PublicErrorCode::AuthTicketInvalid)
        );
        assert_eq!(admission.len(), 0);
    }
    let wrong_ring = verification_ring(&TicketSigner::from_seed([8; 32]));
    let mut admission = ledger(32, 0);
    assert_eq!(
        admission.validate_and_consume(&wrong_ring, envelope.as_bytes(), &base(), [7; 32]),
        TicketAdmission::Rejected(PublicErrorCode::AuthTicketInvalid)
    );
    assert_eq!(admission.len(), 0);
}

#[test]
fn owner_time_recheck_rejects_expired_candidate() {
    let id = peer().as_bytes().to_vec();
    let candidate = candidate(&id, [8; 16]);
    let admission = ledger(1, 0);
    assert!(admission.candidate_time_valid(&candidate, 19));
    assert!(!admission.candidate_time_valid(&candidate, 20));
}

#[test]
fn replay_retention_includes_expiry_plus_clock_skew() {
    let signer = TicketSigner::from_seed([9; 32]);
    let id = peer().as_bytes().to_vec();
    let envelope = sign(&signer, &claims_for(&id, [5; 16], [3; 32]));
    let ring = verification_ring(&signer);
    let mut admission = ledger(1, 5);
    assert!(matches!(
        admission.validate_and_consume(
            &ring,
            envelope.as_bytes(),
            &validation_for(&id, 15, 5),
            [7; 32]
        ),
        TicketAdmission::Authorized(_)
    ));
    admission.sweep(24);
    assert_eq!(admission.len(), 1);
    admission.sweep(25);
    assert_eq!(admission.len(), 0);
}

#[test]
fn valid_ticket_is_consumed_once_and_capacity_does_not_evict_live_entries() {
    let signer = TicketSigner::from_seed([9; 32]);
    let id = peer().as_bytes().to_vec();
    let envelope = sign(&signer, &claims_for(&id, [5; 16], [3; 32]));
    let ring = verification_ring(&signer);
    let expected = validation_for(&id, 15, 0);
    let mut admission = ledger(1, 0);
    assert!(matches!(
        admission.validate_and_consume(&ring, envelope.as_bytes(), &expected, [7; 32]),
        TicketAdmission::Authorized(_)
    ));
    assert_eq!(
        admission.validate_and_consume(&ring, envelope.as_bytes(), &expected, [7; 32]),
        TicketAdmission::Rejected(PublicErrorCode::AuthTicketReplayed)
    );
}

#[test]
fn tickets_are_used_once_whatever_else_happens() {
    let id = peer().as_bytes().to_vec();
    let mut admission = ledger(2, 5);
    assert!(matches!(
        admission.consume_candidate(candidate(&id, [1; 16]), 11),
        TicketAdmission::Authorized(_)
    ));
    admission.sweep(12);
    assert!(matches!(
        admission.consume_candidate(candidate(&id, [2; 16]), 13),
        TicketAdmission::Authorized(_)
    ));
    assert_eq!(
        admission.consume_candidate(candidate(&id, [3; 16]), 14),
        TicketAdmission::Rejected(PublicErrorCode::LimitProxyStreams)
    );
    assert_eq!(
        admission.consume_candidate(candidate(&id, [1; 16]), 24),
        TicketAdmission::Rejected(PublicErrorCode::AuthTicketReplayed)
    );
    admission.sweep(25);
    assert_eq!(
        admission.consume_candidate(candidate(&id, [1; 16]), 25),
        TicketAdmission::Rejected(PublicErrorCode::AuthTicketExpired)
    );
}

#[test]
fn ledgers_are_bounded() {
    let id = peer().as_bytes().to_vec();
    assert!(matches!(
        TicketAdmissionLedger::new(0, 0),
        Err(PublicErrorCode::ProtocolMalformed)
    ));
    assert!(TicketAdmissionLedger::new(65_537, 0).is_err());
    assert!(TicketAdmissionLedger::new(1, 31).is_err());
    let default = TicketAdmissionLedger::default();
    assert_eq!(default.capacity(), 8_192);
    assert_eq!(default.clock_skew(), 5);
    let mut admission = ledger(1, 0);
    assert!(matches!(
        admission.consume_candidate(candidate(&id, [1; 16]), 11),
        TicketAdmission::Authorized(_)
    ));
    assert_eq!(
        admission.consume_candidate(candidate(&id, [2; 16]), 11),
        TicketAdmission::Rejected(PublicErrorCode::LimitProxyStreams)
    );
    assert_eq!(
        admission.preflight_candidate(&candidate(&id, [3; 16]), 20),
        Err(PublicErrorCode::AuthTicketExpired)
    );
    assert!(admission.is_empty());
    assert_eq!(
        admission.consume_drawn(candidate(&id, [4; 16]), Ok([0; 16]), 11),
        TicketAdmission::Rejected(PublicErrorCode::ExchangeOverloaded)
    );
    assert_ne!(
        admission
            .allocate_stream_id(&candidate(&id, [4; 16]), 11)
            .unwrap(),
        [0; 16]
    );
    admission.clear();
    assert_eq!(admission.len(), 0);
}

#[test]
fn requests_are_authorized_by_their_tickets() {
    let signer = TicketSigner::from_seed([9; 32]);
    let ring = verification_ring(&signer);
    let id = peer();
    let tenant = Tenant::new("tenant").unwrap();
    let service =
        ServiceAdvertisementV1::new(orders(), selector(ProtocolClass::Tcp), Health::Ready);
    let fingerprint = service.selector().fingerprint(&tenant);
    let open = open_with(sign(
        &signer,
        &claims_for(id.as_bytes(), [5; 16], fingerprint),
    ));
    let mut admission = ledger(4, 0);
    let mut authorize = |revision: Option<RegistrationRevision>, now: i64, known: bool| {
        let stranger = peer();
        let client = if known { &id } else { &stranger };
        admission.authorize_open(
            &ring, &id, client, &id, &tenant, &service, revision, 30, 2, &open, now, [7; 32],
        )
    };
    let current = RegistrationRevision::new(1);
    assert_eq!(
        authorize(None, 15, true),
        TicketAdmission::Rejected(PublicErrorCode::RegistryStaleRevision)
    );
    assert_eq!(
        authorize(current, 30, true),
        TicketAdmission::Rejected(PublicErrorCode::RegistryStaleRevision)
    );
    assert_eq!(
        authorize(RegistrationRevision::new(2), 15, true),
        TicketAdmission::Rejected(PublicErrorCode::AuthTicketInvalid)
    );
    assert_eq!(
        authorize(current, 15, false),
        TicketAdmission::Rejected(PublicErrorCode::AuthTicketInvalid)
    );
    assert_eq!(
        authorize(current, 25, true),
        TicketAdmission::Rejected(PublicErrorCode::AuthTicketExpired)
    );
    assert!(matches!(
        authorize(current, 15, true),
        TicketAdmission::Authorized(_)
    ));
    assert_eq!(
        authorize(current, 15, true),
        TicketAdmission::Rejected(PublicErrorCode::AuthTicketReplayed)
    );
}

fn local_upstream() -> LocalUpstream {
    LocalUpstream {
        advertisement: ServiceAdvertisementV1::new(
            orders(),
            selector(ProtocolClass::Tcp),
            Health::Ready,
        ),
        connect: SocketAddress {
            ip: IpLiteral::V4([127, 0, 0, 1]),
            port: 1,
        },
        connect_timeout: 10_000_000,
        idle_timeout: 1_000_000_000,
        concurrency_limit: 1,
    }
}

#[test]
fn connect_timeout_is_clipped_to_remaining_setup_budget() {
    let target = local_upstream();
    assert_eq!(timeout_for(&target, 1_000_000), 1_000_000);
}

#[test]
fn connecting_is_classified() {
    let target = local_upstream();
    assert_eq!(timeout_for(&target, 20_000_000), 10_000_000);
    assert_eq!(connect_time(&target, 0), Err(ConnectError::Timeout));
    assert_eq!(connect_time(&target, 5), Ok(5));
    assert_eq!(classify(ConnectOutcome::Connected), Ok(()));
    assert_eq!(
        classify(ConnectOutcome::Refused),
        Err(ConnectError::Failed)
    );
    assert_eq!(
        classify(ConnectOutcome::Cancelled),
        Err(ConnectError::Timeout)
    );
    assert_eq!(hold_fits(2, 1), Err(ConnectError::Timeout));
    assert_eq!(hold_fits(1, 1), Ok(()));
    assert_eq!(
        ConnectError::Failed.code(),
        PublicErrorCode::UpstreamConnectFailed
    );
    assert_eq!(
        ConnectError::Timeout.code(),
        PublicErrorCode::UpstreamConnectTimeout
    );
}

struct Pipeline {
    owner: ServerProxyOwner,
    peer: PeerId,
    tenant: Tenant,
    signer: TicketSigner,
    fingerprint: [u8; 32],
}

fn pipeline() -> Pipeline {
    let mut one = entry("tcp", true);
    one.concurrency_limit = Some(1);
    let config = load(&file(vec![one]));
    let tenant = Tenant::new("tenant").unwrap();
    let fingerprint = config
        .service(&orders())
        .unwrap()
        .selector()
        .fingerprint(&tenant);
    Pipeline {
        owner: ServerProxyOwner::new(ledger(8, 0), Some(config)),
        peer: peer(),
        tenant,
        signer: TicketSigner::from_seed([9; 32]),
        fingerprint,
    }
}

impl Pipeline {
    fn candidate(&self, worker: u64, ticket_id: [u8; 16]) -> Candidate {
        let ticket = sign(
            &self.signer,
            &claims_for(self.peer.as_bytes(), ticket_id, self.fingerprint),
        );
        let open = Ok(open_with(ticket));
        let ring = verification_ring(&self.signer);
        let validation = verify_open(Some(&ring), &open, 0, 15, 14);
        Candidate {
            worker_id: ProxyWorkerId(worker),
            test_deadline_stage: None,
            peer_id: self.peer.clone(),
            connection_id: ConnectionId(1),
            selected_path: ProbePath::Direct,
            deadline: 100,
            open,
            validation,
        }
    }

    fn decide(&mut self, candidate: &Candidate, instant: u64) -> ServerDecision {
        let context = ProxyDecisionContext {
            issuer: &self.peer,
            server: &self.peer,
            tenant: &self.tenant,
            registration_revision: RegistrationRevision::new(1),
            registration_expires_at: 30,
            authorization_revision: 2,
            now: 15,
            instant,
        };
        self.owner.decide(candidate, context)
    }
}

fn refusal_code(decision: ServerDecision) -> PublicErrorCode {
    match decision {
        ServerDecision::Reject(ProxyOpenResponseV1::Rejected { error, .. }) => error.code,
        _ => panic!(),
    }
}

#[test]
fn actual_resolution_ticket_flows_through_server_owner_once() {
    let mut pipeline = pipeline();
    let candidate = pipeline.candidate(1, [5; 16]);
    let (stream_id, admission) = match pipeline.decide(&candidate, 0) {
        ServerDecision::Admit {
            stream_id,
            admission,
            copy_buffer_bytes,
            upstream,
        } => {
            assert_eq!(copy_buffer_bytes, 32 * 1024);
            assert_eq!(upstream.concurrency_limit, 1);
            (stream_id, admission)
        }
        ServerDecision::Reject(_) => panic!(),
    };
    assert_eq!(admission, AdmissionToken::new(stream_id));
    assert_eq!(pipeline.owner.stream_admission().dialing(), 1);
    assert_eq!(pipeline.owner.worker_count(), 1);
    let again = pipeline.candidate(2, [5; 16]);
    assert_eq!(
        refusal_code(pipeline.decide(&again, 0)),
        PublicErrorCode::AuthTicketReplayed
    );
    let more = pipeline.candidate(2, [6; 16]);
    assert_eq!(
        refusal_code(pipeline.decide(&more, 0)),
        PublicErrorCode::LimitProxyStreams
    );
    assert!(pipeline.owner.promote(ProxyWorkerId(1), admission).is_ok());
    assert!(pipeline.owner.promote(ProxyWorkerId(1), admission).is_err());
    assert!(pipeline
        .owner
        .complete(ProxyWorkerId(1), Some(admission))
        .is_ok());
    assert!(pipeline.owner.stream_admission().is_empty());
    assert_eq!(pipeline.owner.worker_count(), 0);
    assert_eq!(
        pipeline.owner.complete(ProxyWorkerId(1), Some(admission)),
        Err("proxy stream admission released more than once")
    );
    assert!(!pipeline.owner.release(admission));
    pipeline.owner.clear_tickets();
    assert!(pipeline.owner.ticket_admission_mut().is_empty());
}

#[test]
fn spent_tickets_are_refused_after_their_streams_end() {
    let mut pipeline = pipeline();
    let first = pipeline.candidate(1, [5; 16]);
    let admission = match pipeline.decide(&first, 0) {
        ServerDecision::Admit { admission, .. } => admission,
        ServerDecision::Reject(_) => panic!(),
    };
    assert!(pipeline.owner.promote(ProxyWorkerId(1), admission).is_ok());
    assert!(pipeline
        .owner
        .complete(ProxyWorkerId(1), Some(admission))
        .is_ok());
    let other = pipeline.candidate(2, [6; 16]);
    let admission = match pipeline.decide(&other, 1) {
        ServerDecision::Admit { admission, .. } => admission,
        ServerDecision::Reject(_) => panic!(),
    };
    assert!(pipeline.owner.release(admission));
    let again = pipeline.candidate(3, [5; 16]);
    assert_eq!(
        refusal_code(pipeline.decide(&again, 2)),
        PublicErrorCode::AuthTicketReplayed
    );
}

#[test]
fn owner_says_why_it_refuses() {
    let mut pipeline = pipeline();
    let late = pipeline.candidate(1, [5; 16]);
    assert_eq!(
        refusal_code(pipeline.decide(&late, 100)),
        PublicErrorCode::PeerSetupTimeout
    );
    let mut unread = pipeline.candidate(1, [5; 16]);
    unread.open = Err(PublicErrorCode::ProtocolMalformed);
    assert_eq!(
        refusal_code(pipeline.decide(&unread, 0)),
        PublicErrorCode::ProtocolMalformed
    );
    let mut unknown = pipeline.candidate(1, [5; 16]);
    if let Ok(open) = &mut unknown.open {
        open.upstream_id = UpstreamId::new("other").unwrap();
    }
    assert_eq!(
        refusal_code(pipeline.decide(&unknown, 0)),
        PublicErrorCode::RegistryNotFound
    );
    let mut unsigned = pipeline.candidate(1, [5; 16]);
    unsigned.validation = Err(PublicErrorCode::AuthTicketInvalid);
    assert_eq!(
        refusal_code(pipeline.decide(&unsigned, 0)),
        PublicErrorCode::AuthTicketInvalid
    );
    let mut stranger = pipeline.candidate(1, [5; 16]);
    stranger.peer_id = peer();
    assert_eq!(
        refusal_code(pipeline.decide(&stranger, 0)),
        PublicErrorCode::AuthTicketInvalid
    );
    let good = pipeline.candidate(1, [5; 16]);
    let context = ProxyDecisionContext {
        issuer: &pipeline.peer,
        server: &pipeline.peer,
        tenant: &pipeline.tenant,
        registration_revision: RegistrationRevision::new(1),
        registration_expires_at: 30,
        authorization_revision: 2,
        now: 15,
        instant: 0,
    };
    assert_eq!(
        refusal_code(pipeline.owner.decide_drawn(
            &good,
            context,
            Err(PublicErrorCode::LimitProxyStreams)
        )),
        PublicErrorCode::LimitProxyStreams
    );
    let mut bare = ServerProxyOwner::new(ledger(1, 0), None);
    let context = ProxyDecisionContext {
        issuer: &pipeline.peer,
        server: &pipeline.peer,
        tenant: &pipeline.tenant,
        registration_revision: None,
        registration_expires_at: 30,
        authorization_revision: 2,
        now: 15,
        instant: 0,
    };
    assert_eq!(
        refusal_code(bare.decide(&good, context)),
        PublicErrorCode::AuthSessionRequired
    );
    bare.stream_admission_mut()
        .reserve(AdmissionToken::new([1; 16]), peer(), orders(), 1)
        .unwrap();
    assert_eq!(bare.stream_admission().len(), 1);
}

#[test]
fn owner_takes_tcp_services_only() {
    let config = load(&file(vec![entry("http", true)]));
    let mut pipeline = pipeline();
    pipeline.fingerprint = config
        .service(&orders())
        .unwrap()
        .selector()
        .fingerprint(&pipeline.tenant);
    pipeline.owner = ServerProxyOwner::new(ledger(8, 0), Some(config));
    let candidate = pipeline.candidate(1, [5; 16]);
    assert_eq!(
        refusal_code(pipeline.decide(&candidate, 0)),
        PublicErrorCode::ProtocolCapabilityMismatch
    );
}

#[test]
fn tickets_are_verified_before_the_owner_sees_them() {
    let pipeline = pipeline();
    let open: Result<OpenProxyStreamV1, PublicErrorCode> = Ok(open_with(sign(
        &pipeline.signer,
        &claims_for(pipeline.peer.as_bytes(), [5; 16], [3; 32]),
    )));
    let code = |r: Result<ValidationCandidate, PublicErrorCode>| match r {
        Err(code) => code,
        Ok(_) => panic!(),
    };
    assert_eq!(
        code(verify_open(None, &open, 0, 15, 0)),
        PublicErrorCode::AuthSessionRequired
    );
    let ring = verification_ring(&pipeline.signer);
    assert_eq!(
        code(verify_open(Some(&ring), &open, 0, 15, 25)),
        PublicErrorCode::AuthTicketExpired
    );
    assert_eq!(
        code(verify_open(
            Some(&ring),
            &Err(PublicErrorCode::ExchangeDraining),
            0,
            15,
            0
        )),
        PublicErrorCode::ProtocolMalformed
    );
    assert!(verify_open(Some(&ring), &open, 0, 15, 0).is_ok());
    assert!(matches!(
        open_outcome(OpenRead::Cancelled),
        Err(PublicErrorCode::ExchangeDraining)
    ));
    assert!(matches!(
        open_outcome(OpenRead::TimedOut),
        Err(PublicErrorCode::ProtocolMalformed)
    ));
}

fn grant() -> Grant {
    Grant {
        stream_id: [8; 16],
        admission: AdmissionToken::new([8; 16]),
        connect_timeout: 3_000_000_000,
        idle_timeout: 1_000_000_000,
        copy_buffer_bytes: 4096,
    }
}

#[test]
fn workers_run_from_request_to_end() {
    let mut worker = ProxyWorker::new(100, None, None, None, None);
    assert_eq!(worker.deadline(), 5_000_000_100);
    let steps = [
        (
            WorkerEvent::Opened(Some([1; 16])),
            WorkerAction::Submit,
        ),
        (WorkerEvent::Submitted(true), WorkerAction::AwaitDecision),
        (
            WorkerEvent::Decided(Verdict::Granted(grant())),
            WorkerAction::Dial,
        ),
        (
            WorkerEvent::Dialed(Ok(())),
            WorkerAction::Promote(AdmissionToken::new([8; 16])),
        ),
        (WorkerEvent::Promoted(true), WorkerAction::Reserve),
        (
            WorkerEvent::Reserved(true),
            WorkerAction::WriteAccepted(ProxyOpenResponseV1::Accepted {
                request_id: [1; 16],
                stream_id: [8; 16],
                selected_upstream_mode: UpstreamMode::Tcp,
            }),
        ),
        (
            WorkerEvent::Written(true),
            WorkerAction::Pump {
                setup_duration: 50,
                request_id_hash: hash_id(&[1; 16]),
                stream_id_hash: hash_id(&[8; 16]),
                grant: grant(),
            },
        ),
    ];
    for (event, action) in steps {
        let step = worker.step(event, false, 150);
        assert_eq!(step.action, action);
        assert_eq!(step.fault, None);
    }
    let result = PumpResult {
        terminal: Terminal::IdleTimeout,
        local_to_remote_bytes: 1,
        remote_to_local_bytes: 2,
        local_eof: true,
        remote_eof: false,
        duration: 7_000_000,
    };
    match worker.step(WorkerEvent::Pumped(Some(result)), false, 900).action {
        WorkerAction::Finish(ending) => {
            assert!(ending.accepted);
            assert_eq!(ending.setup_duration, 50);
            assert_eq!(ending.code, Some(PublicErrorCode::UpstreamIdleTimeout));
            assert_eq!(ending.pump, Some(result));
            assert_eq!(ending.admission, AdmissionToken::new([8; 16]));
        }
        _ => panic!(),
    }
    assert_eq!(worker.phase, WorkerPhase::Finished);
    assert_eq!(
        worker.step(WorkerEvent::Written(true), false, 900).action,
        WorkerAction::Ignore
    );
}

#[test]
fn workers_report_what_went_wrong() {
    let mut worker = ProxyWorker::new(0, None, None, None, None);
    worker.step(WorkerEvent::Opened(Some([1; 16])), false, 1);
    worker.step(WorkerEvent::Submitted(true), false, 2);
    worker.step(WorkerEvent::Decided(Verdict::Granted(grant())), false, 3);
    assert_eq!(
        worker
            .step(WorkerEvent::Dialed(Err(ConnectError::Failed)), false, 4)
            .action,
        WorkerAction::Reply(rejection(
            Some([1; 16]),
            PublicErrorCode::UpstreamConnectFailed
        ))
    );
    match worker.step(WorkerEvent::Written(false), false, 5).action {
        WorkerAction::Finish(ending) => {
            assert!(!ending.accepted);
            assert_eq!(ending.code, Some(PublicErrorCode::UpstreamConnectFailed));
            assert_eq!(ending.admission, AdmissionToken::new([8; 16]));
            assert_eq!(ending.stream_id_hash, Some(hash_id(&[8; 16])));
            assert_eq!(ending.setup_duration, 5);
        }
        _ => panic!(),
    }
    let mut unsent = ProxyWorker::new(0, None, None, None, None);
    unsent.step(WorkerEvent::Opened(None), false, 1);
    match unsent.step(WorkerEvent::Submitted(false), true, 2).action {
        WorkerAction::Finish(ending) => {
            assert_eq!(ending.code, Some(PublicErrorCode::PeerDraining));
            assert_eq!(ending.request_id_hash, 0);
            assert!(ending.admission.is_empty());
        }
        _ => panic!(),
    }
    let mut undecided = ProxyWorker::new(0, None, None, None, None);
    undecided.step(WorkerEvent::Opened(Some([1; 16])), false, 1);
    undecided.step(WorkerEvent::Submitted(true), false, 2);
    assert_eq!(
        undecided
            .step(WorkerEvent::Decided(Verdict::Missing), false, 3)
            .action,
        WorkerAction::Reply(rejection(
            Some([1; 16]),
            PublicErrorCode::PeerSetupTimeout
        ))
    );
    assert_eq!(
        transition_failure_code(false),
        PublicErrorCode::PeerSetupTimeout
    );
}

#[test]
fn workers_can_be_held_up() {
    let mut worker = ProxyWorker::new(
        0,
        Some(TestDeadlineStage::Verification),
        Some(30),
        None,
        Some(4_000),
    );
    let step = worker.step(WorkerEvent::Opened(Some([1; 16])), false, 1);
    assert_eq!(step.fault, Some(TestDeadlineStage::Verification));
    assert_eq!(step.action, WorkerAction::Hold(30));
    assert_eq!(
        worker.step(WorkerEvent::Held(true), false, 2).action,
        WorkerAction::Submit
    );
    worker.step(WorkerEvent::Submitted(true), false, 3);
    assert_eq!(
        worker
            .step(WorkerEvent::Decided(Verdict::Granted(grant())), false, 4)
            .action,
        WorkerAction::Pause(4_000)
    );
    assert_eq!(
        worker.step(WorkerEvent::Paused(Ok(())), false, 5).action,
        WorkerAction::Reply(rejection(
            Some([1; 16]),
            PublicErrorCode::UpstreamConnectTimeout
        ))
    );
    for (stage, events) in [
        (TestDeadlineStage::UpstreamDial, 3),
        (TestDeadlineStage::Promotion, 4),
        (TestDeadlineStage::AcceptedWrite, 6),
    ] {
        let mut worker = ProxyWorker::new(0, Some(stage), Some(30), None, None);
        let all = [
            WorkerEvent::Opened(Some([1; 16])),
            WorkerEvent::Submitted(true),
            WorkerEvent::Decided(Verdict::Granted(grant())),
            WorkerEvent::Dialed(Ok(())),
            WorkerEvent::Promoted(true),
            WorkerEvent::Reserved(true),
        ];
        let mut last = None;
        for event in &all[..events] {
            last = Some(worker.step(*event, false, 1));
        }
        assert_eq!(last.unwrap().fault, Some(stage));
        assert_eq!(last.unwrap().action, WorkerAction::Hold(30));
    }
    assert_eq!(hold_time(5, 3), 3);
    assert!(!hold_completes(5, 3, false));
    assert!(!hold_completes(3, 5, true));
    assert!(hold_completes(3, 5, false));
    assert_ne!(random_stream_id().unwrap(), random_stream_id().unwrap());
}

#[test]
fn verdicts_carry_what_was_decided() {
    let decision = ServerDecision::Admit {
        stream_id: [8; 16],
        admission: AdmissionToken::new([8; 16]),
        upstream: local_upstream(),
        copy_buffer_bytes: 4096,
    };
    assert_eq!(
        verdict_of(&decision),
        Verdict::Granted(Grant {
            connect_timeout: 10_000_000,
            ..grant()
        })
    );
    let response = rejection(None, PublicErrorCode::RegistryOffline);
    assert_eq!(
        verdict_of(&ServerDecision::Reject(response)),
        Verdict::Rejected(response)
    );
}

#[test]
fn finished_workers_give_their_stream_back() {
    let mut admission = StreamAdmission::new(4, 4, 4);
    let token = AdmissionToken::new([8; 16]);
    admission.reserve(token, peer(), orders(), 4).unwrap();
    let (mut table, id) = worker_table();
    table.attach_admission(id, token).unwrap();
    let record = table.get(id).unwrap();
    let ending = p2x::proxy_open::Ending {
        setup_duration: 5_000_000,
        admission: token,
        request_id_hash: 1,
        stream_id_hash: Some(2),
        accepted: true,
        code: None,
        pump: Some(PumpResult {
            terminal: Terminal::Complete,
            local_to_remote_bytes: 10,
            remote_to_local_bytes: 20,
            local_eof: true,
            remote_eof: true,
            duration: 9_000_000,
        }),
    };
    let release = release_of(id, &record, ending);
    let report = finish_proxy_worker(&release, &mut table, &mut admission).unwrap();
    assert_eq!(report.accepted.unwrap().setup_duration_ms, 5);
    let terminal = report.terminal.unwrap();
    assert_eq!(terminal.terminal_class, TunnelTerminalClass::Complete);
    assert_eq!(terminal.duration_ms, 9);
    assert_eq!(terminal.remote_to_local_bytes, 20);
    assert!(report.refused.is_none());
    assert!(admission.is_empty());
    assert_eq!(
        finish_proxy_worker(&release, &mut table, &mut admission),
        Err("proxy worker completion missing owner")
    );
    assert_eq!(
        finish_proxy_worker_record(&release, &record, &mut admission),
        Err("proxy stream admission released more than once")
    );
}

#[test]
fn lost_workers_are_reported_as_refused() {
    let (mut table, id) = worker_table();
    let record = table.remove(id).unwrap();
    let release = lost_release(id, &record);
    let mut admission = StreamAdmission::new(4, 4, 4);
    let report = finish_proxy_worker_record(&release, &record, &mut admission).unwrap();
    assert!(report.terminal.is_none());
    assert_eq!(
        report.refused.unwrap().code,
        PublicErrorCode::PeerConnectionFailed
    );
    let mut odd = lost_release(id, &record);
    odd.accepted = true;
    assert_eq!(
        finish_proxy_worker_record(&odd, &record, &mut admission),
        Err("accepted worker missing stream ID")
    );
    assert_eq!(
        proxy_terminal_class(Terminal::RemoteIo),
        TunnelTerminalClass::RemoteIo
    );
    assert_eq!(hex(&[1]), "01");
}

#[test]
fn cursor_walks_round_the_addresses() {
    let mut cursor = AddressCursor::new();
    assert_eq!(cursor.next(0), None);
    let walked: Vec<_> = (0..7).map(|_| cursor.next(3).unwrap()).collect();
    assert_eq!(walked, vec![0, 1, 2, 0, 1, 2, 0]);
    assert_eq!(cursor.next(1), Some(0));
}

#[test]
fn redials_come_later_every_time_and_once_each() {
    let mut redial = RedialBackoff::new();
    assert!(!redial.take_due(i64::MAX));
    redial.schedule(1_000, 0);
    assert!(!redial.take_due(1_249));
    assert!(redial.take_due(1_250));
    assert!(!redial.take_due(1_250));
    redial.schedule(1_000, 100);
    assert!(!redial.take_due(1_549));
    assert!(redial.take_due(1_550));
    redial.reset();
    redial.schedule(1_000, -100);
    assert!(!redial.take_due(1_224));
    assert!(redial.take_due(1_225));
    redial.schedule(i64::MAX, 0);
    assert!(redial.take_due(i64::MAX));
}

#[test]
fn only_the_last_connection_ends_the_link() {
    let mut connections = ExchangeConnections::new();
    assert_eq!(connections.closed(ConnectionId(1)), ConnectionLoss::Unknown);
    connections.established(ConnectionId(1));
    connections.established(ConnectionId(2));
    connections.established(ConnectionId(2));
    assert_eq!(connections.closed(ConnectionId(3)), ConnectionLoss::Unknown);
    assert_eq!(connections.closed(ConnectionId(2)), ConnectionLoss::Remaining);
    assert_eq!(connections.closed(ConnectionId(1)), ConnectionLoss::Final);
    assert_eq!(connections.closed(ConnectionId(1)), ConnectionLoss::Unknown);
}

#[test]
fn one_request_is_pending_at_a_time() {
    let mut pending = PendingRequest::new();
    assert!(!pending.complete(1));
    assert!(pending.begin(1));
    assert!(!pending.begin(2));
    assert!(!pending.complete(2));
    assert!(pending.complete(1));
    assert!(!pending.complete(1));
    assert!(pending.begin(3));
    pending.clear();
    assert!(!pending.complete(3));
}

#[test]
fn a_session_is_current_while_it_is_served_and_not_expired() {
    let session = Some(ExchangeSession {
        session_id: [2; 16],
        tenant: Tenant::new("tenant").unwrap(),
        authorization_revision: 1,
        expires_at: 100,
    });
    let mut auth = AuthState::new();
    assert!(current_session(&auth, &session, 99).is_none());
    auth.connected([1; 16], 0);
    auth.authenticated([1; 16], [2; 16], [3; 16], 7, 1);
    assert!(current_session(&auth, &session, 99).is_none());
    auth.pong([3; 16], 7);
    assert_eq!(current_session(&auth, &session, 99).unwrap().session_id, [2; 16]);
    assert!(current_session(&auth, &session, 100).is_none());
    assert!(current_session(&auth, &None, 99).is_none());
}

fn signed_in() -> (AuthState, Option<ExchangeSession>) {
    let mut auth = AuthState::new();
    auth.connected([1; 16], 0);
    auth.authenticated([1; 16], [2; 16], [3; 16], 7, 1);
    auth.pong([3; 16], 7);
    let session = ExchangeSession {
        session_id: [2; 16],
        tenant: Tenant::new("tenant").unwrap(),
        authorization_revision: 2,
        expires_at: 100,
    };
    (auth, Some(session))
}

fn reserved() -> ReservationContext {
    let (peer, connection, listener) = (peer(), ConnectionId(1), ListenerId(1));
    let mut reservation = ReservationContext::new(0);
    for event in [
        ReservationEvent::GenerationStarted {
            generation: 4,
            peer_id: peer.clone(),
            connection_id: connection,
        },
        ReservationEvent::ReservationAccepted {
            generation: 4,
            peer_id: peer.clone(),
            connection_id: connection,
            listener_id: listener,
            renewal: false,
        },
        ReservationEvent::RelayAddressConfirmed {
            generation: 4,
            peer_id: peer.clone(),
            connection_id: connection,
            listener_id: listener,
            address: Address::parse("/ip4/127.0.0.1/tcp/1/p2p-circuit").unwrap(),
        },
    ] {
        reservation.apply(event, 0).unwrap();
    }
    assert!(reservation.is_ready());
    reservation
}

fn registered_client(availability: &mut Availability) -> RegistrationClient {
    let mut client = RegistrationClient::new();
    client.begin(operation(RegistryOperationKind::Register));
    let registered = RegistryResponseV1::Registered {
        request_id: [1; 16],
        instance_id: InstanceId::new([3; 16]),
        registration_revision: RegistrationRevision::new(1).unwrap(),
        service_set_hash: [5; 32],
        expires_at: 30,
        effective_lease_seconds: 20,
    };
    let mut ids = CorrelationIdGenerator::new(5);
    assert_eq!(
        client.on_response(&registered, &context(None), availability, &mut ids),
        Ok(ResponseOutcome::Registered)
    );
    client
}

#[test]
fn streams_are_served_under_a_session_and_a_registration() {
    let mut pipeline = pipeline();
    let server = pipeline.peer.clone();
    let (auth, session) = signed_in();
    let client = registered_client(&mut ready_server());
    let served = |has_keys: bool, auth: &AuthState, client: &RegistrationClient, now: i64| {
        serving(has_keys, auth, &session, client, &server, &server, now, 0).is_some()
    };
    assert!(served(true, &auth, &client, 29));
    assert!(!served(false, &auth, &client, 29));
    assert!(!served(true, &AuthState::new(), &client, 29));
    assert!(!served(true, &auth, &RegistrationClient::new(), 29));
    assert!(!served(true, &auth, &client, 30));
    assert!(serving(true, &auth, &None, &client, &server, &server, 15, 0).is_none());

    let candidate = pipeline.candidate(1, [5; 16]);
    assert_eq!(
        refusal_code(pipeline.owner.decide_serving(&candidate, None, 99)),
        PublicErrorCode::AuthSessionRequired
    );
    assert_eq!(
        refusal_code(pipeline.owner.decide_serving(&candidate, None, 100)),
        PublicErrorCode::PeerSetupTimeout
    );
    let broken = Candidate {
        open: Err(PublicErrorCode::ProtocolMalformed),
        ..pipeline.candidate(1, [5; 16])
    };
    let ServerDecision::Reject(ProxyOpenResponseV1::Rejected { request_id, error }) =
        pipeline.owner.decide_serving(&broken, None, 100)
    else {
        panic!("a refusal");
    };
    assert_eq!((request_id, error.code), (None, PublicErrorCode::ProtocolMalformed));
    assert!(pipeline.owner.ticket_admission_mut().is_empty());
    assert_eq!(pipeline.owner.worker_count(), 0);

    let context = serving(true, &auth, &session, &client, &server, &server, 15, 0);
    assert!(matches!(
        pipeline.owner.decide_serving(&candidate, context, 0),
        ServerDecision::Admit { .. }
    ));
    assert_eq!(pipeline.owner.worker_count(), 1);
}

#[test]
fn owners_take_back_what_finished_workers_held() {
    let mut pipeline = pipeline();
    let mut table = ProxyWorkerTable::default();
    let id = table.insert(pipeline.peer.clone(), ConnectionId(1), ProbePath::Direct);
    let candidate = Candidate {
        worker_id: id,
        ..pipeline.candidate(0, [5; 16])
    };
    let ServerDecision::Admit { admission, .. } = pipeline.decide(&candidate, 0) else {
        panic!("admitted");
    };
    table.attach_admission(id, admission).unwrap();
    let record = table.remove(id).unwrap();
    let release = lost_release(id, &record);
    let report = finish_worker(&mut pipeline.owner, &release, &record).unwrap();
    assert_eq!(
        report.refused.unwrap().code,
        PublicErrorCode::PeerConnectionFailed
    );
    assert_eq!(pipeline.owner.worker_count(), 0);
    assert!(pipeline.owner.stream_admission().is_empty());
    assert_eq!(
        finish_worker(&mut pipeline.owner, &release, &record),
        Err("proxy stream admission released more than once")
    );
    let (mut idle, spare) = worker_table();
    let unused = idle.remove(spare).unwrap();
    let mut odd = lost_release(spare, &unused);
    odd.accepted = true;
    assert_eq!(
        finish_worker(&mut pipeline.owner, &odd, &unused),
        Err("accepted worker missing stream ID")
    );

    let again = Candidate {
        worker_id: spare,
        ..pipeline.candidate(0, [6; 16])
    };
    assert!(matches!(pipeline.decide(&again, 0), ServerDecision::Admit { .. }));
    let (mut strange, same) = worker_table();
    assert_eq!(same, spare);
    strange.attach_admission(same, AdmissionToken::new([7; 16])).unwrap();
    let mistaken = strange.remove(same).unwrap();
    assert_eq!(
        finish_worker(&mut pipeline.owner, &lost_release(same, &mistaken), &mistaken),
        Err("proxy worker admission release correlation mismatch")
    );
    assert_eq!(pipeline.owner.worker_count(), 0);
    assert!(!pipeline.owner.stream_admission().is_empty());
}

#[test]
fn registrations_are_backed_by_a_reservation_and_a_session() {
    let services = load(&file(vec![entry("tcp", true)]));
    let (auth, session) = signed_in();
    let ready = reserved();
    let blank = ReservationContext::new(0);
    let signed_out = AuthState::new();
    let standing = |has_exchange, auth, reservation, services, now| Standing {
        has_exchange,
        auth,
        session: &session,
        reservation,
        services,
        instance_id: InstanceId::new([3; 16]),
        now,
    };
    let mut ids = CorrelationIdGenerator::new(5);
    let mut client = RegistrationClient::new();
    for unbacked in [
        standing(false, &auth, &ready, Some(&services), 10),
        standing(true, &signed_out, &ready, Some(&services), 10),
        standing(true, &auth, &blank, Some(&services), 10),
        standing(true, &auth, &ready, None, 10),
        standing(true, &auth, &ready, Some(&services), 100),
    ] {
        assert!(matches!(client.next_registration(&unbacked, &mut ids), Ok(None)));
        assert!(matches!(client.first_registration(&unbacked, &mut ids), Ok(None)));
    }
    let backed = standing(true, &auth, &ready, Some(&services), 10);
    assert!(matches!(client.next_withdrawal(&backed, &mut ids), Ok(None)));
    let first = client.next_registration(&backed, &mut ids).unwrap().unwrap();
    assert_eq!(first.reservation_generation, 4);
    assert_eq!(first.expected_service_set_hash, services.service_set_hash);
    assert!(matches!(
        first.request,
        RegistryRequestV1::Register { session_id, .. } if session_id == [2; 16]
    ));
    client.begin(first);
    assert!(matches!(client.next_registration(&backed, &mut ids), Ok(None)));

    let registered = registered_client(&mut ready_server());
    assert!(matches!(registered.first_registration(&backed, &mut ids), Ok(None)));
    assert!(matches!(registered.next_registration(&backed, &mut ids), Ok(Some(_))));
    let withdrawal = registered.next_withdrawal(&backed, &mut ids).unwrap().unwrap();
    assert!(matches!(
        withdrawal.request,
        RegistryRequestV1::Withdraw { expected_registration_revision, .. }
            if Some(expected_registration_revision) == RegistrationRevision::new(1)
    ));
    let answer = |request_id, instance| RegistryResponseV1::Withdrawn {
        request_id,
        instance_id: InstanceId::new(instance),
        registration_revision: RegistrationRevision::new(1).unwrap(),
    };
    let instance = InstanceId::new([3; 16]);
    let asked = withdrawal.request_id();
    assert!(withdrawal.withdrawn_by(&answer(asked, [3; 16]), &instance));
    assert!(!withdrawal.withdrawn_by(&answer(asked, [4; 16]), &instance));
    assert!(!withdrawal.withdrawn_by(&answer([9; 16], [3; 16]), &instance));
    assert!(!withdrawal.withdrawn_by(&refused(PublicErrorCode::RegistryOffline), &instance));
    let mut none_left = CorrelationIdGenerator::new(u128::MAX);
    none_left.allocate().unwrap();
    assert!(registered.next_withdrawal(&backed, &mut none_left).is_err());
}

#[test]
fn registrations_are_kept_as_time_passes() {
    let services = load(&file(vec![entry("tcp", true)]));
    let (auth, session) = signed_in();
    let ready = reserved();
    let standing = |now| Standing {
        has_exchange: true,
        auth: &auth,
        session: &session,
        reservation: &ready,
        services: Some(&services),
        instance_id: InstanceId::new([3; 16]),
        now,
    };
    let mut ids = CorrelationIdGenerator::new(5);
    let mut availability = ready_server();
    let mut client = registered_client(&mut availability);
    let quiet = client
        .on_tick(&mut availability, &standing(11), 11_000, &mut ids)
        .unwrap();
    assert!(!quiet.lapsed && quiet.refresh.is_none() && !quiet.again);
    let due = client
        .on_tick(&mut availability, &standing(25), 25_000, &mut ids)
        .unwrap();
    assert!(matches!(
        due.refresh.unwrap().request,
        RegistryRequestV1::Refresh { expected_registration_revision, .. }
            if Some(expected_registration_revision) == RegistrationRevision::new(1)
    ));
    let over = client
        .on_tick(&mut availability, &standing(30), 30_000, &mut ids)
        .unwrap();
    assert!(over.lapsed && over.refresh.is_none());
    assert_eq!(client.expires_at(), 0);
    assert!(!availability.readiness(30).registration);
    let after = client
        .on_tick(&mut availability, &standing(31), 31_000, &mut ids)
        .unwrap();
    assert!(!after.lapsed);

    client.begin(operation(RegistryOperationKind::Register));
    client.on_failure(&mut availability, 31_000, 0);
    let waiting = client
        .on_tick(&mut availability, &standing(31), 31_000, &mut ids)
        .unwrap();
    assert!(!waiting.again);
    let again = client
        .on_tick(&mut availability, &standing(99), 99_000, &mut ids)
        .unwrap();
    assert!(again.again);
    client.on_reservation_lost(&mut availability);
    assert!(client.idle() && client.revision().is_none());
    assert!(!availability.readiness(31).reservation);
    let lost = client
        .on_tick(&mut availability, &standing(99), 99_000, &mut ids)
        .unwrap();
    assert!(!lost.again);

    let mut availability = ready_server();
    let mut client = registered_client(&mut availability);
    client.on_session_lost(&mut availability);
    assert!(client.idle() && client.revision().is_none());
    assert!(!availability.readiness(11).auth);
}

#[test]
fn reservations_are_asked_for_once() {
    assert!(reservation_due(false, true, false, true, true));
    assert!(reservation_due(true, false, false, true, true));
    assert!(!reservation_due(false, false, false, true, true));
    assert!(!reservation_due(false, true, true, true, true));
    assert!(!reservation_due(false, true, false, false, true));
    assert!(!reservation_due(true, true, false, true, false));
}
