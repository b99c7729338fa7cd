//! Who may open streams to the upstreams of a server, and which streams are
//! open.
use crate::auth_state::{AuthModel, AuthState};
use crate::error::{PublicError, PublicErrorCode};
use crate::exchange_link::{current_session, ExchangeSession};
use crate::ids::{RegistrationRevision, Tenant};
use crate::peer::{ConnectionId, PeerId};
use crate::probe::ProbePath;
use crate::proxy::{OpenModel, ProxyOpenResponseV1};
use crate::proxy_open::{
    open_model, validation_model, Candidate, DecisionModel, ServerDecision,
};
use crate::registry::{Health, ServiceModel};
use crate::registry_operation::{ClientModel, RegistrationClient};
use crate::selector::ProtocolClass;
use crate::service_config::{service_named, ConfigModel, ServiceConfig, UpstreamModel};
use crate::stream_admission::{no_stream, AdmissionModel, AdmissionToken, StreamAdmission};
use crate::table::{Key, Table};
use crate::ticket_admission::{
    drawable, in_order, law_used_tickets_are_remembered, BindingModel, CandidateModel, LedgerCall,
    LedgerModel, TicketAdmission, TicketAdmissionLedger,
};
use vstd::prelude::*;

verus! {

/// The number of a worker.
#[derive(Clone, Copy, Debug, PartialEq, Eq, Hash, Structural)]
pub struct ProxyWorkerId(pub u64);

impl View for ProxyWorkerId {
    type V = u64;

    open spec fn view(&self) -> u64 {
        self.0
    }
}

impl Key for ProxyWorkerId {
    fn same(&self, other: &Self) -> (r: bool) {
        self.0 == other.0
    }
}

/// What is known of a worker. Durations are nanoseconds.
pub struct WorkerRecord {
    pub peer_id: PeerId,
    pub connection_id: ConnectionId,
    pub selected_path: ProbePath,
    pub admission: Option<AdmissionToken>,
    pub accepted: bool,
    pub setup_duration: u64,
    pub request_id_hash: u64,
    pub stream_id_hash: Option<u64>,
}

/// What is known of a worker, as the contracts see it.
#[verifier::ext_equal]
pub struct RecordModel {
    pub peer_id: Seq<u8>,
    pub connection_id: ConnectionId,
    pub selected_path: ProbePath,
    pub admission: Option<Seq<u8>>,
    pub accepted: bool,
    pub setup_duration: u64,
    pub request_id_hash: u64,
    pub stream_id_hash: Option<u64>,
}

/// The stream of a token.
pub open spec fn token_model(token: Option<AdmissionToken>) -> Option<Seq<u8>> {
    match token {
        Some(token) => Some(token@),
        None => None,
    }
}

impl View for WorkerRecord {
    type V = RecordModel;

    open spec fn view(&self) -> RecordModel {
        RecordModel {
            peer_id: self.peer_id@,
            connection_id: self.connection_id,
            selected_path: self.selected_path,
            admission: token_model(self.admission),
            accepted: self.accepted,
            setup_duration: self.setup_duration,
            request_id_hash: self.request_id_hash,
            stream_id_hash: self.stream_id_hash,
        }
    }
}

impl Clone for WorkerRecord {
    fn clone(&self) -> (r: Self)
        ensures
            r@ == self@,
    {
        WorkerRecord {
            peer_id: self.peer_id.clone(),
            connection_id: self.connection_id,
            selected_path: self.selected_path,
            admission: self.admission,
            accepted: self.accepted,
            setup_duration: self.setup_duration,
            request_id_hash: self.request_id_hash,
            stream_id_hash: self.stream_id_hash,
        }
    }
}

/// The workers of a server.
#[verifier::ext_equal]
pub struct WorkerTableModel {
    pub next_id: u64,
    pub workers: Map<u64, RecordModel>,
}

impl WorkerTableModel {
    /// The number that the next worker gets.
    pub open spec fn coming(self) -> u64 {
        if self.next_id == u64::MAX {
            u64::MAX
        } else {
            (self.next_id + 1) as u64
        }
    }

    /// Whether a worker can be given a stream.
    pub open spec fn attachable(self, id: u64, admission: AdmissionToken) -> bool {
        self.workers.contains_key(id) && self.workers[id].admission is None && admission@
            != crate::stream_admission::no_stream()
    }

    /// Whether the stream of a worker can be accepted.
    pub open spec fn acceptable(self, id: u64) -> bool {
        self.workers.contains_key(id) && !self.workers[id].accepted && self.workers[id].admission is Some
    }

    /// With another record of a worker.
    pub open spec fn with(self, id: u64, record: RecordModel) -> Self {
        WorkerTableModel { workers: self.workers.insert(id, record), ..self }
    }
}

/// The workers of a server.
pub struct ProxyWorkerTable {
    next_id: u64,
    workers: Table<ProxyWorkerId, WorkerRecord>,
}

impl View for ProxyWorkerTable {
    type V = WorkerTableModel;

    closed spec fn view(&self) -> WorkerTableModel {
        WorkerTableModel { next_id: self.next_id, workers: self.workers@ }
    }
}

impl Default for ProxyWorkerTable {
    fn default() -> (r: Self)
        ensures
            r@ == (WorkerTableModel { next_id: 0, workers: Map::empty() }),
    {
        ProxyWorkerTable { next_id: 0, workers: Table::new() }
    }
}

impl ProxyWorkerTable {
    /// A new worker.
    pub fn insert(&mut self, peer_id: PeerId, connection_id: ConnectionId, selected_path: ProbePath) -> (r:
        ProxyWorkerId)
        ensures
            r@ == old(self)@.coming(),
            final(self)@ == (WorkerTableModel {
                next_id: old(self)@.coming(),
                workers: old(self)@.workers.insert(
                    old(self)@.coming(),
                    RecordModel {
                        peer_id: peer_id@,
                        connection_id,
                        selected_path,
                        admission: None,
                        accepted: false,
                        setup_duration: 0,
                        request_id_hash: 0,
                        stream_id_hash: None,
                    },
                ),
            }),
    {
        self.next_id = self.next_id.saturating_add(1);
        let id = ProxyWorkerId(self.next_id);
        self.workers.insert(
            id,
            WorkerRecord {
                peer_id,
                connection_id,
                selected_path,
                admission: None,
                accepted: false,
                setup_duration: 0,
                request_id_hash: 0,
                stream_id_hash: None,
            },
        );
        id
    }

    /// Gives a worker its stream. It gets one.
    pub fn attach_admission(&mut self, id: ProxyWorkerId, admission: AdmissionToken) -> (r: Result<
        (),
        &'static str,
    >)
        ensures
            match r {
                Ok(()) => old(self)@.attachable(id@, admission) && final(self)@ == old(self)@.with(
                    id@,
                    RecordModel { admission: Some(admission@), ..old(self)@.workers[id@] },
                ),
                Err(text) => !old(self)@.attachable(id@, admission) && final(self)@ == old(self)@
                    && text@ == if old(self)@.workers.contains_key(id@) {
                    "proxy worker admission already attached"@
                } else {
                    "proxy worker missing"@
                },
            },
    {
        match self.workers.get(&id) {
            None => return Err("proxy worker missing"),
            Some(record) => if record.admission.is_some() || admission.is_empty() {
                return Err("proxy worker admission already attached");
            },
        }
        if let Some(mut record) = self.workers.remove(&id) {
            record.admission = Some(admission);
            self.workers.insert(id, record);
        }
        assert(self@.workers =~= old(self)@.with(
            id@,
            RecordModel { admission: Some(admission@), ..old(self)@.workers[id@] },
        ).workers);
        Ok(())
    }

    /// The stream of a worker was accepted. It is accepted once.
    pub fn mark_accepted(
        &mut self,
        id: ProxyWorkerId,
        setup_duration: u64,
        request_id_hash: u64,
        stream_id_hash: u64,
    ) -> (r: Result<(), &'static str>)
        ensures
            match r {
                Ok(()) => old(self)@.acceptable(id@) && final(self)@ == old(self)@.with(
                    id@,
                    RecordModel {
                        accepted: true,
                        setup_duration,
                        request_id_hash,
                        stream_id_hash: Some(stream_id_hash),
                        ..old(self)@.workers[id@]
                    },
                ),
                Err(text) => !old(self)@.acceptable(id@) && final(self)@ == old(self)@ && text@
                    == if old(self)@.workers.contains_key(id@) {
                    "proxy worker cannot be accepted"@
                } else {
                    "proxy worker missing"@
                },
            },
    {
        match self.workers.get(&id) {
            None => return Err("proxy worker missing"),
            Some(record) => if record.accepted || record.admission.is_none() {
                return Err("proxy worker cannot be accepted");
            },
        }
        if let Some(mut record) = self.workers.remove(&id) {
            record.accepted = true;
            record.setup_duration = setup_duration;
            record.request_id_hash = request_id_hash;
            record.stream_id_hash = Some(stream_id_hash);
            self.workers.insert(id, record);
        }
        assert(self@.workers =~= old(self)@.with(
            id@,
            RecordModel {
                accepted: true,
                setup_duration,
                request_id_hash,
                stream_id_hash: Some(stream_id_hash),
                ..old(self)@.workers[id@]
            },
        ).workers);
        Ok(())
    }

    pub fn get(&self, id: ProxyWorkerId) -> (r: Option<WorkerRecord>)
        ensures
            match r {
                Some(record) => self@.workers.contains_key(id@) && record@ == self@.workers[id@],
                None => !self@.workers.contains_key(id@),
            },
    {
        match self.workers.get(&id) {
            Some(record) => Some(record.clone()),
            None => None,
        }
    }

    pub fn remove(&mut self, id: ProxyWorkerId) -> (r: Option<WorkerRecord>)
        ensures
            match r {
                Some(record) => old(self)@.workers.contains_key(id@) && record@
                    == old(self)@.workers[id@],
                None => !old(self)@.workers.contains_key(id@),
            },
            final(self)@ == (WorkerTableModel {
                workers: old(self)@.workers.remove(id@),
                ..old(self)@
            }),
    {
        self.workers.remove(&id)
    }

    pub fn len(&self) -> (r: usize)
        ensures
            r == self@.workers.len(),
    {
        self.workers.len()
    }

    pub fn is_empty(&self) -> (r: bool)
        ensures
            r == (self@.workers.len() == 0),
    {
        self.workers.len() == 0
    }

    /// The numbers of the workers, each once, in no particular order.
    pub fn ids(&self) -> (r: Vec<ProxyWorkerId>)
        ensures
            r@.len() == self@.workers.len(),
            forall|i: int| 0 <= i < r@.len() ==> self@.workers.contains_key((#[trigger] r@[i])@),
            forall|i: int, j: int| 0 <= i < j < r@.len() ==> (#[trigger] r@[i])@ != (#[trigger] r@[j])@,
    {
        let count: usize = self.workers.len();
        let mut ids: Vec<ProxyWorkerId> = Vec::new();
        let mut i: usize = 0;
        while i < count
            invariant
                i <= count,
                count == self.workers@.len(),
                ids@.len() == i,
                forall|j: int| 0 <= j < i ==> (#[trigger] ids@[j])@ == self.workers.key_model(j),
                forall|j: int| 0 <= j < i ==> self.workers@.contains_key((#[trigger] ids@[j])@),
            decreases count - i,
        {
            let (id, _) = self.workers.at(i);
            ids.push(*id);
            i += 1;
        }
        assert forall|j: int, k: int| 0 <= j < k < ids@.len() implies (#[trigger] ids@[j])@ != (
        #[trigger] ids@[k])@ by {
            assert(self.workers.key_model(j) != self.workers.key_model(k));
        }
        ids
    }
}

/// What a decision rests on.
pub struct ProxyDecisionContext<'a> {
    pub issuer: &'a PeerId,
    pub server: &'a PeerId,
    pub tenant: &'a Tenant,
    pub registration_revision: Option<RegistrationRevision>,
    pub registration_expires_at: i64,
    pub authorization_revision: u64,
    /// The time in seconds.
    pub now: i64,
    /// The time in nanoseconds, as deadlines have it.
    pub instant: u64,
}

impl ProxyDecisionContext<'_> {
    /// What a client's request for a service must agree with.
    pub open spec fn binding(&self, client: Seq<u8>, service: ServiceModel) -> BindingModel {
        BindingModel {
            issuer: self.issuer@,
            client,
            server: self.server@,
            tenant: self.tenant@,
            service,
            registration_revision: match self.registration_revision {
                Some(revision) => Some(revision@),
                None => None,
            },
            registration_expires_at: self.registration_expires_at,
            authorization_revision: self.authorization_revision,
        }
    }
}

/// The stream that a worker was given.
struct Owned {
    token: AdmissionToken,
}

impl View for Owned {
    type V = Seq<u8>;

    closed spec fn view(&self) -> Seq<u8> {
        self.token@
    }
}

/// Everything that decides over streams.
#[verifier::ext_equal]
pub struct OwnerModel {
    pub tickets: LedgerModel,
    pub streams: AdmissionModel,
    pub workers: Map<u64, Seq<u8>>,
    pub config: Option<ConfigModel>,
}

/// Whether it may help to try again.
pub open spec fn worth_retrying(code: PublicErrorCode) -> bool {
    code == PublicErrorCode::RegistryStaleRevision || code == PublicErrorCode::LimitProxyStreams || code
        == PublicErrorCode::RegistryOffline
}

/// A decision against a request.
pub open spec fn refusal(request_id: Option<[u8; 16]>, code: PublicErrorCode) -> DecisionModel {
    DecisionModel::Reject(
        ProxyOpenResponseV1::Rejected {
            request_id,
            error: PublicError { code, retryable: worth_retrying(code) },
        },
    )
}

fn reject(request_id: Option<[u8; 16]>, code: PublicErrorCode) -> (r: ServerDecision)
    ensures
        r@ == refusal(request_id, code),
{
    let retryable = code == PublicErrorCode::RegistryStaleRevision || code
        == PublicErrorCode::LimitProxyStreams || code == PublicErrorCode::RegistryOffline;
    ServerDecision::Reject(
        ProxyOpenResponseV1::Rejected { request_id, error: PublicError::new(code, retryable) },
    )
}

impl OwnerModel {
    /// With the tickets that have expired forgotten.
    pub open spec fn swept(self, now: i64) -> Self {
        OwnerModel { tickets: self.tickets.swept(now), ..self }
    }

    /// What is wrong with a request, as far as the stream has nothing to do with
    /// it. The flag says whether tickets were looked at.
    pub open spec fn fault(
        self,
        candidate: Candidate,
        context: ProxyDecisionContext<'_>,
        open: OpenModel,
    ) -> Option<(PublicErrorCode, bool)> {
        if context.instant >= candidate.deadline {
            Some((PublicErrorCode::PeerSetupTimeout, false))
        } else {
            match self.config {
                None => Some((PublicErrorCode::AuthSessionRequired, false)),
                Some(config) => match service_named(
                    config.services,
                    open.upstream_id,
                    config.services.len(),
                ) {
                    None => Some((PublicErrorCode::RegistryNotFound, false)),
                    Some(service) => if !config.upstreams.contains_key(open.upstream_id) {
                        Some((PublicErrorCode::RegistryNotFound, false))
                    } else {
                        match validation_model(candidate.validation) {
                            Err(code) => Some((code, false)),
                            Ok(ticket) => match self.ticket_fault(
                                ticket,
                                context.binding(candidate.peer_id@, service),
                                open,
                                context.now,
                                service,
                                config.upstreams[open.upstream_id],
                                candidate.peer_id@,
                            ) {
                                Some(code) => Some((code, true)),
                                None => None,
                            },
                        }
                    },
                },
            }
        }
    }

    /// What is wrong with a request whose ticket is signed.
    pub open spec fn ticket_fault(
        self,
        ticket: CandidateModel,
        binding: BindingModel,
        open: OpenModel,
        now: i64,
        service: ServiceModel,
        upstream: UpstreamModel,
        peer: Seq<u8>,
    ) -> Option<PublicErrorCode> {
        match self.tickets.preflight(ticket, now) {
            Err(code) => Some(code),
            Ok(()) => match binding.verdict(ticket.claims, open, now) {
                Err(code) => Some(code),
                Ok(()) => if service.selector.protocol != ProtocolClass::Tcp {
                    Some(PublicErrorCode::ProtocolCapabilityMismatch)
                } else if upstream.service.health != Health::Ready {
                    Some(PublicErrorCode::RegistryOffline)
                } else if !self.streams.has_room(peer, open.upstream_id, upstream.concurrency_limit) {
                    Some(PublicErrorCode::LimitProxyStreams)
                } else {
                    None
                },
            },
        }
    }

    /// With a stream opened by a ticket.
    pub open spec fn opened(
        self,
        worker: u64,
        stream: Seq<u8>,
        ticket: CandidateModel,
        peer: Seq<u8>,
        service: Seq<char>,
        now: i64,
    ) -> Self {
        OwnerModel {
            tickets: self.tickets.used(ticket, now),
            streams: self.streams.dialing(stream, peer, service),
            workers: self.workers.insert(worker, stream),
            config: self.config,
        }
    }

    /// What is decided about a candidate, if `drawn` is what was drawn for its
    /// stream.
    pub open spec fn decided(
        self,
        candidate: Candidate,
        context: ProxyDecisionContext<'_>,
        drawn: Result<[u8; 16], PublicErrorCode>,
    ) -> (OwnerModel, DecisionModel) {
        match open_model(candidate.open) {
            Err(code) => (self, refusal(None, code)),
            Ok(open) => match self.fault(candidate, context, open) {
                Some((code, swept)) => (
                    if swept {
                        self.swept(context.now)
                    } else {
                        self
                    },
                    refusal(Some(open.request_id), code),
                ),
                None => {
                    let ticket = validation_model(candidate.validation)->Ok_0;
                    let config = self.config->Some_0;
                    match self.tickets.allocated(ticket, drawn, context.now) {
                        Err(code) => (self.swept(context.now), refusal(Some(open.request_id), code)),
                        Ok(stream_id) => self.placed(
                            self.opened(
                                candidate.worker_id@,
                                stream_id@,
                                ticket,
                                candidate.peer_id@,
                                open.upstream_id,
                                context.now,
                            ),
                            candidate.worker_id@,
                            open.request_id,
                            stream_id,
                            config.upstreams[open.upstream_id],
                            config.proxy.copy_buffer_bytes,
                        ),
                    }
                },
            },
        }
    }

    /// What is decided while nobody is served.
    pub open spec fn declined(self, candidate: Candidate, instant: u64) -> (OwnerModel, DecisionModel) {
        (
            self,
            match open_model(candidate.open) {
                Err(code) => refusal(None, code),
                Ok(open) => refusal(
                    Some(open.request_id),
                    if instant >= candidate.deadline {
                        PublicErrorCode::PeerSetupTimeout
                    } else {
                        PublicErrorCode::AuthSessionRequired
                    },
                ),
            },
        )
    }

    /// What is decided once a stream has its number. A number that another stream
    /// has, or a worker that has a stream already, gets none.
    pub open spec fn placed(
        self,
        after: OwnerModel,
        worker: u64,
        request_id: [u8; 16],
        stream_id: [u8; 16],
        upstream: UpstreamModel,
        copy_buffer_bytes: usize,
    ) -> (OwnerModel, DecisionModel) {
        if self.streams.entries.contains_key(stream_id@) {
            (
                OwnerModel { workers: self.workers, ..after },
                refusal(Some(request_id), PublicErrorCode::ProtocolMalformed),
            )
        } else if self.workers.contains_key(worker) {
            (
                OwnerModel { streams: self.streams, ..after },
                refusal(Some(request_id), PublicErrorCode::ProtocolMalformed),
            )
        } else {
            (
                after,
                DecisionModel::Admit {
                    stream_id,
                    admission: stream_id@,
                    upstream,
                    copy_buffer_bytes,
                },
            )
        }
    }

    /// Without a stream.
    pub open spec fn released(self, stream: Seq<u8>) -> Self {
        OwnerModel {
            streams: AdmissionModel { entries: self.streams.entries.remove(stream), ..self.streams },
            ..self
        }
    }

    /// The stream that a worker gives back: its own, or the one that it names.
    pub open spec fn returned(self, worker: u64, admission: Option<Seq<u8>>) -> Option<Seq<u8>> {
        if self.workers.contains_key(worker) {
            Some(self.workers[worker])
        } else {
            admission
        }
    }

    /// Whether a worker names another stream than its own.
    pub open spec fn mistaken(self, worker: u64, admission: Option<Seq<u8>>) -> bool {
        self.workers.contains_key(worker) && admission is Some && admission->Some_0
            != self.workers[worker]
    }

    /// After a worker is done.
    pub open spec fn completed(self, worker: u64, admission: Option<Seq<u8>>) -> Self {
        let after = self.without_worker(worker);
        match self.returned(worker, admission) {
            Some(stream) => if self.mistaken(worker, admission) {
                after
            } else {
                after.released(stream)
            },
            None => after,
        }
    }

    /// What is wrong with the stream that a worker gives back.
    pub open spec fn completion_fault(self, worker: u64, admission: Option<Seq<u8>>) -> Option<
        Seq<char>,
    > {
        if self.mistaken(worker, admission) {
            Some("proxy worker admission release correlation mismatch"@)
        } else {
            match self.returned(worker, admission) {
                Some(stream) => if self.streams.entries.contains_key(stream) {
                    None
                } else {
                    Some("proxy stream admission released more than once"@)
                },
                None => None,
            }
        }
    }

    /// Without a worker.
    pub open spec fn without_worker(self, worker: u64) -> Self {
        OwnerModel { workers: self.workers.remove(worker), ..self }
    }
}

fn decline(candidate: &Candidate, instant: u64) -> (r: ServerDecision)
    ensures
        forall|m: OwnerModel| (m, r@) == #[trigger] m.declined(*candidate, instant),
{
    match &candidate.open {
        Err(code) => reject(None, *code),
        Ok(open) => if instant >= candidate.deadline {
            reject(Some(open.request_id), PublicErrorCode::PeerSetupTimeout)
        } else {
            reject(Some(open.request_id), PublicErrorCode::AuthSessionRequired)
        },
    }
}

/// Whether streams are served: there are keys to verify tickets with, a session
/// that is current, and a registration that has not run out.
pub open spec fn serves(
    has_keys: bool,
    auth: AuthModel,
    session: Option<ExchangeSession>,
    registration: ClientModel,
    now: i64,
) -> bool {
    &&& has_keys
    &&& auth.phase is Authenticated
    &&& session matches Some(granted) && granted.expires_at > now
    &&& registration.expires_at > now
}

/// What streams are served under, if any are.
pub fn serving<'a>(
    has_keys: bool,
    auth: &AuthState,
    session: &'a Option<ExchangeSession>,
    registration: &RegistrationClient,
    issuer: &'a PeerId,
    server: &'a PeerId,
    now: i64,
    instant: u64,
) -> (r: Option<ProxyDecisionContext<'a>>)
    ensures
        r is Some <==> serves(has_keys, auth@, *session, registration@, now),
        r matches Some(context) ==> {
            &&& context.issuer == issuer && context.server == server
            &&& session matches Some(granted) && *context.tenant == granted.tenant
                && context.authorization_revision == granted.authorization_revision
            &&& revision_model(context.registration_revision) == registration@.revision
            &&& context.registration_expires_at == registration@.expires_at
            &&& context.now == now && context.instant == instant
        },
{
    let registration_expires_at: i64 = registration.expires_at();
    if !has_keys || registration_expires_at <= now {
        return None;
    }
    match current_session(auth, session, now) {
        Some(granted) => Some(
            ProxyDecisionContext {
                issuer,
                server,
                tenant: &granted.tenant,
                registration_revision: registration.revision(),
                registration_expires_at,
                authorization_revision: granted.authorization_revision,
                now,
                instant,
            },
        ),
        None => None,
    }
}

/// The number of a registration that may be there.
pub open spec fn revision_model(revision: Option<RegistrationRevision>) -> Option<u64> {
    match revision {
        Some(revision) => Some(revision@),
        None => None,
    }
}

/// Decides over streams.
pub struct ServerProxyOwner {
    ticket_admission: TicketAdmissionLedger,
    stream_admission: StreamAdmission,
    worker_admissions: Table<ProxyWorkerId, Owned>,
    service_config: Option<ServiceConfig>,
}

impl View for ServerProxyOwner {
    type V = OwnerModel;

    closed spec fn view(&self) -> OwnerModel {
        OwnerModel {
            tickets: self.ticket_admission@,
            streams: self.stream_admission@,
            workers: self.worker_admissions@,
            config: match self.service_config {
                Some(config) => Some(config@),
                None => None,
            },
        }
    }
}

impl ServerProxyOwner {
    /// Without a configuration 256 streams are allowed, 32 for a client, and 64
    /// that are being connected.
    pub fn new(ticket_admission: TicketAdmissionLedger, service_config: Option<ServiceConfig>) -> (r: Self)
        ensures
            r@ == (OwnerModel {
                tickets: ticket_admission@,
                streams: match service_config {
                    Some(config) => AdmissionModel {
                        max_workers: config.proxy.max_workers,
                        max_per_client: config.proxy.max_workers_per_client,
                        max_dials: config.proxy.max_upstream_dials,
                        entries: Map::empty(),
                    },
                    None => AdmissionModel {
                        max_workers: 256,
                        max_per_client: 32,
                        max_dials: 64,
                        entries: Map::empty(),
                    },
                },
                workers: Map::empty(),
                config: match service_config {
                    Some(config) => Some(config@),
                    None => None,
                },
            }),
    {
        let stream_admission = match &service_config {
            Some(config) => StreamAdmission::new(
                config.proxy.max_workers,
                config.proxy.max_workers_per_client,
                config.proxy.max_upstream_dials,
            ),
            None => StreamAdmission::new(256, 32, 64),
        };
        ServerProxyOwner {
            ticket_admission,
            stream_admission,
            worker_admissions: Table::new(),
            service_config,
        }
    }

    /// Decides about a candidate.
    pub fn decide(&mut self, candidate: &Candidate, context: ProxyDecisionContext<'_>) -> (r:
        ServerDecision)
        ensures
            exists|drawn: Result<[u8; 16], PublicErrorCode>|
                drawable(drawn) && (final(self)@, r@) == #[trigger] old(self)@.decided(
                    *candidate,
                    context,
                    drawn,
                ),
    {
        let drawn = match crate::crypto::random_array::<16>() {
            Some(id) => Ok(id),
            None => Err(PublicErrorCode::LimitProxyStreams),
        };
        self.decide_drawn(candidate, context, drawn)
    }

    /// Decides about a candidate where `serving` says what streams are served
    /// under at the moment, if any are.
    pub fn decide_serving(
        &mut self,
        candidate: &Candidate,
        serving: Option<ProxyDecisionContext<'_>>,
        instant: u64,
    ) -> (r: ServerDecision)
        ensures
            match serving {
                Some(context) => exists|drawn: Result<[u8; 16], PublicErrorCode>|
                    drawable(drawn) && (final(self)@, r@) == #[trigger] old(self)@.decided(
                        *candidate,
                        context,
                        drawn,
                    ),
                None => (final(self)@, r@) == old(self)@.declined(*candidate, instant),
            },
    {
        match serving {
            Some(context) => self.decide(candidate, context),
            None => decline(candidate, instant),
        }
    }

    /// Decides about a candidate, if `drawn` is what was drawn for its stream.
    pub fn decide_drawn(
        &mut self,
        candidate: &Candidate,
        context: ProxyDecisionContext<'_>,
        drawn: Result<[u8; 16], PublicErrorCode>,
    ) -> (r: ServerDecision)
        ensures
            (final(self)@, r@) == old(self)@.decided(*candidate, context, drawn),
    {
        let open = match &candidate.open {
            Ok(open) => open,
            Err(code) => return reject(None, *code),
        };
        let request_id = Some(open.request_id);
        if context.instant >= candidate.deadline {
            return reject(request_id, PublicErrorCode::PeerSetupTimeout);
        }
        let services = match &self.service_config {
            Some(services) => services,
            None => return reject(request_id, PublicErrorCode::AuthSessionRequired),
        };
        let service = match services.service(&open.upstream_id) {
            Some(service) => service,
            None => return reject(request_id, PublicErrorCode::RegistryNotFound),
        };
        let upstream = match services.upstreams.get(&open.upstream_id) {
            Some(upstream) => upstream.clone(),
            None => return reject(request_id, PublicErrorCode::RegistryNotFound),
        };
        let validation = match &candidate.validation {
            Ok(validation) => validation,
            Err(code) => return reject(request_id, *code),
        };
        let ghost before = self@;
        proof {
            lemma_swept_keeps_preflight(before.tickets, validation@, context.now);
        }
        let copy_buffer_bytes: usize = services.proxy.copy_buffer_bytes;
        match self.ticket_admission.preflight_candidate(validation, context.now) {
            Ok(()) => {},
            Err(code) => return reject(request_id, code),
        }
        match self.ticket_admission.validate_candidate(
            validation,
            context.issuer,
            &candidate.peer_id,
            context.server,
            context.tenant,
            service,
            context.registration_revision,
            context.registration_expires_at,
            context.authorization_revision,
            open,
            context.now,
        ) {
            Ok(()) => {},
            Err(code) => return reject(request_id, code),
        }
        if service.selector().protocol() != ProtocolClass::Tcp {
            return reject(request_id, PublicErrorCode::ProtocolCapabilityMismatch);
        }
        if upstream.advertisement.health() != Health::Ready {
            return reject(request_id, PublicErrorCode::RegistryOffline);
        }
        match self.stream_admission.preflight(
            &candidate.peer_id,
            &open.upstream_id,
            upstream.concurrency_limit,
        ) {
            Ok(()) => {},
            Err(code) => return reject(request_id, code),
        }
        let stream_id = match self.ticket_admission.allocate_drawn(validation, drawn, context.now) {
            Ok(stream_id) => stream_id,
            Err(code) => return reject(request_id, code),
        };
        let admission = AdmissionToken::new(stream_id);
        match self.ticket_admission.consume_candidate_with_stream_id(
            validation.clone(),
            stream_id,
            context.now,
        ) {
            TicketAdmission::Authorized(_) => {},
            TicketAdmission::Rejected(code) => return reject(request_id, code),
        }
        match self.stream_admission.reserve(
            admission,
            candidate.peer_id.clone(),
            open.upstream_id.clone(),
            upstream.concurrency_limit,
        ) {
            Ok(()) => {},
            Err(code) => return reject(request_id, code),
        }
        let known = self.worker_admissions.contains(&candidate.worker_id);
        self.worker_admissions.insert(candidate.worker_id, Owned { token: admission });
        if known {
            let _ = self.stream_admission.release(admission);
            assert(self@.streams.entries =~= before.streams.entries);
            return reject(request_id, PublicErrorCode::ProtocolMalformed);
        }
        ServerDecision::Admit { stream_id, admission, upstream, copy_buffer_bytes }
    }

    /// The stream of a worker is connected.
    pub fn promote(&mut self, worker_id: ProxyWorkerId, admission: AdmissionToken) -> (r: Result<
        (),
        &'static str,
    >)
        ensures
            ({
                let owns = old(self)@.workers.contains_key(worker_id@)
                    && old(self)@.workers[worker_id@] == admission@;
                let dials = old(self)@.streams.dials(admission@);
                match r {
                    Ok(()) => owns && dials && final(self)@ == (OwnerModel {
                        streams: old(self)@.streams.promoted(admission@),
                        ..old(self)@
                    }),
                    Err(text) => !(owns && dials) && final(self)@ == old(self)@ && text@ == if owns {
                        "proxy stream promotion is not valid"@
                    } else {
                        "proxy worker admission correlation mismatch"@
                    },
                }
            }),
    {
        match self.worker_admissions.get(&worker_id) {
            Some(owned) => if !owned.token.same(&admission) {
                return Err("proxy worker admission correlation mismatch");
            },
            None => return Err("proxy worker admission correlation mismatch"),
        }
        if self.stream_admission.promote(admission) {
            Ok(())
        } else {
            Err("proxy stream promotion is not valid")
        }
    }

    /// A worker is done and gives its stream back.
    pub fn complete(&mut self, worker_id: ProxyWorkerId, admission: Option<AdmissionToken>) -> (r: Result<
        (),
        &'static str,
    >)
        ensures
            final(self)@ == old(self)@.completed(worker_id@, token_model(admission)),
            match r {
                Ok(()) => old(self)@.completion_fault(worker_id@, token_model(admission)) is None,
                Err(text) => old(self)@.completion_fault(worker_id@, token_model(admission)) == Some(
                    text@,
                ),
            },
    {
        let owned = self.worker_admissions.remove(&worker_id);
        let stream = match owned {
            Some(owned) => {
                if let Some(named) = admission {
                    if !owned.token.same(&named) {
                        return Err("proxy worker admission release correlation mismatch");
                    }
                }
                owned.token
            },
            None => match admission {
                Some(named) => named,
                None => {
                    return Ok(());
                },
            },
        };
        if self.stream_admission.release(stream) {
            Ok(())
        } else {
            Err("proxy stream admission released more than once")
        }
    }

    /// Gives a stream back.
    pub fn release(&mut self, admission: AdmissionToken) -> (r: bool)
        ensures
            r == old(self)@.streams.entries.contains_key(admission@),
            final(self)@ == old(self)@.released(admission@),
    {
        self.stream_admission.release(admission)
    }

    /// How many workers have a stream.
    pub fn worker_count(&self) -> (r: usize)
        ensures
            r == self@.workers.len(),
    {
        self.worker_admissions.len()
    }

    pub fn stream_admission(&self) -> (r: &StreamAdmission)
        ensures
            r@ == self@.streams,
    {
        &self.stream_admission
    }

    pub fn stream_admission_mut(&mut self) -> (r: &mut StreamAdmission)
        ensures
            r@ == old(self)@.streams,
            final(self)@ == (OwnerModel { streams: final(r)@, ..old(self)@ }),
    {
        &mut self.stream_admission
    }

    pub fn ticket_admission_mut(&mut self) -> (r: &mut TicketAdmissionLedger)
        ensures
            r@ == old(self)@.tickets,
            final(self)@ == (OwnerModel { tickets: final(r)@, ..old(self)@ }),
    {
        &mut self.ticket_admission
    }

    /// Forgets every ticket.
    pub fn clear_tickets(&mut self)
        ensures
            final(self)@ == (OwnerModel {
                tickets: LedgerModel { replay: Map::empty(), ..old(self)@.tickets },
                ..old(self)@
            }),
    {
        self.ticket_admission.clear();
    }
}

/// Forgetting what has expired changes nothing about which tickets can be used.
proof fn lemma_swept_keeps_preflight(m: LedgerModel, ticket: CandidateModel, now: i64)
    ensures
        m.swept(now).swept(now) == m.swept(now),
        m.swept(now).preflight(ticket, now) == m.preflight(ticket, now),
        m.swept(now).used(ticket, now) == m.used(ticket, now),
{
    assert(m.swept(now).swept(now).replay =~= m.swept(now).replay);
}

/// A stream that is let through has used its ticket, is counted as dialing, and
/// belongs to the worker that asked. There was room for it.
pub proof fn law_admission_is_backed(
    owner: OwnerModel,
    candidate: Candidate,
    context: ProxyDecisionContext<'_>,
    drawn: Result<[u8; 16], PublicErrorCode>,
)
    requires
        owner.decided(candidate, context, drawn).1 is Admit,
    ensures
        ({
            let (after, decision) = owner.decided(candidate, context, drawn);
            let stream = decision->Admit_admission;
            let ticket = validation_model(candidate.validation)->Ok_0;
            let open = open_model(candidate.open)->Ok_0;
            &&& after.tickets.replay.contains_key(ticket.ticket_id@)
            &&& !owner.tickets.swept(context.now).replay.contains_key(ticket.ticket_id@)
            &&& after.streams.dials(stream)
            &&& after.workers[candidate.worker_id@] == stream
            &&& owner.streams.has_room(
                candidate.peer_id@,
                open.upstream_id,
                decision->Admit_upstream.concurrency_limit,
            )
            &&& context.instant < candidate.deadline
        }),
{
}

/// When a worker that was let through completes, the streams are as they were
/// before it came.
pub proof fn law_completion_undoes_admission(
    owner: OwnerModel,
    candidate: Candidate,
    context: ProxyDecisionContext<'_>,
    drawn: Result<[u8; 16], PublicErrorCode>,
    named: Option<Seq<u8>>,
)
    requires
        owner.decided(candidate, context, drawn).1 is Admit,
        named is None || named == Some(owner.decided(candidate, context, drawn).1->Admit_admission),
    ensures
        ({
            let after = owner.decided(candidate, context, drawn).0;
            let worker = candidate.worker_id@;
            &&& after.completion_fault(worker, named) is None
            &&& after.completed(worker, named).streams == owner.streams
            &&& after.completed(worker, named).workers == owner.workers
        }),
{
    let (after, decision) = owner.decided(candidate, context, drawn);
    let worker = candidate.worker_id@;
    assert(after.without_worker(worker).workers =~= owner.workers);
    assert(after.streams.entries.remove(decision->Admit_admission) =~= owner.streams.entries);
}

/// What is asked of an owner. Only forgetting every ticket is left out.
pub enum OwnerCall<'a> {
    Decide {
        candidate: Candidate,
        context: ProxyDecisionContext<'a>,
        drawn: Result<[u8; 16], PublicErrorCode>,
    },
    Complete { worker: u64, admission: Option<Seq<u8>> },
    Release { stream: Seq<u8> },
    /// Something is done to the streams alone, such as promoting one.
    Streams { after: AdmissionModel },
    /// Something is asked of the ledger of tickets.
    Tickets { call: LedgerCall },
}

impl OwnerModel {
    /// After a call at a time.
    pub open spec fn called(self, call: OwnerCall<'_>, now: i64) -> Self {
        match call {
            OwnerCall::Decide { candidate, context, drawn } => self.decided(candidate, context, drawn).0,
            OwnerCall::Complete { worker, admission } => self.completed(worker, admission),
            OwnerCall::Release { stream } => self.released(stream),
            OwnerCall::Streams { after } => OwnerModel { streams: after, ..self },
            OwnerCall::Tickets { call } => OwnerModel { tickets: self.tickets.called(call, now), ..self },
        }
    }

    /// After calls, each with its time.
    pub open spec fn after_calls(self, calls: Seq<(i64, OwnerCall<'_>)>) -> Self
        decreases calls.len(),
    {
        if calls.len() == 0 {
            self
        } else {
            self.after_calls(calls.drop_last()).called(calls.last().1, calls.last().0)
        }
    }
}

/// Decisions are made as of the times of their calls.
pub open spec fn decides_in_time(calls: Seq<(i64, OwnerCall<'_>)>) -> bool {
    forall|i: int|
        0 <= i < calls.len() ==> ((#[trigger] calls[i]).1 matches OwnerCall::Decide { context, .. }
            ==> context.now == calls[i].0)
}

/// A decision does to the ledger what one call on it does.
proof fn lemma_decision_on_tickets(
    owner: OwnerModel,
    candidate: Candidate,
    context: ProxyDecisionContext<'_>,
    drawn: Result<[u8; 16], PublicErrorCode>,
)
    ensures
        ({
            let after = owner.decided(candidate, context, drawn).0;
            let ticket = validation_model(candidate.validation)->Ok_0;
            &&& after.config == owner.config
            &&& after.tickets == owner.tickets || after.tickets == owner.tickets.called(
                LedgerCall::Sweep,
                context.now,
            ) || after.tickets == owner.tickets.called(
                LedgerCall::Consume { candidate: ticket, drawn },
                context.now,
            )
        }),
{
}

proof fn lemma_owner_remembers(
    owner: OwnerModel,
    ticket_id: Seq<u8>,
    expires_at: i64,
    calls: Seq<(i64, OwnerCall<'_>)>,
    now: i64,
    later: i64,
)
    requires
        owner.tickets.remembers(ticket_id, expires_at, now),
        in_order(calls, now, later),
        decides_in_time(calls),
    ensures
        owner.after_calls(calls).tickets.remembers(ticket_id, expires_at, later),
        owner.after_calls(calls).tickets.clock_skew == owner.tickets.clock_skew,
        owner.after_calls(calls).config == owner.config,
    decreases calls.len(),
{
    if calls.len() > 0 {
        let before = calls.drop_last();
        let (at, call) = calls.last();
        assert(call == calls[calls.len() - 1].1 && at == calls[calls.len() - 1].0);
        assert(in_order(before, now, at) && decides_in_time(before)) by {
            assert forall|i: int| 0 <= i < before.len() implies now <= (#[trigger] before[i]).0 <= at by {
                assert(before[i] == calls[i]);
                assert(calls[i].0 <= calls[calls.len() - 1].0);
            }
            assert forall|i: int, j: int| 0 <= i < j < before.len() implies (#[trigger] before[i]).0 <= (
            #[trigger] before[j]).0 by {
                assert(before[i] == calls[i] && before[j] == calls[j]);
            }
            assert forall|i: int| 0 <= i < before.len() implies ((#[trigger] before[i]).1
                matches OwnerCall::Decide { context, .. } ==> context.now == before[i].0) by {
                assert(before[i] == calls[i]);
            }
        }
        lemma_owner_remembers(owner, ticket_id, expires_at, before, now, at);
        let m = owner.after_calls(before);
        match call {
            OwnerCall::Decide { candidate, context, drawn } => {
                lemma_decision_on_tickets(m, candidate, context, drawn);
                let ticket = validation_model(candidate.validation)->Ok_0;
                law_used_tickets_are_remembered(
                    m.tickets,
                    ticket_id,
                    expires_at,
                    LedgerCall::Sweep,
                    at,
                    at,
                );
                law_used_tickets_are_remembered(
                    m.tickets,
                    ticket_id,
                    expires_at,
                    LedgerCall::Consume { candidate: ticket, drawn },
                    at,
                    at,
                );
            },
            OwnerCall::Tickets { call } => {
                law_used_tickets_are_remembered(m.tickets, ticket_id, expires_at, call, at, at);
            },
            _ => {},
        }
    }
}

/// A ticket that opened a stream opens no other, whatever happens in between,
/// be it that the stream was given back. Where the request is in time and asks
/// for the same service, it is turned down as replayed while the ticket is good
/// and as expired from then on; no stream is touched.
pub proof fn law_spent_tickets_are_refused(
    owner: OwnerModel,
    first: Candidate,
    context: ProxyDecisionContext<'_>,
    drawn: Result<[u8; 16], PublicErrorCode>,
    calls: Seq<(i64, OwnerCall<'_>)>,
    second: Candidate,
    later: ProxyDecisionContext<'_>,
    again: Result<[u8; 16], PublicErrorCode>,
)
    requires
        owner.tickets.valid(),
        owner.decided(first, context, drawn).1 is Admit,
        in_order(calls, context.now, later.now),
        decides_in_time(calls),
        validation_model(second.validation) == validation_model(first.validation),
        later.now < i64::MAX || validation_model(first.validation)->Ok_0.claims.expires_at
            + owner.tickets.clock_skew <= i64::MAX,
    ensures
        ({
            let between = owner.decided(first, context, drawn).0.after_calls(calls);
            let ticket = validation_model(first.validation)->Ok_0;
            let (after, decision) = between.decided(second, later, again);
            &&& decision is Reject
            &&& (open_model(second.open) matches Ok(open) && open.upstream_id == open_model(
                first.open,
            )->Ok_0.upstream_id && later.instant < second.deadline) ==> decision == refusal(
                Some(open_model(second.open)->Ok_0.request_id),
                if owner.tickets.timely(ticket.claims, later.now) {
                    PublicErrorCode::AuthTicketReplayed
                } else {
                    PublicErrorCode::AuthTicketExpired
                },
            ) && after.streams == between.streams && after.workers == between.workers
        }),
{
    let admitted = owner.decided(first, context, drawn).0;
    let ticket = validation_model(first.validation)->Ok_0;
    assert(admitted.tickets.remembers(ticket.ticket_id@, ticket.claims.expires_at, context.now));
    lemma_owner_remembers(
        admitted,
        ticket.ticket_id@,
        ticket.claims.expires_at,
        calls,
        context.now,
        later.now,
    );
    let between = admitted.after_calls(calls);
    assert(between.tickets.preflight(ticket, later.now) == Err::<(), PublicErrorCode>(
        if owner.tickets.timely(ticket.claims, later.now) {
            PublicErrorCode::AuthTicketReplayed
        } else {
            PublicErrorCode::AuthTicketExpired
        },
    )) by {
        if between.tickets.timely(ticket.claims, later.now) {
            assert(between.tickets.swept(later.now).replay.contains_key(ticket.ticket_id@));
        }
    }
    assert(between.config == owner.config);
}

/// A request that is in order is let through: it is in time, names a service
/// that is offered over TCP, is ready and has room, and carries a ticket that is
/// sound, fits and was not used. The stream gets the number that was drawn, the
/// upstream of its service, and the buffer that is configured.
pub proof fn law_requests_in_order_are_admitted(
    owner: OwnerModel,
    candidate: Candidate,
    context: ProxyDecisionContext<'_>,
    drawn: [u8; 16],
    service: ServiceModel,
)
    requires
        open_model(candidate.open) is Ok,
        context.instant < candidate.deadline,
        owner.config is Some,
        ({
            let open = open_model(candidate.open)->Ok_0;
            let config = owner.config->Some_0;
            let upstream = config.upstreams[open.upstream_id];
            &&& service_named(config.services, open.upstream_id, config.services.len()) == Some(service)
            &&& config.upstreams.contains_key(open.upstream_id)
            &&& service.selector.protocol == ProtocolClass::Tcp
            &&& upstream.service.health == Health::Ready
            &&& owner.streams.has_room(candidate.peer_id@, open.upstream_id, upstream.concurrency_limit)
            &&& validation_model(candidate.validation) matches Ok(ticket) && owner.tickets.preflight(
                ticket,
                context.now,
            ) is Ok && context.binding(candidate.peer_id@, service).verdict(ticket.claims, open, context.now)
                is Ok
        }),
        drawn@ != no_stream(),
        !owner.streams.entries.contains_key(drawn@),
        !owner.workers.contains_key(candidate.worker_id@),
    ensures
        ({
            let open = open_model(candidate.open)->Ok_0;
            let config = owner.config->Some_0;
            let (after, decision) = owner.decided(candidate, context, Ok(drawn));
            &&& decision == (DecisionModel::Admit {
                stream_id: drawn,
                admission: drawn@,
                upstream: config.upstreams[open.upstream_id],
                copy_buffer_bytes: config.proxy.copy_buffer_bytes,
            })
            &&& after.streams.entries.contains_key(drawn@)
            &&& after.streams.entries[drawn@].peer == candidate.peer_id@
            &&& after.streams.entries[drawn@].service == open.upstream_id
            &&& after.workers == owner.workers.insert(candidate.worker_id@, drawn@)
            &&& after.config == owner.config
        }),
{
}

/// A request that is not in order is turned down for the first thing that is
/// wrong, under its own number, and takes no stream: too late, no services, no
/// such service, a ticket that is not sound, a ticket that cannot be used or
/// does not fit, a service that is not offered over TCP or is not ready, or no
/// room.
pub proof fn law_requests_are_turned_down_for_what_is_wrong(
    owner: OwnerModel,
    candidate: Candidate,
    context: ProxyDecisionContext<'_>,
    drawn: Result<[u8; 16], PublicErrorCode>,
    service: ServiceModel,
    upstream: UpstreamModel,
    ticket: CandidateModel,
    code: PublicErrorCode,
)
    requires
        open_model(candidate.open) is Ok,
    ensures
        ({
            let open = open_model(candidate.open)->Ok_0;
            let config = owner.config->Some_0;
            let (after, decision) = owner.decided(candidate, context, drawn);
            let turned_down = |code: PublicErrorCode|
                (decision matches DecisionModel::Reject(ProxyOpenResponseV1::Rejected { request_id, error })
                    && request_id == Some(open.request_id) && error.code == code) && after.streams
                    == owner.streams && after.workers == owner.workers && after.config == owner.config;
            let in_time = context.instant < candidate.deadline;
            let found = in_time && owner.config is Some && service_named(
                config.services,
                open.upstream_id,
                config.services.len(),
            ) == Some(service) && config.upstreams.contains_key(open.upstream_id)
                && config.upstreams[open.upstream_id] == upstream;
            let sound = found && validation_model(candidate.validation) == Ok::<
                CandidateModel,
                PublicErrorCode,
            >(ticket);
            let unused = sound && owner.tickets.preflight(ticket, context.now) is Ok;
            let fits = unused && context.binding(candidate.peer_id@, service).verdict(
                ticket.claims,
                open,
                context.now,
            ) is Ok;
            &&& !in_time ==> turned_down(PublicErrorCode::PeerSetupTimeout)
            &&& in_time && owner.config is None ==> turned_down(PublicErrorCode::AuthSessionRequired)
            &&& in_time && owner.config is Some && service_named(
                config.services,
                open.upstream_id,
                config.services.len(),
            ) is None ==> turned_down(PublicErrorCode::RegistryNotFound)
            &&& in_time && owner.config is Some && !config.upstreams.contains_key(open.upstream_id)
                ==> turned_down(PublicErrorCode::RegistryNotFound)
            &&& found && validation_model(candidate.validation) == Err::<CandidateModel, PublicErrorCode>(
                code,
            ) ==> turned_down(code)
            &&& sound && owner.tickets.preflight(ticket, context.now) == Err::<(), PublicErrorCode>(code)
                ==> turned_down(code)
            &&& unused && context.binding(candidate.peer_id@, service).verdict(
                ticket.claims,
                open,
                context.now,
            ) == Err::<(), PublicErrorCode>(code) ==> turned_down(code)
            &&& fits && service.selector.protocol != ProtocolClass::Tcp ==> turned_down(
                PublicErrorCode::ProtocolCapabilityMismatch,
            )
            &&& fits && service.selector.protocol == ProtocolClass::Tcp && upstream.service.health
                != Health::Ready ==> turned_down(PublicErrorCode::RegistryOffline)
            &&& fits && service.selector.protocol == ProtocolClass::Tcp && upstream.service.health
                == Health::Ready && !owner.streams.has_room(
                candidate.peer_id@,
                open.upstream_id,
                upstream.concurrency_limit,
            ) ==> turned_down(PublicErrorCode::LimitProxyStreams)
        }),
{
}

/// A request that could not be read is turned down for that, without a number,
/// and nothing changes. Nor does anything while nobody is served.
pub proof fn law_unread_requests_change_nothing(
    owner: OwnerModel,
    candidate: Candidate,
    context: ProxyDecisionContext<'_>,
    drawn: Result<[u8; 16], PublicErrorCode>,
    instant: u64,
)
    ensures
        open_model(candidate.open) matches Err(code) ==> owner.decided(candidate, context, drawn).0 == owner
            && (owner.decided(candidate, context, drawn).1 matches DecisionModel::Reject(
            ProxyOpenResponseV1::Rejected { request_id, error },
        ) && request_id is None && error.code == code),
        owner.declined(candidate, instant).0 == owner,
        open_model(candidate.open) matches Ok(open) ==> (owner.declined(candidate, instant).1
            matches DecisionModel::Reject(ProxyOpenResponseV1::Rejected { request_id, error }) && request_id
            == Some(open.request_id) && error.code == if instant >= candidate.deadline {
            PublicErrorCode::PeerSetupTimeout
        } else {
            PublicErrorCode::AuthSessionRequired
        }),
{
}

/// Whoever is turned down is invited to try again if the registration is stale,
/// there is no room, or the service is not ready, and not otherwise.
pub proof fn law_refusals_say_whether_to_try_again(request_id: Option<[u8; 16]>, code: PublicErrorCode)
    ensures
        refusal(request_id, code) matches DecisionModel::Reject(
            ProxyOpenResponseV1::Rejected { request_id: number, error },
        ) && number == request_id && error.code == code && (error.retryable <==> code
            is RegistryStaleRevision || code is LimitProxyStreams || code is RegistryOffline),
{
}

/// A worker that is done gives back its own stream and is forgotten; other
/// workers and their streams stay. One that names another stream than its own,
/// or one that is not there, is an error.
pub proof fn law_workers_give_back_their_own(
    owner: OwnerModel,
    worker: u64,
    admission: Option<Seq<u8>>,
    other: u64,
)
    requires
        other != worker,
    ensures
        ({
            let after = owner.completed(worker, admission);
            let own = owner.workers[worker];
            &&& !after.workers.contains_key(worker)
            &&& after.workers.contains_key(other) == owner.workers.contains_key(other)
            &&& owner.workers.contains_key(other) ==> after.workers[other] == owner.workers[other]
            &&& after.tickets == owner.tickets && after.config == owner.config
            &&& owner.workers.contains_key(worker) && (admission is None || admission == Some(own)) ==> {
                &&& !after.streams.entries.contains_key(own)
                &&& owner.completion_fault(worker, admission) is None <==> owner.streams.entries.contains_key(
                    own,
                )
            }
            &&& owner.workers.contains_key(worker) && admission is Some && admission != Some(own) ==> after.streams
                == owner.streams && owner.completion_fault(worker, admission) is Some
            &&& !owner.workers.contains_key(worker) && admission is None ==> after.streams == owner.streams
                && owner.completion_fault(worker, admission) is None
            &&& !owner.workers.contains_key(worker) && admission is Some ==> !after.streams.entries.contains_key(
                admission->Some_0,
            ) && (owner.completion_fault(worker, admission) is None <==> owner.streams.entries.contains_key(
                admission->Some_0,
            ))
            &&& forall|stream: Seq<u8>|
                stream != own && admission != Some(stream) ==> (#[trigger] after.streams.entries.contains_key(
                    stream,
                ) == owner.streams.entries.contains_key(stream))
        }),
{
}

/// Streams are served only with keys to check tickets, under a session that is
/// current and a registration that has not expired, and the decision rests on
/// what that session and that registration say.
pub proof fn law_streams_are_served_while_registered(
    has_keys: bool,
    auth: &AuthState,
    session: &Option<ExchangeSession>,
    registration: &RegistrationClient,
    issuer: &PeerId,
    server: &PeerId,
    now: i64,
    instant: u64,
    r: Option<ProxyDecisionContext<'_>>,
)
    requires
        call_ensures(serving, (has_keys, auth, session, registration, issuer, server, now, instant), r),
    ensures
        r is Some <==> has_keys && auth@.phase is Authenticated && (*session matches Some(granted) && now
            < granted.expires_at) && now < registration@.expires_at,
        r matches Some(context) ==> {
            &&& context.issuer == issuer && context.server == server
            &&& *context.tenant == (*session)->Some_0.tenant
            &&& context.authorization_revision == (*session)->Some_0.authorization_revision
            &&& context.registration_expires_at == registration@.expires_at
            &&& context.registration_revision is Some <==> registration@.revision is Some
            &&& context.registration_revision matches Some(revision) ==> registration@.revision == Some(
                revision@,
            )
            &&& context.now == now && context.instant == instant
        },
{
}

/// What a request is held against is what the server stands for: the exchange
/// that issues tickets, the client that asks, the server itself, and its
/// registration.
pub proof fn law_requests_are_held_against_the_registration(
    context: ProxyDecisionContext<'_>,
    client: Seq<u8>,
    service: ServiceModel,
)
    ensures
        ({
            let binding = context.binding(client, service);
            &&& binding.issuer == context.issuer@ && binding.server == context.server@
            &&& binding.client == client && binding.service == service
            &&& binding.tenant == context.tenant@
            &&& binding.authorization_revision == context.authorization_revision
            &&& binding.registration_expires_at == context.registration_expires_at
            &&& context.registration_revision is None <==> binding.registration_revision is None
            &&& context.registration_revision matches Some(revision) ==> binding.registration_revision
                == Some(revision@)
        }),
{
}

/// Workers get numbers that go up, and each is given one stream, once, and
/// accepted once after that.
pub proof fn law_workers_are_given_one_stream(table: WorkerTableModel, id: u64, admission: AdmissionToken)
    ensures
        table.next_id < u64::MAX ==> table.coming() == table.next_id + 1,
        table.attachable(id, admission) <==> table.workers.contains_key(id) && table.workers[id].admission
            is None && admission@ != no_stream(),
        table.acceptable(id) <==> table.workers.contains_key(id) && table.workers[id].admission is Some
            && !table.workers[id].accepted,
        table.attachable(id, admission) ==> {
            let attached = table.with(
                id,
                RecordModel { admission: Some(admission@), ..table.workers[id] },
            );
            &&& !attached.attachable(id, admission)
            &&& !table.workers[id].accepted ==> attached.acceptable(id)
            &&& !attached.with(id, RecordModel { accepted: true, ..attached.workers[id] }).acceptable(id)
        },
{
}

/// A worker is entered under the next number, not accepted and without a stream;
/// the others stay as they are.
pub proof fn law_workers_are_entered_fresh(
    table: &mut ProxyWorkerTable,
    peer_id: PeerId,
    connection_id: ConnectionId,
    path: ProbePath,
    r: ProxyWorkerId,
)
    requires
        call_ensures(ProxyWorkerTable::insert, (table, peer_id, connection_id, path), r),
    ensures
        final(table)@.workers.contains_key(r@),
        ({
            let record = final(table)@.workers[r@];
            &&& record.peer_id == peer_id@
            &&& record.connection_id == connection_id
            &&& record.selected_path == path
            &&& record.admission is None && record.stream_id_hash is None
            &&& !record.accepted
            &&& record.setup_duration == 0 && record.request_id_hash == 0
        }),
        final(table)@.next_id == r@,
        final(table)@.workers.remove(r@) == old(table)@.workers.remove(r@),
{
    let w = old(table)@.workers;
    let record = final(table)@.workers[r@];
    assert(final(table)@.workers == w.insert(r@, record));
    assert(w.insert(r@, record).remove(r@) =~= w.remove(r@));
}

/// A stream is attached to a worker once, and a worker with one is accepted once;
/// what is not possible is told apart and changes nothing.
pub proof fn law_streams_are_attached_and_accepted_once(
    a: &mut ProxyWorkerTable,
    id: ProxyWorkerId,
    admission: AdmissionToken,
    attached: Result<(), &'static str>,
    b: &mut ProxyWorkerTable,
    setup_duration: u64,
    request_id_hash: u64,
    stream_id_hash: u64,
    accepted: Result<(), &'static str>,
)
    requires
        call_ensures(ProxyWorkerTable::attach_admission, (a, id, admission), attached),
        call_ensures(
            ProxyWorkerTable::mark_accepted,
            (b, id, setup_duration, request_id_hash, stream_id_hash),
            accepted,
        ),
    ensures
        !old(a)@.workers.contains_key(id@) ==> (attached matches Err(text) && text@
            == "proxy worker missing"@),
        old(a)@.workers.contains_key(id@) && attached is Err ==> attached->Err_0@
            == "proxy worker admission already attached"@,
        attached is Err ==> final(a)@ == old(a)@,
        attached is Ok ==> old(a)@.workers.contains_key(id@) && old(a)@.workers[id@].admission is None
            && final(a)@.workers[id@].admission == Some(admission@) && final(a)@.workers[id@].accepted
            == old(a)@.workers[id@].accepted,
        !old(b)@.workers.contains_key(id@) ==> (accepted matches Err(text) && text@
            == "proxy worker missing"@),
        old(b)@.workers.contains_key(id@) && accepted is Err ==> accepted->Err_0@
            == "proxy worker cannot be accepted"@,
        accepted is Err ==> final(b)@ == old(b)@,
        accepted is Ok ==> {
            &&& old(b)@.workers.contains_key(id@)
            &&& !old(b)@.workers[id@].accepted && old(b)@.workers[id@].admission is Some
            &&& final(b)@.workers[id@].accepted
            &&& final(b)@.workers[id@].setup_duration == setup_duration
            &&& final(b)@.workers[id@].request_id_hash == request_id_hash
            &&& final(b)@.workers[id@].stream_id_hash == Some(stream_id_hash)
            &&& final(b)@.workers[id@].admission == old(b)@.workers[id@].admission
        },
{
}

/// A worker that is removed is handed out and gone; the others stay.
pub proof fn law_removed_workers_are_gone(table: &mut ProxyWorkerTable, id: ProxyWorkerId, r: Option<WorkerRecord>)
    requires
        call_ensures(ProxyWorkerTable::remove, (table, id), r),
    ensures
        r is Some <==> old(table)@.workers.contains_key(id@),
        r is Some ==> r->0@ == old(table)@.workers[id@],
        !final(table)@.workers.contains_key(id@),
        final(table)@.next_id == old(table)@.next_id,
        forall|other: u64|
            other != id@ && old(table)@.workers.contains_key(other) ==> #[trigger]
            final(table)@.workers.contains_key(other) && final(table)@.workers[other]
                == old(table)@.workers[other],
{
}

/// A stream is promoted for the worker that owns it while it is being connected;
/// what is not possible is told apart and changes nothing.
pub proof fn law_streams_are_promoted_by_their_owner(
    owner: &mut ServerProxyOwner,
    worker: ProxyWorkerId,
    admission: AdmissionToken,
    r: Result<(), &'static str>,
)
    requires
        call_ensures(ServerProxyOwner::promote, (owner, worker, admission), r),
    ensures
        ({
            let owns = old(owner)@.workers.contains_key(worker@) && old(owner)@.workers[worker@]
                == admission@;
            &&& !owns ==> (r matches Err(text) && text@ == "proxy worker admission correlation mismatch"@)
            &&& owns && r is Err ==> r->Err_0@ == "proxy stream promotion is not valid"@
            &&& r is Err ==> final(owner)@ == old(owner)@
            &&& r is Ok ==> owns && final(owner)@.workers == old(owner)@.workers && final(owner)@.tickets
                == old(owner)@.tickets
        }),
{
}

/// Forgetting the tickets leaves workers and streams, and the room for tickets.
pub proof fn law_tickets_can_be_forgotten(owner: &mut ServerProxyOwner, r: ())
    requires
        call_ensures(ServerProxyOwner::clear_tickets, (owner,), r),
    ensures
        final(owner)@.tickets.replay.len() == 0 && forall|id: Seq<u8>| !final(owner)@.tickets.replay.contains_key(id),
        final(owner)@.tickets.capacity == old(owner)@.tickets.capacity,
        final(owner)@.tickets.clock_skew == old(owner)@.tickets.clock_skew,
        final(owner)@.workers == old(owner)@.workers,
        final(owner)@.streams == old(owner)@.streams,
{
}

} // verus!
