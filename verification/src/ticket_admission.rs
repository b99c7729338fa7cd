//! Which tickets a server accepts. A ticket opens one stream. Times are seconds.
use crate::auth::Scope;
use crate::bytes::same_bytes;
use crate::clock::{clamp_i64, saturating_add, saturating_sub};
use crate::crypto::random_array;
use crate::error::PublicErrorCode;
use crate::ids::{RegistrationRevision, Tenant};
use crate::peer::PeerId;
use crate::proxy::{OpenModel, OpenProxyStreamV1};
use crate::registry::{Health, ServiceAdvertisementV1, ServiceModel};
use crate::selector::fingerprint_of;
use crate::stream_admission::{no_stream, AdmissionToken};
use crate::table::{kept, Key, Table};
use crate::text::same_text;
use crate::ticket::{
    decode_envelope, opened, signature_outcome, ticket_outcome, verify_signature_with_key_resolver,
    ClaimsModel, ConnectionTicketClaimsV1, TicketError, TicketValidation, ValidationModel,
};
use crate::ticket_key::VerificationKeyRing;
use vstd::prelude::*;

verus! {

/// How many used tickets are remembered where nothing else is said.
pub const MAX_REPLAY_ENTRIES: usize = 8192;

/// How many used tickets can be remembered.
pub const MAX_REPLAY_ENTRIES_HARD: usize = 65536;

/// A ticket whose signature was checked.
pub struct ValidationCandidate {
    pub ticket_id: [u8; 16],
    pub claims: ConnectionTicketClaimsV1,
    pub owner_fingerprint: [u8; 32],
}

/// What is known of a ticket whose signature was checked.
#[verifier::ext_equal]
pub struct CandidateModel {
    pub ticket_id: [u8; 16],
    pub claims: ClaimsModel,
    pub owner_fingerprint: [u8; 32],
}

impl View for ValidationCandidate {
    type V = CandidateModel;

    open spec fn view(&self) -> CandidateModel {
        CandidateModel {
            ticket_id: self.ticket_id,
            claims: self.claims@,
            owner_fingerprint: self.owner_fingerprint,
        }
    }
}

impl Clone for ValidationCandidate {
    fn clone(&self) -> (r: Self)
        ensures
            r@ == self@,
    {
        ValidationCandidate {
            ticket_id: self.ticket_id,
            claims: self.claims.clone(),
            owner_fingerprint: self.owner_fingerprint,
        }
    }
}

/// What becomes of a ticket.
#[derive(Clone, Copy, Debug, PartialEq, Eq)]
pub enum TicketAdmission {
    /// The ticket opens the stream of this number.
    Authorized([u8; 16]),
    Rejected(PublicErrorCode),
}

/// A ticket that was used.
#[derive(Clone, Copy, Debug, PartialEq, Eq)]
pub struct ReplayEntry {
    pub expires_at: i64,
    pub owner_fingerprint: [u8; 32],
}

impl View for ReplayEntry {
    type V = ReplayEntry;

    open spec fn view(&self) -> ReplayEntry {
        *self
    }
}

struct TicketId {
    bytes: [u8; 16],
}

impl View for TicketId {
    type V = Seq<u8>;

    closed spec fn view(&self) -> Seq<u8> {
        self.bytes@
    }
}

impl Key for TicketId {
    fn same(&self, other: &Self) -> (r: bool) {
        same_bytes(&self.bytes, &other.bytes)
    }
}

/// What a request for a stream must agree with.
#[verifier::ext_equal]
pub struct BindingModel {
    pub issuer: Seq<u8>,
    pub client: Seq<u8>,
    pub server: Seq<u8>,
    pub tenant: Seq<char>,
    pub service: ServiceModel,
    pub registration_revision: Option<u64>,
    pub registration_expires_at: i64,
    pub authorization_revision: u64,
}

impl BindingModel {
    /// Whether the service is registered and ready.
    pub open spec fn current(self, now: i64) -> bool {
        &&& self.registration_revision is Some
        &&& self.registration_expires_at > now
        &&& self.service.health == Health::Ready
    }

    /// What the ticket of a request must say.
    pub open spec fn expected(self, now: i64, clock_skew: i64) -> ValidationModel {
        ValidationModel {
            issuer_exchange_peer_id: self.issuer,
            client_peer_id: self.client,
            server_peer_id: self.server,
            tenant: self.tenant,
            upstream_id: self.service.upstream_id,
            selector_fingerprint: fingerprint_of(self.tenant, self.service.selector),
            registration_revision: self.registration_revision->Some_0,
            authorization_revision: self.authorization_revision,
            permissions: 4,
            max_streams: 1,
            now,
            clock_skew,
        }
    }

    /// Whether a ticket may open a stream to the service.
    pub open spec fn verdict(self, claims: ClaimsModel, open: OpenModel, now: i64) -> Result<
        (),
        PublicErrorCode,
    > {
        if !self.current(now) || open.registration_revision != self.registration_revision->Some_0
            || claims.registration_revision != self.registration_revision->Some_0 {
            Err(PublicErrorCode::RegistryStaleRevision)
        } else if open.upstream_id != self.service.upstream_id || !crate::ticket::bound_to(
            claims,
            self.expected(now, 0),
        ) {
            Err(PublicErrorCode::AuthTicketInvalid)
        } else {
            Ok(())
        }
    }

    /// What is wrong with a request before its ticket is checked.
    pub open spec fn open_fault(self, open: OpenModel, now: i64) -> Option<PublicErrorCode> {
        if !self.current(now) {
            Some(PublicErrorCode::RegistryStaleRevision)
        } else {
            match opened(open.ticket) {
                None => Some(PublicErrorCode::AuthTicketInvalid),
                Some(envelope) => if open.upstream_id != self.service.upstream_id
                    || open.registration_revision != self.registration_revision->Some_0
                    || envelope.claims.upstream_id != self.service.upstream_id
                    || envelope.claims.registration_revision != self.registration_revision->Some_0 {
                    Some(PublicErrorCode::AuthTicketInvalid)
                } else {
                    None
                },
            }
        }
    }
}

/// The code that says what is wrong with a ticket.
pub open spec fn ticket_code(error: TicketError) -> PublicErrorCode {
    if error == TicketError::Expired {
        PublicErrorCode::AuthTicketExpired
    } else {
        PublicErrorCode::AuthTicketInvalid
    }
}

fn code_of(error: TicketError) -> (r: PublicErrorCode)
    ensures
        r == ticket_code(error),
{
    match error {
        TicketError::Expired => PublicErrorCode::AuthTicketExpired,
        _ => PublicErrorCode::AuthTicketInvalid,
    }
}

/// The tickets that were used.
#[verifier::ext_equal]
pub struct LedgerModel {
    pub capacity: usize,
    pub clock_skew: i64,
    pub replay: Map<Seq<u8>, ReplayEntry>,
}

/// What drawing the number of a stream may give.
pub open spec fn drawable(drawn: Result<[u8; 16], PublicErrorCode>) -> bool {
    drawn matches Err(code) ==> code == PublicErrorCode::LimitProxyStreams
}

impl LedgerModel {
    /// What holds of every ledger: its room and the allowed skew are within
    /// bounds, and it remembers no more than it has room for.
    pub open spec fn valid(self) -> bool {
        &&& 1 <= self.capacity <= MAX_REPLAY_ENTRIES_HARD
        &&& 0 <= self.clock_skew <= 30
        &&& self.replay.dom().finite()
        &&& self.replay.len() <= self.capacity
    }

    /// Without the tickets that have expired.
    pub open spec fn swept(self, now: i64) -> Self {
        LedgerModel {
            replay: kept(
                self.replay,
                |id: Seq<u8>, entry: ReplayEntry| clamp_i64(entry.expires_at + self.clock_skew) > now,
            ),
            ..self
        }
    }

    /// Whether claims are good at a time.
    pub open spec fn timely(self, claims: ClaimsModel, now: i64) -> bool {
        claims.expires_at > clamp_i64(now - self.clock_skew) && claims.not_before <= clamp_i64(
            now + self.clock_skew,
        )
    }

    /// Whether a ticket can be used.
    pub open spec fn preflight(self, candidate: CandidateModel, now: i64) -> Result<
        (),
        PublicErrorCode,
    > {
        let replay = self.swept(now).replay;
        if !self.timely(candidate.claims, now) {
            Err(PublicErrorCode::AuthTicketExpired)
        } else if replay.contains_key(candidate.ticket_id@) {
            Err(PublicErrorCode::AuthTicketReplayed)
        } else if replay.len() >= self.capacity {
            Err(PublicErrorCode::LimitProxyStreams)
        } else {
            Ok(())
        }
    }

    /// The number of the stream that a ticket would open.
    pub open spec fn allocated(
        self,
        candidate: CandidateModel,
        drawn: Result<[u8; 16], PublicErrorCode>,
        now: i64,
    ) -> Result<[u8; 16], PublicErrorCode> {
        match self.preflight(candidate, now) {
            Err(code) => Err(code),
            Ok(()) => match drawn {
                Err(code) => Err(code),
                Ok(id) => if id@ == no_stream() {
                    Err(PublicErrorCode::ExchangeOverloaded)
                } else {
                    Ok(id)
                },
            },
        }
    }

    /// With a ticket used.
    pub open spec fn used(self, candidate: CandidateModel, now: i64) -> Self {
        LedgerModel {
            replay: self.swept(now).replay.insert(
                candidate.ticket_id@,
                ReplayEntry {
                    expires_at: candidate.claims.expires_at,
                    owner_fingerprint: candidate.owner_fingerprint,
                },
            ),
            ..self
        }
    }

    /// What becomes of a ticket for which a stream number was drawn.
    pub open spec fn consumed(
        self,
        candidate: CandidateModel,
        drawn: Result<[u8; 16], PublicErrorCode>,
        now: i64,
    ) -> (LedgerModel, TicketAdmission) {
        match self.allocated(candidate, drawn, now) {
            Err(code) => (self.swept(now), TicketAdmission::Rejected(code)),
            Ok(id) => (self.used(candidate, now), TicketAdmission::Authorized(id)),
        }
    }

    /// What becomes of a ticket that must say what is expected.
    pub open spec fn validated(
        self,
        ring: &VerificationKeyRing,
        envelope: Seq<u8>,
        expected: ValidationModel,
        owner_fingerprint: [u8; 32],
        drawn: Result<[u8; 16], PublicErrorCode>,
    ) -> (LedgerModel, TicketAdmission) {
        match ticket_outcome(envelope, ring, expected) {
            Err(error) => (self, TicketAdmission::Rejected(ticket_code(error))),
            Ok(claims) => self.consumed(
                CandidateModel { ticket_id: claims.ticket_id, claims, owner_fingerprint },
                drawn,
                expected.now,
            ),
        }
    }

    /// What becomes of a request with a ticket whose signature was checked.
    pub open spec fn authorized(
        self,
        candidate: CandidateModel,
        binding: BindingModel,
        open: OpenModel,
        drawn: Result<[u8; 16], PublicErrorCode>,
        now: i64,
    ) -> (LedgerModel, TicketAdmission) {
        match binding.verdict(candidate.claims, open, now) {
            Err(code) => (self, TicketAdmission::Rejected(code)),
            Ok(()) => self.consumed(candidate, drawn, now),
        }
    }

    /// What becomes of a request.
    pub open spec fn opens(
        self,
        ring: &VerificationKeyRing,
        binding: BindingModel,
        open: OpenModel,
        owner_fingerprint: [u8; 32],
        drawn: Result<[u8; 16], PublicErrorCode>,
        now: i64,
    ) -> (LedgerModel, TicketAdmission) {
        match binding.open_fault(open, now) {
            Some(code) => (self, TicketAdmission::Rejected(code)),
            None => self.validated(
                ring,
                open.ticket,
                binding.expected(now, self.clock_skew),
                owner_fingerprint,
                drawn,
            ),
        }
    }
}

/// Forgetting leaves a ledger valid.
proof fn lemma_swept_valid(m: LedgerModel, now: i64)
    requires
        m.valid(),
    ensures
        m.swept(now).valid(),
{
    let swept = m.swept(now).replay;
    assert(swept.dom().subset_of(m.replay.dom()));
    vstd::set_lib::lemma_len_subset(swept.dom(), m.replay.dom());
}

proof fn lemma_swept_twice(m: LedgerModel, now: i64)
    ensures
        m.swept(now).swept(now) == m.swept(now),
{
    assert(m.swept(now).swept(now).replay =~= m.swept(now).replay);
}

/// Draws the number of a stream.
fn random_stream_id() -> (r: Result<[u8; 16], PublicErrorCode>)
    ensures
        drawable(r),
{
    match random_array::<16>() {
        Some(id) => Ok(id),
        None => Err(PublicErrorCode::LimitProxyStreams),
    }
}

/// The tickets that were used.
pub struct TicketAdmissionLedger {
    capacity: usize,
    clock_skew: i64,
    replay: Table<TicketId, ReplayEntry>,
}

impl View for TicketAdmissionLedger {
    type V = LedgerModel;

    closed spec fn view(&self) -> LedgerModel {
        LedgerModel {
            capacity: self.capacity,
            clock_skew: self.clock_skew,
            replay: self.replay@,
        }
    }
}

impl Default for TicketAdmissionLedger {
    fn default() -> (r: Self)
        ensures
            r@ == (LedgerModel {
                capacity: MAX_REPLAY_ENTRIES,
                clock_skew: 5,
                replay: Map::empty(),
            }),
    {
        TicketAdmissionLedger { capacity: MAX_REPLAY_ENTRIES, clock_skew: 5, replay: Table::new() }
    }
}

impl TicketAdmissionLedger {
    #[verifier::type_invariant]
    pub open spec fn valid(self) -> bool {
        self@.valid()
    }

    /// Takes what is remembered out, to be put back changed.
    fn take_replay(&mut self) -> (r: Table<TicketId, ReplayEntry>)
        ensures
            r@ == old(self)@.replay,
            final(self)@ == (LedgerModel { replay: Map::empty(), ..old(self)@ }),
            old(self)@.valid(),
    {
        let mut replay: Table<TicketId, ReplayEntry> = Table::new();
        proof {
            use_type_invariant(&*self);
        }
        std::mem::swap(&mut replay, &mut self.replay);
        replay
    }

    pub fn new(capacity: usize, clock_skew: i64) -> (r: Result<Self, PublicErrorCode>)
        ensures
            match r {
                Ok(ledger) => 1 <= capacity <= MAX_REPLAY_ENTRIES_HARD && 0 <= clock_skew <= 30
                    && ledger@ == (LedgerModel { capacity, clock_skew, replay: Map::empty() }),
                Err(code) => !(1 <= capacity <= MAX_REPLAY_ENTRIES_HARD && 0 <= clock_skew <= 30)
                    && code == PublicErrorCode::ProtocolMalformed,
            },
    {
        if capacity == 0 || capacity > MAX_REPLAY_ENTRIES_HARD || clock_skew < 0 || clock_skew > 30 {
            return Err(PublicErrorCode::ProtocolMalformed);
        }
        Ok(TicketAdmissionLedger { capacity, clock_skew, replay: Table::new() })
    }

    /// Forgets the tickets that have expired.
    pub fn sweep(&mut self, now: i64)
        ensures
            final(self)@ == old(self)@.swept(now),
    {
        let skew: i64 = self.clock_skew;
        let ghost keeps = |id: Seq<u8>, entry: ReplayEntry| clamp_i64(entry.expires_at + skew) > now;
        let keep = |_id: &TicketId, entry: &ReplayEntry| -> (b: bool)
            ensures
                b == (clamp_i64(entry.expires_at + skew) > now),
            { saturating_add(entry.expires_at, skew) > now };
        let mut replay = self.take_replay();
        replay.retain(keep, Ghost(keeps));
        proof {
            assert(replay@ =~= old(self)@.swept(now).replay);
            lemma_swept_valid(old(self)@, now);
        }
        self.replay = replay;
    }

    /// Checks a ticket's signature and times.
    pub fn verify_candidate(&self, ring: &VerificationKeyRing, envelope: &[u8], now: i64) -> (r: Result<
        ValidationCandidate,
        PublicErrorCode,
    >)
        ensures
            match r {
                Ok(candidate) => signature_outcome(envelope@, ring, now, self@.clock_skew) == Ok::<
                    ClaimsModel,
                    TicketError,
                >(candidate@.claims) && candidate@.ticket_id == candidate@.claims.ticket_id
                    && candidate@.owner_fingerprint@ == Seq::new(32, |i: int| 0u8),
                Err(code) => (signature_outcome(envelope@, ring, now, self@.clock_skew) matches Err(
                    error,
                ) && code == ticket_code(error)),
            },
    {
        match verify_signature_with_key_resolver(envelope, ring, now, self.clock_skew) {
            Ok(ticket) => {
                let owner_fingerprint = [0u8; 32];
                assert(owner_fingerprint@ =~= Seq::new(32, |i: int| 0u8));
                Ok(
                    ValidationCandidate {
                        ticket_id: ticket.ticket_id(),
                        claims: ticket.claims().clone(),
                        owner_fingerprint,
                    },
                )
            },
            Err(error) => Err(code_of(error)),
        }
    }

    /// Whether a ticket is good at a time.
    pub fn candidate_time_valid(&self, candidate: &ValidationCandidate, now: i64) -> (r: bool)
        ensures
            r == self@.timely(candidate@.claims, now),
    {
        candidate.claims.expires_at() > saturating_sub(now, self.clock_skew)
            && candidate.claims.not_before() <= saturating_add(now, self.clock_skew)
    }

    /// Whether a ticket can be used.
    pub fn preflight_candidate(&mut self, candidate: &ValidationCandidate, now: i64) -> (r: Result<
        (),
        PublicErrorCode,
    >)
        ensures
            r == old(self)@.preflight(candidate@, now),
            final(self)@ == old(self)@.swept(now),
    {
        self.sweep(now);
        if !self.candidate_time_valid(candidate, now) {
            return Err(PublicErrorCode::AuthTicketExpired);
        }
        if self.replay.contains(&TicketId { bytes: candidate.ticket_id }) {
            return Err(PublicErrorCode::AuthTicketReplayed);
        }
        if self.replay.len() >= self.capacity {
            return Err(PublicErrorCode::LimitProxyStreams);
        }
        Ok(())
    }

    /// The number of the stream that a ticket would open.
    pub fn allocate_stream_id(&mut self, candidate: &ValidationCandidate, now: i64) -> (r: Result<
        [u8; 16],
        PublicErrorCode,
    >)
        ensures
            exists|drawn: Result<[u8; 16], PublicErrorCode>|
                drawable(drawn) && r == #[trigger] old(self)@.allocated(candidate@, drawn, now),
            final(self)@ == old(self)@.swept(now),
    {
        let drawn = random_stream_id();
        self.allocate_drawn(candidate, drawn, now)
    }

    /// The number of the stream that a ticket would open, if `drawn` is what was
    /// drawn.
    pub fn allocate_drawn(
        &mut self,
        candidate: &ValidationCandidate,
        drawn: Result<[u8; 16], PublicErrorCode>,
        now: i64,
    ) -> (r: Result<[u8; 16], PublicErrorCode>)
        ensures
            r == old(self)@.allocated(candidate@, drawn, now),
            final(self)@ == old(self)@.swept(now),
    {
        match self.preflight_candidate(candidate, now) {
            Ok(()) => {},
            Err(code) => return Err(code),
        }
        let id = match drawn {
            Ok(id) => id,
            Err(code) => return Err(code),
        };
        if AdmissionToken::new(id).is_empty() {
            return Err(PublicErrorCode::ExchangeOverloaded);
        }
        Ok(id)
    }

    /// Uses a ticket for the stream of a given number.
    pub fn consume_candidate_with_stream_id(
        &mut self,
        candidate: ValidationCandidate,
        stream_id: [u8; 16],
        now: i64,
    ) -> (r: TicketAdmission)
        ensures
            (final(self)@, r) == old(self)@.consumed(candidate@, Ok(stream_id), now),
    {
        match self.preflight_candidate(&candidate, now) {
            Ok(()) => {},
            Err(code) => return TicketAdmission::Rejected(code),
        }
        if AdmissionToken::new(stream_id).is_empty() {
            return TicketAdmission::Rejected(PublicErrorCode::ExchangeOverloaded);
        }
        let mut replay = self.take_replay();
        replay.insert(
            TicketId { bytes: candidate.ticket_id },
            ReplayEntry {
                expires_at: candidate.claims.expires_at(),
                owner_fingerprint: candidate.owner_fingerprint,
            },
        );
        self.replay = replay;
        TicketAdmission::Authorized(stream_id)
    }

    /// Uses a ticket.
    pub fn consume_candidate(&mut self, candidate: ValidationCandidate, now: i64) -> (r: TicketAdmission)
        ensures
            exists|drawn: Result<[u8; 16], PublicErrorCode>|
                drawable(drawn) && (final(self)@, r) == #[trigger] old(self)@.consumed(
                    candidate@,
                    drawn,
                    now,
                ),
    {
        let drawn = random_stream_id();
        self.consume_drawn(candidate, drawn, now)
    }

    /// Uses a ticket, if `drawn` is what was drawn for its stream.
    pub fn consume_drawn(
        &mut self,
        candidate: ValidationCandidate,
        drawn: Result<[u8; 16], PublicErrorCode>,
        now: i64,
    ) -> (r: TicketAdmission)
        ensures
            (final(self)@, r) == old(self)@.consumed(candidate@, drawn, now),
    {
        proof {
            lemma_swept_twice(self@, now);
        }
        let stream_id = match self.allocate_drawn(&candidate, drawn, now) {
            Ok(stream_id) => stream_id,
            Err(code) => return TicketAdmission::Rejected(code),
        };
        self.consume_candidate_with_stream_id(candidate, stream_id, now)
    }

    /// Whether a ticket may open a stream to a service.
    pub fn validate_candidate(
        &self,
        candidate: &ValidationCandidate,
        issuer: &PeerId,
        client: &PeerId,
        server: &PeerId,
        tenant: &Tenant,
        service: &ServiceAdvertisementV1,
        registration_revision: Option<RegistrationRevision>,
        registration_expires_at: i64,
        authorization_revision: u64,
        open: &OpenProxyStreamV1,
        now: i64,
    ) -> (r: Result<(), PublicErrorCode>)
        ensures
            r == binding_of(
                issuer,
                client,
                server,
                tenant,
                service,
                registration_revision,
                registration_expires_at,
                authorization_revision,
            ).verdict(candidate@.claims, open@, now),
    {
        let revision: u64 = match registration_revision {
            Some(revision) => revision.get(),
            None => return Err(PublicErrorCode::RegistryStaleRevision),
        };
        if registration_expires_at <= now || service.health() != Health::Ready {
            return Err(PublicErrorCode::RegistryStaleRevision);
        }
        let claims = &candidate.claims;
        if open.registration_revision.get() != revision || claims.registration_revision() != revision {
            return Err(PublicErrorCode::RegistryStaleRevision);
        }
        let fingerprint = service.selector().fingerprint(tenant);
        if !open.upstream_id.same(service.upstream_id()) || !same_bytes(
            claims.issuer_exchange_peer_id(),
            issuer.as_bytes(),
        ) || !same_bytes(claims.client_peer_id(), client.as_bytes()) || !same_bytes(
            claims.server_peer_id(),
            server.as_bytes(),
        ) || !same_text(claims.tenant(), tenant.as_str()) || !same_text(
            claims.upstream_id(),
            service.upstream_id().as_str(),
        ) || !same_bytes(&claims.selector_fingerprint(), &fingerprint)
            || claims.authorization_revision() != authorization_revision || claims.permissions()
            != Scope::OpenProxyStream.bit() || claims.max_streams() != 1 {
            return Err(PublicErrorCode::AuthTicketInvalid);
        }
        Ok(())
    }

    /// Uses a ticket whose signature was checked, if it may open a stream to a
    /// service.
    pub fn authorize_candidate(
        &mut self,
        candidate: ValidationCandidate,
        issuer: &PeerId,
        client: &PeerId,
        server: &PeerId,
        tenant: &Tenant,
        service: &ServiceAdvertisementV1,
        registration_revision: Option<RegistrationRevision>,
        registration_expires_at: i64,
        authorization_revision: u64,
        open: &OpenProxyStreamV1,
        now: i64,
    ) -> (r: TicketAdmission)
        ensures
            exists|drawn: Result<[u8; 16], PublicErrorCode>|
                drawable(drawn) && (final(self)@, r) == #[trigger] old(self)@.authorized(
                    candidate@,
                    binding_of(
                        issuer,
                        client,
                        server,
                        tenant,
                        service,
                        registration_revision,
                        registration_expires_at,
                        authorization_revision,
                    ),
                    open@,
                    drawn,
                    now,
                ),
    {
        let ghost model = candidate@;
        let ghost binding = binding_of(
            issuer,
            client,
            server,
            tenant,
            service,
            registration_revision,
            registration_expires_at,
            authorization_revision,
        );
        let drawn = random_stream_id();
        let verdict = self.validate_candidate(
            &candidate,
            issuer,
            client,
            server,
            tenant,
            service,
            registration_revision,
            registration_expires_at,
            authorization_revision,
            open,
            now,
        );
        let r = match verdict {
            Err(code) => TicketAdmission::Rejected(code),
            Ok(()) => self.consume_drawn(candidate, drawn, now),
        };
        assert((self@, r) == old(self)@.authorized(model, binding, open@, drawn, now));
        r
    }

    /// Uses a ticket, if it says what is expected.
    pub fn validate_and_consume(
        &mut self,
        ring: &VerificationKeyRing,
        envelope: &[u8],
        expected: &TicketValidation<'_>,
        owner_fingerprint: [u8; 32],
    ) -> (r: TicketAdmission)
        ensures
            exists|drawn: Result<[u8; 16], PublicErrorCode>|
                drawable(drawn) && (final(self)@, r) == #[trigger] old(self)@.validated(
                    ring,
                    envelope@,
                    expected@,
                    owner_fingerprint,
                    drawn,
                ),
    {
        let drawn = random_stream_id();
        self.validate_and_consume_drawn(ring, envelope, expected, owner_fingerprint, drawn)
    }

    /// Uses a ticket, if it says what is expected, and if `drawn` is what was
    /// drawn for its stream.
    pub fn validate_and_consume_drawn(
        &mut self,
        ring: &VerificationKeyRing,
        envelope: &[u8],
        expected: &TicketValidation<'_>,
        owner_fingerprint: [u8; 32],
        drawn: Result<[u8; 16], PublicErrorCode>,
    ) -> (r: TicketAdmission)
        ensures
            (final(self)@, r) == old(self)@.validated(
                ring,
                envelope@,
                expected@,
                owner_fingerprint,
                drawn,
            ),
    {
        let ticket = match ring.verify(envelope, expected) {
            Ok(ticket) => ticket,
            Err(error) => return TicketAdmission::Rejected(code_of(error)),
        };
        let candidate = ValidationCandidate {
            ticket_id: ticket.ticket_id(),
            claims: ticket.claims().clone(),
            owner_fingerprint,
        };
        self.consume_drawn(candidate, drawn, expected.now)
    }

    /// Uses the ticket of a request, if it may open a stream to a service.
    pub fn authorize_open(
        &mut self,
        ring: &VerificationKeyRing,
        issuer: &PeerId,
        client: &PeerId,
        server: &PeerId,
        tenant: &Tenant,
        service: &ServiceAdvertisementV1,
        registration_revision: Option<RegistrationRevision>,
        registration_expires_at: i64,
        authorization_revision: u64,
        open: &OpenProxyStreamV1,
        now: i64,
        owner_fingerprint: [u8; 32],
    ) -> (r: TicketAdmission)
        ensures
            exists|drawn: Result<[u8; 16], PublicErrorCode>|
                drawable(drawn) && (final(self)@, r) == #[trigger] old(self)@.opens(
                    ring,
                    binding_of(
                        issuer,
                        client,
                        server,
                        tenant,
                        service,
                        registration_revision,
                        registration_expires_at,
                        authorization_revision,
                    ),
                    open@,
                    owner_fingerprint,
                    drawn,
                    now,
                ),
    {
        let drawn = random_stream_id();
        self.authorize_open_drawn(
            ring,
            issuer,
            client,
            server,
            tenant,
            service,
            registration_revision,
            registration_expires_at,
            authorization_revision,
            open,
            now,
            owner_fingerprint,
            drawn,
        )
    }

    /// Uses the ticket of a request, if it may open a stream to a service, and if
    /// `drawn` is what was drawn for that stream.
    pub fn authorize_open_drawn(
        &mut self,
        ring: &VerificationKeyRing,
        issuer: &PeerId,
        client: &PeerId,
        server: &PeerId,
        tenant: &Tenant,
        service: &ServiceAdvertisementV1,
        registration_revision: Option<RegistrationRevision>,
        registration_expires_at: i64,
        authorization_revision: u64,
        open: &OpenProxyStreamV1,
        now: i64,
        owner_fingerprint: [u8; 32],
        drawn: Result<[u8; 16], PublicErrorCode>,
    ) -> (r: TicketAdmission)
        ensures
            (final(self)@, r) == old(self)@.opens(
                ring,
                binding_of(
                    issuer,
                    client,
                    server,
                    tenant,
                    service,
                    registration_revision,
                    registration_expires_at,
                    authorization_revision,
                ),
                open@,
                owner_fingerprint,
                drawn,
                now,
            ),
    {
        let revision: u64 = match registration_revision {
            Some(revision) => revision.get(),
            None => return TicketAdmission::Rejected(PublicErrorCode::RegistryStaleRevision),
        };
        if registration_expires_at <= now || service.health() != Health::Ready {
            return TicketAdmission::Rejected(PublicErrorCode::RegistryStaleRevision);
        }
        let (_, claims, _) = match decode_envelope(open.ticket.as_bytes()) {
            Ok(parts) => parts,
            Err(_) => return TicketAdmission::Rejected(PublicErrorCode::AuthTicketInvalid),
        };
        if !open.upstream_id.same(service.upstream_id()) || open.registration_revision.get() != revision
            || !same_text(claims.upstream_id(), service.upstream_id().as_str())
            || claims.registration_revision() != revision {
            return TicketAdmission::Rejected(PublicErrorCode::AuthTicketInvalid);
        }
        let expected = TicketValidation {
            issuer_exchange_peer_id: issuer.as_bytes(),
            client_peer_id: client.as_bytes(),
            server_peer_id: server.as_bytes(),
            tenant: tenant.as_str(),
            upstream_id: service.upstream_id().as_str(),
            selector_fingerprint: service.selector().fingerprint(tenant),
            registration_revision: revision,
            authorization_revision,
            permissions: Scope::OpenProxyStream.bit(),
            max_streams: 1,
            now,
            clock_skew: self.clock_skew,
        };
        self.validate_and_consume_drawn(
            ring,
            open.ticket.as_bytes(),
            &expected,
            owner_fingerprint,
            drawn,
        )
    }

    pub fn len(&self) -> (r: usize)
        ensures
            r == self@.replay.len(),
            self@.valid(),
    {
        proof {
            use_type_invariant(self);
        }
        self.replay.len()
    }

    pub fn is_empty(&self) -> (r: bool)
        ensures
            r == (self@.replay.len() == 0),
    {
        self.replay.len() == 0
    }

    pub fn clock_skew(&self) -> (r: i64)
        ensures
            r == self@.clock_skew,
            self@.valid(),
    {
        proof {
            use_type_invariant(self);
        }
        self.clock_skew
    }

    /// Forgets every ticket.
    pub fn clear(&mut self)
        ensures
            final(self)@ == (LedgerModel { replay: Map::empty(), ..old(self)@ }),
    {
        let _ = self.take_replay();
    }

    pub fn capacity(&self) -> (r: usize)
        ensures
            r == self@.capacity,
            self@.valid(),
    {
        proof {
            use_type_invariant(self);
        }
        self.capacity
    }
}

/// What a request for a stream must agree with.
pub open spec fn binding_of(
    issuer: &PeerId,
    client: &PeerId,
    server: &PeerId,
    tenant: &Tenant,
    service: &ServiceAdvertisementV1,
    registration_revision: Option<RegistrationRevision>,
    registration_expires_at: i64,
    authorization_revision: u64,
) -> BindingModel {
    BindingModel {
        issuer: issuer@,
        client: client@,
        server: server@,
        tenant: tenant@,
        service: service@,
        registration_revision: match registration_revision {
            Some(revision) => Some(revision@),
            None => None,
        },
        registration_expires_at,
        authorization_revision,
    }
}

/// What is asked of a ledger. Only forgetting every ticket is left out.
pub enum LedgerCall {
    /// Expired tickets are forgotten: all that looking at a ticket does.
    Sweep,
    Consume { candidate: CandidateModel, drawn: Result<[u8; 16], PublicErrorCode> },
    Authorize {
        candidate: CandidateModel,
        binding: BindingModel,
        open: OpenModel,
        drawn: Result<[u8; 16], PublicErrorCode>,
    },
    Validate {
        ring: VerificationKeyRing,
        envelope: Seq<u8>,
        expected: ValidationModel,
        owner_fingerprint: [u8; 32],
        drawn: Result<[u8; 16], PublicErrorCode>,
    },
    Open {
        ring: VerificationKeyRing,
        binding: BindingModel,
        open: OpenModel,
        owner_fingerprint: [u8; 32],
        drawn: Result<[u8; 16], PublicErrorCode>,
    },
}

impl LedgerModel {
    /// After a call at a time.
    pub open spec fn called(self, call: LedgerCall, now: i64) -> Self {
        match call {
            LedgerCall::Sweep => self.swept(now),
            LedgerCall::Consume { candidate, drawn } => self.consumed(candidate, drawn, now).0,
            LedgerCall::Authorize { candidate, binding, open, drawn } => self.authorized(
                candidate,
                binding,
                open,
                drawn,
                now,
            ).0,
            LedgerCall::Validate { ring, envelope, expected, owner_fingerprint, drawn } => self.validated(
                &ring,
                envelope,
                ValidationModel { now, ..expected },
                owner_fingerprint,
                drawn,
            ).0,
            LedgerCall::Open { ring, binding, open, owner_fingerprint, drawn } => self.opens(
                &ring,
                binding,
                open,
                owner_fingerprint,
                drawn,
                now,
            ).0,
        }
    }

    /// After calls, each with its time.
    pub open spec fn after_calls(self, calls: Seq<(i64, LedgerCall)>) -> Self
        decreases calls.len(),
    {
        if calls.len() == 0 {
            self
        } else {
            self.after_calls(calls.drop_last()).called(calls.last().1, calls.last().0)
        }
    }

    /// A ticket that was used is known until it has expired for good.
    pub open spec fn remembers(self, ticket_id: Seq<u8>, expires_at: i64, now: i64) -> bool {
        clamp_i64(expires_at + self.clock_skew) > now ==> self.replay.contains_key(ticket_id)
            && self.replay[ticket_id].expires_at == expires_at
    }
}

/// Times of calls that do not go back, from one time to another.
pub open spec fn in_order<A>(calls: Seq<(i64, A)>, from: i64, to: i64) -> bool {
    &&& from <= to
    &&& forall|i: int| 0 <= i < calls.len() ==> from <= (#[trigger] calls[i]).0 <= to
    &&& forall|i: int, j: int| 0 <= i < j < calls.len() ==> (#[trigger] calls[i]).0 <= (
    #[trigger] calls[j]).0
}

/// Whatever is asked of a ledger, it still knows the tickets that it knew, until
/// they have expired for good.
pub proof fn law_used_tickets_are_remembered(
    m: LedgerModel,
    ticket_id: Seq<u8>,
    expires_at: i64,
    call: LedgerCall,
    now: i64,
    later: i64,
)
    requires
        m.remembers(ticket_id, expires_at, now),
        now <= later,
    ensures
        m.called(call, later).remembers(ticket_id, expires_at, later),
        m.called(call, later).clock_skew == m.clock_skew,
{
    if clamp_i64(expires_at + m.clock_skew) > later {
        assert(m.swept(later).replay.contains_key(ticket_id));
    }
}

proof fn lemma_remembered_after_calls(
    m: LedgerModel,
    ticket_id: Seq<u8>,
    expires_at: i64,
    calls: Seq<(i64, LedgerCall)>,
    now: i64,
    later: i64,
)
    requires
        m.remembers(ticket_id, expires_at, now),
        in_order(calls, now, later),
    ensures
        m.after_calls(calls).remembers(ticket_id, expires_at, later),
        m.after_calls(calls).clock_skew == m.clock_skew,
    decreases calls.len(),
{
    if calls.len() > 0 {
        let before = calls.drop_last();
        let at = calls.last().0;
        assert(in_order(before, now, at)) by {
            assert forall|i: int| 0 <= i < before.len() implies now <= (#[trigger] before[i]).0 <= at by {
                assert(before[i] == calls[i]);
                assert(calls[i].0 <= calls[calls.len() - 1].0);
            }
            assert forall|i: int, j: int| 0 <= i < j < before.len() implies (#[trigger] before[i]).0 <= (
            #[trigger] before[j]).0 by {
                assert(before[i] == calls[i] && before[j] == calls[j]);
            }
        }
        lemma_remembered_after_calls(m, ticket_id, expires_at, before, now, at);
        law_used_tickets_are_remembered(
            m.after_calls(before),
            ticket_id,
            expires_at,
            calls.last().1,
            at,
            at,
        );
    }
}

/// A ticket that was used is not used again, whatever is asked of the ledger in
/// between, as long as its expiry and the allowed skew stay within the range of
/// times. It is turned down as replayed while it is good, and as expired from
/// then on.
pub proof fn law_ticket_is_used_once(
    m: LedgerModel,
    first: CandidateModel,
    second: CandidateModel,
    drawn: Result<[u8; 16], PublicErrorCode>,
    again: Result<[u8; 16], PublicErrorCode>,
    calls: Seq<(i64, LedgerCall)>,
    now: i64,
    later: i64,
)
    requires
        m.valid(),
        later < i64::MAX || first.claims.expires_at + m.clock_skew <= i64::MAX,
        m.consumed(first, drawn, now).1 is Authorized,
        in_order(calls, now, later),
        second.ticket_id == first.ticket_id,
        second.claims == first.claims,
    ensures
        ({
            let ledger = m.consumed(first, drawn, now).0.after_calls(calls);
            &&& ledger.consumed(second, again, later).1 == TicketAdmission::Rejected(
                if m.timely(second.claims, later) {
                    PublicErrorCode::AuthTicketReplayed
                } else {
                    PublicErrorCode::AuthTicketExpired
                },
            )
            &&& forall|binding: BindingModel, open: OpenModel| #[trigger]
                ledger.authorized(second, binding, open, again, later).1 is Rejected
        }),
{
    let used = m.consumed(first, drawn, now).0;
    assert(used.remembers(first.ticket_id@, first.claims.expires_at, now));
    lemma_remembered_after_calls(
        used,
        first.ticket_id@,
        first.claims.expires_at,
        calls,
        now,
        later,
    );
    let ledger = used.after_calls(calls);
    if ledger.timely(second.claims, later) {
        assert(clamp_i64(first.claims.expires_at + ledger.clock_skew) > later);
        assert(ledger.swept(later).replay.contains_key(first.ticket_id@));
    }
}

/// What is rejected uses no ticket: the ledger only forgets what has expired.
pub proof fn law_rejection_uses_nothing(
    m: LedgerModel,
    candidate: CandidateModel,
    binding: BindingModel,
    open: OpenModel,
    drawn: Result<[u8; 16], PublicErrorCode>,
    now: i64,
)
    requires
        m.authorized(candidate, binding, open, drawn, now).1 is Rejected,
    ensures
        m.authorized(candidate, binding, open, drawn, now).0 == m || m.authorized(
            candidate,
            binding,
            open,
            drawn,
            now,
        ).0 == m.swept(now),
{
}

/// Whatever is asked of a ledger, its room and the allowed skew stay what they
/// were, and it never remembers more tickets than it has room for.
pub proof fn law_capacity_holds(m: LedgerModel, calls: Seq<(i64, LedgerCall)>)
    requires
        m.valid(),
    ensures
        m.after_calls(calls).valid(),
        m.after_calls(calls).capacity == m.capacity,
        m.after_calls(calls).clock_skew == m.clock_skew,
    decreases calls.len(),
{
    if calls.len() > 0 {
        let before = m.after_calls(calls.drop_last());
        law_capacity_holds(m, calls.drop_last());
        lemma_swept_valid(before, calls.last().0);
    }
}

/// A ticket that is in its time and was not used opens a stream as long as there
/// is room to remember it, and is remembered from then on; otherwise it is
/// turned down for what is wrong with it, and nothing new is remembered.
pub proof fn law_unused_tickets_open_a_stream(
    m: LedgerModel,
    candidate: CandidateModel,
    drawn: [u8; 16],
    now: i64,
)
    requires
        m.valid(),
        -1_000_000_000_000 <= now <= 1_000_000_000_000,
    ensures
        ({
            let (after, admission) = m.consumed(candidate, Ok(drawn), now);
            let claims = candidate.claims;
            let in_time = claims.expires_at > now - m.clock_skew && claims.not_before <= now + m.clock_skew;
            let known = m.swept(now).replay.contains_key(candidate.ticket_id@);
            let room = m.swept(now).replay.len() < m.capacity;
            &&& in_time && !known && room && drawn@ != no_stream() ==> admission
                == TicketAdmission::Authorized(drawn) && after.replay.contains_key(candidate.ticket_id@)
                && after.replay[candidate.ticket_id@].expires_at == claims.expires_at
                && after.replay[candidate.ticket_id@].owner_fingerprint == candidate.owner_fingerprint
            &&& !in_time ==> admission == TicketAdmission::Rejected(PublicErrorCode::AuthTicketExpired)
            &&& in_time && known ==> admission == TicketAdmission::Rejected(
                PublicErrorCode::AuthTicketReplayed,
            )
            &&& in_time && !known && !room ==> admission == TicketAdmission::Rejected(
                PublicErrorCode::LimitProxyStreams,
            )
            &&& in_time && !known && room && drawn@ == no_stream() ==> admission
                == TicketAdmission::Rejected(PublicErrorCode::ExchangeOverloaded)
            &&& admission is Rejected ==> after == m.swept(now)
            &&& m.preflight(candidate, now) is Ok <==> in_time && !known && room
            &&& m.consumed(candidate, Err(PublicErrorCode::LimitProxyStreams), now).1 is Rejected
            &&& after.capacity == m.capacity && after.clock_skew == m.clock_skew
        }),
{
}

/// A used ticket is forgotten only once it could not be used any more whatever
/// the clocks: at its end and the allowed difference later. Others stay.
pub proof fn law_used_tickets_are_kept_until_their_end(m: LedgerModel, ticket_id: Seq<u8>, now: i64)
    requires
        m.valid(),
        m.replay.contains_key(ticket_id),
        -1_000_000_000_000 <= m.replay[ticket_id].expires_at <= 1_000_000_000_000,
    ensures
        m.swept(now).replay.contains_key(ticket_id) <==> now < m.replay[ticket_id].expires_at + m.clock_skew,
        m.swept(now).replay.contains_key(ticket_id) ==> m.swept(now).replay[ticket_id]
            == m.replay[ticket_id],
        forall|other: Seq<u8>| #[trigger]
            m.swept(now).replay.contains_key(other) ==> m.replay.contains_key(other),
{
}

/// A stream is opened only to the service that is registered and ready, under
/// its current revision, and with a ticket that was issued for just that: by
/// this exchange, to this client, for this server, tenant, service and
/// selector, under the current authorization, for one stream.
pub proof fn law_streams_are_opened_for_what_the_ticket_says(
    binding: BindingModel,
    claims: ClaimsModel,
    open: OpenModel,
    now: i64,
)
    ensures
        ({
            let verdict = binding.verdict(claims, open, now);
            let standing = binding.registration_revision is Some && binding.registration_expires_at > now
                && binding.service.health == Health::Ready;
            let revision = binding.registration_revision->Some_0;
            let current = standing && open.registration_revision == revision
                && claims.registration_revision == revision;
            let fits = open.upstream_id == binding.service.upstream_id && claims.upstream_id
                == binding.service.upstream_id && claims.issuer_exchange_peer_id == binding.issuer
                && claims.client_peer_id == binding.client && claims.server_peer_id == binding.server
                && claims.tenant == binding.tenant && claims.selector_fingerprint@ == fingerprint_of(
                binding.tenant,
                binding.service.selector,
            ) && claims.authorization_revision == binding.authorization_revision && claims.permissions == 4
                && claims.max_streams == 1;
            &&& verdict is Ok <==> current && fits
            &&& !current ==> verdict == Err::<(), PublicErrorCode>(PublicErrorCode::RegistryStaleRevision)
            &&& current && !fits ==> verdict == Err::<(), PublicErrorCode>(
                PublicErrorCode::AuthTicketInvalid,
            )
        }),
{
}

/// What a ticket is held against is what the server knows: nothing of it comes
/// from the ticket.
pub proof fn law_tickets_are_held_against_what_is_known(binding: BindingModel, now: i64, clock_skew: i64)
    requires
        binding.registration_revision is Some,
    ensures
        ({
            let expected = binding.expected(now, clock_skew);
            &&& expected.issuer_exchange_peer_id == binding.issuer
            &&& expected.client_peer_id == binding.client
            &&& expected.server_peer_id == binding.server
            &&& expected.tenant == binding.tenant
            &&& expected.upstream_id == binding.service.upstream_id
            &&& expected.selector_fingerprint == fingerprint_of(binding.tenant, binding.service.selector)
            &&& Some(expected.registration_revision) == binding.registration_revision
            &&& expected.authorization_revision == binding.authorization_revision
            &&& expected.permissions == 4 && expected.max_streams == 1
            &&& expected.now == now && expected.clock_skew == clock_skew
        }),
{
}

/// A request is looked at before its ticket is checked: its service must be
/// registered and ready, and both the request and its ticket must name that
/// service and its revision.
pub proof fn law_requests_are_looked_at_first(binding: BindingModel, open: OpenModel, now: i64)
    ensures
        ({
            let standing = binding.registration_revision is Some && binding.registration_expires_at > now
                && binding.service.health == Health::Ready;
            let revision = binding.registration_revision->Some_0;
            let named = open.upstream_id == binding.service.upstream_id && open.registration_revision
                == revision && (opened(open.ticket) matches Some(envelope) && envelope.claims.upstream_id
                == binding.service.upstream_id && envelope.claims.registration_revision == revision);
            &&& !standing ==> binding.open_fault(open, now) == Some(PublicErrorCode::RegistryStaleRevision)
            &&& standing && !named ==> binding.open_fault(open, now) == Some(
                PublicErrorCode::AuthTicketInvalid,
            )
            &&& standing && named ==> binding.open_fault(open, now) is None
        }),
{
}

/// A request with a sound ticket that was not used is authorized; anything that
/// is wrong with the request, the ticket or its use is what it is turned down
/// for, in that order.
pub proof fn law_sound_requests_are_authorized(
    m: LedgerModel,
    ring: &VerificationKeyRing,
    binding: BindingModel,
    open: OpenModel,
    owner_fingerprint: [u8; 32],
    drawn: Result<[u8; 16], PublicErrorCode>,
    candidate: CandidateModel,
    now: i64,
)
    ensures
        ({
            let (after, admission) = m.opens(ring, binding, open, owner_fingerprint, drawn, now);
            let checked = ticket_outcome(open.ticket, ring, binding.expected(now, m.clock_skew));
            &&& binding.open_fault(open, now) matches Some(code) ==> (after, admission) == (
                m,
                TicketAdmission::Rejected(code),
            )
            &&& binding.open_fault(open, now) is None && checked == Err::<ClaimsModel, TicketError>(
                TicketError::Expired,
            ) ==> (after, admission) == (m, TicketAdmission::Rejected(PublicErrorCode::AuthTicketExpired))
            &&& binding.open_fault(open, now) is None && checked == Err::<ClaimsModel, TicketError>(
                TicketError::Invalid,
            ) ==> (after, admission) == (m, TicketAdmission::Rejected(PublicErrorCode::AuthTicketInvalid))
            &&& binding.open_fault(open, now) is None ==> (checked matches Ok(claims) ==> (after, admission)
                == m.consumed(
                CandidateModel { ticket_id: claims.ticket_id, claims, owner_fingerprint },
                drawn,
                now,
            ))
        }),
        binding.verdict(candidate.claims, open, now) is Ok ==> m.authorized(
            candidate,
            binding,
            open,
            drawn,
            now,
        ) == m.consumed(candidate, drawn, now),
        binding.verdict(candidate.claims, open, now) matches Err(code) ==> m.authorized(
            candidate,
            binding,
            open,
            drawn,
            now,
        ) == (m, TicketAdmission::Rejected(code)),
{
}

/// That a ticket has expired is told apart from everything else that may be
/// wrong with it.
pub proof fn law_expiry_is_told_apart(error: TicketError)
    ensures
        ticket_code(error) == PublicErrorCode::AuthTicketExpired <==> error == TicketError::Expired,
        ticket_code(error) == PublicErrorCode::AuthTicketInvalid <==> error != TicketError::Expired,
{
}

/// A ledger has room for between one and sixty-five thousand five hundred and
/// thirty-six tickets, and allows half a minute of skew at most; it begins empty.
pub proof fn law_ledgers_are_bounded(
    capacity: usize,
    clock_skew: i64,
    r: Result<TicketAdmissionLedger, PublicErrorCode>,
)
    requires
        call_ensures(TicketAdmissionLedger::new, (capacity, clock_skew), r),
    ensures
        r is Ok <==> 1 <= capacity <= 65536 && 0 <= clock_skew <= 30,
        r is Err ==> r->Err_0 == PublicErrorCode::ProtocolMalformed,
        r matches Ok(ledger) ==> ledger@.capacity == capacity && ledger@.clock_skew == clock_skew && forall|
            id: Seq<u8>,
        |
            !ledger@.replay.contains_key(id),
{
}

/// A number that cannot be drawn is answered as too many streams.
pub proof fn law_streams_without_a_number_are_too_many(code: PublicErrorCode)
    ensures
        drawable(Err(code)) <==> code is LimitProxyStreams,
{
}

/// A ledger that is cleared remembers nothing and keeps its bounds.
pub proof fn law_cleared_ledgers_remember_nothing(ledger: &mut TicketAdmissionLedger, r: (), id: Seq<u8>)
    requires
        call_ensures(TicketAdmissionLedger::clear, (ledger,), r),
    ensures
        !final(ledger)@.replay.contains_key(id),
        final(ledger)@.capacity == old(ledger)@.capacity,
        final(ledger)@.clock_skew == old(ledger)@.clock_skew,
{
}

} // verus!
