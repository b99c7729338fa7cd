//! What a server asks of the registry, and what it makes of the answers.
use crate::auth_state::AuthState;
use crate::availability::{Availability, AvailabilityAction, AvailabilityModel};
use crate::bytes::{same_array, un64, Reader};
use crate::clock::{clamp_i64, saturating_add};
use crate::crypto::random_array;
use crate::error::PublicErrorCode;
use crate::exchange_link::{current_session, ExchangeSession};
use crate::ids::{
    after_number, CorrelationIdExhausted, CorrelationIdGenerator, InstanceId, RegistrationRevision,
};
use crate::registry::{
    Capabilities, RegistryRequestModel, RegistryRequestV1, RegistryResponseV1, KNOWN_CAPABILITIES,
};
use crate::reservation::ReservationContext;
use crate::service_config::{ConfigModel, ServiceConfig};
use vstd::prelude::*;

verus! {

/// What a request is for.
#[derive(Clone, Copy, Debug, PartialEq, Eq)]
pub enum RegistryOperationKind {
    Register,
    Refresh(RegistrationRevision),
    Withdraw(RegistrationRevision),
}

/// A request and what its answer must agree with.
#[derive(Debug)]
pub struct RegistryOperation {
    pub request: RegistryRequestV1,
    pub kind: RegistryOperationKind,
    pub reservation_generation: u64,
    pub expected_service_set_hash: [u8; 32],
    pub attempts: u32,
}

/// A request and what its answer must agree with, as the contracts see it.
#[verifier::ext_equal]
pub struct OperationModel {
    pub request: RegistryRequestModel,
    pub kind: RegistryOperationKind,
    pub reservation_generation: u64,
    pub expected_service_set_hash: [u8; 32],
    pub attempts: u32,
}

impl View for RegistryOperation {
    type V = OperationModel;

    open spec fn view(&self) -> OperationModel {
        OperationModel {
            request: self.request@,
            kind: self.kind,
            reservation_generation: self.reservation_generation,
            expected_service_set_hash: self.expected_service_set_hash,
            attempts: self.attempts,
        }
    }
}

impl OperationModel {
    /// The number of the request.
    pub open spec fn request_id(self) -> [u8; 16] {
        match self.request {
            RegistryRequestModel::Register { request_id, .. } => request_id,
            RegistryRequestModel::Refresh { request_id, .. } => request_id,
            RegistryRequestModel::Withdraw { request_id, .. } => request_id,
        }
    }

    /// The session of the request.
    pub open spec fn session_id(self) -> [u8; 16] {
        match self.request {
            RegistryRequestModel::Register { session_id, .. } => session_id,
            RegistryRequestModel::Refresh { session_id, .. } => session_id,
            RegistryRequestModel::Withdraw { session_id, .. } => session_id,
        }
    }

    /// Whether the request registers.
    pub open spec fn registers(self) -> bool {
        self.kind is Register
    }

    /// Whether a registration is the one that was asked for.
    pub open spec fn takes_registered(
        self,
        request_id: [u8; 16],
        instance_matches: bool,
        service_set_hash: [u8; 32],
        generation: u64,
        reservation_ready: bool,
    ) -> bool {
        &&& self.kind is Register
        &&& self.request_id() == request_id
        &&& instance_matches
        &&& service_set_hash == self.expected_service_set_hash
        &&& self.reservation_generation == generation
        &&& reservation_ready
    }

    /// Whether a refresh is the one that was asked for, and came in time.
    pub open spec fn takes_refreshed(
        self,
        request_id: [u8; 16],
        instance_matches: bool,
        revision: u64,
        generation: u64,
        reservation_ready: bool,
        prior_lease_current: bool,
    ) -> bool {
        &&& (self.kind matches RegistryOperationKind::Refresh(expected) && expected@ == revision)
        &&& self.request_id() == request_id
        &&& instance_matches
        &&& self.reservation_generation == generation
        &&& reservation_ready
        &&& prior_lease_current
    }

    /// After one more attempt.
    pub open spec fn retried(self) -> Self {
        OperationModel {
            attempts: if self.attempts == u32::MAX {
                u32::MAX
            } else {
                (self.attempts + 1) as u32
            },
            ..self
        }
    }

    /// Whether the operation registers a server anew.
    pub open spec fn is_fresh(
        self,
        number: u128,
        session_id: [u8; 16],
        instance_id: [u8; 16],
        services: ConfigModel,
        generation: u64,
    ) -> bool {
        &&& self.kind is Register
        &&& self.request_id()@ == crate::bytes::be128(number)
        &&& self.request == RegistryRequestModel::Register {
            request_id: self.request_id(),
            session_id,
            instance_id,
            requested_lease_seconds: services.requested_lease_seconds,
            capabilities: KNOWN_CAPABILITIES,
            services: services.services,
        }
        &&& self.reservation_generation == generation
        &&& self.expected_service_set_hash == services.service_set_hash
    }

    /// Whether this is a new request to keep a registration.
    pub open spec fn is_renewal(
        self,
        number: u128,
        session_id: [u8; 16],
        instance_id: [u8; 16],
        revision: u64,
        services: ConfigModel,
        generation: u64,
    ) -> bool {
        &&& self.kind matches RegistryOperationKind::Refresh(expected) && expected@ == revision
        &&& self.request_id()@ == crate::bytes::be128(number)
        &&& self.request == RegistryRequestModel::Refresh {
            request_id: self.request_id(),
            session_id,
            instance_id,
            expected_registration_revision: revision,
            requested_lease_seconds: services.requested_lease_seconds,
        }
        &&& self.reservation_generation == generation
        &&& self.expected_service_set_hash == services.service_set_hash
        &&& self.attempts == 0
    }

    /// Whether this is a new request to be forgotten.
    pub open spec fn is_withdrawal(
        self,
        number: u128,
        session_id: [u8; 16],
        instance_id: [u8; 16],
        revision: u64,
        generation: u64,
    ) -> bool {
        &&& self.kind matches RegistryOperationKind::Withdraw(expected) && expected@ == revision
        &&& self.request_id()@ == crate::bytes::be128(number)
        &&& self.request == RegistryRequestModel::Withdraw {
            request_id: self.request_id(),
            session_id,
            instance_id,
            expected_registration_revision: revision,
        }
        &&& self.reservation_generation == generation
        &&& self.attempts == 0
    }
}

impl RegistryOperation {
    /// The number of the request.
    pub fn request_id(&self) -> (r: [u8; 16])
        ensures
            r == self@.request_id(),
    {
        match &self.request {
            RegistryRequestV1::Register { request_id, .. } => *request_id,
            RegistryRequestV1::Refresh { request_id, .. } => *request_id,
            RegistryRequestV1::Withdraw { request_id, .. } => *request_id,
        }
    }

    /// Whether an answer says that the server with this number is forgotten, as
    /// the request asks.
    pub fn withdrawn_by(&self, response: &RegistryResponseV1, instance_id: &InstanceId) -> (r: bool)
        ensures
            r == (*response matches RegistryResponseV1::Withdrawn {
                request_id,
                instance_id: answered,
                ..
            } && request_id == self@.request_id() && answered@ == instance_id@),
    {
        match response {
            RegistryResponseV1::Withdrawn { request_id, instance_id: answered, .. } => same_array(
                request_id,
                &self.request_id(),
            ) && answered.same(instance_id),
            _ => false,
        }
    }

    /// The session of the request.
    pub fn session_id(&self) -> (r: [u8; 16])
        ensures
            r == self@.session_id(),
    {
        match &self.request {
            RegistryRequestV1::Register { session_id, .. } => *session_id,
            RegistryRequestV1::Refresh { session_id, .. } => *session_id,
            RegistryRequestV1::Withdraw { session_id, .. } => *session_id,
        }
    }

    /// Whether a registration is the one that was asked for.
    pub fn accepts_registered(
        &self,
        request_id: [u8; 16],
        instance_matches: bool,
        service_set_hash: [u8; 32],
        current_reservation_generation: u64,
        reservation_ready: bool,
    ) -> (r: bool)
        ensures
            r == self@.takes_registered(
                request_id,
                instance_matches,
                service_set_hash,
                current_reservation_generation,
                reservation_ready,
            ),
    {
        let registers = match self.kind {
            RegistryOperationKind::Register => true,
            _ => false,
        };
        registers && same_array(&self.request_id(), &request_id) && instance_matches && same_array(
            &service_set_hash,
            &self.expected_service_set_hash,
        ) && self.reservation_generation == current_reservation_generation && reservation_ready
    }

    /// Whether a refresh is the one that was asked for, and came in time.
    pub fn accepts_refreshed(
        &self,
        request_id: [u8; 16],
        instance_matches: bool,
        revision: RegistrationRevision,
        current_reservation_generation: u64,
        reservation_ready: bool,
        prior_lease_current: bool,
    ) -> (r: bool)
        ensures
            r == self@.takes_refreshed(
                request_id,
                instance_matches,
                revision@,
                current_reservation_generation,
                reservation_ready,
                prior_lease_current,
            ),
    {
        let refreshes = match self.kind {
            RegistryOperationKind::Refresh(expected) => expected.get() == revision.get(),
            _ => false,
        };
        refreshes && same_array(&self.request_id(), &request_id) && instance_matches
            && self.reservation_generation == current_reservation_generation && reservation_ready
            && prior_lease_current
    }
}

/// A request to be registered.
pub fn new_register(
    request_ids: &mut CorrelationIdGenerator,
    session_id: [u8; 16],
    instance_id: InstanceId,
    services: &ServiceConfig,
    reservation_generation: u64,
) -> (r: Result<RegistryOperation, CorrelationIdExhausted>)
    ensures
        match old(request_ids)@ {
            Some(number) => r matches Ok(operation) && operation@.is_fresh(
                number,
                session_id,
                instance_id@,
                services@,
                reservation_generation,
            ) && operation@.attempts == 0 && final(request_ids)@ == after_number(number),
            None => r is Err && final(request_ids)@ is None,
        },
{
    let request_id = match request_ids.allocate() {
        Ok(id) => id,
        Err(error) => return Err(error),
    };
    let request = RegistryRequestV1::Register {
        request_id,
        session_id,
        instance_id,
        requested_lease_seconds: services.requested_lease_seconds,
        capabilities: Capabilities::all(),
        services: services.services.clone(),
    };
    Ok(
        RegistryOperation {
            request,
            kind: RegistryOperationKind::Register,
            reservation_generation,
            expected_service_set_hash: services.service_set_hash,
            attempts: 0,
        },
    )
}

/// A request to be forgotten.
pub fn new_withdraw(
    request_ids: &mut CorrelationIdGenerator,
    session_id: [u8; 16],
    instance_id: InstanceId,
    revision: RegistrationRevision,
    reservation_generation: u64,
) -> (r: Result<RegistryOperation, CorrelationIdExhausted>)
    ensures
        match old(request_ids)@ {
            Some(number) => r matches Ok(operation) && operation@.request_id()@ == crate::bytes::be128(
                number,
            ) && operation@.request == (RegistryRequestModel::Withdraw {
                request_id: operation@.request_id(),
                session_id,
                instance_id: instance_id@,
                expected_registration_revision: revision@,
            }) && operation@.kind == RegistryOperationKind::Withdraw(revision)
                && operation@.reservation_generation == reservation_generation
                && operation@.expected_service_set_hash@ == Seq::new(32, |i: int| 0u8)
                && operation@.attempts == 0 && final(request_ids)@ == after_number(number),
            None => r is Err && final(request_ids)@ is None,
        },
{
    let request_id = match request_ids.allocate() {
        Ok(id) => id,
        Err(error) => return Err(error),
    };
    let expected_service_set_hash = [0u8; 32];
    assert(expected_service_set_hash@ =~= Seq::new(32, |i: int| 0u8));
    Ok(
        RegistryOperation {
            request: RegistryRequestV1::Withdraw {
                request_id,
                session_id,
                instance_id,
                expected_registration_revision: revision,
            },
            kind: RegistryOperationKind::Withdraw(revision),
            reservation_generation,
            expected_service_set_hash,
            attempts: 0,
        },
    )
}

/// A request to stay registered.
pub fn new_refresh(
    request_ids: &mut CorrelationIdGenerator,
    session_id: [u8; 16],
    instance_id: InstanceId,
    revision: RegistrationRevision,
    lease_seconds: u16,
    reservation_generation: u64,
    service_set_hash: [u8; 32],
) -> (r: Result<RegistryOperation, CorrelationIdExhausted>)
    ensures
        match old(request_ids)@ {
            Some(number) => r matches Ok(operation) && operation@.request_id()@ == crate::bytes::be128(
                number,
            ) && operation@ == (OperationModel {
                request: RegistryRequestModel::Refresh {
                    request_id: operation@.request_id(),
                    session_id,
                    instance_id: instance_id@,
                    expected_registration_revision: revision@,
                    requested_lease_seconds: lease_seconds,
                },
                kind: RegistryOperationKind::Refresh(revision),
                reservation_generation,
                expected_service_set_hash: service_set_hash,
                attempts: 0,
            }) && final(request_ids)@ == after_number(number),
            None => r is Err && final(request_ids)@ is None,
        },
{
    let request_id = match request_ids.allocate() {
        Ok(id) => id,
        Err(error) => return Err(error),
    };
    Ok(
        RegistryOperation {
            request: RegistryRequestV1::Refresh {
                request_id,
                session_id,
                instance_id,
                expected_registration_revision: revision,
                requested_lease_seconds: lease_seconds,
            },
            kind: RegistryOperationKind::Refresh(revision),
            reservation_generation,
            expected_service_set_hash: service_set_hash,
            attempts: 0,
        },
    )
}

/// How long to wait after so many attempts, in milliseconds: a quarter of a
/// second, doubled with every attempt up to eight seconds.
pub open spec fn backoff(attempts: u32) -> int {
    if attempts <= 1 {
        250
    } else if attempts == 2 {
        500
    } else if attempts == 3 {
        1_000
    } else if attempts == 4 {
        2_000
    } else if attempts == 5 {
        4_000
    } else {
        8_000
    }
}

/// A jitter within a tenth.
pub open spec fn bounded_jitter(jitter: i16) -> int {
    if jitter < -100 {
        -100
    } else if jitter > 100 {
        100
    } else {
        jitter as int
    }
}

/// Thousandths of a number, rounded towards zero.
pub open spec fn thousandths(n: int) -> int {
    if n < 0 {
        -(-n / 1000)
    } else {
        n / 1000
    }
}

/// How long to wait after so many attempts, with jitter.
pub open spec fn jittered_backoff(attempts: u32, jitter: i16) -> int {
    backoff(attempts) + thousandths(backoff(attempts) * bounded_jitter(jitter))
}

/// When a request is sent again.
pub open spec fn retry_time(operation: OperationModel, now_millis: i64, jitter: i16) -> i64 {
    clamp_i64(now_millis + jittered_backoff(operation.retried().attempts, jitter))
}

/// How long to wait after so many attempts, with jitter, in milliseconds.
pub fn backoff_with_jitter(attempts: u32, jitter: i16) -> (r: i64)
    ensures
        r == jittered_backoff(attempts, jitter),
        225 <= r <= 8_800,
{
    let delay: i64 = match attempts {
        0 | 1 => 250,
        2 => 500,
        3 => 1_000,
        4 => 2_000,
        5 => 4_000,
        _ => 8_000,
    };
    let bounded: i64 = if jitter < -100 {
        -100
    } else if jitter > 100 {
        100
    } else {
        jitter as i64
    };
    assert(-(100 * delay) <= delay * bounded <= 100 * delay) by (nonlinear_arith)
        requires
            250 <= delay <= 8_000,
            -100 <= bounded <= 100,
    ;
    let product: i64 = delay * bounded;
    let share: i64 = if product < 0 {
        -(-product / 1000)
    } else {
        product / 1000
    };
    delay + share
}

/// When a request is sent again, which is then one attempt more.
pub fn registry_retry_at(operation: &mut RegistryOperation, now_millis: i64, jitter: i16) -> (r: i64)
    ensures
        r == retry_time(old(operation)@, now_millis, jitter),
        final(operation)@ == old(operation)@.retried(),
{
    operation.attempts = operation.attempts.saturating_add(1);
    let delay: i64 = backoff_with_jitter(operation.attempts, jitter);
    saturating_add(now_millis, delay)
}

/// The first request number that sixteen random bytes give.
pub open spec fn start_of(bytes: Seq<u8>) -> int {
    (un64(bytes.subrange(0, 8)) * 0x1_0000_0000_0000_0000 + un64(bytes.subrange(8, 16))) % (u128::MAX
        - 1) + 1
}

/// The first request number that sixteen random bytes give.
pub fn start_from(bytes: &[u8; 16]) -> (r: u128)
    ensures
        r == start_of(bytes@),
{
    let mut reader = Reader::new(bytes);
    let high: u128 = match reader.u64() {
        Some(high) => high as u128,
        None => 0,
    };
    let low: u128 = match reader.u64() {
        Some(low) => low as u128,
        None => 0,
    };
    assert(bytes@.subrange(8, 16) =~= bytes@.subrange(8, bytes@.len() as int).subrange(0, 8));
    (high * 0x1_0000_0000_0000_0000 + low) % (u128::MAX - 1) + 1
}

/// Draws the first request number.
pub fn request_id_start() -> (r: Option<u128>)
    ensures
        r matches Some(start) ==> 1 <= start < u128::MAX,
{
    match random_array::<16>() {
        Some(bytes) => Some(start_from(&bytes)),
        None => None,
    }
}

/// The jitter that two random bytes give, in thousandths.
pub fn jitter_from(bytes: [u8; 2]) -> (r: i16)
    ensures
        r == (bytes@[0] * 256 + bytes@[1]) % 201 - 100,
{
    let n: u16 = bytes[0] as u16 * 256 + bytes[1] as u16;
    (n % 201) as i16 - 100
}

/// Draws a jitter, in thousandths.
pub fn random_jitter_per_mille() -> (r: Option<i16>)
    ensures
        r matches Some(jitter) ==> -100 <= jitter <= 100,
{
    match random_array::<2>() {
        Some(bytes) => Some(jitter_from(bytes)),
        None => None,
    }
}

/// What an answer of the registry amounts to.
#[derive(Clone, Copy, Debug, PartialEq, Eq, Structural)]
pub enum ResponseOutcome {
    /// Nothing was asked.
    Ignored,
    Registered,
    Refreshed,
    /// The registration is not known any more.
    Lapsed,
    /// The session is not good any more.
    SessionGone,
    /// The registry has no time.
    Retry,
    /// There is no reservation.
    Lost,
    /// The registry will not have the server.
    Terminal(PublicErrorCode),
    /// The answer is not to what was asked.
    Mismatch,
}

/// What an answer is held against.
pub struct ResponseContext<'a> {
    pub instance_id: InstanceId,
    pub reservation_generation: u64,
    pub reservation_ready: bool,
    pub session_id: Option<[u8; 16]>,
    pub services: Option<&'a ServiceConfig>,
    /// The time in seconds.
    pub now: i64,
    pub now_millis: i64,
    pub jitter: i16,
}

/// What a refusal amounts to.
pub open spec fn refusal_outcome(code: PublicErrorCode) -> ResponseOutcome {
    match code {
        PublicErrorCode::RegistryStaleRevision | PublicErrorCode::RegistryNotFound => {
            ResponseOutcome::Lapsed
        },
        PublicErrorCode::AuthSessionRequired | PublicErrorCode::AuthSessionExpired => {
            ResponseOutcome::SessionGone
        },
        PublicErrorCode::ExchangeOverloaded | PublicErrorCode::ExchangeTimeout
        | PublicErrorCode::LimitRegistryRequests | PublicErrorCode::ExchangeDraining => {
            ResponseOutcome::Retry
        },
        PublicErrorCode::RegistryReservationRequired => ResponseOutcome::Lost,
        _ => ResponseOutcome::Terminal(code),
    }
}

fn classify_refusal(code: PublicErrorCode) -> (r: ResponseOutcome)
    ensures
        r == refusal_outcome(code),
{
    match code {
        PublicErrorCode::RegistryStaleRevision | PublicErrorCode::RegistryNotFound => {
            ResponseOutcome::Lapsed
        },
        PublicErrorCode::AuthSessionRequired | PublicErrorCode::AuthSessionExpired => {
            ResponseOutcome::SessionGone
        },
        PublicErrorCode::ExchangeOverloaded | PublicErrorCode::ExchangeTimeout
        | PublicErrorCode::LimitRegistryRequests | PublicErrorCode::ExchangeDraining => {
            ResponseOutcome::Retry
        },
        PublicErrorCode::RegistryReservationRequired => ResponseOutcome::Lost,
        _ => ResponseOutcome::Terminal(code),
    }
}

/// What an answer amounts to.
pub open spec fn outcome_of(
    operation: OperationModel,
    expires_at: i64,
    response: RegistryResponseV1,
    context: ResponseContext<'_>,
) -> ResponseOutcome {
    match response {
        RegistryResponseV1::Registered { request_id, instance_id, service_set_hash, .. } => {
            if operation.takes_registered(
                request_id,
                instance_id@ == context.instance_id@,
                service_set_hash,
                context.reservation_generation,
                context.reservation_ready,
            ) {
                ResponseOutcome::Registered
            } else {
                ResponseOutcome::Mismatch
            }
        },
        RegistryResponseV1::Refreshed { request_id, instance_id, registration_revision, .. } => {
            if operation.takes_refreshed(
                request_id,
                instance_id@ == context.instance_id@,
                registration_revision@,
                context.reservation_generation,
                context.reservation_ready,
                expires_at > context.now,
            ) {
                ResponseOutcome::Refreshed
            } else {
                ResponseOutcome::Mismatch
            }
        },
        RegistryResponseV1::Rejected { request_id: Some(request_id), error } => {
            if request_id == operation.request_id() {
                refusal_outcome(error.code)
            } else {
                ResponseOutcome::Mismatch
            }
        },
        _ => ResponseOutcome::Mismatch,
    }
}

/// What an answer amounts to.
fn classify_response(
    operation: &RegistryOperation,
    expires_at: i64,
    response: &RegistryResponseV1,
    context: &ResponseContext<'_>,
) -> (r: ResponseOutcome)
    ensures
        r == outcome_of(operation@, expires_at, *response, *context),
{
    match response {
        RegistryResponseV1::Registered { request_id, instance_id, service_set_hash, .. } => {
            if operation.accepts_registered(
                *request_id,
                instance_id.same(&context.instance_id),
                *service_set_hash,
                context.reservation_generation,
                context.reservation_ready,
            ) {
                ResponseOutcome::Registered
            } else {
                ResponseOutcome::Mismatch
            }
        },
        RegistryResponseV1::Refreshed { request_id, instance_id, registration_revision, .. } => {
            if operation.accepts_refreshed(
                *request_id,
                instance_id.same(&context.instance_id),
                *registration_revision,
                context.reservation_generation,
                context.reservation_ready,
                expires_at > context.now,
            ) {
                ResponseOutcome::Refreshed
            } else {
                ResponseOutcome::Mismatch
            }
        },
        RegistryResponseV1::Rejected { request_id, error } => {
            match request_id {
                Some(id) => if same_array(id, &operation.request_id()) {
                    classify_refusal(error.code)
                } else {
                    ResponseOutcome::Mismatch
                },
                None => ResponseOutcome::Mismatch,
            }
        },
        RegistryResponseV1::Withdrawn { .. } => ResponseOutcome::Mismatch,
    }
}

/// What is known of a server's registration.
#[verifier::ext_equal]
pub struct ClientModel {
    pub operation: Option<OperationModel>,
    pub requested: bool,
    pub retry_due_at: Option<i64>,
    pub revision: Option<u64>,
    pub expires_at: i64,
}

impl ClientModel {
    /// Nothing is asked and nothing is known.
    pub open spec fn blank() -> Self {
        ClientModel {
            operation: None,
            requested: false,
            retry_due_at: None,
            revision: None,
            expires_at: 0,
        }
    }

    /// An answer came: nothing is asked any more.
    pub open spec fn answered(self) -> Self {
        ClientModel { operation: None, requested: false, retry_due_at: None, ..self }
    }

    /// Whether the server is registered anew after an answer.
    pub open spec fn renews(self, outcome: ResponseOutcome, context: ResponseContext<'_>) -> bool {
        &&& context.session_id is Some
        &&& context.services is Some
        &&& match outcome {
            ResponseOutcome::Lapsed => true,
            ResponseOutcome::SessionGone => context.session_id
                != Some(self.operation->Some_0.session_id()),
            _ => false,
        }
    }

    /// What an answer leaves, but for an operation that comes after it.
    pub open spec fn settled(self, outcome: ResponseOutcome, response: RegistryResponseV1) -> Self {
        let answered = self.answered();
        match outcome {
            ResponseOutcome::Ignored | ResponseOutcome::Retry => answered,
            ResponseOutcome::Registered => ClientModel {
                revision: Some(response->Registered_registration_revision@),
                expires_at: response->Registered_expires_at,
                ..answered
            },
            ResponseOutcome::Refreshed => ClientModel {
                expires_at: response->Refreshed_expires_at,
                ..answered
            },
            ResponseOutcome::SessionGone => ClientModel { revision: None, ..answered },
            _ => ClientModel { revision: None, expires_at: 0, ..answered },
        }
    }

    /// Whether the state after an answer is right.
    pub open spec fn after_response(
        self,
        after: Self,
        outcome: ResponseOutcome,
        response: RegistryResponseV1,
        context: ResponseContext<'_>,
        number: Option<u128>,
    ) -> bool {
        let settled = self.settled(outcome, response);
        if outcome == ResponseOutcome::Retry {
            let operation = self.operation->Some_0;
            after == (ClientModel {
                operation: Some(operation.retried()),
                retry_due_at: Some(retry_time(operation, context.now_millis, context.jitter)),
                ..settled
            })
        } else if self.renews(outcome, context) && number is Some {
            &&& after.operation matches Some(operation)
            &&& operation.is_fresh(
                number->Some_0,
                context.session_id->Some_0,
                context.instance_id@,
                context.services->Some_0@,
                context.reservation_generation,
            )
            &&& operation.attempts == 1
            &&& after == ClientModel {
                operation: Some(operation),
                retry_due_at: Some(
                    clamp_i64(
                        context.now_millis + 250 + thousandths(250 * bounded_jitter(context.jitter)),
                    ),
                ),
                ..settled
            }
        } else {
            after == settled
        }
    }
}

/// What becomes of the availability when an answer came.
pub open spec fn availability_after(
    availability: AvailabilityModel,
    outcome: ResponseOutcome,
    response: RegistryResponseV1,
    context: ResponseContext<'_>,
) -> AvailabilityModel {
    match outcome {
        ResponseOutcome::Ignored | ResponseOutcome::Retry | ResponseOutcome::SessionGone => availability,
        ResponseOutcome::Registered => availability.granted(
            context.reservation_generation,
            response->Registered_expires_at,
            context.now,
        ),
        ResponseOutcome::Refreshed => availability.granted(
            context.reservation_generation,
            response->Refreshed_expires_at,
            context.now,
        ),
        _ => availability.unregistered(),
    }
}

/// The registration of a server.
pub struct RegistrationClient {
    operation: Option<RegistryOperation>,
    requested: bool,
    retry_due_at: Option<i64>,
    revision: Option<RegistrationRevision>,
    expires_at: i64,
}

/// The model of an operation that may be there.
pub open spec fn operation_model(operation: Option<RegistryOperation>) -> Option<OperationModel> {
    match operation {
        Some(operation) => Some(operation@),
        None => None,
    }
}

impl View for RegistrationClient {
    type V = ClientModel;

    closed spec fn view(&self) -> ClientModel {
        ClientModel {
            operation: operation_model(self.operation),
            requested: self.requested,
            retry_due_at: self.retry_due_at,
            revision: match self.revision {
                Some(revision) => Some(revision@),
                None => None,
            },
            expires_at: self.expires_at,
        }
    }
}

impl RegistrationClient {
    pub fn new() -> (r: Self)
        ensures
            r@ == ClientModel::blank(),
    {
        RegistrationClient {
            operation: None,
            requested: false,
            retry_due_at: None,
            revision: None,
            expires_at: 0,
        }
    }

    /// What is asked.
    pub fn operation(&self) -> (r: Option<&RegistryOperation>)
        ensures
            match r {
                Some(operation) => self@.operation == Some(operation@),
                None => self@.operation is None,
            },
    {
        match &self.operation {
            Some(operation) => Some(operation),
            None => None,
        }
    }

    /// The registration that stands.
    pub fn revision(&self) -> (r: Option<RegistrationRevision>)
        ensures
            match r {
                Some(revision) => self@.revision == Some(revision@),
                None => self@.revision is None,
            },
    {
        self.revision
    }

    pub fn expires_at(&self) -> (r: i64)
        ensures
            r == self@.expires_at,
    {
        self.expires_at
    }

    /// Whether nothing is asked and nothing is to be asked again.
    pub fn idle(&self) -> (r: bool)
        ensures
            r == self@.is_idle(),
    {
        !self.requested && self.operation.is_none()
    }

    /// A request was sent.
    pub fn begin(&mut self, operation: RegistryOperation)
        ensures
            final(self)@ == (ClientModel {
                operation: Some(operation@),
                requested: true,
                ..old(self)@
            }),
    {
        self.operation = Some(operation);
        self.requested = true;
    }

    /// Whether a request is due to be sent again.
    pub fn retry_due(&self, now_millis: i64, reservation_ready: bool) -> (r: bool)
        ensures
            r == self@.repeats(now_millis, reservation_ready),
    {
        match self.retry_due_at {
            Some(due) => now_millis >= due && !self.requested && reservation_ready
                && self.operation.is_some(),
            None => false,
        }
    }

    /// A request was sent again.
    pub fn resent(&mut self)
        ensures
            final(self)@ == (ClientModel { requested: true, retry_due_at: None, ..old(self)@ }),
    {
        self.requested = true;
        self.retry_due_at = None;
    }

    /// The registration has run out.
    pub fn lapse(&mut self)
        ensures
            final(self)@ == (ClientModel { expires_at: 0, ..old(self)@ }),
    {
        self.expires_at = 0;
    }

    /// The reservation or the session is gone.
    pub fn reset(&mut self)
        ensures
            final(self)@ == ClientModel::blank(),
    {
        self.operation = None;
        self.requested = false;
        self.retry_due_at = None;
        self.revision = None;
        self.expires_at = 0;
    }

    /// A request did not reach the registry: it is to be sent again.
    pub fn on_failure(&mut self, availability: &mut Availability, now_millis: i64, jitter: i16)
        ensures
            match old(self)@.operation {
                Some(operation) => final(self)@ == (ClientModel {
                    operation: Some(operation.retried()),
                    requested: false,
                    retry_due_at: Some(retry_time(operation, now_millis, jitter)),
                    ..old(self)@
                }) && final(availability)@ == if operation.registers() {
                    old(availability)@.unregistered()
                } else {
                    old(availability)@
                },
                None => final(self)@ == (ClientModel { requested: false, ..old(self)@ })
                    && final(availability)@ == old(availability)@,
            },
    {
        self.requested = false;
        let mut taken: Option<RegistryOperation> = None;
        std::mem::swap(&mut taken, &mut self.operation);
        if let Some(mut operation) = taken {
            match operation.kind {
                RegistryOperationKind::Register => {
                    let _ = availability.registration_lost();
                },
                _ => {},
            }
            let due: i64 = registry_retry_at(&mut operation, now_millis, jitter);
            self.retry_due_at = Some(due);
            self.operation = Some(operation);
        }
    }

    fn lose(&mut self, availability: &mut Availability)
        ensures
            final(self)@ == (ClientModel { revision: None, expires_at: 0, ..old(self)@ }),
            final(availability)@ == old(availability)@.unregistered(),
    {
        self.revision = None;
        self.expires_at = 0;
        let _ = availability.registration_lost();
    }

    /// Asks to be registered anew, later.
    fn renew(
        &mut self,
        context: &ResponseContext<'_>,
        session_id: [u8; 16],
        services: &ServiceConfig,
        request_ids: &mut CorrelationIdGenerator,
    ) -> (r: Result<(), CorrelationIdExhausted>)
        ensures
            match old(request_ids)@ {
                Some(number) => {
                    &&& r is Ok
                    &&& final(request_ids)@ == after_number(number)
                    &&& final(self)@.operation matches Some(operation)
                    &&& operation.is_fresh(
                        number,
                        session_id,
                        context.instance_id@,
                        services@,
                        context.reservation_generation,
                    )
                    &&& operation.attempts == 1
                    &&& final(self)@ == ClientModel {
                        operation: Some(operation),
                        retry_due_at: Some(
                            clamp_i64(
                                context.now_millis + 250 + thousandths(
                                    250 * bounded_jitter(context.jitter),
                                ),
                            ),
                        ),
                        ..old(self)@
                    }
                },
                None => r is Err && final(self)@ == old(self)@ && final(request_ids)@ is None,
            },
    {
        let mut operation = match new_register(
            request_ids,
            session_id,
            context.instance_id,
            services,
            context.reservation_generation,
        ) {
            Ok(operation) => operation,
            Err(error) => return Err(error),
        };
        let due: i64 = registry_retry_at(&mut operation, context.now_millis, context.jitter);
        self.retry_due_at = Some(due);
        self.operation = Some(operation);
        Ok(())
    }

    /// An answer of the registry came. There is an error exactly when the server
    /// is to be registered anew and no request number is left.
    pub fn on_response(
        &mut self,
        response: &RegistryResponseV1,
        context: &ResponseContext<'_>,
        availability: &mut Availability,
        request_ids: &mut CorrelationIdGenerator,
    ) -> (r: Result<ResponseOutcome, CorrelationIdExhausted>)
        ensures
            ({
                let outcome = match old(self)@.operation {
                    Some(operation) => outcome_of(
                        operation,
                        old(self)@.expires_at,
                        *response,
                        *context,
                    ),
                    None => ResponseOutcome::Ignored,
                };
                let renews = old(self)@.renews(outcome, *context);
                &&& r == if renews && old(request_ids)@ is None {
                    Err::<ResponseOutcome, CorrelationIdExhausted>(CorrelationIdExhausted)
                } else {
                    Ok(outcome)
                }
                &&& old(self)@.after_response(
                    final(self)@,
                    outcome,
                    *response,
                    *context,
                    old(request_ids)@,
                )
                &&& final(availability)@ == availability_after(
                    old(availability)@,
                    outcome,
                    *response,
                    *context,
                )
                &&& final(request_ids)@ == if renews && old(request_ids)@ is Some {
                    after_number(old(request_ids)@->Some_0)
                } else {
                    old(request_ids)@
                }
            }),
    {
        self.requested = false;
        self.retry_due_at = None;
        let mut taken: Option<RegistryOperation> = None;
        std::mem::swap(&mut taken, &mut self.operation);
        let mut operation = match taken {
            Some(operation) => operation,
            None => return Ok(ResponseOutcome::Ignored),
        };
        let outcome = classify_response(&operation, self.expires_at, response, context);
        match outcome {
            ResponseOutcome::Registered => {
                if let RegistryResponseV1::Registered { registration_revision, expires_at, .. }
                    = response {
                    self.revision = Some(*registration_revision);
                    self.expires_at = *expires_at;
                    let _ = availability.registered(
                        context.reservation_generation,
                        *expires_at,
                        context.now,
                    );
                }
            },
            ResponseOutcome::Refreshed => {
                if let RegistryResponseV1::Refreshed { expires_at, .. } = response {
                    self.expires_at = *expires_at;
                    let _ = availability.registered(
                        context.reservation_generation,
                        *expires_at,
                        context.now,
                    );
                }
            },
            ResponseOutcome::Lapsed => {
                self.lose(availability);
                if let (Some(session_id), Some(services)) = (context.session_id, context.services) {
                    match self.renew(context, session_id, services, request_ids) {
                        Ok(()) => {},
                        Err(error) => return Err(error),
                    }
                }
            },
            ResponseOutcome::SessionGone => {
                self.revision = None;
                if let (Some(session_id), Some(services)) = (context.session_id, context.services) {
                    if !same_array(&session_id, &operation.session_id()) {
                        match self.renew(context, session_id, services, request_ids) {
                            Ok(()) => {},
                            Err(error) => return Err(error),
                        }
                    }
                }
            },
            ResponseOutcome::Retry => {
                let due: i64 = registry_retry_at(&mut operation, context.now_millis, context.jitter);
                self.retry_due_at = Some(due);
                self.operation = Some(operation);
            },
            _ => self.lose(availability),
        }
        Ok(outcome)
    }
}

/// What a server has at hand when it turns to the registry.
pub struct Standing<'a> {
    /// Whether it is known which exchange to ask.
    pub has_exchange: bool,
    pub auth: &'a AuthState,
    pub session: &'a Option<ExchangeSession>,
    pub reservation: &'a ReservationContext,
    pub services: Option<&'a ServiceConfig>,
    pub instance_id: InstanceId,
    /// The time in seconds.
    pub now: i64,
}

impl Standing<'_> {
    /// Whether there is a session to ask under.
    pub open spec fn has_session(self) -> bool {
        self.auth@.phase is Authenticated && (*self.session matches Some(granted) && granted.expires_at
            > self.now)
    }

    /// The session to ask under.
    pub open spec fn session_id(self) -> [u8; 16] {
        (*self.session)->Some_0.session_id
    }

    fn current(&self) -> (r: Option<[u8; 16]>)
        ensures
            r == if self.has_session() {
                Some(self.session_id())
            } else {
                None
            },
    {
        match current_session(self.auth, self.session, self.now) {
            Some(granted) => Some(granted.session_id),
            None => None,
        }
    }
}

impl ClientModel {
    /// Whether nothing is asked and nothing is to be asked again.
    pub open spec fn is_idle(self) -> bool {
        !self.requested && self.operation is None
    }

    /// Whether the server is to be registered: nothing is asked, the reservation
    /// is ready, the session is current, and there are services.
    pub open spec fn registers(self, standing: Standing<'_>) -> bool {
        &&& self.is_idle()
        &&& standing.has_exchange
        &&& standing.reservation@.is_ready()
        &&& standing.has_session()
        &&& standing.services is Some
    }

    /// Whether the registration is to be kept.
    pub open spec fn refreshes(self, due: AvailabilityAction, standing: Standing<'_>) -> bool {
        &&& due is Refresh
        &&& self.is_idle()
        &&& standing.has_exchange
        &&& standing.has_session()
        &&& self.revision is Some
        &&& standing.services is Some
    }

    /// Whether the registration is found to have run out.
    pub open spec fn runs_out(self, due: AvailabilityAction) -> bool {
        due == AvailabilityAction::Publish(false) && self.expires_at != 0
    }

    /// Whether a request is to be sent again.
    pub open spec fn repeats(self, now_millis: i64, reservation_ready: bool) -> bool {
        (self.retry_due_at matches Some(due) && now_millis >= due) && !self.requested && reservation_ready
            && self.operation is Some
    }
}

/// What is to be done about the registration as time passes.
#[derive(Debug)]
pub struct RegistrationTick {
    /// The registration was found to have run out.
    pub lapsed: bool,
    /// A request to be sent.
    pub refresh: Option<RegistryOperation>,
    /// The request that is there is to be sent again.
    pub again: bool,
}

impl RegistrationClient {
    /// The request to be registered, if one is to be sent.
    pub fn next_registration(&self, standing: &Standing<'_>, request_ids: &mut CorrelationIdGenerator) -> (r:
        Result<Option<RegistryOperation>, CorrelationIdExhausted>)
        ensures
            if !self@.registers(*standing) {
                r matches Ok(None) && final(request_ids)@ == old(request_ids)@
            } else {
                match old(request_ids)@ {
                    Some(number) => (r matches Ok(Some(operation)) && operation@.is_fresh(
                        number,
                        standing.session_id(),
                        standing.instance_id@,
                        standing.services->Some_0@,
                        standing.reservation@.generation,
                    ) && operation@.attempts == 0) && final(request_ids)@ == after_number(number),
                    None => r is Err && final(request_ids)@ is None,
                }
            },
    {
        if !self.idle() || !standing.has_exchange || !standing.reservation.is_ready() {
            return Ok(None);
        }
        match (standing.current(), standing.services) {
            (Some(session_id), Some(services)) => match new_register(
                request_ids,
                session_id,
                standing.instance_id,
                services,
                standing.reservation.generation,
            ) {
                Ok(operation) => Ok(Some(operation)),
                Err(error) => Err(error),
            },
            _ => Ok(None),
        }
    }

    /// The request to be registered once a session stands, if one is to be sent:
    /// a server that is registered is not registered again.
    pub fn first_registration(&self, standing: &Standing<'_>, request_ids: &mut CorrelationIdGenerator) -> (r:
        Result<Option<RegistryOperation>, CorrelationIdExhausted>)
        ensures
            if self@.revision is Some || !self@.registers(*standing) {
                r matches Ok(None) && final(request_ids)@ == old(request_ids)@
            } else {
                match old(request_ids)@ {
                    Some(number) => (r matches Ok(Some(operation)) && operation@.is_fresh(
                        number,
                        standing.session_id(),
                        standing.instance_id@,
                        standing.services->Some_0@,
                        standing.reservation@.generation,
                    ) && operation@.attempts == 0) && final(request_ids)@ == after_number(number),
                    None => r is Err && final(request_ids)@ is None,
                }
            },
    {
        if self.revision.is_some() {
            return Ok(None);
        }
        self.next_registration(standing, request_ids)
    }

    /// The request to be forgotten, if there is something to forget.
    pub fn next_withdrawal(&self, standing: &Standing<'_>, request_ids: &mut CorrelationIdGenerator) -> (r:
        Result<Option<RegistryOperation>, CorrelationIdExhausted>)
        ensures
            if !standing.has_exchange || !standing.has_session() || self@.revision is None {
                r matches Ok(None) && final(request_ids)@ == old(request_ids)@
            } else {
                match old(request_ids)@ {
                    Some(number) => (r matches Ok(Some(operation)) && operation@.is_withdrawal(
                        number,
                        standing.session_id(),
                        standing.instance_id@,
                        self@.revision->Some_0,
                        standing.reservation@.generation,
                    )) && final(request_ids)@ == after_number(number),
                    None => r is Err && final(request_ids)@ is None,
                }
            },
    {
        if !standing.has_exchange {
            return Ok(None);
        }
        match (standing.current(), self.revision) {
            (Some(session_id), Some(revision)) => match new_withdraw(
                request_ids,
                session_id,
                standing.instance_id,
                revision,
                standing.reservation.generation,
            ) {
                Ok(operation) => Ok(Some(operation)),
                Err(error) => Err(error),
            },
            _ => Ok(None),
        }
    }

    /// Time passed. There is an error exactly when the registration is to be kept
    /// and no request number is left.
    pub fn on_tick(
        &mut self,
        availability: &mut Availability,
        standing: &Standing<'_>,
        now_millis: i64,
        request_ids: &mut CorrelationIdGenerator,
    ) -> (r: Result<RegistrationTick, CorrelationIdExhausted>)
        ensures
            final(availability)@ == old(availability)@.ticked(standing.now),
            ({
                let due = old(availability)@.due(standing.now);
                let lapsed = old(self)@.runs_out(due);
                &&& final(self)@ == if lapsed {
                    ClientModel { expires_at: 0, ..old(self)@ }
                } else {
                    old(self)@
                }
                &&& if old(self)@.refreshes(due, *standing) {
                    match old(request_ids)@ {
                        Some(number) => (r matches Ok(tick) && !tick.lapsed && !tick.again && (tick.refresh
                            matches Some(operation) && operation@.is_renewal(
                            number,
                            standing.session_id(),
                            standing.instance_id@,
                            old(self)@.revision->Some_0,
                            standing.services->Some_0@,
                            standing.reservation@.generation,
                        ))) && final(request_ids)@ == after_number(number),
                        None => r is Err && final(request_ids)@ is None,
                    }
                } else {
                    (r matches Ok(tick) && tick.lapsed == lapsed && tick.refresh is None && tick.again == (
                    standing.has_exchange && old(self)@.repeats(
                        now_millis,
                        standing.reservation@.is_ready(),
                    ))) && final(request_ids)@ == old(request_ids)@
                }
            }),
    {
        match availability.tick(standing.now) {
            AvailabilityAction::Refresh => {
                if self.idle() && standing.has_exchange {
                    if let (Some(session_id), Some(revision), Some(services)) = (
                        standing.current(),
                        self.revision,
                        standing.services,
                    ) {
                        let refresh = match new_refresh(
                            request_ids,
                            session_id,
                            standing.instance_id,
                            revision,
                            services.requested_lease_seconds,
                            standing.reservation.generation,
                            services.service_set_hash,
                        ) {
                            Ok(operation) => operation,
                            Err(error) => return Err(error),
                        };
                        return Ok(RegistrationTick { lapsed: false, refresh: Some(refresh), again: false });
                    }
                }
                let again = standing.has_exchange && self.retry_due(
                    now_millis,
                    standing.reservation.is_ready(),
                );
                Ok(RegistrationTick { lapsed: false, refresh: None, again })
            },
            AvailabilityAction::Publish(published) => {
                let lapsed = !published && self.expires_at != 0;
                if lapsed {
                    self.lapse();
                }
                let again = standing.has_exchange && self.retry_due(
                    now_millis,
                    standing.reservation.is_ready(),
                );
                Ok(RegistrationTick { lapsed, refresh: None, again })
            },
            _ => Ok(RegistrationTick { lapsed: false, refresh: None, again: false }),
        }
    }

    /// The reservation is gone, and the registration with it.
    pub fn on_reservation_lost(&mut self, availability: &mut Availability)
        ensures
            final(self)@ == ClientModel::blank(),
            final(availability)@ == old(availability)@.unreserved(),
    {
        let _ = availability.reservation_lost();
        self.reset();
    }

    /// The session is gone, and the registration with it.
    pub fn on_session_lost(&mut self, availability: &mut Availability)
        ensures
            final(self)@ == ClientModel::blank(),
            final(availability)@ == old(availability)@.signed_off(),
    {
        let _ = availability.session_lost();
        self.reset();
    }
}

/// A server asks to be registered only while its reservation is ready and its
/// session current, and only if it asks for nothing else. Once the reservation
/// or the session is gone, it neither keeps its registration nor sends anything
/// again.
pub proof fn law_registrations_are_backed(
    client: ClientModel,
    standing: Standing<'_>,
    due: AvailabilityAction,
    now_millis: i64,
)
    ensures
        client.registers(standing) ==> standing.reservation@.is_ready() && standing.has_session()
            && client.operation is None && !client.requested,
        client.repeats(now_millis, standing.reservation@.is_ready()) ==> standing.reservation@.is_ready(),
        client.refreshes(due, standing) ==> standing.has_session() && client.revision is Some,
        !ClientModel::blank().refreshes(due, standing),
        !ClientModel::blank().repeats(now_millis, standing.reservation@.is_ready()),
{
}

/// However often a request is repeated, it stays the same request: only its
/// attempts are counted. It waits between 225 and 8800 milliseconds.
pub proof fn law_retries_repeat_the_request(operation: OperationModel, now_millis: i64, jitter: i16)
    requires
        0 <= now_millis <= i64::MAX - 8_800,
    ensures
        operation.retried().request == operation.request,
        operation.retried().kind == operation.kind,
        now_millis + 225 <= retry_time(operation, now_millis, jitter) <= now_millis + 8_800,
{
    let delay = backoff(operation.retried().attempts);
    let bounded = bounded_jitter(jitter);
    assert(-100 * delay <= delay * bounded <= 100 * delay) by (nonlinear_arith)
        requires
            250 <= delay <= 8_000,
            -100 <= bounded <= 100,
    ;
}

/// An answer registers a server only if it is the answer to what was asked for
/// this reservation and these services, and a refresh only if the registration
/// had not run out.
pub proof fn law_answers_must_fit(
    operation: OperationModel,
    expires_at: i64,
    response: RegistryResponseV1,
    context: ResponseContext<'_>,
)
    ensures
        outcome_of(operation, expires_at, response, context) == ResponseOutcome::Registered ==> {
            &&& operation.registers()
            &&& operation.reservation_generation == context.reservation_generation
            &&& response->Registered_service_set_hash == operation.expected_service_set_hash
            &&& response->Registered_request_id == operation.request_id()
        },
        outcome_of(operation, expires_at, response, context) == ResponseOutcome::Refreshed ==> {
            &&& operation.kind is Refresh
            &&& operation.reservation_generation == context.reservation_generation
            &&& expires_at > context.now
            &&& response->Refreshed_request_id == operation.request_id()
        },
{
}

/// A registration that the registry does not know any more, or knows under a
/// later revision, is made anew: while there is a session, there are services
/// and a number is left, the server asks to be registered with all its services,
/// under the current session and the next number, after about a quarter of a
/// second. Without a session or services nothing is asked.
pub proof fn law_forgotten_registrations_are_made_anew(
    client: ClientModel,
    after: ClientModel,
    operation: OperationModel,
    response: RegistryResponseV1,
    context: ResponseContext<'_>,
    number: u128,
)
    requires
        client.operation == Some(operation),
        response matches RegistryResponseV1::Rejected { request_id, error } && request_id == Some(
            operation.request_id(),
        ) && (error.code == PublicErrorCode::RegistryStaleRevision || error.code
            == PublicErrorCode::RegistryNotFound),
        client.after_response(
            after,
            outcome_of(operation, client.expires_at, response, context),
            response,
            context,
            Some(number),
        ),
        0 <= context.now_millis <= i64::MAX - 1_000,
    ensures
        outcome_of(operation, client.expires_at, response, context) == ResponseOutcome::Lapsed,
        !after.requested,
        after.revision is None,
        after.expires_at == 0,
        context.session_id is Some && context.services is Some ==> {
            &&& after.operation matches Some(next) && next.kind == RegistryOperationKind::Register
                && (next.request matches RegistryRequestModel::Register {
                request_id,
                session_id,
                instance_id,
                requested_lease_seconds,
                services,
                ..
            } && request_id@ == crate::bytes::be128(number) && Some(session_id) == context.session_id
                && instance_id == context.instance_id@ && services == context.services->Some_0@.services
                && requested_lease_seconds == context.services->Some_0@.requested_lease_seconds
                && next.expected_service_set_hash == context.services->Some_0@.service_set_hash
                && next.reservation_generation == context.reservation_generation)
            &&& after.retry_due_at matches Some(due) && context.now_millis + 225 <= due
                <= context.now_millis + 275
        },
        context.session_id is None || context.services is None ==> after.operation is None
            && after.retry_due_at is None,
{
    let jitter = bounded_jitter(context.jitter);
    assert(-25_000 <= 250 * jitter <= 25_000);
}

/// A refusal for want of a session is answered by a new registration under the
/// session that is current now, if that is another one than was refused;
/// otherwise the server waits for a session.
pub proof fn law_lost_sessions_are_replaced(
    client: ClientModel,
    after: ClientModel,
    operation: OperationModel,
    response: RegistryResponseV1,
    context: ResponseContext<'_>,
    number: u128,
)
    requires
        client.operation == Some(operation),
        response matches RegistryResponseV1::Rejected { request_id, error } && request_id == Some(
            operation.request_id(),
        ) && (error.code == PublicErrorCode::AuthSessionRequired || error.code
            == PublicErrorCode::AuthSessionExpired),
        client.after_response(
            after,
            outcome_of(operation, client.expires_at, response, context),
            response,
            context,
            Some(number),
        ),
    ensures
        outcome_of(operation, client.expires_at, response, context) == ResponseOutcome::SessionGone,
        !after.requested,
        after.revision is None,
        after.expires_at == client.expires_at,
        context.services is Some && context.session_id is Some && context.session_id != Some(
            operation.session_id(),
        ) ==> after.operation is Some && after.operation->Some_0.kind == RegistryOperationKind::Register
            && Some(after.operation->Some_0.session_id()) == context.session_id
            && after.operation->Some_0.request_id()@ == crate::bytes::be128(number)
            && after.retry_due_at is Some,
        context.services is None || context.session_id is None || context.session_id == Some(
            operation.session_id(),
        ) ==> after.operation is None && after.retry_due_at is None,
{
}

/// A registry that has no time is asked the same again, a little later each
/// time; the registration stands meanwhile.
pub proof fn law_busy_registries_are_asked_again(
    client: ClientModel,
    after: ClientModel,
    operation: OperationModel,
    response: RegistryResponseV1,
    context: ResponseContext<'_>,
    number: Option<u128>,
)
    requires
        client.operation == Some(operation),
        operation.attempts < u32::MAX,
        response matches RegistryResponseV1::Rejected { request_id, error } && request_id == Some(
            operation.request_id(),
        ) && (error.code == PublicErrorCode::ExchangeOverloaded || error.code
            == PublicErrorCode::ExchangeTimeout || error.code == PublicErrorCode::LimitRegistryRequests
            || error.code == PublicErrorCode::ExchangeDraining),
        client.after_response(
            after,
            outcome_of(operation, client.expires_at, response, context),
            response,
            context,
            number,
        ),
        0 <= context.now_millis <= i64::MAX - 8_800,
    ensures
        outcome_of(operation, client.expires_at, response, context) == ResponseOutcome::Retry,
        after.operation matches Some(again) && again.request == operation.request && again.kind
            == operation.kind && again.reservation_generation == operation.reservation_generation
            && again.expected_service_set_hash == operation.expected_service_set_hash && again.attempts
            == operation.attempts + 1,
        after.retry_due_at matches Some(due) && due >= context.now_millis + 225,
        !after.requested,
        after.revision == client.revision,
        after.expires_at == client.expires_at,
{
    law_retries_repeat_the_request(operation, context.now_millis, context.jitter);
}

/// Every other refusal ends the registration, and nothing is asked on its own
/// account; that a reservation is missing is told apart from what is final.
pub proof fn law_other_refusals_end_the_registration(
    client: ClientModel,
    after: ClientModel,
    operation: OperationModel,
    code: PublicErrorCode,
    response: RegistryResponseV1,
    context: ResponseContext<'_>,
    number: Option<u128>,
)
    requires
        client.operation == Some(operation),
        response matches RegistryResponseV1::Rejected { request_id, error } && request_id == Some(
            operation.request_id(),
        ) && error.code == code,
        !(code is RegistryStaleRevision),
        !(code is RegistryNotFound),
        !(code is AuthSessionRequired),
        !(code is AuthSessionExpired),
        !(code is ExchangeOverloaded),
        !(code is ExchangeTimeout),
        !(code is LimitRegistryRequests),
        !(code is ExchangeDraining),
        client.after_response(
            after,
            outcome_of(operation, client.expires_at, response, context),
            response,
            context,
            number,
        ),
    ensures
        outcome_of(operation, client.expires_at, response, context) == if code
            == PublicErrorCode::RegistryReservationRequired {
            ResponseOutcome::Lost
        } else {
            ResponseOutcome::Terminal(code)
        },
        after.operation is None,
        !after.requested,
        after.retry_due_at is None,
        after.revision is None,
        after.expires_at == 0,
{
}

/// A refusal that names another request, or none, and an answer that fits no
/// request, ends the registration without a new one.
pub proof fn law_answers_that_do_not_fit_end_the_registration(
    client: ClientModel,
    after: ClientModel,
    operation: OperationModel,
    response: RegistryResponseV1,
    context: ResponseContext<'_>,
    number: Option<u128>,
)
    requires
        client.operation == Some(operation),
        match response {
            RegistryResponseV1::Registered { request_id, instance_id, service_set_hash, .. } => {
                ||| operation.kind != RegistryOperationKind::Register
                ||| request_id != operation.request_id()
                ||| instance_id@ != context.instance_id@
                ||| service_set_hash != operation.expected_service_set_hash
                ||| operation.reservation_generation != context.reservation_generation
                ||| !context.reservation_ready
            },
            RegistryResponseV1::Refreshed { request_id, instance_id, registration_revision, .. } => {
                ||| !(operation.kind matches RegistryOperationKind::Refresh(asked) && asked@
                    == registration_revision@)
                ||| request_id != operation.request_id()
                ||| instance_id@ != context.instance_id@
                ||| operation.reservation_generation != context.reservation_generation
                ||| !context.reservation_ready
                ||| client.expires_at <= context.now
            },
            RegistryResponseV1::Rejected { request_id, .. } => request_id != Some(operation.request_id()),
            RegistryResponseV1::Withdrawn { .. } => true,
        },
        client.after_response(
            after,
            outcome_of(operation, client.expires_at, response, context),
            response,
            context,
            number,
        ),
    ensures
        outcome_of(operation, client.expires_at, response, context) == ResponseOutcome::Mismatch,
        after.operation is None,
        !after.requested,
        after.retry_due_at is None,
        after.revision is None,
        after.expires_at == 0,
{
}

/// The answer to a registration makes it stand: its revision and its expiry are
/// those of the answer, and the server can be reached until then if it has a
/// session and the reservation that it registered for.
pub proof fn law_registrations_stand_when_answered(
    client: ClientModel,
    after: ClientModel,
    operation: OperationModel,
    response: RegistryResponseV1,
    context: ResponseContext<'_>,
    number: Option<u128>,
    availability: AvailabilityModel,
)
    requires
        client.operation == Some(operation),
        response matches RegistryResponseV1::Registered {
            request_id,
            instance_id,
            service_set_hash,
            ..
        } && request_id == operation.request_id() && instance_id@ == context.instance_id@
            && service_set_hash == operation.expected_service_set_hash,
        operation.kind == RegistryOperationKind::Register,
        operation.reservation_generation == context.reservation_generation,
        context.reservation_ready,
        client.after_response(
            after,
            outcome_of(operation, client.expires_at, response, context),
            response,
            context,
            number,
        ),
    ensures
        ({
            let outcome = outcome_of(operation, client.expires_at, response, context);
            let reachable = availability_after(availability, outcome, response, context);
            let expires_at = response->Registered_expires_at;
            &&& outcome == ResponseOutcome::Registered
            &&& after.operation is None && !after.requested && after.retry_due_at is None
            &&& after.revision == Some(response->Registered_registration_revision@)
            &&& after.expires_at == expires_at
            &&& availability.auth && availability.reservation && !availability.draining()
                && availability.generation == context.reservation_generation && expires_at > context.now
                ==> reachable.available(context.now) && reachable.registration_expires_at == expires_at
        }),
{
}

/// The answer to a refresh that came in time moves the expiry, and keeps the
/// revision.
pub proof fn law_refreshes_move_the_expiry(
    client: ClientModel,
    after: ClientModel,
    operation: OperationModel,
    revision: RegistrationRevision,
    response: RegistryResponseV1,
    context: ResponseContext<'_>,
    number: Option<u128>,
    availability: AvailabilityModel,
)
    requires
        client.operation == Some(operation),
        response matches RegistryResponseV1::Refreshed {
            request_id,
            instance_id,
            registration_revision,
            ..
        } && request_id == operation.request_id() && instance_id@ == context.instance_id@
            && registration_revision@ == revision@,
        operation.kind == RegistryOperationKind::Refresh(revision),
        operation.reservation_generation == context.reservation_generation,
        context.reservation_ready,
        client.expires_at > context.now,
        client.after_response(
            after,
            outcome_of(operation, client.expires_at, response, context),
            response,
            context,
            number,
        ),
    ensures
        ({
            let outcome = outcome_of(operation, client.expires_at, response, context);
            let reachable = availability_after(availability, outcome, response, context);
            let expires_at = response->Refreshed_expires_at;
            &&& outcome == ResponseOutcome::Refreshed
            &&& after.operation is None && !after.requested && after.retry_due_at is None
            &&& after.revision == client.revision
            &&& after.expires_at == expires_at
            &&& availability.auth && availability.reservation && !availability.draining()
                && availability.generation == context.reservation_generation && expires_at > context.now
                ==> reachable.available(context.now) && reachable.registration_expires_at == expires_at
        }),
{
}

/// Where nothing was asked, an answer changes nothing of the registration.
pub proof fn law_unasked_answers_are_ignored(
    client: ClientModel,
    after: ClientModel,
    response: RegistryResponseV1,
    context: ResponseContext<'_>,
    number: Option<u128>,
    availability: AvailabilityModel,
)
    requires
        client.operation is None,
        client.after_response(after, ResponseOutcome::Ignored, response, context, number),
    ensures
        after.operation is None,
        after.revision == client.revision,
        after.expires_at == client.expires_at,
        !after.requested,
        availability_after(availability, ResponseOutcome::Ignored, response, context) == availability,
{
}

/// Whatever ends a registration makes the server unreachable; a registry that
/// has no time, or a session that is gone, does not by itself.
pub proof fn law_ended_registrations_are_not_reachable(
    availability: AvailabilityModel,
    outcome: ResponseOutcome,
    response: RegistryResponseV1,
    context: ResponseContext<'_>,
    now: i64,
)
    requires
        0 <= now,
    ensures
        outcome == ResponseOutcome::Lapsed || outcome == ResponseOutcome::Lost || outcome
            == ResponseOutcome::Mismatch || outcome is Terminal ==> !availability_after(
            availability,
            outcome,
            response,
            context,
        ).available(now),
        outcome == ResponseOutcome::Retry || outcome == ResponseOutcome::SessionGone || outcome
            == ResponseOutcome::Ignored ==> availability_after(availability, outcome, response, context)
            == availability,
{
}

/// A request and its session are known by the numbers that it carries.
pub proof fn law_requests_carry_their_numbers(operation: OperationModel)
    ensures
        operation.request matches RegistryRequestModel::Register { request_id, session_id, .. }
            ==> operation.request_id() == request_id && operation.session_id() == session_id,
        operation.request matches RegistryRequestModel::Refresh { request_id, session_id, .. }
            ==> operation.request_id() == request_id && operation.session_id() == session_id,
        operation.request matches RegistryRequestModel::Withdraw { request_id, session_id, .. }
            ==> operation.request_id() == request_id && operation.session_id() == session_id,
{
}

/// Waits double from one attempt to the next, from a quarter of a second up to
/// eight seconds; jitter moves them by so many thousandths, by a tenth at most,
/// and by as much to either side.
pub proof fn law_waits_double(attempts: u32, jitter: i16)
    ensures
        backoff(0) == 250 && backoff(1) == 250,
        1 <= attempts < u32::MAX ==> backoff((attempts + 1) as u32) == if 2 * backoff(attempts) < 8_000 {
            2 * backoff(attempts)
        } else {
            8_000
        },
        jittered_backoff(attempts, 0) == backoff(attempts),
        0 <= jitter <= 100 ==> {
            let moved = jittered_backoff(attempts, jitter) - backoff(attempts);
            &&& 1000 * moved <= backoff(attempts) * jitter < 1000 * moved + 1000
            &&& backoff(attempts) - jittered_backoff(attempts, (-jitter) as i16) == moved
        },
        jitter > 100 ==> jittered_backoff(attempts, jitter) == jittered_backoff(attempts, 100),
        jitter < -100 ==> jittered_backoff(attempts, jitter) == jittered_backoff(attempts, -100i16),
{
    let delay = backoff(attempts);
    let j = jitter as int;
    assert(0 <= j ==> delay * j >= 0 && delay * (-j) == -(delay * j)) by (nonlinear_arith)
        requires
            delay >= 250,
    ;
    assert(delay * 0 == 0);
}

/// A request is sent again later by the wait of its next attempt.
pub proof fn law_retries_wait_from_now(operation: OperationModel, now_millis: i64, jitter: i16)
    requires
        operation.attempts < u32::MAX,
        0 <= now_millis <= i64::MAX - 8_800,
    ensures
        retry_time(operation, now_millis, jitter) == now_millis + jittered_backoff(
            (operation.attempts + 1) as u32,
            jitter,
        ),
        operation.retried().attempts == operation.attempts + 1,
{
    law_retries_repeat_the_request(operation, now_millis, jitter);
}

/// A server is registered as soon as nothing stands in the way: it knows its
/// exchange, its reservation is ready, its session is current, it has services,
/// and nothing else is asked. It is kept registered when that is due, and a
/// request that failed is repeated at its time, while the reservation is ready.
pub proof fn law_registrations_are_made_when_possible(
    client: ClientModel,
    standing: Standing<'_>,
    due: AvailabilityAction,
    now_millis: i64,
)
    ensures
        ({
            let signed_in = standing.auth@.phase is Authenticated && (*standing.session matches Some(
                session,
            ) && session.expires_at > standing.now);
            let free = client.operation is None && !client.requested;
            &&& client.registers(standing) <==> free && standing.has_exchange && signed_in
                && standing.reservation@.is_ready() && standing.services is Some
            &&& client.refreshes(due, standing) <==> due == AvailabilityAction::Refresh && free
                && standing.has_exchange && signed_in && standing.services is Some && client.revision is Some
            &&& client.runs_out(due) <==> due == AvailabilityAction::Publish(false) && client.expires_at != 0
            &&& client.repeats(now_millis, standing.reservation@.is_ready()) <==> client.operation is Some
                && !client.requested && standing.reservation@.is_ready() && (client.retry_due_at matches Some(
                at,
            ) && at <= now_millis)
            &&& signed_in ==> standing.session_id() == (*standing.session)->Some_0.session_id
            &&& ClientModel::blank().operation is None && ClientModel::blank().revision is None
                && !ClientModel::blank().requested && ClientModel::blank().retry_due_at is None
                && ClientModel::blank().expires_at == 0
        }),
{
}

/// A new request carries what it is made of: its own number, the session, the
/// server, what it asks for, and the reservation that it is asked under.
pub proof fn law_new_requests_carry_what_they_are_made_of(
    operation: OperationModel,
    number: u128,
    session: [u8; 16],
    instance: [u8; 16],
    revision: u64,
    config: ConfigModel,
    generation: u64,
)
    ensures
        operation.is_fresh(number, session, instance, config, generation) ==> {
            &&& operation.kind == RegistryOperationKind::Register
            &&& operation.request matches RegistryRequestModel::Register {
                request_id,
                session_id,
                instance_id,
                requested_lease_seconds,
                capabilities,
                services,
            } && request_id@ == crate::bytes::be128(number) && session_id == session && instance_id
                == instance && requested_lease_seconds == config.requested_lease_seconds && services
                == config.services && capabilities == KNOWN_CAPABILITIES
            &&& operation.reservation_generation == generation
            &&& operation.expected_service_set_hash == config.service_set_hash
        },
        operation.is_renewal(number, session, instance, revision, config, generation) ==> {
            &&& operation.kind matches RegistryOperationKind::Refresh(kept) && kept@ == revision
            &&& operation.request matches RegistryRequestModel::Refresh {
                request_id,
                session_id,
                instance_id,
                expected_registration_revision,
                requested_lease_seconds,
            } && request_id@ == crate::bytes::be128(number) && session_id == session && instance_id
                == instance && expected_registration_revision == revision && requested_lease_seconds
                == config.requested_lease_seconds
            &&& operation.reservation_generation == generation && operation.attempts == 0
        },
        operation.is_withdrawal(number, session, instance, revision, generation) ==> {
            &&& operation.kind matches RegistryOperationKind::Withdraw(left) && left@ == revision
            &&& operation.request matches RegistryRequestModel::Withdraw {
                request_id,
                session_id,
                instance_id,
                expected_registration_revision,
            } && request_id@ == crate::bytes::be128(number) && session_id == session && instance_id
                == instance && expected_registration_revision == revision
            &&& operation.reservation_generation == generation && operation.attempts == 0
        },
{
}

/// A withdrawal is answered by an answer of its kind with its number, from the same
/// instance, and by no other.
pub proof fn law_withdrawals_are_answered_by_number(
    operation: RegistryOperation,
    response: RegistryResponseV1,
    instance_id: InstanceId,
    r: bool,
)
    requires
        call_ensures(RegistryOperation::withdrawn_by, (&operation, &response, &instance_id), r),
    ensures
        r ==> response is Withdrawn,
        response matches RegistryResponseV1::Withdrawn { request_id, instance_id: answered, .. } ==> (r
            <==> request_id == operation@.request_id() && answered@ == instance_id@),
{
}

/// A withdrawal carries the next number, the session, the instance and the
/// revision that is withdrawn; without a number there is none.
pub proof fn law_withdrawals_name_their_revision(
    request_ids: &mut CorrelationIdGenerator,
    session_id: [u8; 16],
    instance_id: InstanceId,
    revision: RegistrationRevision,
    generation: u64,
    r: Result<RegistryOperation, CorrelationIdExhausted>,
)
    requires
        call_ensures(new_withdraw, (request_ids, session_id, instance_id, revision, generation), r),
    ensures
        r is Ok <==> old(request_ids)@ is Some,
        r matches Ok(operation) ==> {
            &&& operation@.request matches RegistryRequestModel::Withdraw {
                request_id,
                session_id: session,
                instance_id: instance,
                expected_registration_revision,
            }
            &&& request_id@ == crate::bytes::be128(old(request_ids)@->0)
            &&& session == session_id
            &&& instance == instance_id@
            &&& expected_registration_revision == revision@
            &&& operation@.kind == RegistryOperationKind::Withdraw(revision)
            &&& operation@.reservation_generation == generation
            &&& operation@.attempts == 0
        },
        old(request_ids)@ is Some && old(request_ids)@->0 < u128::MAX ==> final(request_ids)@ is Some
            && final(request_ids)@->0 == old(request_ids)@->0 + 1,
{
}

/// A refresh carries the next number, the session, the instance, the revision, the
/// lease it asks for and the digest of the services it stands for.
pub proof fn law_refreshes_name_their_revision(
    request_ids: &mut CorrelationIdGenerator,
    session_id: [u8; 16],
    instance_id: InstanceId,
    revision: RegistrationRevision,
    lease: u16,
    generation: u64,
    digest: [u8; 32],
    r: Result<RegistryOperation, CorrelationIdExhausted>,
)
    requires
        call_ensures(
            new_refresh,
            (request_ids, session_id, instance_id, revision, lease, generation, digest),
            r,
        ),
    ensures
        r is Ok <==> old(request_ids)@ is Some,
        r matches Ok(operation) ==> {
            &&& operation@.request matches RegistryRequestModel::Refresh {
                request_id,
                session_id: session,
                instance_id: instance,
                expected_registration_revision,
                requested_lease_seconds,
            }
            &&& request_id@ == crate::bytes::be128(old(request_ids)@->0)
            &&& session == session_id
            &&& instance == instance_id@
            &&& expected_registration_revision == revision@
            &&& requested_lease_seconds == lease
            &&& operation@.kind == RegistryOperationKind::Refresh(revision)
            &&& operation@.reservation_generation == generation
            &&& operation@.expected_service_set_hash == digest
            &&& operation@.attempts == 0
        },
        old(request_ids)@ is Some && old(request_ids)@->0 < u128::MAX ==> final(request_ids)@ is Some
            && final(request_ids)@->0 == old(request_ids)@->0 + 1,
{
}

/// Jitter lies between a tenth less and a tenth more, as two bytes say.
pub proof fn law_jitter_is_a_tenth_at_most(bytes: [u8; 2], r: i16)
    requires
        call_ensures(jitter_from, (bytes,), r),
    ensures
        -100 <= r <= 100,
        (r + 100) % 201 == (bytes@[0] * 256 + bytes@[1]) % 201,
{
}

/// What is asked is noted; sending it again ends the wait; a lapse forgets when the
/// registration runs out, and nothing else.
pub proof fn law_requests_are_tracked(
    a: &mut RegistrationClient,
    operation: RegistryOperation,
    begun: (),
    b: &mut RegistrationClient,
    again: (),
    c: &mut RegistrationClient,
    lapsed: (),
)
    requires
        call_ensures(RegistrationClient::begin, (a, operation), begun),
        call_ensures(RegistrationClient::resent, (b,), again),
        call_ensures(RegistrationClient::lapse, (c,), lapsed),
    ensures
        final(a)@.operation == Some(operation@) && final(a)@.requested,
        final(a)@.revision == old(a)@.revision && final(a)@.expires_at == old(a)@.expires_at
            && final(a)@.retry_due_at == old(a)@.retry_due_at,
        final(b)@.requested && final(b)@.retry_due_at is None,
        final(b)@.operation == old(b)@.operation && final(b)@.revision == old(b)@.revision
            && final(b)@.expires_at == old(b)@.expires_at,
        final(c)@.expires_at == 0,
        final(c)@.operation == old(c)@.operation && final(c)@.revision == old(c)@.revision
            && final(c)@.requested == old(c)@.requested && final(c)@.retry_due_at == old(c)@.retry_due_at,
{
}

/// A request that failed waits and is counted; a server whose registration failed
/// is no longer shown, while a failed refresh leaves it.
pub proof fn law_failed_requests_wait(
    client: &mut RegistrationClient,
    availability: &mut Availability,
    now_millis: i64,
    jitter: i16,
    r: (),
)
    requires
        call_ensures(RegistrationClient::on_failure, (client, availability, now_millis, jitter), r),
    ensures
        !final(client)@.requested,
        final(client)@.revision == old(client)@.revision,
        final(client)@.expires_at == old(client)@.expires_at,
        old(client)@.operation matches Some(operation) ==> {
            &&& final(client)@.operation is Some
            &&& final(client)@.operation->0.request == operation.request
            &&& operation.attempts < u32::MAX ==> final(client)@.operation->0.attempts == operation.attempts
                + 1
            &&& final(client)@.retry_due_at is Some
            &&& operation.kind is Register ==> final(availability)@.registration_expires_at == 0
                && !final(availability)@.was_ready
            &&& !(operation.kind is Register) ==> final(availability)@ == old(availability)@
        },
        old(client)@.operation is None ==> final(availability)@ == old(availability)@
            && final(client)@.retry_due_at == old(client)@.retry_due_at,
{
}

/// With the reservation or the session goes all that was registered under it.
pub proof fn law_losses_forget_the_registration(
    a: &mut RegistrationClient,
    b: &mut Availability,
    reservation_lost: (),
    c: &mut RegistrationClient,
    d: &mut Availability,
    session_lost: (),
)
    requires
        call_ensures(RegistrationClient::on_reservation_lost, (a, b), reservation_lost),
        call_ensures(RegistrationClient::on_session_lost, (c, d), session_lost),
    ensures
        final(a)@.operation is None && !final(a)@.requested && final(a)@.retry_due_at is None
            && final(a)@.revision is None && final(a)@.expires_at == 0,
        !final(b)@.reservation && final(b)@.registration_expires_at == 0 && final(b)@.auth == old(b)@.auth,
        final(c)@.operation is None && !final(c)@.requested && final(c)@.retry_due_at is None
            && final(c)@.revision is None && final(c)@.expires_at == 0,
        !final(d)@.auth && !final(d)@.reservation && final(d)@.registration_expires_at == 0,
{
}

/// An answer to nothing leaves the registration as it is, and takes no number.
pub proof fn law_answers_to_nothing_leave_the_registration(
    client: &mut RegistrationClient,
    response: RegistryResponseV1,
    context: ResponseContext<'_>,
    availability: &mut Availability,
    request_ids: &mut CorrelationIdGenerator,
    r: Result<ResponseOutcome, CorrelationIdExhausted>,
)
    requires
        call_ensures(
            RegistrationClient::on_response,
            (client, &response, &context, availability, request_ids),
            r,
        ),
        old(client)@.operation is None,
    ensures
        r == Ok::<ResponseOutcome, CorrelationIdExhausted>(ResponseOutcome::Ignored),
        final(client)@.operation is None && !final(client)@.requested,
        final(client)@.revision == old(client)@.revision,
        final(client)@.expires_at == old(client)@.expires_at,
        final(availability)@ == old(availability)@,
        final(request_ids)@ == old(request_ids)@,
{
}

/// A server that is registered asks for no first registration, and one that is not
/// has nothing to withdraw; neither takes a number.
pub proof fn law_only_what_stands_is_withdrawn(
    client: RegistrationClient,
    standing: Standing<'_>,
    a: &mut CorrelationIdGenerator,
    first: Result<Option<RegistryOperation>, CorrelationIdExhausted>,
    b: &mut CorrelationIdGenerator,
    withdrawal: Result<Option<RegistryOperation>, CorrelationIdExhausted>,
)
    requires
        call_ensures(RegistrationClient::first_registration, (&client, &standing, a), first),
        call_ensures(RegistrationClient::next_withdrawal, (&client, &standing, b), withdrawal),
    ensures
        client@.revision is Some ==> (first matches Ok(None)) && final(a)@ == old(a)@,
        client@.revision is None ==> (withdrawal matches Ok(None)) && final(b)@ == old(b)@,
        !standing.has_exchange ==> (withdrawal matches Ok(None)) && final(b)@ == old(b)@,
        client@.revision is Some && standing.has_exchange && standing.has_session() && old(b)@ is Some
            ==> (withdrawal matches Ok(Some(operation)) && operation@.kind is Withdraw
            && operation@.request_id()@ == crate::bytes::be128(old(b)@->0)),
{
}

} // verus!
