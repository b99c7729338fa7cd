//! A worker that opens one stream to an upstream for a client. What takes time
//! is done elsewhere; here it is decided what comes next. Times are nanoseconds,
//! holds milliseconds.
use crate::crypto::random_array;
use crate::error::{PublicError, PublicErrorCode};
use crate::lifecycle::{hash_id, id_hash};
use crate::peer::{ConnectionId, PeerId};
use crate::probe::ProbePath;
use crate::proxy::{OpenModel, OpenProxyStreamV1, ProxyOpenResponseV1, UpstreamMode};
use crate::proxy_owner::ProxyWorkerId;
use crate::service_config::{LocalUpstream, UpstreamModel};
use crate::stream_admission::AdmissionToken;
use crate::text::same_text;
use crate::ticket::signature_outcome;
use crate::ticket_admission::{
    ticket_code, CandidateModel, TicketAdmissionLedger, ValidationCandidate, MAX_REPLAY_ENTRIES,
};
use crate::ticket_key::VerificationKeyRing;
use crate::tunnel::{PumpResult, Terminal};
use crate::upstream::{connect_code, ConnectError};
use vstd::prelude::*;

verus! {

/// How long a worker may take to open its stream.
pub const WORKER_BUDGET: u64 = 5_000_000_000;

/// Where a worker can be held up on purpose.
#[derive(Clone, Copy, Debug, PartialEq, Eq, Structural)]
pub enum TestDeadlineStage {
    Verification,
    OwnerDecision,
    Promotion,
    UpstreamDial,
    AcceptedWrite,
}

/// The stage of a name.
pub open spec fn stage_named(name: Seq<char>) -> Option<TestDeadlineStage> {
    if name == "verification"@ {
        Some(TestDeadlineStage::Verification)
    } else if name == "owner-decision"@ {
        Some(TestDeadlineStage::OwnerDecision)
    } else if name == "promotion"@ {
        Some(TestDeadlineStage::Promotion)
    } else if name == "upstream-dial"@ {
        Some(TestDeadlineStage::UpstreamDial)
    } else if name == "accepted-write"@ {
        Some(TestDeadlineStage::AcceptedWrite)
    } else {
        None
    }
}

/// By what name a hold at a stage is reported.
pub open spec fn fault_text(stage: TestDeadlineStage) -> Seq<char> {
    match stage {
        TestDeadlineStage::Verification => "hold_server_verification"@,
        TestDeadlineStage::OwnerDecision => "hold_server_owner_decision"@,
        TestDeadlineStage::Promotion => "hold_server_promotion"@,
        TestDeadlineStage::UpstreamDial => "hold_server_upstream_dial"@,
        TestDeadlineStage::AcceptedWrite => "hold_server_accepted_write"@,
    }
}

impl TestDeadlineStage {
    /// The stage of a name.
    pub fn named(name: &str) -> (r: Result<Self, &'static str>)
        ensures
            match r {
                Ok(stage) => stage_named(name@) == Some(stage),
                Err(text) => stage_named(name@) is None && text@
                    == "invalid server deadline test stage"@,
            },
    {
        if same_text(name, "verification") {
            Ok(TestDeadlineStage::Verification)
        } else if same_text(name, "owner-decision") {
            Ok(TestDeadlineStage::OwnerDecision)
        } else if same_text(name, "promotion") {
            Ok(TestDeadlineStage::Promotion)
        } else if same_text(name, "upstream-dial") {
            Ok(TestDeadlineStage::UpstreamDial)
        } else if same_text(name, "accepted-write") {
            Ok(TestDeadlineStage::AcceptedWrite)
        } else {
            Err("invalid server deadline test stage")
        }
    }

    /// By what name a hold at the stage is reported.
    pub fn fault(self) -> (r: &'static str)
        ensures
            r@ == fault_text(self),
    {
        match self {
            TestDeadlineStage::Verification => "hold_server_verification",
            TestDeadlineStage::OwnerDecision => "hold_server_owner_decision",
            TestDeadlineStage::Promotion => "hold_server_promotion",
            TestDeadlineStage::UpstreamDial => "hold_server_upstream_dial",
            TestDeadlineStage::AcceptedWrite => "hold_server_accepted_write",
        }
    }
}

impl std::str::FromStr for TestDeadlineStage {
    type Err = &'static str;

    fn from_str(value: &str) -> (r: Result<Self, Self::Err>) {
        TestDeadlineStage::named(value)
    }
}

/// What came of waiting for a request.
pub enum OpenRead {
    /// The server is closing down.
    Cancelled,
    TimedOut,
    Failed,
    Read(OpenProxyStreamV1),
}

/// The request that a worker has, or why it has none.
pub fn open_outcome(read: OpenRead) -> (r: Result<OpenProxyStreamV1, PublicErrorCode>)
    ensures
        r == match read {
            OpenRead::Cancelled => Err::<OpenProxyStreamV1, PublicErrorCode>(
                PublicErrorCode::ExchangeDraining,
            ),
            OpenRead::TimedOut | OpenRead::Failed => Err(PublicErrorCode::ProtocolMalformed),
            OpenRead::Read(open) => Ok(open),
        },
{
    match read {
        OpenRead::Cancelled => Err(PublicErrorCode::ExchangeDraining),
        OpenRead::TimedOut | OpenRead::Failed => Err(PublicErrorCode::ProtocolMalformed),
        OpenRead::Read(open) => Ok(open),
    }
}

/// What a request says, or why there is none.
pub open spec fn open_model(open: Result<OpenProxyStreamV1, PublicErrorCode>) -> Result<
    OpenModel,
    PublicErrorCode,
> {
    match open {
        Ok(open) => Ok(open@),
        Err(code) => Err(code),
    }
}

/// What is known of a ticket, or why it is not accepted.
pub open spec fn validation_model(validation: Result<ValidationCandidate, PublicErrorCode>) -> Result<
    CandidateModel,
    PublicErrorCode,
> {
    match validation {
        Ok(candidate) => Ok(candidate@),
        Err(code) => Err(code),
    }
}

/// Checks the ticket of a request as of `unix_now`, or of when the worker
/// started, if that is later.
pub fn verify_open(
    ring: Option<&VerificationKeyRing>,
    open: &Result<OpenProxyStreamV1, PublicErrorCode>,
    clock_skew: i64,
    unix_now: i64,
    started_unix: i64,
) -> (r: Result<ValidationCandidate, PublicErrorCode>)
    requires
        0 <= clock_skew <= 30,
    ensures
        match (ring, *open) {
            (_, Err(_)) => r == Err::<ValidationCandidate, PublicErrorCode>(
                PublicErrorCode::ProtocolMalformed,
            ),
            (None, Ok(_)) => r == Err::<ValidationCandidate, PublicErrorCode>(
                PublicErrorCode::AuthSessionRequired,
            ),
            (Some(ring), Ok(open)) => {
                let at = if unix_now > started_unix {
                    unix_now
                } else {
                    started_unix
                };
                match signature_outcome(open@.ticket, ring, at, clock_skew) {
                    Ok(claims) => r matches Ok(candidate) && candidate@.claims == claims
                        && candidate@.ticket_id == claims.ticket_id && candidate@.owner_fingerprint@
                        == Seq::new(32, |i: int| 0u8),
                    Err(error) => r == Err::<ValidationCandidate, PublicErrorCode>(
                        ticket_code(error),
                    ),
                }
            },
        },
{
    let open = match open {
        Ok(open) => open,
        Err(_) => return Err(PublicErrorCode::ProtocolMalformed),
    };
    let ring = match ring {
        Some(ring) => ring,
        None => return Err(PublicErrorCode::AuthSessionRequired),
    };
    let at: i64 = if unix_now > started_unix {
        unix_now
    } else {
        started_unix
    };
    let ledger = match TicketAdmissionLedger::new(MAX_REPLAY_ENTRIES, clock_skew) {
        Ok(ledger) => ledger,
        Err(code) => return Err(code),
    };
    ledger.verify_candidate(ring, open.ticket.as_bytes(), at)
}

/// What a worker asks the owner to decide.
pub struct Candidate {
    pub worker_id: ProxyWorkerId,
    pub test_deadline_stage: Option<TestDeadlineStage>,
    pub peer_id: PeerId,
    pub connection_id: ConnectionId,
    pub selected_path: ProbePath,
    pub deadline: u64,
    pub open: Result<OpenProxyStreamV1, PublicErrorCode>,
    pub validation: Result<ValidationCandidate, PublicErrorCode>,
}

/// What the owner decided.
pub enum ServerDecision {
    Admit {
        stream_id: [u8; 16],
        admission: AdmissionToken,
        upstream: LocalUpstream,
        copy_buffer_bytes: usize,
    },
    Reject(ProxyOpenResponseV1),
}

/// What the owner decided, as the contracts see it.
#[verifier::ext_equal]
pub enum DecisionModel {
    Admit { stream_id: [u8; 16], admission: Seq<u8>, upstream: UpstreamModel, copy_buffer_bytes: usize },
    Reject(ProxyOpenResponseV1),
}

impl View for ServerDecision {
    type V = DecisionModel;

    open spec fn view(&self) -> DecisionModel {
        match self {
            ServerDecision::Admit { stream_id, admission, upstream, copy_buffer_bytes } => {
                DecisionModel::Admit {
                    stream_id: *stream_id,
                    admission: admission@,
                    upstream: upstream@,
                    copy_buffer_bytes: *copy_buffer_bytes,
                }
            },
            ServerDecision::Reject(response) => DecisionModel::Reject(*response),
        }
    }
}

/// A promotion that a worker asks for.
#[derive(Clone, Copy, Debug, PartialEq, Eq)]
pub struct Promotion {
    pub worker_id: ProxyWorkerId,
    pub admission: AdmissionToken,
}

/// A stream that was accepted.
pub struct Accepted {
    pub worker_id: ProxyWorkerId,
    pub peer_id: PeerId,
    pub connection_id: ConnectionId,
    pub selected_path: ProbePath,
    pub setup_duration: u64,
    pub request_id_hash: u64,
    pub stream_id_hash: u64,
}

/// What a worker leaves behind.
pub struct Release {
    pub worker_id: ProxyWorkerId,
    pub peer_id: PeerId,
    pub connection_id: ConnectionId,
    pub selected_path: ProbePath,
    pub setup_duration: u64,
    pub admission: AdmissionToken,
    pub request_id_hash: u64,
    pub stream_id_hash: Option<u64>,
    pub accepted: bool,
    pub code: Option<PublicErrorCode>,
    pub pump: Option<PumpResult>,
}

/// The code for a step that was not taken in time.
pub open spec fn failure_code(shutdown: bool) -> PublicErrorCode {
    if shutdown {
        PublicErrorCode::PeerDraining
    } else {
        PublicErrorCode::PeerSetupTimeout
    }
}

/// The code for a step that was not taken in time.
pub fn transition_failure_code(shutdown: bool) -> (r: PublicErrorCode)
    ensures
        r == failure_code(shutdown),
{
    if shutdown {
        PublicErrorCode::PeerDraining
    } else {
        PublicErrorCode::PeerSetupTimeout
    }
}

/// For how long a worker is held up.
pub fn hold_time(delay: u64, remaining: u64) -> (r: u64)
    ensures
        r == if delay < remaining {
            delay
        } else {
            remaining
        },
{
    if delay < remaining {
        delay
    } else {
        remaining
    }
}

/// Whether a worker goes on after it was held up.
pub fn hold_completes(delay: u64, remaining: u64, cancelled: bool) -> (r: bool)
    ensures
        r == (!cancelled && delay <= remaining),
{
    !cancelled && delay <= remaining
}

/// An answer that turns a request down and invites to try again.
pub open spec fn turned_down(request_id: Option<[u8; 16]>, code: PublicErrorCode) -> ProxyOpenResponseV1 {
    ProxyOpenResponseV1::Rejected { request_id, error: PublicError { code, retryable: true } }
}

/// An answer that turns a request down and invites to try again.
pub fn rejection(request_id: Option<[u8; 16]>, code: PublicErrorCode) -> (r: ProxyOpenResponseV1)
    ensures
        r == turned_down(request_id, code),
{
    ProxyOpenResponseV1::Rejected { request_id, error: PublicError::new(code, true) }
}

/// Draws the number of a stream.
pub fn random_stream_id() -> (r: Result<[u8; 16], PublicErrorCode>)
    ensures
        r matches Err(code) ==> code == PublicErrorCode::ExchangeOverloaded,
{
    match random_array::<16>() {
        Some(id) => Ok(id),
        None => Err(PublicErrorCode::ExchangeOverloaded),
    }
}

/// What a worker was granted.
#[derive(Clone, Copy, Debug, PartialEq, Eq)]
pub struct Grant {
    pub stream_id: [u8; 16],
    pub admission: AdmissionToken,
    pub connect_timeout: u64,
    pub idle_timeout: u64,
    pub copy_buffer_bytes: usize,
}

/// What came of waiting for the owner's decision.
#[derive(Clone, Copy, Debug, PartialEq, Eq)]
pub enum Verdict {
    /// The server is closing down.
    Cancelled,
    /// There is no decision.
    Missing,
    Granted(Grant),
    Rejected(ProxyOpenResponseV1),
}

/// What the owner's decision means to a worker.
pub fn verdict_of(decision: &ServerDecision) -> (r: Verdict)
    ensures
        r == match *decision {
            ServerDecision::Admit { stream_id, admission, upstream, copy_buffer_bytes } => {
                Verdict::Granted(
                    Grant {
                        stream_id,
                        admission,
                        connect_timeout: upstream.connect_timeout,
                        idle_timeout: upstream.idle_timeout,
                        copy_buffer_bytes,
                    },
                )
            },
            ServerDecision::Reject(response) => Verdict::Rejected(response),
        },
{
    match decision {
        ServerDecision::Admit { stream_id, admission, upstream, copy_buffer_bytes } => {
            Verdict::Granted(
                Grant {
                    stream_id: *stream_id,
                    admission: *admission,
                    connect_timeout: upstream.connect_timeout,
                    idle_timeout: upstream.idle_timeout,
                    copy_buffer_bytes: *copy_buffer_bytes,
                },
            )
        },
        ServerDecision::Reject(response) => Verdict::Rejected(*response),
    }
}

/// What a worker waits for.
#[derive(Clone, Copy, Debug, PartialEq, Eq, Structural)]
pub enum WorkerPhase {
    Opening,
    HoldingVerification,
    Submitting,
    Deciding,
    HoldingDial,
    /// The dial is held up for this long.
    PausingDial(u64),
    Dialing,
    HoldingPromotion,
    Promoting,
    Reserving,
    HoldingAcceptance,
    Accepting,
    /// Data flows; opening the stream took this long.
    Pumping(u64),
    /// An answer with this code is the last thing to be sent.
    Replying(Option<PublicErrorCode>),
    Finished,
}

/// What happened to a worker.
#[derive(Clone, Copy, Debug, PartialEq, Eq)]
pub enum WorkerEvent {
    /// The request was read, and has this number, or there is none.
    Opened(Option<[u8; 16]>),
    /// A hold ended, and the worker goes on or not.
    Held(bool),
    /// The candidate was handed to the owner or not.
    Submitted(bool),
    Decided(Verdict),
    Paused(Result<(), ConnectError>),
    Dialed(Result<(), ConnectError>),
    /// The owner promoted the stream or not.
    Promoted(bool),
    /// There is room to report the stream or not.
    Reserved(bool),
    /// The answer was sent or not.
    Written(bool),
    Pumped(Option<PumpResult>),
}

/// How a worker ends.
#[derive(Clone, Copy, Debug, PartialEq, Eq)]
pub struct Ending {
    pub setup_duration: u64,
    pub admission: AdmissionToken,
    pub request_id_hash: u64,
    pub stream_id_hash: Option<u64>,
    pub accepted: bool,
    pub code: Option<PublicErrorCode>,
    pub pump: Option<PumpResult>,
}

/// What a worker does next.
#[derive(Clone, Copy, Debug, PartialEq, Eq)]
pub enum WorkerAction {
    Hold(u64),
    /// Check the ticket and hand the candidate to the owner.
    Submit,
    AwaitDecision,
    Pause(u64),
    Dial,
    Promote(AdmissionToken),
    Reserve,
    WriteAccepted(ProxyOpenResponseV1),
    /// Report the stream and let data flow.
    Pump { setup_duration: u64, request_id_hash: u64, stream_id_hash: u64, grant: Grant },
    Reply(ProxyOpenResponseV1),
    Finish(Ending),
    /// What happened is not what the worker waits for.
    Ignore,
}

/// What a worker reports and does next.
#[derive(Clone, Copy, Debug, PartialEq, Eq)]
pub struct WorkerStep {
    pub fault: Option<TestDeadlineStage>,
    pub action: WorkerAction,
}

/// A worker.
#[derive(Clone, Copy, Debug, PartialEq, Eq)]
pub struct ProxyWorker {
    pub started: u64,
    pub stage: Option<TestDeadlineStage>,
    pub stage_hold: Option<u64>,
    pub handshake_hold: Option<u64>,
    pub dial_hold: Option<u64>,
    pub request_id: Option<[u8; 16]>,
    pub grant: Option<Grant>,
    pub phase: WorkerPhase,
}

impl ProxyWorker {
    /// In another phase.
    pub open spec fn to(self, phase: WorkerPhase) -> Self {
        ProxyWorker { phase, ..self }
    }

    /// The hash of the request's number.
    pub open spec fn request_hash(self) -> u64 {
        match self.request_id {
            Some(id) => id_hash(id@),
            None => 0,
        }
    }

    /// The hash of the stream's number.
    pub open spec fn stream_hash(self) -> Option<u64> {
        match self.grant {
            Some(grant) => Some(id_hash(grant.stream_id@)),
            None => None,
        }
    }

    /// How long the worker has been at it.
    pub open spec fn elapsed(self, now: u64) -> u64 {
        if now >= self.started {
            (now - self.started) as u64
        } else {
            0
        }
    }

    /// Whether an ending is that of a worker whose stream was not accepted.
    pub open spec fn ends(self, ending: Ending, code: Option<PublicErrorCode>, now: u64) -> bool {
        &&& ending.setup_duration == self.elapsed(now)
        &&& ending.admission@ == match self.grant {
            Some(grant) => grant.admission@,
            None => crate::stream_admission::no_stream(),
        }
        &&& ending.request_id_hash == self.request_hash()
        &&& ending.stream_id_hash == self.stream_hash()
        &&& !ending.accepted
        &&& ending.code == code
        &&& ending.pump is None
    }

    /// Whether a step is the last of a worker whose stream was not accepted.
    pub open spec fn finishes(
        self,
        after: Self,
        step: WorkerStep,
        code: Option<PublicErrorCode>,
        now: u64,
    ) -> bool {
        &&& after == self.to(WorkerPhase::Finished)
        &&& step.fault is None
        &&& step.action matches WorkerAction::Finish(ending)
        &&& self.ends(ending, code, now)
    }

    /// Whether a step goes to a phase with an action.
    pub open spec fn goes(
        self,
        after: Self,
        step: WorkerStep,
        phase: WorkerPhase,
        fault: Option<TestDeadlineStage>,
        action: WorkerAction,
    ) -> bool {
        after == self.to(phase) && step == (WorkerStep { fault, action })
    }

    /// Whether a step turns the request down.
    pub open spec fn replies(self, after: Self, step: WorkerStep, code: PublicErrorCode) -> bool {
        self.goes(
            after,
            step,
            WorkerPhase::Replying(Some(code)),
            None,
            WorkerAction::Reply(turned_down(self.request_id, code)),
        )
    }

    /// The hold at a stage, if the worker is to be held up there.
    pub open spec fn hold_at(self, stage: TestDeadlineStage) -> Option<u64> {
        if self.stage == Some(stage) {
            self.stage_hold
        } else {
            None
        }
    }

    /// The answer that accepts the stream.
    pub open spec fn acceptance(self) -> ProxyOpenResponseV1 {
        ProxyOpenResponseV1::Accepted {
            request_id: self.request_id->Some_0,
            stream_id: self.grant->Some_0.stream_id,
            selected_upstream_mode: UpstreamMode::Tcp,
        }
    }

    /// Whether a step is right when the request was read or not.
    pub open spec fn on_opened(self, request_id: Option<[u8; 16]>, after: Self, step: WorkerStep) -> bool {
        let read = ProxyWorker { request_id, ..self };
        let held = self.stage == Some(TestDeadlineStage::Verification);
        let fault = if held {
            Some(TestDeadlineStage::Verification)
        } else {
            None
        };
        match if held {
            self.stage_hold
        } else {
            self.handshake_hold
        } {
            Some(delay) => read.goes(
                after,
                step,
                WorkerPhase::HoldingVerification,
                fault,
                WorkerAction::Hold(delay),
            ),
            None => read.goes(after, step, WorkerPhase::Submitting, fault, WorkerAction::Submit),
        }
    }

    /// Whether a step is right when the owner has decided.
    pub open spec fn on_decided(self, verdict: Verdict, after: Self, step: WorkerStep, now: u64) -> bool {
        match verdict {
            Verdict::Cancelled => self.replies(after, step, PublicErrorCode::ExchangeDraining),
            Verdict::Missing => self.replies(after, step, PublicErrorCode::PeerSetupTimeout),
            Verdict::Rejected(response) => self.goes(
                after,
                step,
                WorkerPhase::Replying(
                    match response {
                        ProxyOpenResponseV1::Rejected { error, .. } => Some(error.code),
                        _ => None,
                    },
                ),
                None,
                WorkerAction::Reply(response),
            ),
            Verdict::Granted(grant) => {
                let granted = ProxyWorker { grant: Some(grant), ..self };
                if self.request_id is None {
                    granted.finishes(after, step, Some(PublicErrorCode::ProtocolMalformed), now)
                } else {
                    match (self.hold_at(TestDeadlineStage::UpstreamDial), self.dial_hold) {
                        (Some(delay), _) => granted.goes(
                            after,
                            step,
                            WorkerPhase::HoldingDial,
                            Some(TestDeadlineStage::UpstreamDial),
                            WorkerAction::Hold(delay),
                        ),
                        (None, Some(delay)) => granted.goes(
                            after,
                            step,
                            WorkerPhase::PausingDial(delay),
                            None,
                            WorkerAction::Pause(delay),
                        ),
                        (None, None) => granted.goes(
                            after,
                            step,
                            WorkerPhase::Dialing,
                            None,
                            WorkerAction::Dial,
                        ),
                    }
                }
            },
        }
    }

    /// Whether a step is right when the upstream was not connected.
    pub open spec fn on_dial_failed(
        self,
        error: ConnectError,
        after: Self,
        step: WorkerStep,
        shutdown: bool,
    ) -> bool {
        self.replies(
            after,
            step,
            if shutdown {
                PublicErrorCode::PeerDraining
            } else {
                connect_code(error)
            },
        )
    }

    /// Whether a step is right when the upstream was connected.
    pub open spec fn on_dialed(self, after: Self, step: WorkerStep) -> bool {
        match self.hold_at(TestDeadlineStage::Promotion) {
            Some(delay) => self.goes(
                after,
                step,
                WorkerPhase::HoldingPromotion,
                Some(TestDeadlineStage::Promotion),
                WorkerAction::Hold(delay),
            ),
            None => self.goes(
                after,
                step,
                WorkerPhase::Promoting,
                None,
                WorkerAction::Promote(self.grant->Some_0.admission),
            ),
        }
    }

    /// Whether a step is right when the stream can be reported.
    pub open spec fn on_reserved(self, after: Self, step: WorkerStep) -> bool {
        match self.hold_at(TestDeadlineStage::AcceptedWrite) {
            Some(delay) => self.goes(
                after,
                step,
                WorkerPhase::HoldingAcceptance,
                Some(TestDeadlineStage::AcceptedWrite),
                WorkerAction::Hold(delay),
            ),
            None => self.goes(
                after,
                step,
                WorkerPhase::Accepting,
                None,
                WorkerAction::WriteAccepted(self.acceptance()),
            ),
        }
    }

    /// Whether a step is right when data has stopped.
    pub open spec fn on_pumped(
        self,
        setup_duration: u64,
        pump: Option<PumpResult>,
        after: Self,
        step: WorkerStep,
    ) -> bool {
        self.goes(
            after,
            step,
            WorkerPhase::Finished,
            None,
            WorkerAction::Finish(
                Ending {
                    setup_duration,
                    admission: self.grant->Some_0.admission,
                    request_id_hash: self.request_hash(),
                    stream_id_hash: self.stream_hash(),
                    accepted: true,
                    code: if pump is Some && pump->Some_0.terminal == Terminal::IdleTimeout {
                        Some(PublicErrorCode::UpstreamIdleTimeout)
                    } else {
                        None
                    },
                    pump,
                },
            ),
        )
    }

    /// Whether a worker in a phase waits for an event.
    pub open spec fn awaits(self, event: WorkerEvent) -> bool {
        match self.phase {
            WorkerPhase::Opening => event is Opened,
            WorkerPhase::HoldingVerification | WorkerPhase::HoldingDial
            | WorkerPhase::HoldingPromotion | WorkerPhase::HoldingAcceptance => event is Held,
            WorkerPhase::Submitting => event is Submitted,
            WorkerPhase::Deciding => event is Decided,
            WorkerPhase::PausingDial(_) => event is Paused,
            WorkerPhase::Dialing => event is Dialed,
            WorkerPhase::Promoting => event is Promoted,
            WorkerPhase::Reserving => event is Reserved,
            WorkerPhase::Accepting | WorkerPhase::Replying(_) => event is Written,
            WorkerPhase::Pumping(_) => event is Pumped,
            WorkerPhase::Finished => false,
        }
    }

    /// Whether a step is right for what happened.
    pub open spec fn steps(
        self,
        event: WorkerEvent,
        shutdown: bool,
        now: u64,
        after: Self,
        step: WorkerStep,
    ) -> bool {
        let failure = failure_code(shutdown);
        match (self.phase, event) {
            (WorkerPhase::Opening, WorkerEvent::Opened(request_id)) => self.on_opened(
                request_id,
                after,
                step,
            ),
            (WorkerPhase::HoldingVerification, WorkerEvent::Held(held)) => if held {
                self.goes(after, step, WorkerPhase::Submitting, None, WorkerAction::Submit)
            } else if self.request_id is Some {
                self.replies(after, step, failure)
            } else {
                self.finishes(after, step, Some(failure), now)
            },
            (WorkerPhase::Submitting, WorkerEvent::Submitted(sent)) => if sent {
                self.goes(after, step, WorkerPhase::Deciding, None, WorkerAction::AwaitDecision)
            } else {
                self.finishes(after, step, Some(failure), now)
            },
            (WorkerPhase::Deciding, WorkerEvent::Decided(verdict)) => self.on_decided(
                verdict,
                after,
                step,
                now,
            ),
            (WorkerPhase::HoldingDial, WorkerEvent::Held(held)) => if held {
                self.goes(after, step, WorkerPhase::Dialing, None, WorkerAction::Dial)
            } else {
                self.on_dial_failed(ConnectError::Timeout, after, step, shutdown)
            },
            (WorkerPhase::PausingDial(delay), WorkerEvent::Paused(paused)) => match paused {
                Err(error) => self.on_dial_failed(error, after, step, shutdown),
                Ok(()) => if delay * 1_000_000 >= self.grant->Some_0.connect_timeout {
                    self.on_dial_failed(ConnectError::Timeout, after, step, shutdown)
                } else {
                    self.goes(after, step, WorkerPhase::Dialing, None, WorkerAction::Dial)
                },
            },
            (WorkerPhase::Dialing, WorkerEvent::Dialed(dialed)) => match dialed {
                Err(error) => self.on_dial_failed(error, after, step, shutdown),
                Ok(()) => self.on_dialed(after, step),
            },
            (WorkerPhase::HoldingPromotion, WorkerEvent::Held(held)) => if held {
                self.goes(
                    after,
                    step,
                    WorkerPhase::Promoting,
                    None,
                    WorkerAction::Promote(self.grant->Some_0.admission),
                )
            } else {
                self.finishes(after, step, Some(failure), now)
            },
            (WorkerPhase::Promoting, WorkerEvent::Promoted(promoted)) => if promoted {
                self.goes(after, step, WorkerPhase::Reserving, None, WorkerAction::Reserve)
            } else {
                self.finishes(after, step, Some(failure), now)
            },
            (WorkerPhase::Reserving, WorkerEvent::Reserved(reserved)) => if reserved {
                self.on_reserved(after, step)
            } else {
                self.replies(after, step, failure)
            },
            (WorkerPhase::HoldingAcceptance, WorkerEvent::Held(held)) => if held {
                self.goes(
                    after,
                    step,
                    WorkerPhase::Accepting,
                    None,
                    WorkerAction::WriteAccepted(self.acceptance()),
                )
            } else {
                self.finishes(after, step, Some(failure), now)
            },
            (WorkerPhase::Accepting, WorkerEvent::Written(written)) => if written {
                self.goes(
                    after,
                    step,
                    WorkerPhase::Pumping(self.elapsed(now)),
                    None,
                    WorkerAction::Pump {
                        setup_duration: self.elapsed(now),
                        request_id_hash: self.request_hash(),
                        stream_id_hash: id_hash(self.grant->Some_0.stream_id@),
                        grant: self.grant->Some_0,
                    },
                )
            } else {
                self.finishes(after, step, Some(PublicErrorCode::ProtocolMalformed), now)
            },
            (WorkerPhase::Pumping(setup_duration), WorkerEvent::Pumped(pump)) => self.on_pumped(
                setup_duration,
                pump,
                after,
                step,
            ),
            (WorkerPhase::Replying(code), WorkerEvent::Written(_)) => self.finishes(
                after,
                step,
                code,
                now,
            ),
            _ => self.goes(after, step, self.phase, None, WorkerAction::Ignore),
        }
    }

    /// Whether the worker has what its phase needs.
    pub open spec fn valid(self) -> bool {
        match self.phase {
            WorkerPhase::HoldingDial | WorkerPhase::PausingDial(_) | WorkerPhase::Dialing
            | WorkerPhase::HoldingPromotion | WorkerPhase::Promoting | WorkerPhase::Reserving
            | WorkerPhase::HoldingAcceptance | WorkerPhase::Accepting | WorkerPhase::Pumping(_) => {
                self.request_id is Some && self.grant is Some
            },
            _ => true,
        }
    }

    /// A worker that waits for its request.
    pub fn new(
        started: u64,
        stage: Option<TestDeadlineStage>,
        stage_hold: Option<u64>,
        handshake_hold: Option<u64>,
        dial_hold: Option<u64>,
    ) -> (r: Self)
        ensures
            r == (ProxyWorker {
                started,
                stage,
                stage_hold,
                handshake_hold,
                dial_hold,
                request_id: None,
                grant: None,
                phase: WorkerPhase::Opening,
            }),
            r.valid(),
    {
        ProxyWorker {
            started,
            stage,
            stage_hold,
            handshake_hold,
            dial_hold,
            request_id: None,
            grant: None,
            phase: WorkerPhase::Opening,
        }
    }

    /// When the stream must be open.
    pub fn deadline(&self) -> (r: u64)
        requires
            self.started + WORKER_BUDGET <= u64::MAX,
        ensures
            r == self.started + WORKER_BUDGET,
    {
        self.started + WORKER_BUDGET
    }

    fn hashed_request(&self) -> (r: u64)
        ensures
            r == self.request_hash(),
    {
        match self.request_id {
            Some(id) => hash_id(&id),
            None => 0,
        }
    }

    fn hashed_stream(&self) -> (r: Option<u64>)
        ensures
            r == self.stream_hash(),
    {
        match self.grant {
            Some(grant) => Some(hash_id(&grant.stream_id)),
            None => None,
        }
    }

    fn time_taken(&self, now: u64) -> (r: u64)
        ensures
            r == self.elapsed(now),
    {
        if now >= self.started {
            now - self.started
        } else {
            0
        }
    }

    fn go(&mut self, phase: WorkerPhase, fault: Option<TestDeadlineStage>, action: WorkerAction) -> (r:
        WorkerStep)
        ensures
            old(self).goes(*final(self), r, phase, fault, action),
    {
        self.phase = phase;
        WorkerStep { fault, action }
    }

    fn finish(&mut self, code: Option<PublicErrorCode>, now: u64) -> (r: WorkerStep)
        ensures
            old(self).finishes(*final(self), r, code, now),
    {
        let ending = Ending {
            setup_duration: self.time_taken(now),
            admission: match self.grant {
                Some(grant) => grant.admission,
                None => AdmissionToken::empty(),
            },
            request_id_hash: self.hashed_request(),
            stream_id_hash: self.hashed_stream(),
            accepted: false,
            code,
            pump: None,
        };
        self.go(WorkerPhase::Finished, None, WorkerAction::Finish(ending))
    }

    fn reply(&mut self, code: PublicErrorCode) -> (r: WorkerStep)
        ensures
            old(self).replies(*final(self), r, code),
    {
        let response = rejection(self.request_id, code);
        self.go(WorkerPhase::Replying(Some(code)), None, WorkerAction::Reply(response))
    }

    fn held_at(&self, stage: TestDeadlineStage) -> (r: Option<u64>)
        ensures
            r == self.hold_at(stage),
    {
        match self.stage {
            Some(own) => if own == stage {
                self.stage_hold
            } else {
                None
            },
            None => None,
        }
    }

    fn opened(&mut self, request_id: Option<[u8; 16]>) -> (r: WorkerStep)
        ensures
            old(self).on_opened(request_id, *final(self), r),
    {
        self.request_id = request_id;
        let held = match self.stage {
            Some(TestDeadlineStage::Verification) => true,
            _ => false,
        };
        let fault = if held {
            Some(TestDeadlineStage::Verification)
        } else {
            None
        };
        let hold: Option<u64> = if held {
            self.stage_hold
        } else {
            self.handshake_hold
        };
        match hold {
            Some(delay) => self.go(
                WorkerPhase::HoldingVerification,
                fault,
                WorkerAction::Hold(delay),
            ),
            None => self.go(WorkerPhase::Submitting, fault, WorkerAction::Submit),
        }
    }

    fn decided(&mut self, verdict: Verdict, now: u64) -> (r: WorkerStep)
        ensures
            old(self).on_decided(verdict, *final(self), r, now),
            old(self).valid() && old(self).phase == WorkerPhase::Deciding ==> final(self).valid(),
    {
        let grant = match verdict {
            Verdict::Cancelled => return self.reply(PublicErrorCode::ExchangeDraining),
            Verdict::Missing => return self.reply(PublicErrorCode::PeerSetupTimeout),
            Verdict::Rejected(response) => {
                let code = match response {
                    ProxyOpenResponseV1::Rejected { error, .. } => Some(error.code),
                    _ => None,
                };
                return self.go(WorkerPhase::Replying(code), None, WorkerAction::Reply(response));
            },
            Verdict::Granted(grant) => grant,
        };
        self.grant = Some(grant);
        if self.request_id.is_none() {
            return self.finish(Some(PublicErrorCode::ProtocolMalformed), now);
        }
        match self.held_at(TestDeadlineStage::UpstreamDial) {
            Some(delay) => return self.go(
                WorkerPhase::HoldingDial,
                Some(TestDeadlineStage::UpstreamDial),
                WorkerAction::Hold(delay),
            ),
            None => {},
        }
        match self.dial_hold {
            Some(delay) => self.go(
                WorkerPhase::PausingDial(delay),
                None,
                WorkerAction::Pause(delay),
            ),
            None => self.go(WorkerPhase::Dialing, None, WorkerAction::Dial),
        }
    }

    fn dial_failed(&mut self, error: ConnectError, shutdown: bool) -> (r: WorkerStep)
        ensures
            old(self).on_dial_failed(error, *final(self), r, shutdown),
    {
        let code = if shutdown {
            PublicErrorCode::PeerDraining
        } else {
            error.code()
        };
        self.reply(code)
    }

    fn dialed(&mut self, grant: Grant) -> (r: WorkerStep)
        requires
            old(self).grant == Some(grant),
        ensures
            old(self).on_dialed(*final(self), r),
    {
        match self.held_at(TestDeadlineStage::Promotion) {
            Some(delay) => self.go(
                WorkerPhase::HoldingPromotion,
                Some(TestDeadlineStage::Promotion),
                WorkerAction::Hold(delay),
            ),
            None => self.go(WorkerPhase::Promoting, None, WorkerAction::Promote(grant.admission)),
        }
    }

    fn accept(&mut self, request_id: [u8; 16], grant: Grant) -> (r: WorkerStep)
        requires
            old(self).request_id == Some(request_id),
            old(self).grant == Some(grant),
        ensures
            old(self).goes(
                *final(self),
                r,
                WorkerPhase::Accepting,
                None,
                WorkerAction::WriteAccepted(old(self).acceptance()),
            ),
    {
        let response = ProxyOpenResponseV1::Accepted {
            request_id,
            stream_id: grant.stream_id,
            selected_upstream_mode: UpstreamMode::Tcp,
        };
        self.go(WorkerPhase::Accepting, None, WorkerAction::WriteAccepted(response))
    }

    fn pumped(&mut self, setup_duration: u64, pump: Option<PumpResult>, grant: Grant) -> (r: WorkerStep)
        requires
            old(self).grant == Some(grant),
        ensures
            old(self).on_pumped(setup_duration, pump, *final(self), r),
    {
        let idle = match pump {
            Some(result) => result.terminal == Terminal::IdleTimeout,
            None => false,
        };
        let ending = Ending {
            setup_duration,
            admission: grant.admission,
            request_id_hash: self.hashed_request(),
            stream_id_hash: self.hashed_stream(),
            accepted: true,
            code: if idle {
                Some(PublicErrorCode::UpstreamIdleTimeout)
            } else {
                None
            },
            pump,
        };
        self.go(WorkerPhase::Finished, None, WorkerAction::Finish(ending))
    }

    /// What comes next. `shutdown` says whether the server is closing down.
    pub fn step(&mut self, event: WorkerEvent, shutdown: bool, now: u64) -> (r: WorkerStep)
        requires
            old(self).valid(),
        ensures
            old(self).steps(event, shutdown, now, *final(self), r),
            final(self).valid(),
    {
        let failure = transition_failure_code(shutdown);
        match (self.phase, event) {
            (WorkerPhase::Opening, WorkerEvent::Opened(request_id)) => return self.opened(request_id),
            (WorkerPhase::HoldingVerification, WorkerEvent::Held(held)) => {
                if held {
                    return self.go(WorkerPhase::Submitting, None, WorkerAction::Submit);
                }
                if self.request_id.is_some() {
                    return self.reply(failure);
                }
                return self.finish(Some(failure), now);
            },
            (WorkerPhase::Submitting, WorkerEvent::Submitted(sent)) => {
                if sent {
                    return self.go(WorkerPhase::Deciding, None, WorkerAction::AwaitDecision);
                }
                return self.finish(Some(failure), now);
            },
            (WorkerPhase::Deciding, WorkerEvent::Decided(verdict)) => {
                return self.decided(verdict, now);
            },
            (WorkerPhase::Replying(code), WorkerEvent::Written(_)) => return self.finish(code, now),
            _ => {},
        }
        match (self.request_id, self.grant) {
            (Some(request_id), Some(grant)) => self.step_granted(
                event,
                shutdown,
                now,
                request_id,
                grant,
            ),
            _ => {
                let phase = self.phase;
                self.go(phase, None, WorkerAction::Ignore)
            },
        }
    }

    /// What comes next for a worker that was granted a stream.
    fn step_granted(
        &mut self,
        event: WorkerEvent,
        shutdown: bool,
        now: u64,
        request_id: [u8; 16],
        grant: Grant,
    ) -> (r: WorkerStep)
        requires
            old(self).request_id == Some(request_id),
            old(self).grant == Some(grant),
            !(old(self).phase is Opening && event is Opened),
            !(old(self).phase is HoldingVerification && event is Held),
            !(old(self).phase is Submitting && event is Submitted),
            !(old(self).phase is Deciding && event is Decided),
            !(old(self).phase is Replying && event is Written),
        ensures
            old(self).steps(event, shutdown, now, *final(self), r),
            final(self).valid(),
    {
        let failure = transition_failure_code(shutdown);
        match (self.phase, event) {
            (WorkerPhase::HoldingDial, WorkerEvent::Held(held)) => if held {
                self.go(WorkerPhase::Dialing, None, WorkerAction::Dial)
            } else {
                self.dial_failed(ConnectError::Timeout, shutdown)
            },
            (WorkerPhase::PausingDial(delay), WorkerEvent::Paused(paused)) => match paused {
                Err(error) => self.dial_failed(error, shutdown),
                Ok(()) => if delay as u128 * 1_000_000 >= grant.connect_timeout as u128 {
                    self.dial_failed(ConnectError::Timeout, shutdown)
                } else {
                    self.go(WorkerPhase::Dialing, None, WorkerAction::Dial)
                },
            },
            (WorkerPhase::Dialing, WorkerEvent::Dialed(dialed)) => match dialed {
                Err(error) => self.dial_failed(error, shutdown),
                Ok(()) => self.dialed(grant),
            },
            (WorkerPhase::HoldingPromotion, WorkerEvent::Held(held)) => if held {
                self.go(WorkerPhase::Promoting, None, WorkerAction::Promote(grant.admission))
            } else {
                self.finish(Some(failure), now)
            },
            (WorkerPhase::Promoting, WorkerEvent::Promoted(promoted)) => if promoted {
                self.go(WorkerPhase::Reserving, None, WorkerAction::Reserve)
            } else {
                self.finish(Some(failure), now)
            },
            (WorkerPhase::Reserving, WorkerEvent::Reserved(reserved)) => if reserved {
                match self.held_at(TestDeadlineStage::AcceptedWrite) {
                    Some(delay) => self.go(
                        WorkerPhase::HoldingAcceptance,
                        Some(TestDeadlineStage::AcceptedWrite),
                        WorkerAction::Hold(delay),
                    ),
                    None => self.accept(request_id, grant),
                }
            } else {
                self.reply(failure)
            },
            (WorkerPhase::HoldingAcceptance, WorkerEvent::Held(held)) => if held {
                self.accept(request_id, grant)
            } else {
                self.finish(Some(failure), now)
            },
            (WorkerPhase::Accepting, WorkerEvent::Written(written)) => if written {
                let setup_duration: u64 = self.time_taken(now);
                let action = WorkerAction::Pump {
                    setup_duration,
                    request_id_hash: self.hashed_request(),
                    stream_id_hash: hash_id(&grant.stream_id),
                    grant,
                };
                self.go(WorkerPhase::Pumping(setup_duration), None, action)
            } else {
                self.finish(Some(PublicErrorCode::ProtocolMalformed), now)
            },
            (WorkerPhase::Pumping(setup_duration), WorkerEvent::Pumped(pump)) => self.pumped(
                setup_duration,
                pump,
                grant,
            ),
            _ => {
                let phase = self.phase;
                self.go(phase, None, WorkerAction::Ignore)
            },
        }
    }
}

/// How far a worker has come.
pub open spec fn progress(phase: WorkerPhase) -> nat {
    match phase {
        WorkerPhase::Opening => 0,
        WorkerPhase::HoldingVerification => 1,
        WorkerPhase::Submitting => 2,
        WorkerPhase::Deciding => 3,
        WorkerPhase::HoldingDial => 4,
        WorkerPhase::PausingDial(_) => 5,
        WorkerPhase::Dialing => 6,
        WorkerPhase::HoldingPromotion => 7,
        WorkerPhase::Promoting => 8,
        WorkerPhase::Reserving => 9,
        WorkerPhase::HoldingAcceptance => 10,
        WorkerPhase::Accepting => 11,
        WorkerPhase::Pumping(_) => 12,
        WorkerPhase::Replying(_) => 13,
        WorkerPhase::Finished => 14,
    }
}

/// Whatever happens that a worker waits for brings it nearer to its end, and it
/// ends when it says so. So a worker takes at most fourteen steps.
pub proof fn law_workers_come_to_an_end(
    worker: ProxyWorker,
    event: WorkerEvent,
    shutdown: bool,
    now: u64,
    after: ProxyWorker,
    step: WorkerStep,
)
    requires
        worker.valid(),
        worker.steps(event, shutdown, now, after, step),
        worker.awaits(event),
    ensures
        progress(worker.phase) < progress(after.phase),
        after.phase is Finished <==> step.action is Finish,
{
}

/// What a worker was granted is what it gives back, however it ends.
pub proof fn law_grants_are_given_back(
    worker: ProxyWorker,
    event: WorkerEvent,
    shutdown: bool,
    now: u64,
    after: ProxyWorker,
    step: WorkerStep,
)
    requires
        worker.valid(),
        worker.grant is Some,
        worker.phase !is Opening,
        worker.phase !is Deciding,
        worker.steps(event, shutdown, now, after, step),
    ensures
        after.grant == worker.grant,
        step.action matches WorkerAction::Finish(ending) ==> ending.admission@
            == worker.grant->Some_0.admission@,
{
}

/// A stream counts as accepted only once the answer that says so was sent; data
/// flows only then. A worker that ends without that has a code to say why, if
/// the owner gave one.
pub proof fn law_acceptance_comes_first(
    worker: ProxyWorker,
    event: WorkerEvent,
    shutdown: bool,
    now: u64,
    after: ProxyWorker,
    step: WorkerStep,
)
    requires
        worker.valid(),
        worker.steps(event, shutdown, now, after, step),
    ensures
        step.action is Pump ==> worker.phase is Accepting && event == WorkerEvent::Written(true),
        step.action matches WorkerAction::Finish(ending) ==> ending.accepted == (
        worker.phase is Pumping),
        step.action matches WorkerAction::Finish(ending) ==> (ending.accepted || ending.code is Some
            || worker.phase == WorkerPhase::Replying(None)),
{
}

/// Where nothing goes wrong and nothing is held up, a worker goes all the way:
/// it hands its request in, awaits the decision, dials, has its stream promoted,
/// makes sure that it can be reported, says that it is accepted, and lets data
/// flow. What it learned and was granted stays with it.
pub proof fn law_workers_go_on_while_all_is_well(
    worker: ProxyWorker,
    event: WorkerEvent,
    shutdown: bool,
    now: u64,
    after: ProxyWorker,
    step: WorkerStep,
)
    requires
        worker.valid(),
        worker.stage is None,
        worker.handshake_hold is None,
        worker.dial_hold is None,
        worker.steps(event, shutdown, now, after, step),
    ensures
        ({
            let grant = worker.grant->Some_0;
            &&& step.fault is None
            &&& worker.phase is Opening && event is Opened ==> step.action is Submit && after.phase
                is Submitting && after.request_id == event->Opened_0
            &&& worker.phase is Submitting && event == WorkerEvent::Submitted(true) ==> step.action
                is AwaitDecision && after.phase is Deciding
            &&& worker.phase is Deciding && (event matches WorkerEvent::Decided(Verdict::Granted(_)))
                && worker.request_id is Some ==> step.action is Dial && after.phase is Dialing && event
                == WorkerEvent::Decided(Verdict::Granted(after.grant->Some_0)) && after.grant is Some
            &&& worker.phase is Dialing && event == WorkerEvent::Dialed(Ok(())) ==> step.action
                == WorkerAction::Promote(grant.admission) && after.phase is Promoting
            &&& worker.phase is Promoting && event == WorkerEvent::Promoted(true) ==> step.action is Reserve
                && after.phase is Reserving
            &&& worker.phase is Reserving && event == WorkerEvent::Reserved(true) ==> step.action
                == WorkerAction::WriteAccepted(
                ProxyOpenResponseV1::Accepted {
                    request_id: worker.request_id->Some_0,
                    stream_id: grant.stream_id,
                    selected_upstream_mode: UpstreamMode::Tcp,
                },
            ) && after.phase is Accepting
            &&& worker.phase is Accepting && event == WorkerEvent::Written(true) ==> (step.action
                matches WorkerAction::Pump { setup_duration, request_id_hash, stream_id_hash, grant: g } && g
                == grant && (now >= worker.started ==> setup_duration == now - worker.started)
                && request_id_hash == id_hash(worker.request_id->Some_0@) && stream_id_hash == id_hash(
                grant.stream_id@,
            ) && after.phase == WorkerPhase::Pumping(setup_duration))
            &&& !(event is Opened) ==> after.request_id == worker.request_id
            &&& !(event is Decided) ==> after.grant == worker.grant
            &&& after.started == worker.started
        }),
{
}

/// A tunnel that carried data ends as accepted, with its stream given back, what
/// went through it, and a code only if nothing moved for too long.
pub proof fn law_tunnels_end_with_what_went_through(
    worker: ProxyWorker,
    setup: u64,
    pump: Option<PumpResult>,
    shutdown: bool,
    now: u64,
    after: ProxyWorker,
    step: WorkerStep,
)
    requires
        worker.valid(),
        worker.phase == WorkerPhase::Pumping(setup),
        worker.steps(WorkerEvent::Pumped(pump), shutdown, now, after, step),
    ensures
        after.phase is Finished,
        step.action matches WorkerAction::Finish(ending) && ending.accepted && ending.setup_duration == setup
            && ending.pump == pump && ending.admission == worker.grant->Some_0.admission
            && ending.request_id_hash == id_hash(worker.request_id->Some_0@) && ending.stream_id_hash == Some(
            id_hash(worker.grant->Some_0.stream_id@),
        ) && ending.code == if pump matches Some(result) && result.terminal == Terminal::IdleTimeout {
            Some(PublicErrorCode::UpstreamIdleTimeout)
        } else {
            None
        },
{
}

/// A request that is not granted is answered with the reason, under its own
/// number, before the worker ends: with the owner's own words if it turned the
/// request down, and otherwise with a code that invites to try again.
pub proof fn law_requests_are_turned_down_with_a_reason(
    worker: ProxyWorker,
    verdict: Verdict,
    shutdown: bool,
    now: u64,
    after: ProxyWorker,
    step: WorkerStep,
)
    requires
        worker.valid(),
        worker.phase is Deciding,
        worker.steps(WorkerEvent::Decided(verdict), shutdown, now, after, step),
    ensures
        verdict matches Verdict::Rejected(response) ==> step.action == WorkerAction::Reply(response),
        verdict matches Verdict::Rejected(ProxyOpenResponseV1::Rejected { error, .. }) ==> after.phase
            == WorkerPhase::Replying(Some(error.code)),
        verdict == Verdict::Cancelled ==> step.action == WorkerAction::Reply(
            ProxyOpenResponseV1::Rejected {
                request_id: worker.request_id,
                error: PublicError { code: PublicErrorCode::ExchangeDraining, retryable: true },
            },
        ) && after.phase == WorkerPhase::Replying(Some(PublicErrorCode::ExchangeDraining)),
        verdict == Verdict::Missing ==> step.action == WorkerAction::Reply(
            ProxyOpenResponseV1::Rejected {
                request_id: worker.request_id,
                error: PublicError { code: PublicErrorCode::PeerSetupTimeout, retryable: true },
            },
        ) && after.phase == WorkerPhase::Replying(Some(PublicErrorCode::PeerSetupTimeout)),
        verdict is Granted && worker.request_id is None ==> (step.action matches WorkerAction::Finish(ending)
            && ending.code == Some(PublicErrorCode::ProtocolMalformed) && !ending.accepted
            && ending.admission@ == verdict->Granted_0.admission@),
{
}

/// An upstream that cannot be connected is answered with what went wrong: that
/// it was late, that it failed, or that the server closes down.
pub proof fn law_failed_dials_are_answered(
    worker: ProxyWorker,
    error: ConnectError,
    event: WorkerEvent,
    shutdown: bool,
    now: u64,
    after: ProxyWorker,
    step: WorkerStep,
)
    requires
        worker.valid(),
        (worker.phase is Dialing && event == WorkerEvent::Dialed(Err(error))) || (worker.phase is PausingDial
            && event == WorkerEvent::Paused(Err(error))) || (worker.phase is HoldingDial && event
            == WorkerEvent::Held(false) && error == ConnectError::Timeout),
        worker.steps(event, shutdown, now, after, step),
    ensures
        ({
            let code = if shutdown {
                PublicErrorCode::PeerDraining
            } else if error == ConnectError::Timeout {
                PublicErrorCode::UpstreamConnectTimeout
            } else {
                PublicErrorCode::UpstreamConnectFailed
            };
            &&& step.action == WorkerAction::Reply(
                ProxyOpenResponseV1::Rejected {
                    request_id: worker.request_id,
                    error: PublicError { code, retryable: true },
                },
            )
            &&& after.phase == WorkerPhase::Replying(Some(code))
            &&& after.grant == worker.grant
        }),
{
}

/// A step that is not taken in time ends the worker without acceptance: because
/// the server closes down, or because setting up took too long. Whoever still
/// waits for an answer gets one where the stream can carry it.
pub proof fn law_late_steps_end_the_worker(
    worker: ProxyWorker,
    event: WorkerEvent,
    shutdown: bool,
    now: u64,
    after: ProxyWorker,
    step: WorkerStep,
)
    requires
        worker.valid(),
        worker.steps(event, shutdown, now, after, step),
    ensures
        ({
            let code = if shutdown {
                PublicErrorCode::PeerDraining
            } else {
                PublicErrorCode::PeerSetupTimeout
            };
            let ends = |code: PublicErrorCode|
                after.phase is Finished && (step.action matches WorkerAction::Finish(ending)
                    && !ending.accepted && ending.code == Some(code) && ending.pump is None && (
                worker.grant is Some ==> ending.admission@ == worker.grant->Some_0.admission@) && (
                worker.request_id is Some ==> ending.request_id_hash == id_hash(worker.request_id->Some_0@))
                    && (now >= worker.started ==> ending.setup_duration == now - worker.started));
            let answers = |code: PublicErrorCode|
                after.phase == WorkerPhase::Replying(Some(code)) && step.action == WorkerAction::Reply(
                    ProxyOpenResponseV1::Rejected {
                        request_id: worker.request_id,
                        error: PublicError { code, retryable: true },
                    },
                );
            &&& worker.phase is HoldingVerification && event == WorkerEvent::Held(false) ==> if worker.request_id is Some {
                answers(code)
            } else {
                ends(code)
            }
            &&& worker.phase is Submitting && event == WorkerEvent::Submitted(false) ==> ends(code)
            &&& worker.phase is HoldingPromotion && event == WorkerEvent::Held(false) ==> ends(code)
            &&& worker.phase is Promoting && event == WorkerEvent::Promoted(false) ==> ends(code)
            &&& worker.phase is Reserving && event == WorkerEvent::Reserved(false) ==> answers(code)
            &&& worker.phase is HoldingAcceptance && event == WorkerEvent::Held(false) ==> ends(code)
            &&& worker.phase is Accepting && event == WorkerEvent::Written(false) ==> ends(
                PublicErrorCode::ProtocolMalformed,
            )
            &&& worker.phase matches WorkerPhase::Replying(Some(given)) ==> event is Written ==> ends(given)
        }),
{
}

/// A worker that is to be held up at a stage is held up there, for as long as
/// was said, and says so; then it takes the step that it would have taken.
pub proof fn law_workers_are_held_up_where_asked(
    worker: ProxyWorker,
    event: WorkerEvent,
    delay: u64,
    shutdown: bool,
    now: u64,
    after: ProxyWorker,
    step: WorkerStep,
)
    requires
        worker.valid(),
        worker.steps(event, shutdown, now, after, step),
    ensures
        ({
            let stage = worker.stage;
            let held = worker.stage_hold == Some(delay);
            &&& worker.phase is Opening && event is Opened && held && stage == Some(
                TestDeadlineStage::Verification,
            ) ==> step == (WorkerStep {
                fault: Some(TestDeadlineStage::Verification),
                action: WorkerAction::Hold(delay),
            }) && after.phase is HoldingVerification
            &&& worker.phase is Opening && event is Opened && worker.handshake_hold == Some(delay) && stage
                != Some(TestDeadlineStage::Verification) ==> step == (WorkerStep {
                fault: None,
                action: WorkerAction::Hold(delay),
            }) && after.phase is HoldingVerification
            &&& worker.phase is Deciding && (event matches WorkerEvent::Decided(Verdict::Granted(_)))
                && worker.request_id is Some && held && stage == Some(TestDeadlineStage::UpstreamDial)
                ==> step == (WorkerStep {
                fault: Some(TestDeadlineStage::UpstreamDial),
                action: WorkerAction::Hold(delay),
            }) && after.phase is HoldingDial
            &&& worker.phase is Deciding && (event matches WorkerEvent::Decided(Verdict::Granted(_)))
                && worker.request_id is Some && stage != Some(TestDeadlineStage::UpstreamDial)
                && worker.dial_hold == Some(delay) ==> step == (WorkerStep {
                fault: None,
                action: WorkerAction::Pause(delay),
            }) && after.phase == WorkerPhase::PausingDial(delay)
            &&& worker.phase is Dialing && event == WorkerEvent::Dialed(Ok(())) && held && stage == Some(
                TestDeadlineStage::Promotion,
            ) ==> step == (WorkerStep {
                fault: Some(TestDeadlineStage::Promotion),
                action: WorkerAction::Hold(delay),
            }) && after.phase is HoldingPromotion
            &&& worker.phase is Reserving && event == WorkerEvent::Reserved(true) && held && stage == Some(
                TestDeadlineStage::AcceptedWrite,
            ) ==> step == (WorkerStep {
                fault: Some(TestDeadlineStage::AcceptedWrite),
                action: WorkerAction::Hold(delay),
            }) && after.phase is HoldingAcceptance
            &&& event == WorkerEvent::Held(true) ==> {
                &&& worker.phase is HoldingVerification ==> step.action is Submit && after.phase is Submitting
                &&& worker.phase is HoldingDial ==> step.action is Dial && after.phase is Dialing
                &&& worker.phase is HoldingPromotion ==> step.action == WorkerAction::Promote(
                    worker.grant->Some_0.admission,
                ) && after.phase is Promoting
                &&& worker.phase is HoldingAcceptance ==> step.action == WorkerAction::WriteAccepted(
                    ProxyOpenResponseV1::Accepted {
                        request_id: worker.request_id->Some_0,
                        stream_id: worker.grant->Some_0.stream_id,
                        selected_upstream_mode: UpstreamMode::Tcp,
                    },
                ) && after.phase is Accepting
            }
            &&& worker.phase == WorkerPhase::PausingDial(delay) && event == WorkerEvent::Paused(Ok(()))
                && delay * 1_000_000 < worker.grant->Some_0.connect_timeout ==> step.action is Dial
                && after.phase is Dialing
            &&& worker.phase == WorkerPhase::PausingDial(delay) && event == WorkerEvent::Paused(Ok(()))
                && delay * 1_000_000 >= worker.grant->Some_0.connect_timeout ==> step.action is Reply
                && after.phase == WorkerPhase::Replying(
                Some(
                    if shutdown {
                        PublicErrorCode::PeerDraining
                    } else {
                        PublicErrorCode::UpstreamConnectTimeout
                    },
                ),
            )
        }),
{
}

/// What a worker does not wait for changes nothing, and nothing happens to one
/// that has ended.
pub proof fn law_workers_ignore_what_they_do_not_wait_for(
    worker: ProxyWorker,
    event: WorkerEvent,
    shutdown: bool,
    now: u64,
    after: ProxyWorker,
    step: WorkerStep,
)
    requires
        worker.valid(),
        !worker.awaits(event),
        worker.steps(event, shutdown, now, after, step),
    ensures
        after == worker,
        step.action is Ignore,
        step.fault is None,
{
}

/// What was read is handed on as it is; what was not is refused, and a server
/// that closes down says so.
pub proof fn law_requests_are_handed_on(read: OpenRead, r: Result<OpenProxyStreamV1, PublicErrorCode>)
    requires
        call_ensures(open_outcome, (read,), r),
    ensures
        r is Ok <==> read is Read,
        r matches Ok(open) ==> read == OpenRead::Read(open),
        read is Cancelled <==> r == Err::<OpenProxyStreamV1, PublicErrorCode>(
            PublicErrorCode::ExchangeDraining,
        ),
        read is TimedOut || read is Failed <==> r == Err::<OpenProxyStreamV1, PublicErrorCode>(
            PublicErrorCode::ProtocolMalformed,
        ),
{
}

/// A decision means the same to the worker as to the owner: a grant carries the
/// stream, its place and the limits of its upstream, and a refusal carries its
/// answer.
pub proof fn law_verdicts_carry_the_decision(decision: &ServerDecision, r: Verdict)
    requires
        call_ensures(verdict_of, (decision,), r),
    ensures
        *decision matches ServerDecision::Reject(response) ==> r == Verdict::Rejected(response),
        *decision matches ServerDecision::Admit { stream_id, admission, upstream, copy_buffer_bytes } ==> (
        r matches Verdict::Granted(grant) && grant.stream_id == stream_id && grant.admission == admission
            && grant.connect_timeout == upstream.connect_timeout && grant.idle_timeout
            == upstream.idle_timeout && grant.copy_buffer_bytes == copy_buffer_bytes),
{
}

/// A worker that is held up waits as long as it was told to or as there is time,
/// and goes on only if that was long enough and nobody called it off.
pub proof fn law_holds_end_in_time(delay: u64, remaining: u64, cancelled: bool, time: u64, goes_on: bool)
    requires
        call_ensures(hold_time, (delay, remaining), time),
        call_ensures(hold_completes, (delay, remaining, cancelled), goes_on),
    ensures
        time <= delay && time <= remaining && (time == delay || time == remaining),
        goes_on <==> time == delay && !cancelled,
{
}

/// A ticket is checked as of now, or as of the start of its worker if the clock
/// went back since; without keys, or without a request, nothing is checked.
pub proof fn law_tickets_are_checked_at_the_later_time(
    ring: &VerificationKeyRing,
    open: &Result<OpenProxyStreamV1, PublicErrorCode>,
    clock_skew: i64,
    unix_now: i64,
    started_unix: i64,
    r: Result<ValidationCandidate, PublicErrorCode>,
    without: Result<ValidationCandidate, PublicErrorCode>,
)
    requires
        call_ensures(verify_open, (Some(ring), open, clock_skew, unix_now, started_unix), r),
        call_ensures(verify_open, (None::<&VerificationKeyRing>, open, clock_skew, unix_now, started_unix), without),
    ensures
        *open is Err ==> r == Err::<ValidationCandidate, PublicErrorCode>(
            PublicErrorCode::ProtocolMalformed,
        ) && without == r,
        *open is Ok ==> without == Err::<ValidationCandidate, PublicErrorCode>(
            PublicErrorCode::AuthSessionRequired,
        ),
        *open matches Ok(request) ==> ({
            let at = if unix_now >= started_unix {
                unix_now
            } else {
                started_unix
            };
            let checked = signature_outcome(request@.ticket, ring, at, clock_skew);
            &&& r is Ok <==> checked is Ok
            &&& r matches Ok(candidate) ==> checked matches Ok(claims) && candidate@.claims == claims
                && candidate@.ticket_id == claims.ticket_id
        }),
{
}

/// The stages at which a worker can be held up are known by their names, each by
/// its own.
pub proof fn law_stages_are_known_by_name(name: Seq<char>)
    ensures
        stage_named("verification"@) == Some(TestDeadlineStage::Verification),
        stage_named("owner-decision"@) == Some(TestDeadlineStage::OwnerDecision),
        stage_named("promotion"@) == Some(TestDeadlineStage::Promotion),
        stage_named("upstream-dial"@) == Some(TestDeadlineStage::UpstreamDial),
        stage_named("accepted-write"@) == Some(TestDeadlineStage::AcceptedWrite),
        stage_named(name) is Some ==> name == "verification"@ || name == "owner-decision"@ || name
            == "promotion"@ || name == "upstream-dial"@ || name == "accepted-write"@,
{
    reveal_strlit("verification");
    reveal_strlit("owner-decision");
    reveal_strlit("promotion");
    reveal_strlit("upstream-dial");
    reveal_strlit("accepted-write");
    assert("verification"@.len() == 12);
    assert("owner-decision"@.len() == 14 && "accepted-write"@.len() == 14);
    assert("owner-decision"@[0] == 'o' && "accepted-write"@[0] == 'a');
    assert("promotion"@.len() == 9);
    assert("upstream-dial"@.len() == 13);
}

/// A worker has five seconds.
pub proof fn law_workers_have_five_seconds(worker: ProxyWorker, r: u64)
    requires
        call_ensures(ProxyWorker::deadline, (&worker,), r),
        worker.started + 5_000_000_000 <= u64::MAX,
    ensures
        r == worker.started + 5_000_000_000,
{
}

/// A stage of the deadline is found by its name; any other name is refused.
pub proof fn law_unknown_stages_are_refused(name: &str, r: Result<TestDeadlineStage, &'static str>)
    requires
        call_ensures(TestDeadlineStage::named, (name,), r),
    ensures
        r is Ok <==> stage_named(name@) is Some,
        r is Ok ==> stage_named(name@) == Some(r->Ok_0),
        r is Err ==> r->Err_0@ == "invalid server deadline test stage"@,
{
}

} // verus!
