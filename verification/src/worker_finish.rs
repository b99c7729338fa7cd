//! What is reported of a worker that is done. Durations are reported in
//! milliseconds and kept in nanoseconds.
use crate::error::PublicErrorCode;
use crate::lifecycle::TunnelTerminalClass;
use crate::probe::ProbePath;
use crate::proxy_open::{Ending, Release};
use crate::proxy_owner::{
    token_model, ProxyWorkerId, ProxyWorkerTable, RecordModel, ServerProxyOwner, WorkerRecord,
    WorkerTableModel,
};
use crate::stream_admission::{no_stream, AdmissionModel, AdmissionToken, StreamAdmission};
use crate::tunnel::{class_of, proxy_terminal_class};
use vstd::prelude::*;

verus! {

/// A stream was accepted.
#[derive(Clone, Copy, Debug, PartialEq, Eq, Structural)]
pub struct TunnelAccepted {
    pub request_id_hash: u64,
    pub stream_id_hash: u64,
    pub selected_path: ProbePath,
    pub setup_duration_ms: u64,
}

/// An accepted stream came to its end.
#[derive(Clone, Copy, Debug, PartialEq, Eq, Structural)]
pub struct TunnelTerminal {
    pub request_id_hash: u64,
    pub stream_id_hash: Option<u64>,
    pub selected_path: ProbePath,
    pub code: Option<PublicErrorCode>,
    pub terminal_class: TunnelTerminalClass,
    pub setup_duration_ms: u64,
    pub local_to_remote_bytes: u64,
    pub remote_to_local_bytes: u64,
    pub local_eof: bool,
    pub remote_eof: bool,
    pub duration_ms: u64,
}

/// A stream was not accepted.
#[derive(Clone, Copy, Debug, PartialEq, Eq, Structural)]
pub struct ProxyRefusal {
    pub request_id_hash: u64,
    pub stream_id_hash: Option<u64>,
    pub code: PublicErrorCode,
}

/// What is reported of a worker that is done.
#[derive(Clone, Copy, Debug, PartialEq, Eq, Structural)]
pub struct FinishReport {
    /// The acceptance, if it was not reported before.
    pub accepted: Option<TunnelAccepted>,
    pub terminal: Option<TunnelTerminal>,
    pub refused: Option<ProxyRefusal>,
}

/// The stream that a worker leaves behind: the one on record, or the one that it
/// names.
pub open spec fn left_behind(release: Release, record: RecordModel) -> Option<Seq<u8>> {
    match record.admission {
        Some(stream) => Some(stream),
        None => if release.admission@ == no_stream() {
            None
        } else {
            Some(release.admission@)
        },
    }
}

/// The acceptance that is still to be reported.
pub open spec fn late_acceptance(release: Release, record: RecordModel) -> Option<TunnelAccepted> {
    if release.accepted && !record.accepted {
        Some(
            TunnelAccepted {
                request_id_hash: release.request_id_hash,
                stream_id_hash: release.stream_id_hash->Some_0,
                selected_path: release.selected_path,
                setup_duration_ms: release.setup_duration / 1_000_000,
            },
        )
    } else {
        None
    }
}

/// What is reported of a worker that is done. What was reported of its
/// acceptance stays as it was.
pub open spec fn report_of(release: Release, record: RecordModel) -> FinishReport {
    let request_id_hash = if record.accepted {
        record.request_id_hash
    } else {
        release.request_id_hash
    };
    let stream_id_hash = if record.accepted {
        record.stream_id_hash
    } else {
        release.stream_id_hash
    };
    let selected_path = if record.accepted {
        record.selected_path
    } else {
        release.selected_path
    };
    let setup_duration = if record.accepted {
        record.setup_duration
    } else {
        release.setup_duration
    };
    if release.accepted || record.accepted {
        FinishReport {
            accepted: late_acceptance(release, record),
            terminal: Some(
                match release.pump {
                    Some(pump) => TunnelTerminal {
                        request_id_hash,
                        stream_id_hash,
                        selected_path,
                        code: release.code,
                        terminal_class: class_of(pump.terminal),
                        setup_duration_ms: setup_duration / 1_000_000,
                        local_to_remote_bytes: pump.local_to_remote_bytes,
                        remote_to_local_bytes: pump.remote_to_local_bytes,
                        local_eof: pump.local_eof,
                        remote_eof: pump.remote_eof,
                        duration_ms: pump.duration / 1_000_000,
                    },
                    None => TunnelTerminal {
                        request_id_hash,
                        stream_id_hash,
                        selected_path,
                        code: release.code,
                        terminal_class: TunnelTerminalClass::Cancelled,
                        setup_duration_ms: setup_duration / 1_000_000,
                        local_to_remote_bytes: 0,
                        remote_to_local_bytes: 0,
                        local_eof: false,
                        remote_eof: false,
                        duration_ms: 0,
                    },
                },
            ),
            refused: None,
        }
    } else {
        FinishReport {
            accepted: None,
            terminal: None,
            refused: match release.code {
                Some(code) => Some(ProxyRefusal { request_id_hash, stream_id_hash, code }),
                None => None,
            },
        }
    }
}

/// Whether an acceptance is still to be reported whose stream has no number.
pub open spec fn lacks_stream(release: Release, record: RecordModel) -> bool {
    release.accepted && !record.accepted && release.stream_id_hash is None
}

/// What is wrong with what a worker leaves behind.
pub open spec fn finish_fault(release: Release, record: RecordModel, streams: AdmissionModel) -> Option<
    Seq<char>,
> {
    if left_behind(release, record) is Some && !streams.entries.contains_key(
        left_behind(release, record)->Some_0,
    ) {
        Some("proxy stream admission released more than once"@)
    } else if lacks_stream(release, record) {
        Some("accepted worker missing stream ID"@)
    } else {
        None
    }
}

/// The streams once a worker is done.
pub open spec fn streams_after(release: Release, record: RecordModel, streams: AdmissionModel) -> AdmissionModel {
    match left_behind(release, record) {
        Some(stream) => AdmissionModel { entries: streams.entries.remove(stream), ..streams },
        None => streams,
    }
}

/// Gives back the stream of a worker that is done, and says what to report.
pub fn finish_proxy_worker_record(
    release: &Release,
    record: &WorkerRecord,
    admission: &mut StreamAdmission,
) -> (r: Result<FinishReport, &'static str>)
    ensures
        final(admission)@ == streams_after(*release, record@, old(admission)@),
        match r {
            Ok(report) => finish_fault(*release, record@, old(admission)@) is None && report
                == report_of(*release, record@),
            Err(text) => finish_fault(*release, record@, old(admission)@) == Some(text@),
        },
{
    if let Some(token) = held(release, record) {
        if !admission.release(token) {
            return Err("proxy stream admission released more than once");
        }
    }
    report(release, record)
}

/// The stream that a worker leaves behind.
fn held(release: &Release, record: &WorkerRecord) -> (r: Option<AdmissionToken>)
    ensures
        token_model(r) == left_behind(*release, record@),
{
    match record.admission {
        Some(token) => Some(token),
        None => if release.admission.is_empty() {
            None
        } else {
            Some(release.admission)
        },
    }
}

/// Gives back what a worker that is done held of its owner, and says what to
/// report.
pub fn finish_worker(owner: &mut ServerProxyOwner, release: &Release, record: &WorkerRecord) -> (r: Result<
    FinishReport,
    &'static str,
>)
    ensures
        ({
            let worker = release.worker_id@;
            let stream = left_behind(*release, record@);
            &&& final(owner)@ == old(owner)@.completed(worker, stream)
            &&& match r {
                Ok(done) => old(owner)@.completion_fault(worker, stream) is None && !lacks_stream(
                    *release,
                    record@,
                ) && done == report_of(*release, record@),
                Err(text) => match old(owner)@.completion_fault(worker, stream) {
                    Some(fault) => text@ == fault,
                    None => lacks_stream(*release, record@) && text@
                        == "accepted worker missing stream ID"@,
                },
            }
        }),
{
    match owner.complete(release.worker_id, held(release, record)) {
        Ok(()) => report(release, record),
        Err(fault) => Err(fault),
    }
}

/// What to report of a worker that is done.
fn report(release: &Release, record: &WorkerRecord) -> (r: Result<FinishReport, &'static str>)
    ensures
        match r {
            Ok(done) => !lacks_stream(*release, record@) && done == report_of(*release, record@),
            Err(text) => lacks_stream(*release, record@) && text@ == "accepted worker missing stream ID"@,
        },
{
    let accepted = release.accepted || record.accepted;
    let mut late: Option<TunnelAccepted> = None;
    if accepted && !record.accepted {
        let stream_id_hash: u64 = match release.stream_id_hash {
            Some(hash) => hash,
            None => return Err("accepted worker missing stream ID"),
        };
        late = Some(
            TunnelAccepted {
                request_id_hash: release.request_id_hash,
                stream_id_hash,
                selected_path: release.selected_path,
                setup_duration_ms: release.setup_duration / 1_000_000,
            },
        );
    }
    let selected_path = if record.accepted {
        record.selected_path
    } else {
        release.selected_path
    };
    let setup_duration: u64 = if record.accepted {
        record.setup_duration
    } else {
        release.setup_duration
    };
    let request_id_hash: u64 = if record.accepted {
        record.request_id_hash
    } else {
        release.request_id_hash
    };
    let stream_id_hash: Option<u64> = if record.accepted {
        record.stream_id_hash
    } else {
        release.stream_id_hash
    };
    if !accepted {
        let refused = match release.code {
            Some(code) => Some(ProxyRefusal { request_id_hash, stream_id_hash, code }),
            None => None,
        };
        return Ok(FinishReport { accepted: None, terminal: None, refused });
    }
    let terminal = match release.pump {
        Some(pump) => TunnelTerminal {
            request_id_hash,
            stream_id_hash,
            selected_path,
            code: release.code,
            terminal_class: proxy_terminal_class(pump.terminal),
            setup_duration_ms: setup_duration / 1_000_000,
            local_to_remote_bytes: pump.local_to_remote_bytes,
            remote_to_local_bytes: pump.remote_to_local_bytes,
            local_eof: pump.local_eof,
            remote_eof: pump.remote_eof,
            duration_ms: pump.duration / 1_000_000,
        },
        None => TunnelTerminal {
            request_id_hash,
            stream_id_hash,
            selected_path,
            code: release.code,
            terminal_class: TunnelTerminalClass::Cancelled,
            setup_duration_ms: setup_duration / 1_000_000,
            local_to_remote_bytes: 0,
            remote_to_local_bytes: 0,
            local_eof: false,
            remote_eof: false,
            duration_ms: 0,
        },
    };
    Ok(FinishReport { accepted: late, terminal: Some(terminal), refused: None })
}

/// Takes a worker that is done off the table, gives back its stream, and says
/// what to report.
pub fn finish_proxy_worker(
    release: &Release,
    workers: &mut ProxyWorkerTable,
    admission: &mut StreamAdmission,
) -> (r: Result<FinishReport, &'static str>)
    ensures
        final(workers)@ == (WorkerTableModel {
            workers: old(workers)@.workers.remove(release.worker_id@),
            ..old(workers)@
        }),
        if old(workers)@.workers.contains_key(release.worker_id@) {
            let record = old(workers)@.workers[release.worker_id@];
            &&& final(admission)@ == streams_after(*release, record, old(admission)@)
            &&& match r {
                Ok(report) => finish_fault(*release, record, old(admission)@) is None && report
                    == report_of(*release, record),
                Err(text) => finish_fault(*release, record, old(admission)@) == Some(text@),
            }
        } else {
            &&& final(admission)@ == old(admission)@
            &&& r matches Err(text)
            &&& text@ == "proxy worker completion missing owner"@
        },
{
    match workers.remove(release.worker_id) {
        Some(record) => finish_proxy_worker_record(release, &record, admission),
        None => Err("proxy worker completion missing owner"),
    }
}

/// What the worker of an ending leaves behind.
pub fn release_of(
    worker_id: ProxyWorkerId,
    record: &WorkerRecord,
    ending: Ending,
) -> (r: Release)
    ensures
        r.worker_id == worker_id,
        r.peer_id@ == record@.peer_id,
        r.connection_id == record@.connection_id,
        r.selected_path == record@.selected_path,
        r.setup_duration == ending.setup_duration,
        r.admission == ending.admission,
        r.request_id_hash == ending.request_id_hash,
        r.stream_id_hash == ending.stream_id_hash,
        r.accepted == ending.accepted,
        r.code == ending.code,
        r.pump == ending.pump,
{
    Release {
        worker_id,
        peer_id: record.peer_id.clone(),
        connection_id: record.connection_id,
        selected_path: record.selected_path,
        setup_duration: ending.setup_duration,
        admission: ending.admission,
        request_id_hash: ending.request_id_hash,
        stream_id_hash: ending.stream_id_hash,
        accepted: ending.accepted,
        code: ending.code,
        pump: ending.pump,
    }
}

/// What a worker leaves behind that did not come to its end.
pub fn lost_release(worker_id: ProxyWorkerId, record: &WorkerRecord) -> (r: Release)
    ensures
        r.worker_id == worker_id,
        r.peer_id@ == record@.peer_id,
        r.connection_id == record@.connection_id,
        r.selected_path == record@.selected_path,
        r.setup_duration == record@.setup_duration,
        r.admission@ == match record@.admission {
            Some(stream) => stream,
            None => no_stream(),
        },
        r.request_id_hash == record@.request_id_hash,
        r.stream_id_hash == record@.stream_id_hash,
        r.accepted == record@.accepted,
        r.code == Some(PublicErrorCode::PeerConnectionFailed),
        r.pump is None,
{
    Release {
        worker_id,
        peer_id: record.peer_id.clone(),
        connection_id: record.connection_id,
        selected_path: record.selected_path,
        setup_duration: record.setup_duration,
        admission: match record.admission {
            Some(token) => token,
            None => AdmissionToken::empty(),
        },
        request_id_hash: record.request_id_hash,
        stream_id_hash: record.stream_id_hash,
        accepted: record.accepted,
        code: Some(PublicErrorCode::PeerConnectionFailed),
        pump: None,
    }
}

/// A worker is reported either as a tunnel that ended or as a refusal, never as
/// both; and its acceptance is reported once.
pub proof fn law_one_report_for_a_worker(release: Release, record: RecordModel)
    ensures
        report_of(release, record).terminal is Some ==> report_of(release, record).refused is None,
        report_of(release, record).terminal is Some <==> release.accepted || record.accepted,
        record.accepted ==> report_of(release, record).accepted is None,
        report_of(release, record).accepted is Some ==> report_of(release, record).terminal is Some,
{
}

/// The report of a tunnel shows what went through it, under the numbers by which
/// it was accepted: those on record if its acceptance was reported before, and
/// otherwise those that it ends with. A tunnel of which nothing is known counts
/// as called off.
pub proof fn law_tunnels_are_reported_as_they_ended(release: Release, record: RecordModel)
    requires
        release.accepted || record.accepted,
    ensures
        report_of(release, record).refused is None,
        report_of(release, record).terminal matches Some(end) && {
            &&& record.accepted ==> end.request_id_hash == record.request_id_hash && end.stream_id_hash
                == record.stream_id_hash && end.selected_path == record.selected_path
                && end.setup_duration_ms == record.setup_duration / 1_000_000
            &&& !record.accepted ==> end.request_id_hash == release.request_id_hash && end.stream_id_hash
                == release.stream_id_hash && end.selected_path == release.selected_path
                && end.setup_duration_ms == release.setup_duration / 1_000_000
            &&& end.code == release.code
            &&& release.pump matches Some(pump) ==> end.local_to_remote_bytes == pump.local_to_remote_bytes
                && end.remote_to_local_bytes == pump.remote_to_local_bytes && end.local_eof == pump.local_eof
                && end.remote_eof == pump.remote_eof && end.duration_ms == pump.duration / 1_000_000
                && end.terminal_class == class_of(pump.terminal)
            &&& release.pump is None ==> end.local_to_remote_bytes == 0 && end.remote_to_local_bytes == 0
                && !end.local_eof && !end.remote_eof && end.duration_ms == 0 && end.terminal_class
                == TunnelTerminalClass::Cancelled
        },
        record.accepted ==> report_of(release, record).accepted is None,
        !record.accepted && release.stream_id_hash is Some ==> (report_of(release, record).accepted
            matches Some(accepted) && accepted.request_id_hash == release.request_id_hash && Some(
            accepted.stream_id_hash,
        ) == release.stream_id_hash && accepted.selected_path == release.selected_path
            && accepted.setup_duration_ms == release.setup_duration / 1_000_000),
{
}

/// A worker that was not accepted is reported as refused with its code, and not
/// at all if it has none.
pub proof fn law_refusals_are_reported_with_their_code(release: Release, record: RecordModel)
    requires
        !release.accepted,
        !record.accepted,
    ensures
        report_of(release, record).accepted is None,
        report_of(release, record).terminal is None,
        release.code is None ==> report_of(release, record).refused is None,
        release.code matches Some(code) ==> (report_of(release, record).refused matches Some(refused)
            && refused.code == code && refused.request_id_hash == release.request_id_hash
            && refused.stream_id_hash == release.stream_id_hash),
{
}

/// A worker leaves the stream that is on record for it, or else the one that it
/// names; that stream is given back, and every other one stays. To give back
/// what is not there is an error.
pub proof fn law_streams_are_given_back_once(
    release: Release,
    record: RecordModel,
    streams: AdmissionModel,
    other: Seq<u8>,
)
    ensures
        record.admission is Some ==> left_behind(release, record) == record.admission,
        record.admission is None && release.admission@ != no_stream() ==> left_behind(release, record)
            == Some(release.admission@),
        record.admission is None && release.admission@ == no_stream() ==> left_behind(release, record)
            is None && streams_after(release, record, streams) == streams,
        left_behind(release, record) matches Some(stream) ==> {
            &&& !streams_after(release, record, streams).entries.contains_key(stream)
            &&& finish_fault(release, record, streams_after(release, record, streams)) is Some
            &&& other != stream && streams.entries.contains_key(other) ==> streams_after(
                release,
                record,
                streams,
            ).entries.contains_key(other) && streams_after(release, record, streams).entries[other]
                == streams.entries[other]
            &&& streams.entries.contains_key(stream) && (!release.accepted || record.accepted
                || release.stream_id_hash is Some) ==> finish_fault(release, record, streams) is None
        },
        release.accepted && !record.accepted && release.stream_id_hash is None ==> lacks_stream(
            release,
            record,
        ) && finish_fault(release, record, streams) is Some,
{
}

/// What is released of a worker says whose it is as the record does, and how it
/// ended as the ending does; a worker that was lost is released as its record
/// stands, as one whose connection failed.
pub proof fn law_releases_say_whose_they_are(
    worker_id: ProxyWorkerId,
    record: WorkerRecord,
    ending: Ending,
    ended: Release,
    lost: Release,
)
    requires
        call_ensures(release_of, (worker_id, &record, ending), ended),
        call_ensures(lost_release, (worker_id, &record), lost),
    ensures
        ended.worker_id == worker_id && lost.worker_id == worker_id,
        ended.peer_id@ == record@.peer_id && lost.peer_id@ == record@.peer_id,
        ended.connection_id == record@.connection_id && lost.connection_id == record@.connection_id,
        ended.selected_path == record@.selected_path && lost.selected_path == record@.selected_path,
        ended.setup_duration == ending.setup_duration && lost.setup_duration == record@.setup_duration,
        ended.accepted == ending.accepted && lost.accepted == record@.accepted,
        ended.code == ending.code && lost.code == Some(PublicErrorCode::PeerConnectionFailed),
        ended.pump == ending.pump && lost.pump is None,
        ended.request_id_hash == ending.request_id_hash && lost.request_id_hash == record@.request_id_hash,
        ended.stream_id_hash == ending.stream_id_hash && lost.stream_id_hash == record@.stream_id_hash,
        ended.admission == ending.admission,
        record@.admission is Some ==> lost.admission@ == record@.admission->0,
{
}

/// A worker that is done is no longer known, and only it; the end of one that is
/// not known is an error and gives no stream back.
pub proof fn law_finished_workers_are_forgotten(
    release: Release,
    workers: &mut ProxyWorkerTable,
    admission: &mut StreamAdmission,
    r: Result<FinishReport, &'static str>,
)
    requires
        call_ensures(finish_proxy_worker, (&release, workers, admission), r),
    ensures
        !final(workers)@.workers.contains_key(release.worker_id@),
        final(workers)@.next_id == old(workers)@.next_id,
        forall|other: u64|
            other != release.worker_id@ && old(workers)@.workers.contains_key(other) ==> #[trigger] final(workers)@.workers.contains_key(other) && final(workers)@.workers[other] == old(workers)@.workers[other],
        !old(workers)@.workers.contains_key(release.worker_id@) ==> (r matches Err(text) && text@
            == "proxy worker completion missing owner"@) && final(admission)@ == old(admission)@,
{
}

} // verus!
