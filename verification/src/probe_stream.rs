//! Streams for probes.
use crate::peer::ConnectionId;
use crate::stream_handler::{HandlerModel, StreamHandler};
use crate::streams::{
    law_failures_are_told_apart, law_reports_are_the_answer, law_requests_are_turned_down_for_a_reason,
    of_peer, OpenStream, OutputModel, StreamBehaviour, StreamEvent, StreamOutput, StreamRules,
    StreamsModel,
};
use vstd::prelude::*;

verus! {

/// The name of the protocol.
pub const PROBE_PROTOCOL: &'static str = "/p2x/spike/1";

/// How many probes may be served at a time.
pub const MAX_INBOUND_WORKERS: usize = 128;

/// How many of them for one peer.
pub const MAX_INBOUND_WORKERS_PER_PEER: usize = 64;

/// The streams of probes. A request carries nothing.
pub type ProbeStreamBehaviour<S> = StreamBehaviour<S, ()>;

/// The streams of probes on one connection.
pub type ProbeHandler<S> = StreamHandler<S, ()>;

/// What the streams of probes report.
pub type ProbeOutput<S> = StreamOutput<S>;

/// What the streams of probes on one connection report.
pub type ProbeEvent<S> = StreamEvent<S>;

/// A probe that is to be opened.
pub type OpenProbe = OpenStream<()>;

/// What probes call their failures, and how many are served.
pub open spec fn is_probe_rules(rules: StreamRules) -> bool {
    &&& rules.inbound_enabled
    &&& rules.outbound_enabled
    &&& rules.max_inbound_workers == MAX_INBOUND_WORKERS
    &&& rules.max_inbound_workers_per_peer == MAX_INBOUND_WORKERS_PER_PEER
    &&& rules.outbound_limit_code@ == "limit.command_queue_full"@
    &&& rules.inbound_limit_code@ == "limit.inbound_workers"@
    &&& rules.exhausted_code@ == "probe.request_id_exhausted"@
    &&& rules.timeout_code@ == "probe.open_timeout"@
    &&& rules.cancelled_code@ == "probe.cancelled"@
    &&& rules.shutdown_code@ == "probe.shutdown"@
    &&& rules.closed_code@ == "probe.connection_closed"@
    &&& rules.mismatch_code@ == "probe.internal_identity_mismatch"@
    &&& rules.queue_full_code@ == "limit.handler_queue_full"@
    &&& rules.negotiation_code@ == "probe.negotiation_failed"@
}

impl<S> Default for StreamBehaviour<S, ()> {
    /// No probe is going on.
    fn default() -> (r: Self)
        ensures
            is_probe_rules(r@.rules),
            r@ == StreamsModel::<S, ()>::empty(r@.rules),
            r@.valid(),
    {
        StreamBehaviour::with_rules(
            StreamRules {
                inbound_enabled: true,
                outbound_enabled: true,
                max_inbound_workers: MAX_INBOUND_WORKERS,
                max_inbound_workers_per_peer: MAX_INBOUND_WORKERS_PER_PEER,
                outbound_limit_code: "limit.command_queue_full",
                inbound_limit_code: "limit.inbound_workers",
                exhausted_code: "probe.request_id_exhausted",
                timeout_code: "probe.open_timeout",
                cancelled_code: "probe.cancelled",
                shutdown_code: "probe.shutdown",
                closed_code: "probe.connection_closed",
                mismatch_code: "probe.internal_identity_mismatch",
                queue_full_code: "limit.handler_queue_full",
                negotiation_code: "probe.negotiation_failed",
            },
        )
    }
}

/// A probe that is not opened is answered with the name of what came in between.
pub proof fn law_probe_requests_fail_by_name<S>(
    m: StreamsModel<S, ()>,
    peer: Seq<u8>,
    connection: ConnectionId,
    stream: S,
    now: u64,
    i: int,
)
    requires
        m.valid(),
        is_probe_rules(m.rules),
        0 <= i < m.pending.len(),
        m.pending[i].terminal is None,
    ensures
        ({
            let request = m.pending[i];
            let id = request.request_id;
            let own = request.peer_id == peer && request.connection_id == connection;
            let failed = |after: StreamsModel<S, ()>, code: Seq<char>|
                after.pending[i].terminal == Some(
                    OutputModel::<S>::OutboundFailed {
                        request_id: id,
                        peer_id: request.peer_id,
                        connection_id: request.connection_id,
                        code,
                    },
                );
            &&& request.deadline <= now ==> failed(m.expired(now), "probe.open_timeout"@)
            &&& own ==> failed(m.disconnected(peer, connection), "probe.connection_closed"@)
            &&& failed(m.cancelled(id), "probe.cancelled"@)
            &&& failed(m.shut_down(), "probe.shutdown"@)
            &&& !own ==> failed(
                m.reported(peer, connection, StreamEvent::OutboundOpened { request_id: id, stream }),
                "probe.internal_identity_mismatch"@,
            )
        }),
{
    law_failures_are_told_apart(m, peer, connection, now, m.pending[i].request_id, i);
    law_reports_are_the_answer(m, peer, connection, stream, "", i);
}

/// A probe: why one is turned down, and how many are served.
pub proof fn law_probe_requests_are_turned_down_by_name<S>(
    m: StreamsModel<S, ()>,
    h: HandlerModel<S, ()>,
    peer: Seq<u8>,
    connection: ConnectionId,
    open: OpenStream<()>,
)
    requires
        is_probe_rules(m.rules),
        is_probe_rules(h.rules),
    ensures
        m.known.contains_key((peer, connection)) && m.pending.len() >= 128 ==> m.refusal(peer, connection)
            == Some("limit.command_queue_full"@),
        m.known.contains_key((peer, connection)) && m.pending.len() < 128 && of_peer(m.pending, peer) < 64
            && m.commands.len() < 128 && m.next == u64::MAX ==> m.refusal(peer, connection) == Some(
            "probe.request_id_exhausted"@,
        ),
        m.admission_refusal(peer) is None <==> m.workers.len() < 128 && m.workers.count(peer) < 64,
        m.admission_refusal(peer) is Some ==> m.admission_refusal(peer) == Some("limit.inbound_workers"@),
        h.outbound_events.len() < 64 ==> {
            &&& (h.not_negotiated(open.request_id).outbound_events.last() matches StreamEvent::OutboundFailed {
                request_id,
                code,
            } && request_id == open.request_id && code@ == "probe.negotiation_failed"@)
            &&& h.queue.len() + h.outbound_events.len() >= 64 ==> (h.asked(open).outbound_events.last() matches StreamEvent::OutboundFailed {
                request_id,
                code,
            } && request_id == open.request_id && code@ == "limit.handler_queue_full"@)
        },
{
    law_requests_are_turned_down_for_a_reason(m, peer, connection);
}

/// Probes are asked for and taken in.
pub proof fn law_probes_go_both_ways(rules: StreamRules)
    requires
        is_probe_rules(rules),
    ensures
        rules.inbound_enabled,
        rules.outbound_enabled,
{
}

} // verus!
