//! Streams for proxied connections.
use crate::peer::ConnectionId;
use crate::proxy::OpenProxyStreamV1;
use crate::stream_handler::{HandlerModel, StreamHandler};
use crate::streams::{
    law_failures_are_told_apart, law_reports_are_the_answer, law_requests_are_turned_down_for_a_reason,
    of_peer, OpenStream, OutputModel, RequestId, StreamBehaviour, StreamEvent, StreamOutput, StreamRules,
    StreamsModel,
};
use vstd::prelude::*;

verus! {

/// The name of the protocol.
pub const PROXY_PROTOCOL: &'static str = "/p2x/proxy/1";

/// How many streams may be served at a time.
pub const MAX_INBOUND_WORKERS: usize = 256;

/// How many of them for one peer.
pub const MAX_INBOUND_WORKERS_PER_PEER: usize = 32;

/// The streams of proxied connections. A request carries the opening message.
pub type ProxyStreamBehaviour<S> = StreamBehaviour<S, OpenProxyStreamV1>;

/// The proxied streams on one connection.
pub type ProxyHandler<S> = StreamHandler<S, OpenProxyStreamV1>;

/// What proxied streams report.
pub type ProxyOutput<S> = StreamOutput<S>;

/// What the proxied streams on one connection report.
pub type ProxyEvent<S> = StreamEvent<S>;

/// A proxied stream that is to be opened.
pub type OpenProxy = OpenStream<OpenProxyStreamV1>;

/// The number of a request for a proxied stream.
pub type ProxyRequestId = RequestId;

/// What proxied streams call their failures, which ones are taken, and how many
/// are served.
pub open spec fn is_proxy_rules(rules: StreamRules, inbound: bool, outbound: bool) -> bool {
    &&& rules.inbound_enabled == inbound
    &&& rules.outbound_enabled == outbound
    &&& rules.max_inbound_workers == MAX_INBOUND_WORKERS
    &&& rules.max_inbound_workers_per_peer == MAX_INBOUND_WORKERS_PER_PEER
    &&& rules.outbound_limit_code@ == "limit.proxy_streams"@
    &&& rules.inbound_limit_code@ == "limit.proxy_streams"@
    &&& rules.exhausted_code@ == "proxy.request_id_exhausted"@
    &&& rules.timeout_code@ == "peer.setup_timeout"@
    &&& rules.cancelled_code@ == "proxy.cancelled"@
    &&& rules.shutdown_code@ == "proxy.shutdown"@
    &&& rules.closed_code@ == "proxy.connection_closed"@
    &&& rules.mismatch_code@ == "proxy.internal_identity_mismatch"@
    &&& rules.queue_full_code@ == "limit.proxy_streams"@
    &&& rules.negotiation_code@ == "proxy.negotiation_failed"@
}

impl<S> StreamBehaviour<S, OpenProxyStreamV1> {
    /// The given directions are served.
    pub fn with_surface(inbound_enabled: bool, outbound_enabled: bool) -> (r: Self)
        ensures
            is_proxy_rules(r@.rules, inbound_enabled, outbound_enabled),
            r@ == StreamsModel::<S, OpenProxyStreamV1>::empty(r@.rules),
            r@.valid(),
    {
        StreamBehaviour::with_rules(
            StreamRules {
                inbound_enabled,
                outbound_enabled,
                max_inbound_workers: MAX_INBOUND_WORKERS,
                max_inbound_workers_per_peer: MAX_INBOUND_WORKERS_PER_PEER,
                outbound_limit_code: "limit.proxy_streams",
                inbound_limit_code: "limit.proxy_streams",
                exhausted_code: "proxy.request_id_exhausted",
                timeout_code: "peer.setup_timeout",
                cancelled_code: "proxy.cancelled",
                shutdown_code: "proxy.shutdown",
                closed_code: "proxy.connection_closed",
                mismatch_code: "proxy.internal_identity_mismatch",
                queue_full_code: "limit.proxy_streams",
                negotiation_code: "proxy.negotiation_failed",
            },
        )
    }

    /// The client's side: streams are asked for, none is taken in.
    pub fn product() -> (r: Self)
        ensures
            is_proxy_rules(r@.rules, false, true),
            r@ == StreamsModel::<S, OpenProxyStreamV1>::empty(r@.rules),
            r@.valid(),
    {
        StreamBehaviour::with_surface(false, true)
    }

    /// The server's side: streams are taken in, none is asked for.
    pub fn server() -> (r: Self)
        ensures
            is_proxy_rules(r@.rules, true, false),
            r@ == StreamsModel::<S, OpenProxyStreamV1>::empty(r@.rules),
            r@.valid(),
    {
        StreamBehaviour::with_surface(true, false)
    }
}

/// The protocols that are offered in a direction: the one there is, if the
/// direction is served.
pub fn protocol_info(enabled: bool) -> (r: Vec<&'static str>)
    ensures
        r@ == if enabled {
            seq![PROXY_PROTOCOL]
        } else {
            Seq::empty()
        },
{
    let mut protocols: Vec<&'static str> = Vec::new();
    if enabled {
        protocols.push(PROXY_PROTOCOL);
    }
    protocols
}

/// A proxied stream that is not opened is answered with the name of what came in
/// between.
pub proof fn law_proxied_requests_fail_by_name<S>(
    m: StreamsModel<S, OpenProxyStreamV1>,
    peer: Seq<u8>,
    connection: ConnectionId,
    stream: S,
    now: u64,
    i: int,
    inbound: bool,
    outbound: bool,
)
    requires
        m.valid(),
        is_proxy_rules(m.rules, inbound, outbound),
        0 <= i < m.pending.len(),
        m.pending[i].terminal is None,
    ensures
        ({
            let request = m.pending[i];
            let id = request.request_id;
            let own = request.peer_id == peer && request.connection_id == connection;
            let failed = |after: StreamsModel<S, OpenProxyStreamV1>, code: Seq<char>|
                after.pending[i].terminal == Some(
                    OutputModel::<S>::OutboundFailed {
                        request_id: id,
                        peer_id: request.peer_id,
                        connection_id: request.connection_id,
                        code,
                    },
                );
            &&& request.deadline <= now ==> failed(m.expired(now), "peer.setup_timeout"@)
            &&& own ==> failed(m.disconnected(peer, connection), "proxy.connection_closed"@)
            &&& failed(m.cancelled(id), "proxy.cancelled"@)
            &&& failed(m.shut_down(), "proxy.shutdown"@)
            &&& !own ==> failed(
                m.reported(peer, connection, StreamEvent::OutboundOpened { request_id: id, stream }),
                "proxy.internal_identity_mismatch"@,
            )
        }),
{
    law_failures_are_told_apart(m, peer, connection, now, m.pending[i].request_id, i);
    law_reports_are_the_answer(m, peer, connection, stream, "", i);
}

/// A proxied stream: why one is turned down, and how many are served.
pub proof fn law_proxied_requests_are_turned_down_by_name<S>(
    m: StreamsModel<S, OpenProxyStreamV1>,
    h: HandlerModel<S, OpenProxyStreamV1>,
    peer: Seq<u8>,
    connection: ConnectionId,
    open: OpenStream<OpenProxyStreamV1>,
    inbound: bool,
    outbound: bool,
)
    requires
        is_proxy_rules(m.rules, inbound, outbound),
        is_proxy_rules(h.rules, inbound, outbound),
    ensures
        m.known.contains_key((peer, connection)) && m.pending.len() >= 128 ==> m.refusal(peer, connection)
            == Some("limit.proxy_streams"@),
        m.known.contains_key((peer, connection)) && m.pending.len() < 128 && of_peer(m.pending, peer) < 64
            && m.commands.len() < 128 && m.next == u64::MAX ==> m.refusal(peer, connection) == Some(
            "proxy.request_id_exhausted"@,
        ),
        m.admission_refusal(peer) is None <==> m.workers.len() < 256 && m.workers.count(peer) < 32,
        m.admission_refusal(peer) is Some ==> m.admission_refusal(peer) == Some("limit.proxy_streams"@),
        h.outbound_events.len() < 64 ==> {
            &&& (h.not_negotiated(open.request_id).outbound_events.last() matches StreamEvent::OutboundFailed {
                request_id,
                code,
            } && request_id == open.request_id && code@ == "proxy.negotiation_failed"@)
            &&& h.queue.len() + h.outbound_events.len() >= 64 ==> (h.asked(open).outbound_events.last() matches StreamEvent::OutboundFailed {
                request_id,
                code,
            } && request_id == open.request_id && code@ == "limit.proxy_streams"@)
        },
{
    law_requests_are_turned_down_for_a_reason(m, peer, connection);
}

/// A client asks for proxied streams and takes none in, a server takes them in and
/// asks for none; what is not served is not offered.
pub proof fn law_clients_ask_and_servers_serve<S>(
    client: StreamBehaviour<S, OpenProxyStreamV1>,
    server: StreamBehaviour<S, OpenProxyStreamV1>,
    offered: Vec<&'static str>,
    enabled: bool,
)
    requires
        call_ensures(StreamBehaviour::<S, OpenProxyStreamV1>::product, (), client),
        call_ensures(StreamBehaviour::<S, OpenProxyStreamV1>::server, (), server),
        call_ensures(protocol_info, (enabled,), offered),
    ensures
        client@.rules.outbound_enabled && !client@.rules.inbound_enabled,
        server@.rules.inbound_enabled && !server@.rules.outbound_enabled,
        client@.pending.len() == 0 && client@.workers.len() == 0 && client@.next == 0,
        server@.pending.len() == 0 && server@.workers.len() == 0 && server@.next == 0,
        enabled ==> offered@.len() == 1 && offered@[0]@ == "/p2x/proxy/1"@,
        !enabled ==> offered@.len() == 0,
{
}

} // verus!
