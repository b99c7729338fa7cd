//! The end of a kind of stream that sits on one connection.
use crate::streams::{OpenStream, RequestId, StreamEvent, StreamRules};
use vstd::prelude::*;

verus! {

/// How many requests may wait on a connection, answers included.
pub const MAX_HANDLER_QUEUE: usize = 64;

/// How many answers may wait on a connection.
pub const MAX_HANDLER_EVENTS: usize = 64;

/// How many incoming streams may wait on a connection.
pub const MAX_HANDLER_INBOUND: usize = 64;

/// How long negotiating a stream may take, in seconds.
pub const NEGOTIATION_SECONDS: u64 = 5;

/// What is to be done next on a connection.
#[derive(Debug)]
pub enum HandlerAction<S, P> {
    /// Report this.
    Notify(StreamEvent<S>),
    /// Open a stream for this request.
    Request(OpenStream<P>),
    Pending,
}

#[verifier::ext_equal]
pub struct HandlerModel<S, P> {
    pub rules: StreamRules,
    pub queue: Seq<OpenStream<P>>,
    pub outbound_events: Seq<StreamEvent<S>>,
    pub inbound_events: Seq<StreamEvent<S>>,
    pub inbound_rejected: u64,
}

impl<S, P> HandlerModel<S, P> {
    /// Nothing is going on.
    pub open spec fn empty(rules: StreamRules) -> Self {
        HandlerModel {
            rules,
            queue: Seq::empty(),
            outbound_events: Seq::empty(),
            inbound_events: Seq::empty(),
            inbound_rejected: 0,
        }
    }

    /// Room is bounded.
    pub open spec fn bounded(self) -> bool {
        self.queue.len() <= MAX_HANDLER_QUEUE && self.outbound_events.len() <= MAX_HANDLER_EVENTS
            && self.inbound_events.len() <= MAX_HANDLER_INBOUND
    }

    /// After a request came from the owner. One for which there is no room is
    /// answered at once, as long as there is room for answers.
    pub open spec fn asked(self, open: OpenStream<P>) -> Self {
        if self.queue.len() + self.outbound_events.len() < MAX_HANDLER_QUEUE {
            HandlerModel { queue: self.queue.push(open), ..self }
        } else {
            self.reported(
                StreamEvent::OutboundFailed {
                    request_id: open.request_id,
                    code: self.rules.queue_full_code,
                },
            )
        }
    }

    /// After an answer to a request.
    pub open spec fn reported(self, event: StreamEvent<S>) -> Self {
        if self.outbound_events.len() < MAX_HANDLER_EVENTS {
            HandlerModel { outbound_events: self.outbound_events.push(event), ..self }
        } else {
            self
        }
    }

    /// After an incoming stream.
    pub open spec fn came_in(self, stream: S) -> Self {
        if self.inbound_events.len() < MAX_HANDLER_INBOUND {
            HandlerModel {
                inbound_events: self.inbound_events.push(StreamEvent::InboundOpened { stream }),
                ..self
            }
        } else {
            HandlerModel {
                inbound_rejected: if self.inbound_rejected == u64::MAX {
                    u64::MAX
                } else {
                    (self.inbound_rejected + 1) as u64
                },
                ..self
            }
        }
    }

    /// After a stream that was asked for could not be negotiated.
    pub open spec fn not_negotiated(self, request_id: RequestId) -> Self {
        self.reported(StreamEvent::OutboundFailed { request_id, code: self.rules.negotiation_code })
    }

    /// What is to be done next.
    pub open spec fn next(self) -> HandlerAction<S, P> {
        if self.outbound_events.len() > 0 {
            HandlerAction::Notify(self.outbound_events[0])
        } else if self.inbound_events.len() > 0 {
            HandlerAction::Notify(self.inbound_events[0])
        } else if self.queue.len() > 0 {
            HandlerAction::Request(self.queue[0])
        } else {
            HandlerAction::Pending
        }
    }

    /// After the next thing was done.
    pub open spec fn polled(self) -> Self {
        if self.outbound_events.len() > 0 {
            HandlerModel { outbound_events: self.outbound_events.remove(0), ..self }
        } else if self.inbound_events.len() > 0 {
            HandlerModel { inbound_events: self.inbound_events.remove(0), ..self }
        } else if self.queue.len() > 0 {
            HandlerModel { queue: self.queue.remove(0), ..self }
        } else {
            self
        }
    }
}

/// The end of a kind of stream that sits on one connection.
pub struct StreamHandler<S, P> {
    rules: StreamRules,
    queue: Vec<OpenStream<P>>,
    outbound_events: Vec<StreamEvent<S>>,
    inbound_events: Vec<StreamEvent<S>>,
    inbound_rejected: u64,
}

impl<S, P> View for StreamHandler<S, P> {
    type V = HandlerModel<S, P>;

    closed spec fn view(&self) -> HandlerModel<S, P> {
        HandlerModel {
            rules: self.rules,
            queue: self.queue@,
            outbound_events: self.outbound_events@,
            inbound_events: self.inbound_events@,
            inbound_rejected: self.inbound_rejected,
        }
    }
}

impl<S, P> StreamHandler<S, P> {
    /// Nothing is going on.
    pub fn with_rules(rules: StreamRules) -> (r: Self)
        ensures
            r@ == HandlerModel::<S, P>::empty(rules),
    {
        StreamHandler {
            rules,
            queue: Vec::new(),
            outbound_events: Vec::new(),
            inbound_events: Vec::new(),
            inbound_rejected: 0,
        }
    }

    /// What this end goes by.
    pub fn rules(&self) -> (r: StreamRules)
        ensures
            r == self@.rules,
    {
        self.rules
    }

    /// How many incoming streams were turned away.
    pub fn inbound_rejected_count(&self) -> (r: u64)
        ensures
            r == self@.inbound_rejected,
    {
        self.inbound_rejected
    }

    /// What is to be done next: report an answer, then an incoming stream, then
    /// open a stream.
    pub fn poll(&mut self) -> (r: HandlerAction<S, P>)
        ensures
            old(self)@.bounded() ==> final(self)@.bounded(),
            r == old(self)@.next(),
            final(self)@ == old(self)@.polled(),
    {
        if self.outbound_events.len() > 0 {
            return HandlerAction::Notify(self.outbound_events.remove(0));
        }
        if self.inbound_events.len() > 0 {
            return HandlerAction::Notify(self.inbound_events.remove(0));
        }
        if self.queue.len() > 0 {
            return HandlerAction::Request(self.queue.remove(0));
        }
        HandlerAction::Pending
    }

    /// A request came from the owner.
    pub fn on_behaviour_event(&mut self, open: OpenStream<P>)
        ensures
            old(self)@.bounded() ==> final(self)@.bounded(),
            final(self)@ == old(self)@.asked(open),
    {
        if self.outbound_events.len() < MAX_HANDLER_QUEUE && self.queue.len() < MAX_HANDLER_QUEUE
            - self.outbound_events.len() {
            self.queue.push(open);
        } else if self.outbound_events.len() < MAX_HANDLER_EVENTS {
            self.outbound_events.push(
                StreamEvent::OutboundFailed {
                    request_id: open.request_id,
                    code: self.rules.queue_full_code,
                },
            );
        }
    }

    /// A stream came in.
    pub fn on_inbound(&mut self, stream: S)
        ensures
            old(self)@.bounded() ==> final(self)@.bounded(),
            final(self)@ == old(self)@.came_in(stream),
    {
        if self.inbound_events.len() < MAX_HANDLER_INBOUND {
            self.inbound_events.push(StreamEvent::InboundOpened { stream });
        } else {
            self.inbound_rejected = self.inbound_rejected.saturating_add(1);
        }
    }

    /// A stream that was asked for is open. Says whether there was room to
    /// report it.
    pub fn on_outbound(&mut self, request_id: RequestId, stream: S) -> (r: bool)
        ensures
            old(self)@.bounded() ==> final(self)@.bounded(),
            r == (old(self)@.outbound_events.len() < MAX_HANDLER_EVENTS),
            final(self)@ == old(self)@.reported(StreamEvent::OutboundOpened { request_id, stream }),
    {
        if self.outbound_events.len() < MAX_HANDLER_EVENTS {
            self.outbound_events.push(StreamEvent::OutboundOpened { request_id, stream });
            true
        } else {
            false
        }
    }

    /// A stream that was asked for could not be negotiated. Says whether there
    /// was room to report it.
    pub fn on_outbound_error(&mut self, request_id: RequestId) -> (r: bool)
        ensures
            old(self)@.bounded() ==> final(self)@.bounded(),
            r == (old(self)@.outbound_events.len() < MAX_HANDLER_EVENTS),
            final(self)@ == old(self)@.not_negotiated(request_id),
    {
        if self.outbound_events.len() < MAX_HANDLER_EVENTS {
            self.outbound_events.push(
                StreamEvent::OutboundFailed { request_id, code: self.rules.negotiation_code },
            );
            true
        } else {
            false
        }
    }
}

/// A request waits its turn while fewer than sixty-four requests and answers wait
/// on the connection; another one is answered at once that there is no room, while
/// there is room for that.
pub proof fn law_requests_wait_while_there_is_room<S, P>(m: HandlerModel<S, P>, open: OpenStream<P>)
    ensures
        ({
            let after = m.asked(open);
            let waiting = m.queue.len() + m.outbound_events.len();
            &&& after.inbound_events == m.inbound_events
            &&& after.inbound_rejected == m.inbound_rejected
            &&& after.rules == m.rules
            &&& waiting < 64 ==> after.queue == m.queue.push(open) && after.outbound_events
                == m.outbound_events
            &&& waiting >= 64 ==> after.queue == m.queue
            &&& waiting >= 64 && m.outbound_events.len() < 64 ==> after.outbound_events
                == m.outbound_events.push(
                StreamEvent::OutboundFailed {
                    request_id: open.request_id,
                    code: m.rules.queue_full_code,
                },
            )
            &&& m.outbound_events.len() >= 64 ==> after.outbound_events == m.outbound_events
        }),
{
}

/// An answer is the last in the line of answers while there is room in it; a
/// stream that was not negotiated is answered with the code for that.
pub proof fn law_answers_wait_while_there_is_room<S, P>(
    m: HandlerModel<S, P>,
    request_id: RequestId,
    event: StreamEvent<S>,
)
    ensures
        m.outbound_events.len() < 64 ==> {
            &&& m.reported(event).outbound_events == m.outbound_events.push(event)
            &&& m.not_negotiated(request_id).outbound_events == m.outbound_events.push(
                StreamEvent::OutboundFailed { request_id, code: m.rules.negotiation_code },
            )
        },
        m.outbound_events.len() >= 64 ==> m.reported(event) == m && m.not_negotiated(request_id) == m,
        m.reported(event).queue == m.queue,
        m.reported(event).inbound_events == m.inbound_events,
{
}

/// An incoming stream waits while fewer than sixty-four do; another one is counted
/// as turned away.
pub proof fn law_incoming_streams_wait_while_there_is_room<S, P>(m: HandlerModel<S, P>, stream: S)
    ensures
        ({
            let after = m.came_in(stream);
            &&& after.queue == m.queue
            &&& after.outbound_events == m.outbound_events
            &&& m.inbound_events.len() < 64 ==> after.inbound_events == m.inbound_events.push(
                StreamEvent::InboundOpened { stream },
            ) && after.inbound_rejected == m.inbound_rejected
            &&& m.inbound_events.len() >= 64 ==> after.inbound_events == m.inbound_events
            &&& m.inbound_events.len() >= 64 && m.inbound_rejected < 0xffff_ffff_ffff_ffff
                ==> after.inbound_rejected == m.inbound_rejected + 1
            &&& m.inbound_rejected == 0xffff_ffff_ffff_ffff ==> after.inbound_rejected == m.inbound_rejected
        }),
{
}

/// Answers are reported first, oldest first, then what came in, then a stream is
/// opened for the request that waits longest; what was done is done once.
pub proof fn law_answers_are_reported_first<S, P>(m: HandlerModel<S, P>)
    ensures
        ({
            let (a, b, c) = (m.outbound_events, m.inbound_events, m.queue);
            let after = m.polled();
            &&& a.len() > 0 ==> m.next() == HandlerAction::<S, P>::Notify(a.first())
                && after.outbound_events == a.drop_first() && after.inbound_events == b && after.queue == c
            &&& a.len() == 0 && b.len() > 0 ==> m.next() == HandlerAction::<S, P>::Notify(b.first())
                && after.outbound_events == a && after.inbound_events == b.drop_first() && after.queue == c
            &&& a.len() == 0 && b.len() == 0 && c.len() > 0 ==> m.next() == HandlerAction::<S, P>::Request(
                c.first(),
            ) && after.outbound_events == a && after.inbound_events == b && after.queue == c.drop_first()
            &&& a.len() == 0 && b.len() == 0 && c.len() == 0 ==> m.next() is Pending && after == m
            &&& after.inbound_rejected == m.inbound_rejected
        }),
{
    if m.outbound_events.len() > 0 {
        assert(m.outbound_events.remove(0) =~= m.outbound_events.drop_first());
    } else if m.inbound_events.len() > 0 {
        assert(m.inbound_events.remove(0) =~= m.inbound_events.drop_first());
    } else if m.queue.len() > 0 {
        assert(m.queue.remove(0) =~= m.queue.drop_first());
    }
}

/// Whether there is room to report the fate of a stream is said, and goes by the
/// sixty-four answers that may wait.
pub proof fn law_reports_say_whether_there_was_room<S, P>(
    a: &mut StreamHandler<S, P>,
    request_id: RequestId,
    stream: S,
    opened: bool,
    b: &mut StreamHandler<S, P>,
    failed: bool,
)
    requires
        call_ensures(StreamHandler::<S, P>::on_outbound, (a, request_id, stream), opened),
        call_ensures(StreamHandler::<S, P>::on_outbound_error, (b, request_id), failed),
    ensures
        opened <==> old(a)@.outbound_events.len() < 64,
        opened ==> final(a)@.outbound_events == old(a)@.outbound_events.push(
            StreamEvent::OutboundOpened { request_id, stream },
        ),
        !opened ==> final(a)@ == old(a)@,
        failed <==> old(b)@.outbound_events.len() < 64,
        failed ==> final(b)@.outbound_events == old(b)@.outbound_events.push(
            StreamEvent::OutboundFailed { request_id, code: old(b)@.rules.negotiation_code },
        ),
        !failed ==> final(b)@ == old(b)@,
{
}

} // verus!
