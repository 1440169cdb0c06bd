//! The per-connection state machine driving a single inbound notification
//! substream.
//!
//! Each instance corresponds to a single protocol. The connection layer owns
//! one handler per connection: it delivers freshly negotiated inbound
//! substreams, forwards the engine's `Accept`/`Refuse` decisions, and polls
//! the handler for output events. The handler holds at most one substream,
//! a FIFO of not-yet-delivered output events, and a counter reconciling
//! in-flight decisions against possibly-stale open requests.

use vstd::prelude::*;
use crate::events::InEventView;
use crate::events::NotifsInHandlerIn;
use crate::events::NotifsInHandlerOut;
use crate::events::OutEventView;
use crate::queue::EventQueue;
use crate::queue::queue_events;
use crate::substream::Substream;
use crate::substream::SubstreamPoll;
use crate::substream::SubstreamView;

verus! {

/// Configuration for the protocol upgrade to negotiate: the name offered to
/// the remote when negotiating inbound substreams. Immutable after
/// construction.
pub struct ProtocolConfig {
    /// Protocol name used during upgrade negotiation.
    pub name: Vec<u8>,
}

impl View for ProtocolConfig {
    type V = Seq<u8>;

    open spec fn view(&self) -> Seq<u8> {
        self.name@
    }
}

/// An identical copy of a byte string.
fn clone_bytes(v: &Vec<u8>) -> (r: Vec<u8>)
    ensures
        r@ == v@,
{
    let mut r: Vec<u8> = Vec::new();
    let mut i: usize = 0;
    while i < v.len()
        invariant
            i <= v@.len(),
            r@ == v@.take(i as int),
        decreases v@.len() - i,
    {
        r.push(v[i]);
        i = i + 1;
        proof {
            assert(r@ =~= v@.take(i as int));
        }
    }
    proof {
        assert(v@.take(v@.len() as int) =~= v@);
    }
    r
}

impl Clone for ProtocolConfig {
    /// An identical copy of the configuration.
    fn clone(&self) -> (r: Self)
        ensures
            r@ == self@,
    {
        ProtocolConfig { name: clone_bytes(&self.name) }
    }
}

impl ProtocolConfig {
    /// Builds the configuration for one protocol name.
    pub fn new(proto_name: Vec<u8>) -> (r: ProtocolConfig)
        ensures
            r@ == proto_name@,
    {
        ProtocolConfig { name: proto_name }
    }

    /// The name of the protocol that is accepted.
    pub fn protocol_name(&self) -> (r: &Vec<u8>)
        ensures
            r@ == self@,
    {
        &self.name
    }
}

/// Ghost view of a [`NotifsInHandler`].
#[verifier::ext_equal]
pub struct HandlerView {
    /// Protocol name accepted for inbound substreams.
    pub protocol: Seq<u8>,
    /// The held substream, if any.
    pub substream: Option<SubstreamView>,
    /// Number of emitted `OpenRequest`s still awaiting a decision.
    pub pending: nat,
    /// Output events awaiting delivery, front first.
    pub queue: Seq<OutEventView>,
}

/// Produces one fresh [`NotifsInHandler`] per connection; created once per
/// protocol and handed to the connection layer every time a connection with
/// a remote starts.
pub struct NotifsInHandlerProto {
    /// Configuration for the protocol upgrade to negotiate.
    pub in_protocol: ProtocolConfig,
}

impl View for NotifsInHandlerProto {
    type V = Seq<u8>;

    open spec fn view(&self) -> Seq<u8> {
        self.in_protocol@
    }
}

impl NotifsInHandlerProto {
    /// Builds a new `NotifsInHandlerProto` for one protocol name.
    pub fn new(proto_name: Vec<u8>) -> (r: NotifsInHandlerProto)
        ensures
            r@ == proto_name@,
    {
        NotifsInHandlerProto { in_protocol: ProtocolConfig::new(proto_name) }
    }

    /// The protocol descriptor the connection layer negotiates against
    /// incoming substream requests.
    pub fn inbound_protocol(&self) -> (r: ProtocolConfig)
        ensures
            r@ == self@,
    {
        self.in_protocol.clone()
    }

    /// The fresh handler for a newly established connection: no active
    /// substream, no pending decision, an empty event queue.
    pub fn into_handler(self) -> (r: NotifsInHandler)
        ensures
            r@.protocol == self@,
            r@.substream is None,
            r@.pending == 0,
            r@.queue == Seq::<OutEventView>::empty(),
            r.wf(),
    {
        NotifsInHandler {
            in_protocol: self.in_protocol,
            substream: None,
            pending_accept_refuses: 0,
            events_queue: EventQueue::new(),
        }
    }
}

/// The per-connection handler once the connection has been established.
pub struct NotifsInHandler {
    /// Configuration for the protocol upgrade to negotiate for inbound
    /// substreams.
    pub in_protocol: ProtocolConfig,
    /// Substream that is open with the remote. At most one is held at any
    /// time.
    pub substream: Option<Substream>,
    /// If the substream is opened and closed rapidly, several `OpenRequest`
    /// events can be emitted before the engine has time to respond with an
    /// `Accept` or `Refuse`. Every time an `OpenRequest` is emitted, this
    /// counter is incremented, and every incoming decision decrements it.
    pub pending_accept_refuses: usize,
    /// Queue of events to send to the outside. Only ever modified to insert
    /// elements at the back or to remove the first element.
    pub events_queue: EventQueue,
}

impl View for NotifsInHandler {
    type V = HandlerView;

    open spec fn view(&self) -> HandlerView {
        HandlerView {
            protocol: self.in_protocol@,
            substream: match self.substream {
                Some(s) => Some(s@),
                None => None,
            },
            pending: self.pending_accept_refuses as nat,
            queue: queue_events(self.events_queue),
        }
    }
}

/// View of an optional output event.
pub open spec fn opt_event_view(r: Option<NotifsInHandlerOut>) -> Option<OutEventView> {
    match r {
        Some(ev) => Some(ev@),
        None => None,
    }
}

/// State after an inbound upgrade completes with substream `s`: when no
/// substream is held, `s` is stored, an `OpenRequest` is queued and the
/// pending counter rises; when one is already held, the duplicate is
/// discarded and nothing changes.
pub open spec fn spec_inject_inbound(h: HandlerView, s: SubstreamView) -> HandlerView {
    if h.substream is Some {
        h
    } else {
        HandlerView {
            substream: Some(s),
            pending: h.pending + 1,
            queue: h.queue.push(OutEventView::OpenRequest),
            ..h
        }
    }
}

/// State after decision `m` is received. A decision with no pending request
/// is discarded without touching the state; one with more recent requests
/// still unanswered is superseded and only lowers the counter; the decision
/// matching the last request is applied: `Accept` sends the handshake on the
/// held substream (or does nothing if it is gone), `Refuse` drops the held
/// substream unconditionally.
pub open spec fn spec_inject_event(h: HandlerView, m: InEventView) -> HandlerView {
    if h.pending == 0 {
        h
    } else if h.pending > 1 {
        HandlerView { pending: (h.pending - 1) as nat, ..h }
    } else {
        match m {
            InEventView::Accept(payload) => match h.substream {
                Some(s) => HandlerView {
                    pending: 0,
                    substream: Some(SubstreamView { handshake: Some(payload), ..s }),
                    ..h
                },
                None => HandlerView { pending: 0, ..h },
            },
            InEventView::Refuse => HandlerView { pending: 0, substream: None, ..h },
        }
    }
}

/// Event yielded by one poll cycle (`None`: no progress this cycle): the
/// front of the event queue if it is non-empty; otherwise one advance of the
/// held substream.
pub open spec fn spec_poll_event(h: HandlerView) -> Option<OutEventView> {
    if h.queue.len() > 0 {
        Some(h.queue[0])
    } else {
        match h.substream {
            Some(s) => if s.incoming.len() > 0 {
                Some(OutEventView::Notif(s.incoming[0]))
            } else if s.closed {
                Some(OutEventView::Closed)
            } else {
                None
            },
            None => None,
        }
    }
}

/// State after one poll cycle.
pub open spec fn spec_poll_state(h: HandlerView) -> HandlerView {
    if h.queue.len() > 0 {
        HandlerView { queue: h.queue.drop_first(), ..h }
    } else {
        match h.substream {
            Some(s) => if s.incoming.len() > 0 {
                HandlerView {
                    substream: Some(SubstreamView { incoming: s.incoming.drop_first(), ..s }),
                    ..h
                }
            } else if s.closed {
                HandlerView { substream: None, ..h }
            } else {
                h
            },
            None => h,
        }
    }
}

impl NotifsInHandler {
    /// A handler with one or more unresolved open requests holds, if it holds
    /// anything, a substream on which no handshake was sent yet: the
    /// handshake is sent only when the decision matching the last request
    /// arrives.
    pub open spec fn wf(&self) -> bool {
        self@.pending > 0 ==> (self@.substream matches Some(s) ==> s.handshake is None)
    }

    /// Returns the name of the protocol that is accepted.
    pub fn protocol_name(&self) -> (r: &Vec<u8>)
        ensures
            r@ == self@.protocol,
    {
        self.in_protocol.protocol_name()
    }

    /// The protocol descriptor to offer when negotiating an inbound
    /// substream.
    pub fn listen_protocol(&self) -> (r: ProtocolConfig)
        ensures
            r@ == self@.protocol,
    {
        self.in_protocol.clone()
    }

    /// Inbound upgrade completed: the connection layer delivers the freshly
    /// negotiated substream, exactly once per successful negotiation. When no
    /// substream is held it is stored, an `OpenRequest` event is queued and
    /// the pending counter rises. When one is already held, the duplicate is
    /// a protocol violation of the remote: it is discarded, never replacing
    /// the tracked one, and the state does not change.
    pub fn inject_fully_negotiated_inbound(&mut self, proto: Substream)
        requires
            old(self).wf(),
            proto@.handshake is None,
            old(self)@.pending < usize::MAX,
        ensures
            final(self)@ == spec_inject_inbound(old(self)@, proto@),
            final(self).wf(),
            old(self)@.substream is Some ==> final(self)@ == old(self)@,
    {
        if self.substream.is_some() {
            return ;
        }
        self.substream = Some(proto);
        self.events_queue.push_back(NotifsInHandlerOut::OpenRequest);
        self.pending_accept_refuses = self.pending_accept_refuses + 1;
    }

    /// Decision received from the engine in response to a previously emitted
    /// `OpenRequest`. A decision with no matching request is an inconsistent
    /// state report and is discarded whole. When several `OpenRequest`s were
    /// emitted in a row, every decision but the last is obsolete and only
    /// lowers the counter. The decision resolving the last request is
    /// applied: `Accept` sends its payload as the handshake on the held
    /// substream, and does nothing if the substream is gone in the meantime;
    /// `Refuse` drops the held substream unconditionally.
    pub fn inject_event(&mut self, message: NotifsInHandlerIn)
        requires
            old(self).wf(),
        ensures
            final(self)@ == spec_inject_event(old(self)@, message@),
            final(self).wf(),
            old(self)@.pending == 0 ==> final(self)@ == old(self)@,
    {
        if self.pending_accept_refuses == 0 {
            return ;
        }
        self.pending_accept_refuses = self.pending_accept_refuses - 1;
        if self.pending_accept_refuses != 0 {
            return ;
        }
        match message {
            NotifsInHandlerIn::Accept(msg) => {
                match &mut self.substream {
                    Some(sub) => sub.send_handshake(msg),
                    None => {},
                }
            },
            NotifsInHandlerIn::Refuse => {
                self.substream = None;
            },
        }
    }

    /// A dial upgrade error concerns an outbound substream, which this
    /// inbound-only handler never opens; the report is absorbed without
    /// touching the state.
    pub fn inject_dial_upgrade_error(&mut self)
        ensures
            final(self)@ == old(self)@,
            *final(self) == *old(self),
    {
    }

    /// Whether the connection layer should keep the connection alive: yes
    /// while a substream is held (open or awaiting a decision), no when idle.
    pub fn connection_keep_alive(&self) -> (r: KeepAlive)
        ensures
            r == (if self@.substream is Some {
                KeepAlive::Yes
            } else {
                KeepAlive::No
            }),
    {
        if self.substream.is_some() {
            KeepAlive::Yes
        } else {
            KeepAlive::No
        }
    }

    /// One poll cycle, invoked repeatedly by the connection layer; never
    /// blocks and does bounded work. If the event queue is non-empty its
    /// front element is delivered and the substream is not advanced in the
    /// same cycle. Otherwise the held substream, if any, is advanced once: a
    /// waiting message is delivered as `Notif`, the end of the stream drops
    /// the substream and delivers `Closed`. `None` reports no progress this
    /// cycle.
    pub fn poll(&mut self) -> (r: Option<NotifsInHandlerOut>)
        requires
            old(self).wf(),
        ensures
            final(self)@ == spec_poll_state(old(self)@),
            opt_event_view(r) == spec_poll_event(old(self)@),
            final(self).wf(),
    {
        if !self.events_queue.is_empty() {
            let ev = self.events_queue.remove_front();
            return Some(ev);
        }
        let step = match &mut self.substream {
            Some(sub) => sub.poll(),
            None => SubstreamPoll::Pending,
        };
        match step {
            SubstreamPoll::Pending => None,
            SubstreamPoll::Message(msg) => Some(NotifsInHandlerOut::Notif(msg)),
            SubstreamPoll::Closed => {
                self.substream = None;
                Some(NotifsInHandlerOut::Closed)
            },
        }
    }
}

/// Whether the connection should be kept alive absent other activity.
#[derive(Clone, Copy, Debug, PartialEq, Eq, Structural)]
pub enum KeepAlive {
    /// Keep the connection open.
    Yes,
    /// The connection may be reclaimed.
    No,
}


/// Sequence of events yielded by `n` successive poll cycles starting at `h`.
pub open spec fn spec_polled_events(h: HandlerView, n: nat) -> Seq<OutEventView>
    decreases n,
{
    if n == 0 {
        Seq::empty()
    } else {
        match spec_poll_event(h) {
            Some(ev) => seq![ev] + spec_polled_events(spec_poll_state(h), (n - 1) as nat),
            None => Seq::empty(),
        }
    }
}

/// State after `n` successive poll cycles starting at `h`.
pub open spec fn spec_poll_n(h: HandlerView, n: nat) -> HandlerView
    decreases n,
{
    if n == 0 {
        h
    } else {
        spec_poll_n(spec_poll_state(h), (n - 1) as nat)
    }
}

/// Law: output events are delivered in the exact order they were generated,
/// however many accumulate before the poll cycles drain them. As long as
/// queued events remain, each poll cycle returns the front one and leaves
/// the substream and the pending counter alone: draining any
/// `n <= queue.len()` events yields exactly the first `n` queued events, in
/// their order, with the rest still queued and everything else untouched.
pub proof fn lemma_events_delivered_in_order(h: HandlerView, n: nat)
    requires
        n <= h.queue.len(),
    ensures
        spec_polled_events(h, n) == h.queue.take(n as int),
        spec_poll_n(h, n) == (HandlerView { queue: h.queue.skip(n as int), ..h }),
    decreases n,
{
    if n == 0 {
        assert(h.queue.take(0) =~= Seq::<OutEventView>::empty());
        assert(h.queue.skip(0) =~= h.queue);
        assert(spec_poll_n(h, 0) =~= (HandlerView { queue: h.queue.skip(0), ..h }));
    } else {
        let h1 = spec_poll_state(h);
        assert(h1 == (HandlerView { queue: h.queue.drop_first(), ..h }));
        lemma_events_delivered_in_order(h1, (n - 1) as nat);
        assert(h1.queue.skip(n as int - 1) =~= h.queue.skip(n as int));
        assert(spec_poll_n(h, n) =~= (HandlerView { queue: h.queue.skip(n as int), ..h }));
        assert(seq![h.queue[0]] + h1.queue.take(n as int - 1) =~= h.queue.take(n as int));
    }
}

/// Law: when more than one `OpenRequest` is outstanding, a decision is
/// superseded: it lowers the pending counter and has no other effect. Only
/// the decision resolving the last outstanding request is applied: after two
/// outstanding `OpenRequest`s, a first decision of either sort is discarded,
/// and a second accept sends its own payload on the held substream.
pub proof fn lemma_stale_decision_superseded(h: HandlerView, first: InEventView, payload: Seq<u8>)
    requires
        h.pending == 2,
        h.substream is Some,
    ensures
        spec_inject_event(h, first) == (HandlerView { pending: 1, ..h }),
        ({
            let h2 = spec_inject_event(spec_inject_event(h, first), InEventView::Accept(payload));
            &&& h2.substream is Some
            &&& h2.substream->Some_0.handshake == Some(payload)
            &&& h2.pending == 0
            &&& h2.queue == h.queue
        }),
{
}

/// Law: an accepted payload is presented to the substream's one-shot
/// handshake operation unchanged, and exactly once. The decision resolving
/// the last outstanding request finds a substream that holds no handshake
/// yet (the handler's well-formedness) and installs exactly the accepted
/// payload on it, leaving the inbound messages, the event queue and the
/// protocol as they were.
pub proof fn lemma_accept_round_trip(h: HandlerView, payload: Seq<u8>)
    requires
        h.pending == 1,
        h.substream is Some,
        h.substream->Some_0.handshake is None,
    ensures
        ({
            let h2 = spec_inject_event(h, InEventView::Accept(payload));
            &&& h2.substream is Some
            &&& h2.substream->Some_0.handshake == Some(payload)
            &&& h2.substream->Some_0.incoming == h.substream->Some_0.incoming
            &&& h2.substream->Some_0.closed == h.substream->Some_0.closed
            &&& h2.pending == 0
            &&& h2.queue == h.queue
            &&& h2.protocol == h.protocol
        }),
{
}


/// State after the decisions `ms` are received, in order.
pub open spec fn spec_inject_events(h: HandlerView, ms: Seq<InEventView>) -> HandlerView
    decreases ms.len(),
{
    if ms.len() == 0 {
        h
    } else {
        spec_inject_events(spec_inject_event(h, ms[0]), ms.drop_first())
    }
}

/// Law: over a whole run of outstanding `OpenRequest`s, only the last
/// decision matters. With `n >= 1` requests outstanding and `n` decisions
/// arriving in order, the first `n - 1` decisions, whatever they are, only
/// count the pending counter down, and the run ends in exactly the state
/// reached by applying the last decision alone to a handler with a single
/// outstanding request.
pub proof fn lemma_only_last_decision_applies(h: HandlerView, ms: Seq<InEventView>)
    requires
        ms.len() >= 1,
        h.pending == ms.len(),
    ensures
        spec_inject_events(h, ms) == spec_inject_event(
            (HandlerView { pending: 1, ..h }),
            ms.last(),
        ),
    decreases ms.len(),
{
    if ms.len() == 1 {
        assert(h =~= (HandlerView { pending: 1, ..h }));
        assert(spec_inject_events(spec_inject_event(h, ms[0]), ms.drop_first())
            == spec_inject_event(h, ms[0]));
    } else {
        let h1 = spec_inject_event(h, ms[0]);
        lemma_only_last_decision_applies(h1, ms.drop_first());
        assert((HandlerView { pending: 1, ..h1 }) =~= (HandlerView { pending: 1, ..h }));
        assert(ms.drop_first().last() == ms.last());
    }
}

} // verus!


