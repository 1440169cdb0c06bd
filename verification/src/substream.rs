//! Model of a negotiated inbound notification substream.
//!
//! The negotiation procedure itself is an external collaborator: it hands the
//! handler a ready substream. The handler only ever reads two things from
//! that object: the inbound messages it yields until the remote closes it,
//! and the one-shot handshake-send operation used when accepting. This type
//! holds exactly that as plain values; the transport side fills the inbound
//! queue and marks the remote closure.

use vstd::prelude::*;

verus! {

/// Ghost view of a [`Substream`].
pub struct SubstreamView {
    /// Handshake payload sent from this side, if any was sent yet.
    pub handshake: Option<Seq<u8>>,
    /// Messages delivered by the transport and not yet read by the handler.
    pub incoming: Seq<Seq<u8>>,
    /// Whether the remote has closed its side.
    pub closed: bool,
}

/// A single negotiated, bidirectional substream, as seen by the handler.
pub struct Substream {
    /// Handshake payload sent from this side, if any was sent yet.
    pub handshake: Option<Vec<u8>>,
    /// Messages delivered by the transport and not yet read by the handler,
    /// front first.
    pub incoming: Vec<Vec<u8>>,
    /// Whether the remote has closed its side.
    pub closed: bool,
}

impl View for Substream {
    type V = SubstreamView;

    open spec fn view(&self) -> SubstreamView {
        SubstreamView {
            handshake: self.handshake.deep_view(),
            incoming: self.incoming.deep_view(),
            closed: self.closed,
        }
    }
}

/// Outcome of advancing a substream once without blocking.
#[derive(Debug, PartialEq)]
pub enum SubstreamPoll {
    /// Nothing to report yet; the substream is still open.
    Pending,
    /// One inbound message.
    Message(Vec<u8>),
    /// The remote closed the substream and everything it sent was read.
    Closed,
}

impl Substream {
    /// A freshly negotiated substream: no handshake sent, nothing received,
    /// still open.
    pub fn new() -> (r: Substream)
        ensures
            r@.handshake is None,
            r@.incoming.len() == 0,
            !r@.closed,
    {
        Substream { handshake: None, incoming: Vec::new(), closed: false }
    }

    /// Transport side: one message from the remote arrives.
    pub fn push_message(&mut self, msg: Vec<u8>)
        ensures
            final(self)@.handshake == old(self)@.handshake,
            final(self)@.incoming == old(self)@.incoming.push(msg@),
            final(self)@.closed == old(self)@.closed,
    {
        self.incoming.push(msg);
        proof {
            assert(self@.incoming =~~= old(self)@.incoming.push(msg@));
        }
    }

    /// Transport side: the remote closed its side of the substream.
    pub fn remote_close(&mut self)
        ensures
            final(self)@.handshake == old(self)@.handshake,
            final(self)@.incoming == old(self)@.incoming,
            final(self)@.closed,
    {
        self.closed = true;
    }

    /// Send the one-shot handshake payload that finalizes the open handshake
    /// from this side. Valid only while no handshake has been sent.
    pub fn send_handshake(&mut self, message: Vec<u8>)
        requires
            old(self)@.handshake is None,
        ensures
            final(self)@.handshake == Some(message@),
            final(self)@.incoming == old(self)@.incoming,
            final(self)@.closed == old(self)@.closed,
    {
        self.handshake = Some(message);
    }

    /// Advance the substream once without blocking: yield the next inbound
    /// message if one is waiting, report the closure once everything the
    /// remote sent was read, and otherwise report no progress.
    pub fn poll(&mut self) -> (r: SubstreamPoll)
        ensures
            final(self)@.handshake == old(self)@.handshake,
            final(self)@.closed == old(self)@.closed,
            old(self)@.incoming.len() > 0 ==> {
                &&& (r matches SubstreamPoll::Message(m) && m@ == old(self)@.incoming[0])
                &&& final(self)@.incoming == old(self)@.incoming.drop_first()
            },
            old(self)@.incoming.len() == 0 ==> {
                &&& final(self)@.incoming == old(self)@.incoming
                &&& r == (if old(self)@.closed { SubstreamPoll::Closed } else {
                    SubstreamPoll::Pending
                })
            },
    {
        if self.incoming.len() > 0 {
            let msg = self.incoming.remove(0);
            proof {
                assert(self@.incoming =~~= old(self)@.incoming.drop_first());
            }
            SubstreamPoll::Message(msg)
        } else if self.closed {
            SubstreamPoll::Closed
        } else {
            SubstreamPoll::Pending
        }
    }
}

} // verus!
