//! Events exchanged between the handler and the engine above it.

use vstd::prelude::*;

verus! {

/// Event that can be received by a `NotifsInHandler`: the engine's decision
/// in response to a previously emitted `OpenRequest`.
#[derive(Debug)]
pub enum NotifsInHandlerIn {
    /// Accept the inbound substream, sending this handshake payload to the
    /// remote. The substream is then considered open, and `Notif` events can
    /// be received.
    Accept(Vec<u8>),
    /// Reject the inbound substream.
    Refuse,
}

/// Ghost view of [`NotifsInHandlerIn`].
pub enum InEventView {
    Accept(Seq<u8>),
    Refuse,
}

impl View for NotifsInHandlerIn {
    type V = InEventView;

    open spec fn view(&self) -> InEventView {
        match self {
            NotifsInHandlerIn::Accept(payload) => InEventView::Accept(payload@),
            NotifsInHandlerIn::Refuse => InEventView::Refuse,
        }
    }
}

/// Event that can be emitted by a `NotifsInHandler` towards the engine.
#[derive(Debug, PartialEq)]
pub enum NotifsInHandlerOut {
    /// The remote wants to open a substream. Every time this event is
    /// emitted, a corresponding `Accept` or `Refuse` is expected back.
    OpenRequest,
    /// The notifications substream has been closed by the remote. In order to
    /// avoid race conditions, this does **not** cancel any previously-sent
    /// `OpenRequest`.
    Closed,
    /// One message received on the notifications substream. Can only happen
    /// after an `Accept` and before a `Closed`.
    Notif(Vec<u8>),
}

/// Ghost view of [`NotifsInHandlerOut`].
pub enum OutEventView {
    OpenRequest,
    Closed,
    Notif(Seq<u8>),
}

impl View for NotifsInHandlerOut {
    type V = OutEventView;

    open spec fn view(&self) -> OutEventView {
        match self {
            NotifsInHandlerOut::OpenRequest => OutEventView::OpenRequest,
            NotifsInHandlerOut::Closed => OutEventView::Closed,
            NotifsInHandlerOut::Notif(msg) => OutEventView::Notif(msg@),
        }
    }
}

} // verus!
