//! The handler's queue of not-yet-delivered output events.
//!
//! The queue is a `smallvec::SmallVec`, used strictly as a FIFO: elements are
//! inserted at the back and removed from the front. The vector is held in a
//! struct opaque to the verifier; its contents are named by the
//! uninterpreted function [`queue_events`], and each operation the handler
//! needs is a trusted wrapper whose contract states what the operation does
//! to those contents, as `smallvec`'s documentation gives it.

use vstd::prelude::*;
use crate::events::NotifsInHandlerOut;
use crate::events::OutEventView;

verus! {

/// FIFO of output events awaiting delivery, backed by a
/// `smallvec::SmallVec` with sixteen inline slots.
#[verifier::external_body]
pub struct EventQueue {
    inner: smallvec::SmallVec<[NotifsInHandlerOut; 16]>,
}

/// The events held by a queue, front first.
pub uninterp spec fn queue_events(q: EventQueue) -> Seq<OutEventView>;

impl EventQueue {
    /// Relies on `smallvec::SmallVec::new`: the constructed vector is empty.
    #[verifier::external_body]
    pub(crate) fn new() -> (r: EventQueue)
        ensures
            queue_events(r) == Seq::<OutEventView>::empty(),
    {
        EventQueue { inner: smallvec::SmallVec::new() }
    }

    /// Relies on `smallvec::SmallVec::is_empty`: true exactly when the
    /// length is zero.
    #[verifier::external_body]
    pub(crate) fn is_empty(&self) -> (r: bool)
        ensures
            r <==> queue_events(*self).len() == 0,
    {
        self.inner.is_empty()
    }

    /// Relies on `smallvec::SmallVec::push`: appends the item at the back.
    #[verifier::external_body]
    pub(crate) fn push_back(&mut self, ev: NotifsInHandlerOut)
        ensures
            queue_events(*final(self)) == queue_events(*old(self)).push(ev@),
    {
        self.inner.push(ev)
    }

    /// Relies on `smallvec::SmallVec::remove`: removes and returns the
    /// element at the index, shifting all elements after it to the left; it
    /// panics when the index is out of bounds, so the queue must not be
    /// empty.
    #[verifier::external_body]
    pub(crate) fn remove_front(&mut self) -> (r: NotifsInHandlerOut)
        requires
            queue_events(*old(self)).len() > 0,
        ensures
            r@ == queue_events(*old(self))[0],
            queue_events(*final(self)) == queue_events(*old(self)).drop_first(),
    {
        self.inner.remove(0)
    }
}

} // verus!
