//! Scenario tests driving the inbound-substream handler through its public
//! interface.

use notifs_in::events::NotifsInHandlerIn;
use notifs_in::events::NotifsInHandlerOut;
use notifs_in::notif_in::KeepAlive;
use notifs_in::notif_in::NotifsInHandler;
use notifs_in::notif_in::NotifsInHandlerProto;
use notifs_in::substream::Substream;

fn fresh_handler() -> NotifsInHandler {
    NotifsInHandlerProto::new(b"/notifications/1".to_vec()).into_handler()
}

#[test]
fn protocol_names_carry_over() {
    let proto = NotifsInHandlerProto::new(b"/notifications/1".to_vec());
    assert_eq!(
        proto.inbound_protocol().protocol_name(),
        &b"/notifications/1".to_vec()
    );
    let handler = proto.into_handler();
    assert_eq!(handler.protocol_name(), &b"/notifications/1".to_vec());
    assert_eq!(
        handler.listen_protocol().protocol_name(),
        &b"/notifications/1".to_vec()
    );
}

#[test]
fn fresh_handler_is_idle() {
    let mut handler = fresh_handler();
    assert_eq!(handler.pending_accept_refuses, 0);
    assert!(handler.substream.is_none());
    assert_eq!(handler.connection_keep_alive(), KeepAlive::No);
    assert_eq!(handler.poll(), None);
}

#[test]
fn scenario_accept_then_notifications() {
    let mut handler = fresh_handler();
    handler.inject_fully_negotiated_inbound(Substream::new());
    assert_eq!(handler.poll(), Some(NotifsInHandlerOut::OpenRequest));
    handler.inject_event(NotifsInHandlerIn::Accept(b"hi".to_vec()));
    assert_eq!(
        handler.substream.as_ref().unwrap().handshake,
        Some(b"hi".to_vec())
    );
    handler.substream.as_mut().unwrap().push_message(b"m1".to_vec());
    handler.substream.as_mut().unwrap().push_message(b"m2".to_vec());
    assert_eq!(
        handler.poll(),
        Some(NotifsInHandlerOut::Notif(b"m1".to_vec()))
    );
    assert_eq!(
        handler.poll(),
        Some(NotifsInHandlerOut::Notif(b"m2".to_vec()))
    );
    assert_eq!(handler.poll(), None);
    assert_eq!(handler.connection_keep_alive(), KeepAlive::Yes);
}

#[test]
fn scenario_refuse_drops_substream() {
    let mut handler = fresh_handler();
    handler.inject_fully_negotiated_inbound(Substream::new());
    assert_eq!(handler.poll(), Some(NotifsInHandlerOut::OpenRequest));
    handler.inject_event(NotifsInHandlerIn::Refuse);
    assert!(handler.substream.is_none());
    assert_eq!(handler.connection_keep_alive(), KeepAlive::No);
    // No spurious `Closed` after a refusal.
    assert_eq!(handler.poll(), None);
}

#[test]
fn scenario_duplicate_substream_is_discarded() {
    let mut handler = fresh_handler();
    let mut first = Substream::new();
    first.push_message(b"from-first".to_vec());
    handler.inject_fully_negotiated_inbound(first);
    let mut second = Substream::new();
    second.push_message(b"from-second".to_vec());
    handler.inject_fully_negotiated_inbound(second);
    // Exactly one `OpenRequest` was queued and the counter rose once.
    assert_eq!(handler.pending_accept_refuses, 1);
    assert_eq!(handler.poll(), Some(NotifsInHandlerOut::OpenRequest));
    // The held substream is still the first one.
    assert_eq!(
        handler.poll(),
        Some(NotifsInHandlerOut::Notif(b"from-first".to_vec()))
    );
    assert_eq!(handler.poll(), None);
}

#[test]
fn scenario_peer_closes_before_decision() {
    let mut handler = fresh_handler();
    handler.inject_fully_negotiated_inbound(Substream::new());
    assert_eq!(handler.poll(), Some(NotifsInHandlerOut::OpenRequest));
    handler.substream.as_mut().unwrap().remote_close();
    assert_eq!(handler.poll(), Some(NotifsInHandlerOut::Closed));
    assert!(handler.substream.is_none());
    // The late decision resolves the open request against an absent
    // substream: a no-op, no crash, no event.
    handler.inject_event(NotifsInHandlerIn::Accept(b"late".to_vec()));
    assert_eq!(handler.pending_accept_refuses, 0);
    assert!(handler.substream.is_none());
    assert_eq!(handler.poll(), None);
    assert_eq!(handler.connection_keep_alive(), KeepAlive::No);
}

#[test]
fn decision_without_pending_request_is_discarded() {
    let mut handler = fresh_handler();
    handler.inject_event(NotifsInHandlerIn::Accept(b"hi".to_vec()));
    assert_eq!(handler.pending_accept_refuses, 0);
    assert!(handler.substream.is_none());
    assert_eq!(handler.poll(), None);
    handler.inject_event(NotifsInHandlerIn::Refuse);
    assert_eq!(handler.pending_accept_refuses, 0);
    assert_eq!(handler.poll(), None);
}

#[test]
fn stale_decision_is_superseded_by_the_last_one() {
    let mut handler = fresh_handler();
    handler.inject_fully_negotiated_inbound(Substream::new());
    assert_eq!(handler.poll(), Some(NotifsInHandlerOut::OpenRequest));
    handler.substream.as_mut().unwrap().remote_close();
    assert_eq!(handler.poll(), Some(NotifsInHandlerOut::Closed));
    // Rapid reopen before any decision: a second request is now pending.
    handler.inject_fully_negotiated_inbound(Substream::new());
    assert_eq!(handler.pending_accept_refuses, 2);
    assert_eq!(handler.poll(), Some(NotifsInHandlerOut::OpenRequest));
    // The first decision is obsolete: it only lowers the counter.
    handler.inject_event(NotifsInHandlerIn::Accept(b"first".to_vec()));
    assert_eq!(handler.pending_accept_refuses, 1);
    assert_eq!(handler.substream.as_ref().unwrap().handshake, None);
    // The last decision is the one applied.
    handler.inject_event(NotifsInHandlerIn::Accept(b"second".to_vec()));
    assert_eq!(handler.pending_accept_refuses, 0);
    assert_eq!(
        handler.substream.as_ref().unwrap().handshake,
        Some(b"second".to_vec())
    );
}

#[test]
fn queued_events_are_delivered_in_order_before_the_substream() {
    let mut handler = fresh_handler();
    let mut sub = Substream::new();
    sub.push_message(b"m1".to_vec());
    sub.push_message(b"m2".to_vec());
    handler.inject_fully_negotiated_inbound(sub);
    // The queued `OpenRequest` comes out before the substream is advanced,
    // even though messages are already waiting on the substream; then the
    // messages come out in the order they were generated.
    assert_eq!(handler.poll(), Some(NotifsInHandlerOut::OpenRequest));
    assert_eq!(
        handler.poll(),
        Some(NotifsInHandlerOut::Notif(b"m1".to_vec()))
    );
    assert_eq!(
        handler.poll(),
        Some(NotifsInHandlerOut::Notif(b"m2".to_vec()))
    );
    assert_eq!(handler.poll(), None);
}

#[test]
fn accepted_payload_reaches_the_substream_unchanged() {
    let mut handler = fresh_handler();
    handler.inject_fully_negotiated_inbound(Substream::new());
    assert_eq!(handler.poll(), Some(NotifsInHandlerOut::OpenRequest));
    let payload = vec![0u8, 1, 2, 254, 255];
    handler.inject_event(NotifsInHandlerIn::Accept(payload.clone()));
    assert_eq!(
        handler.substream.as_ref().unwrap().handshake,
        Some(payload.clone())
    );
    // Further polling never touches the handshake again.
    assert_eq!(handler.poll(), None);
    assert_eq!(handler.substream.as_ref().unwrap().handshake, Some(payload));
}

#[test]
fn dial_upgrade_error_is_absorbed() {
    let mut handler = fresh_handler();
    handler.inject_fully_negotiated_inbound(Substream::new());
    handler.inject_dial_upgrade_error();
    assert_eq!(handler.pending_accept_refuses, 1);
    assert!(handler.substream.is_some());
    assert_eq!(handler.poll(), Some(NotifsInHandlerOut::OpenRequest));
}
