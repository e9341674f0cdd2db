use open_rdma_driver::responder::{ResponderAction, ResponderState};

#[test]
fn in_order_requests_advance_and_wrap() {
    let mut r = ResponderState::new(0xFF_FFFF);
    assert_eq!(r.on_request(0xFF_FFFF, false, false), ResponderAction::Process { ack: None });
    assert_eq!(r.expected_psn, 0);
    assert_eq!(r.on_request(0, true, false), ResponderAction::Process { ack: Some(1) });
    assert_eq!(r.on_request(1, false, true), ResponderAction::Process { ack: Some(1) });
    assert_eq!(r.expected_psn, 2);
    assert_eq!(r.msn, 1);
}

#[test]
fn duplicates_are_acknowledged_again() {
    let mut r = ResponderState::new(10);
    r.on_request(10, true, false);
    let before = r;
    assert_eq!(r.on_request(10, true, false), ResponderAction::Duplicate { ack_msn: 1 });
    assert_eq!(r, before);
    let mut w = ResponderState::new(2);
    assert_eq!(w.on_request(0xFF_FFFE, false, false), ResponderAction::Duplicate { ack_msn: 0 });
}

#[test]
fn requests_ahead_get_a_nak() {
    let mut r = ResponderState::new(5);
    assert_eq!(r.on_request(7, false, false), ResponderAction::OutOfOrder { expected_psn: 5 });
    assert_eq!(r.expected_psn, 5);
    let mut w = ResponderState::new(0xFF_FFFE);
    assert_eq!(w.on_request(3, false, false), ResponderAction::OutOfOrder { expected_psn: 0xFF_FFFE });
    assert_eq!(w.distance(3), 5);
}
