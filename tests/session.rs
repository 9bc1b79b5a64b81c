use rs_ts_api::session::{Session, SessionAction, SessionEvent};

#[test]
fn values_reach_sink_in_production_order() {
    let mut s = Session::new();
    assert_eq!(s.step(SessionEvent::Produced), SessionAction::Relay(0));
    assert_eq!(s.step(SessionEvent::Produced), SessionAction::Relay(1));
    assert_eq!(s.step(SessionEvent::Received), SessionAction::Deliver(0));
    assert_eq!(s.step(SessionEvent::Produced), SessionAction::Relay(2));
    assert_eq!(s.step(SessionEvent::Received), SessionAction::Deliver(1));
    assert_eq!(s.step(SessionEvent::Received), SessionAction::Deliver(2));
    assert_eq!(s.step(SessionEvent::Exhausted), SessionAction::CloseRelay);
    assert_eq!(s.step(SessionEvent::RelayDrained), SessionAction::Finish);
    assert!(!s.is_open());
}

#[test]
fn cancellation_stops_production_and_delivery() {
    let mut s = Session::new();
    assert_eq!(s.step(SessionEvent::Produced), SessionAction::Relay(0));
    assert_eq!(s.step(SessionEvent::Cancelled), SessionAction::TearDown);
    assert!(!s.is_open());
    assert_eq!(s.step(SessionEvent::Produced), SessionAction::Ignore);
    assert_eq!(s.step(SessionEvent::Received), SessionAction::Ignore);
    assert_eq!(s.step(SessionEvent::RelayDrained), SessionAction::Ignore);
}

#[test]
fn slow_sink_drops_nothing() {
    let mut s = Session::new();
    for n in 0..25u64 {
        assert_eq!(s.step(SessionEvent::Produced), SessionAction::Relay(n));
    }
    for n in 0..25u64 {
        assert_eq!(s.step(SessionEvent::Received), SessionAction::Deliver(n));
    }
    assert_eq!(s.step(SessionEvent::Received), SessionAction::Ignore);
}

#[test]
fn failures_tear_session_down() {
    let mut s = Session::new();
    assert_eq!(s.step(SessionEvent::EncodeFailed), SessionAction::TearDown);
    assert!(!s.is_open());
    let mut s = Session::new();
    assert_eq!(s.step(SessionEvent::SinkClosed), SessionAction::TearDown);
    assert_eq!(s.step(SessionEvent::Produced), SessionAction::Ignore);
}

#[test]
fn nothing_produced_after_exhaustion() {
    let mut s = Session::new();
    assert_eq!(s.step(SessionEvent::Exhausted), SessionAction::CloseRelay);
    assert_eq!(s.step(SessionEvent::Produced), SessionAction::Ignore);
    assert_eq!(s.step(SessionEvent::Exhausted), SessionAction::Ignore);
    assert!(s.is_open());
}

#[test]
fn drained_relay_with_running_producer_tears_down() {
    let mut s = Session::new();
    assert_eq!(s.step(SessionEvent::Produced), SessionAction::Relay(0));
    assert_eq!(s.step(SessionEvent::Received), SessionAction::Deliver(0));
    assert_eq!(s.step(SessionEvent::RelayDrained), SessionAction::TearDown);
    assert!(!s.is_open());
}

#[test]
fn drained_relay_with_undelivered_value_tears_down() {
    let mut s = Session::new();
    assert_eq!(s.step(SessionEvent::Produced), SessionAction::Relay(0));
    assert_eq!(s.step(SessionEvent::Exhausted), SessionAction::CloseRelay);
    assert_eq!(s.step(SessionEvent::RelayDrained), SessionAction::TearDown);
}

#[test]
fn empty_sequence_finishes() {
    let mut s = Session::new();
    assert_eq!(s.step(SessionEvent::Exhausted), SessionAction::CloseRelay);
    assert_eq!(s.step(SessionEvent::RelayDrained), SessionAction::Finish);
}
