use data_sink::liveness::{AbortReason, ClientAction, ClientEvent, LivenessMonitor};
use data_sink::message::{DecodeError, KeepAlive};

#[test]
fn silence_longer_than_grace_aborts() {
    let mut m = LivenessMonitor::new(1_000, 5_000);
    assert_eq!(m.deadline(), 6_000);
    assert_eq!(m.step(3_000, ClientEvent::SendTick), ClientAction::SendMeasurement);
    assert!(m.is_expired(7_000));
    assert_eq!(
        m.step(7_000, ClientEvent::DeadlineReached),
        ClientAction::Abort(AbortReason::Silent)
    );
}

#[test]
fn healthy_keep_alive_moves_the_deadline() {
    let mut m = LivenessMonitor::new(0, 5_000);
    let ok = ClientEvent::KeepAliveLine(Ok(KeepAlive { everything_is_fine: true }));
    assert_eq!(m.step(4_000, ok), ClientAction::Refreshed);
    assert_eq!(m.deadline(), 9_000);
    assert_eq!(m.step(6_000, ClientEvent::DeadlineReached), ClientAction::Wait);
}

#[test]
fn unwell_keep_alive_still_refreshes() {
    let mut m = LivenessMonitor::new(0, 5_000);
    let unwell = ClientEvent::KeepAliveLine(Ok(KeepAlive { everything_is_fine: false }));
    assert_eq!(m.step(1_000, unwell), ClientAction::ServerUnwell);
    assert_eq!(m.deadline(), 6_000);
}

#[test]
fn malformed_line_does_not_refresh() {
    let mut m = LivenessMonitor::new(0, 5_000);
    let bad = ClientEvent::KeepAliveLine(Err(DecodeError::Syntax));
    assert_eq!(m.step(2_000, bad), ClientAction::IgnoreLine(DecodeError::Syntax));
    assert_eq!(m.deadline(), 5_000);
}

#[test]
fn lost_connection_and_shutdown() {
    let mut m = LivenessMonitor::new(0, 5_000);
    assert_eq!(m.step(10, ClientEvent::ConnectionLost), ClientAction::Abort(AbortReason::Lost));
    assert_eq!(m.step(99_000, ClientEvent::Interrupted), ClientAction::Shutdown);
}

#[test]
fn deadline_saturates() {
    let m = LivenessMonitor::new(u64::MAX - 1, 5_000);
    assert_eq!(m.deadline(), u64::MAX);
    assert_eq!(m.grace(), 5_000);
}
