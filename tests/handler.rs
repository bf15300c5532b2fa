use data_sink::handler::{handler_step, ConnectionState, HandlerAction, HandlerEvent};
use data_sink::message::{DecodeError, KeepAlive};

#[test]
fn decoded_line_is_forwarded() {
    let (s, a) = handler_step(ConnectionState::Reading, HandlerEvent::Line(Ok(42u32)));
    assert_eq!(s, ConnectionState::Reading);
    assert!(matches!(a, HandlerAction::Forward(42)));
}

#[test]
fn bad_line_is_reported_and_reading_goes_on() {
    let (s, a) = handler_step::<u32>(
        ConnectionState::Reading,
        HandlerEvent::Line(Err(DecodeError::Schema)),
    );
    assert_eq!(s, ConnectionState::Reading);
    assert!(matches!(a, HandlerAction::ReportDecodeError(DecodeError::Schema)));
}

#[test]
fn tick_sends_a_healthy_heartbeat() {
    let (s, a) = handler_step::<u32>(ConnectionState::Reading, HandlerEvent::HeartbeatTick);
    assert_eq!(s, ConnectionState::Reading);
    match a {
        HandlerAction::SendHeartbeat(k) => assert_eq!(k, KeepAlive { everything_is_fine: true }),
        other => panic!("unexpected action {other:?}"),
    }
}

#[test]
fn io_failures_close_the_connection() {
    for ev in [
        HandlerEvent::<u32>::PeerClosed,
        HandlerEvent::ReadFailed,
        HandlerEvent::WriteFailed,
        HandlerEvent::ChannelClosed,
    ] {
        let (s, a) = handler_step(ConnectionState::Reading, ev);
        assert_eq!(s, ConnectionState::Closed);
        assert!(matches!(a, HandlerAction::Close));
    }
    let (s, a) = handler_step::<u32>(ConnectionState::Closed, HandlerEvent::HeartbeatTick);
    assert_eq!(s, ConnectionState::Closed);
    assert!(matches!(a, HandlerAction::Idle));
}
