use vstd::prelude::*;

use crate::message::{DecodeError, KeepAlive};

verus! {

/// State of the protocol of one connection.
#[derive(Clone, Copy, Debug, PartialEq, Eq, Structural)]
pub enum ConnectionState {
    Reading,
    Closed,
}

/// What became ready first while the handler waited: a line, decoded into a
/// measurement `M` or not, the heartbeat timer, or a failure of the socket or
/// of the channel.
#[derive(Debug)]
pub enum HandlerEvent<M> {
    Line(Result<M, DecodeError>),
    HeartbeatTick,
    PeerClosed,
    ReadFailed,
    WriteFailed,
    ChannelClosed,
}

/// What the handler does in reply.
#[derive(Clone, Debug)]
pub enum HandlerAction<M> {
    /// Hand the measurement to the channel.
    Forward(M),
    /// Report the bad line and keep reading.
    ReportDecodeError(DecodeError),
    /// Write this keep-alive, newline-terminated, to the peer.
    SendHeartbeat(KeepAlive),
    /// Release the socket and end this handler only.
    Close,
    /// Nothing to do: the connection is already closed.
    Idle,
}

/// The decision of a connection handler on one event. Every decoded line is
/// forwarded once, every tick writes one heartbeat, a bad line is reported
/// without ending the connection, and any I/O failure or orderly close ends it.
pub fn handler_step<M>(state: ConnectionState, event: HandlerEvent<M>) -> (r: (
    ConnectionState,
    HandlerAction<M>,
))
    ensures
        state == ConnectionState::Closed ==> r.0 == ConnectionState::Closed && r.1 is Idle,
        state == ConnectionState::Reading ==> match event {
            HandlerEvent::Line(Ok(m)) => r.0 == ConnectionState::Reading && r.1 == HandlerAction::<
                M,
            >::Forward(m),
            HandlerEvent::Line(Err(e)) => r.0 == ConnectionState::Reading && r.1
                == HandlerAction::<M>::ReportDecodeError(e),
            HandlerEvent::HeartbeatTick => r.0 == ConnectionState::Reading && r.1
                == HandlerAction::<M>::SendHeartbeat(KeepAlive { everything_is_fine: true }),
            _ => r.0 == ConnectionState::Closed && r.1 is Close,
        },
{
    match state {
        ConnectionState::Closed => (ConnectionState::Closed, HandlerAction::Idle),
        ConnectionState::Reading => match event {
            HandlerEvent::Line(Ok(m)) => (ConnectionState::Reading, HandlerAction::Forward(m)),
            HandlerEvent::Line(Err(e)) => (
                ConnectionState::Reading,
                HandlerAction::ReportDecodeError(e),
            ),
            HandlerEvent::HeartbeatTick => (
                ConnectionState::Reading,
                HandlerAction::SendHeartbeat(KeepAlive::healthy()),
            ),
            HandlerEvent::PeerClosed => (ConnectionState::Closed, HandlerAction::Close),
            HandlerEvent::ReadFailed => (ConnectionState::Closed, HandlerAction::Close),
            HandlerEvent::WriteFailed => (ConnectionState::Closed, HandlerAction::Close),
            HandlerEvent::ChannelClosed => (ConnectionState::Closed, HandlerAction::Close),
        },
    }
}

} // verus!
