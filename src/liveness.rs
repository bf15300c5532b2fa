use vstd::prelude::*;

use crate::message::{DecodeError, KeepAlive};

verus! {

/// The deadline set at time `now` for a grace period of `grace`, both in
/// milliseconds; it saturates at the end of representable time.
pub open spec fn deadline_after(now: u64, grace: u64) -> u64 {
    if now + grace > u64::MAX {
        u64::MAX
    } else {
        (now + grace) as u64
    }
}

/// The server has been silent too long: the deadline has passed at `now`.
pub open spec fn silent_at(deadline: u64, now: u64) -> bool {
    now >= deadline
}

/// What reached the sensor side while it waited.
#[derive(Debug)]
pub enum ClientEvent {
    /// A line from the server, decoded as a keep-alive or not.
    KeepAliveLine(Result<KeepAlive, DecodeError>),
    /// The server closed the connection or reading from it failed.
    ConnectionLost,
    /// The timer set to the deadline fired.
    DeadlineReached,
    /// The sensor's own measurement interval ticked.
    SendTick,
    /// The process was asked to shut down.
    Interrupted,
}

#[derive(Clone, Copy, Debug, PartialEq, Eq, Structural)]
pub enum AbortReason {
    /// No keep-alive arrived within the grace period.
    Silent,
    /// The connection is gone.
    Lost,
}

/// What the sensor side does in reply.
#[derive(Clone, Copy, Debug, PartialEq, Eq, Structural)]
pub enum ClientAction {
    /// A healthy keep-alive arrived: the deadline moved on.
    Refreshed,
    /// The server says something is wrong; it is alive, so the deadline
    /// moved on all the same.
    ServerUnwell,
    /// The line was not a keep-alive; it is ignored.
    IgnoreLine(DecodeError),
    /// Nothing to do yet.
    Wait,
    /// Send the next measurement.
    SendMeasurement,
    /// Give the connection up.
    Abort(AbortReason),
    /// Stop cleanly.
    Shutdown,
}

/// The sensor side's view of whether the server is still alive: a deadline,
/// moved to `now + grace` on every keep-alive received, whatever it reports.
#[derive(Clone, Copy, Debug)]
pub struct LivenessMonitor {
    deadline: u64,
    grace: u64,
}

impl LivenessMonitor {
    pub closed spec fn spec_deadline(&self) -> u64 {
        self.deadline
    }

    pub closed spec fn spec_grace(&self) -> u64 {
        self.grace
    }

    /// A monitor for a connection opened at `now`.
    pub fn new(now: u64, grace: u64) -> (m: LivenessMonitor)
        ensures
            m.spec_deadline() == deadline_after(now, grace),
            m.spec_grace() == grace,
    {
        LivenessMonitor { deadline: now.saturating_add(grace), grace }
    }

    /// The time by which the next healthy keep-alive is due.
    pub fn deadline(&self) -> (r: u64)
        ensures
            r == self.spec_deadline(),
    {
        self.deadline
    }

    pub fn grace(&self) -> (r: u64)
        ensures
            r == self.spec_grace(),
    {
        self.grace
    }

    /// The deadline has passed at `now`.
    pub fn is_expired(&self, now: u64) -> (r: bool)
        ensures
            r == silent_at(self.spec_deadline(), now),
    {
        now >= self.deadline
    }

    /// Decides on `event`, which happened at `now`. Once the deadline has
    /// passed, every event but a shutdown request aborts the connection.
    pub fn step(&mut self, now: u64, event: ClientEvent) -> (r: ClientAction)
        ensures
            final(self).spec_grace() == old(self).spec_grace(),
            event is Interrupted ==> r == ClientAction::Shutdown && *final(self) == *old(self),
            !(event is Interrupted) && silent_at(old(self).spec_deadline(), now) ==> r == ClientAction::Abort(
                AbortReason::Silent,
            ) && *final(self) == *old(self),
            !(event is Interrupted) && !silent_at(old(self).spec_deadline(), now) ==> match event {
                ClientEvent::KeepAliveLine(Ok(k)) => {
                    &&& final(self).spec_deadline() == deadline_after(now, old(self).spec_grace())
                    &&& k.everything_is_fine ==> r == ClientAction::Refreshed
                    &&& !k.everything_is_fine ==> r == ClientAction::ServerUnwell
                },
                ClientEvent::KeepAliveLine(Err(e)) => r == ClientAction::IgnoreLine(e) && *final(self) == *old(self),
                ClientEvent::ConnectionLost => r == ClientAction::Abort(AbortReason::Lost) && *final(self) == *old(self),
                ClientEvent::DeadlineReached => r == ClientAction::Wait && *final(self) == *old(self),
                ClientEvent::SendTick => r == ClientAction::SendMeasurement && *final(self) == *old(self),
                ClientEvent::Interrupted => r == ClientAction::Shutdown,
            },
    {
        if let ClientEvent::Interrupted = event {
            return ClientAction::Shutdown;
        }
        if now >= self.deadline {
            return ClientAction::Abort(AbortReason::Silent);
        }
        match event {
            ClientEvent::KeepAliveLine(Ok(k)) => {
                self.deadline = now.saturating_add(self.grace);
                if k.everything_is_fine {
                    ClientAction::Refreshed
                } else {
                    ClientAction::ServerUnwell
                }
            },
            ClientEvent::KeepAliveLine(Err(e)) => ClientAction::IgnoreLine(e),
            ClientEvent::ConnectionLost => ClientAction::Abort(AbortReason::Lost),
            ClientEvent::DeadlineReached => ClientAction::Wait,
            ClientEvent::SendTick => ClientAction::SendMeasurement,
            ClientEvent::Interrupted => ClientAction::Shutdown,
        }
    }
}

/// A sensor that has heard no keep-alive since `t0` (its deadline was
/// last set then, by `new` or by a refresh) is silent once more than the grace
/// period has gone by, and so `step` aborts on every event but a shutdown.
pub proof fn lemma_silence_past_grace_aborts(m: LivenessMonitor, t0: u64, now: u64)
    requires
        m.spec_deadline() == deadline_after(t0, m.spec_grace()),
        now > t0 + m.spec_grace(),
    ensures
        silent_at(m.spec_deadline(), now),
{
}

} // verus!
