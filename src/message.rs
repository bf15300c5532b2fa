use vstd::prelude::*;

verus! {

/// How a sensor feels. Carried for diagnostics only, never aggregated.
#[derive(Clone, Debug)]
pub enum Mood {
    Good,
    CouldBeBetter,
    Meh,
    Bad(String),
}

impl PartialEq for Mood {
    fn eq(&self, other: &Mood) -> (r: bool) {
        match self {
            Mood::Good => matches!(other, Mood::Good),
            Mood::CouldBeBetter => matches!(other, Mood::CouldBeBetter),
            Mood::Meh => matches!(other, Mood::Meh),
            Mood::Bad(a) => match other {
                Mood::Bad(b) => a.eq(b),
                _ => false,
            },
        }
    }
}

impl vstd::std_specs::cmp::PartialEqSpecImpl for Mood {
    open spec fn obeys_eq_spec() -> bool {
        true
    }

    open spec fn eq_spec(&self, other: &Mood) -> bool {
        match (self, other) {
            (Mood::Good, Mood::Good) => true,
            (Mood::CouldBeBetter, Mood::CouldBeBetter) => true,
            (Mood::Meh, Mood::Meh) => true,
            (Mood::Bad(a), Mood::Bad(b)) => a@ == b@,
            _ => false,
        }
    }
}

/// Liveness message sent from the server to a sensor.
#[derive(Clone, Copy, Debug, PartialEq, Eq, Structural)]
pub struct KeepAlive {
    pub everything_is_fine: bool,
}

impl KeepAlive {
    /// The heartbeat the server sends on every timer tick.
    pub fn healthy() -> (k: KeepAlive)
        ensures
            k.everything_is_fine,
    {
        KeepAlive { everything_is_fine: true }
    }
}

/// Why a received line could not be decoded. Decoding errors are reported and
/// the line is discarded; they never end a connection.
#[derive(Clone, Copy, Debug, PartialEq, Eq, Structural)]
pub enum DecodeError {
    /// The line is not well-formed JSON.
    Syntax,
    /// The line is JSON but does not have the shape of the expected message.
    Schema,
    /// The line ends in the middle of a JSON value.
    Truncated,
}

} // verus!
