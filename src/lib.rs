pub mod aggregate;
pub mod channel;
pub mod command;
pub mod compass;
pub mod dns;
pub mod format;
pub mod framing;
pub mod handler;
pub mod liveness;
pub mod message;
pub mod observable;
pub mod vector;
