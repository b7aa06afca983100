//! Verified core of the Quaestio questionnaire client: the local-first answer
//! store with its persistent outbox, the protocol envelopes exchanged with the
//! server, and the state machine of a compilation attempt.

pub mod error;
pub mod text;
pub mod model;
pub mod keyed;
pub mod protocol;
pub mod clock;
pub mod session;
pub mod store;
pub mod transport;
pub mod outbox;
pub mod laws;
