//! An election ledger: candidate registration, voter registration and
//! vote casting are each gated behind one of three chained, non-overlapping
//! time windows, and tallies are computed once voting has closed.
//!
//! The ledger is a plain constructible object: the current time and the
//! caller's identity are passed in by the host on every operation, so the
//! whole state machine is a function of `(state, now, caller)`.

pub mod duration;
pub mod event;
pub mod engine;

pub use engine::Ballot;
pub use engine::BallotError;
