//! The error kinds an operation can abort with.

use vstd::prelude::*;

verus! {

/// An error raised by the state-transition logic itself.
///
/// `AlreadyVoted` is part of the taxonomy but is never raised by the engine:
/// double voting is prevented one layer below, by the record store rejecting
/// a second voter record at an address already in use (see
/// [`crate::ledger::Ledger::cast_vote`]).
#[derive(Clone, Copy, Debug, PartialEq, Eq, Structural)]
pub enum VotingError {
    /// A vote was cast before `poll_start`.
    PollNotStarted,
    /// A vote was cast after `poll_end`.
    PollEnded,
    /// Declared for completeness; never raised by the engine.
    AlreadyVoted,
    /// The caller is not the poll admin.
    Unauthorized,
    /// The caller's eligibility balance is below the voting threshold.
    InsufficientBalance,
    /// The poll had already ended when an early close was attempted.
    PollAlreadyEnded,
}

/// The outcome of a whole operation against the record store: either the
/// engine aborted with a named error, or the host-level store refused to
/// resolve or allocate a record.
#[derive(Clone, Copy, Debug, PartialEq, Eq, Structural)]
pub enum OpError {
    /// The engine aborted with one of its named error kinds.
    Engine(VotingError),
    /// A record was to be created at an address that already holds one.
    RecordInUse,
    /// A referenced record does not exist.
    RecordNotFound,
}

} // verus!
