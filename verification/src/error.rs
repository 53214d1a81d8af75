//! The ways in which a call is refused.

use vstd::prelude::*;

verus! {

/// Why a call was refused. A refused call changes nothing.
#[derive(Clone, Copy, Debug, PartialEq, Eq, Structural)]
pub enum TozlowError {
    /// The contract was set up before.
    AlreadyInitialized,
    /// The caller is not in the session's list.
    NotParticipant,
    /// The caller's stake is already held.
    AlreadyDeposited,
    /// Reserved: no guard gives it.
    DeadlineNotReached,
    /// The deadline has come, and stakes are no longer taken.
    DeadlineReached,
    /// The session is settled.
    AlreadyFinalized,
    /// Fewer than three participants.
    NotEnoughParticipants,
    /// More than five participants.
    TooManyParticipants,
    /// The ledger did not move the value.
    TransferFailed,
    /// The caller has cast a vote in this session.
    AlreadyVoted,
    /// The accused is not in the session's list.
    InvalidAbsent,
    /// Reserved: no guard gives it.
    NotAllDeposited,
    /// Too early: for a vote, the deadline has not come; for the settlement,
    /// the voting window has not closed.
    VotingNotOpen,
    /// The voting window has closed.
    VotingClosed,
    /// Not every stake was collected before the deadline.
    SessionNotActive,
    /// A participant cannot accuse themself.
    CannotVoteSelf,
}

} // verus!
