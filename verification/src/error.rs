//! The ways in which a submission, a page or a privileged call is turned down.

use vstd::prelude::*;

verus! {

/// What can go wrong while a compact solution is turned into stakes.
#[derive(Clone, Copy, Debug, PartialEq, Eq, Structural)]
pub enum ElectionError {
    /// The shares of a split vote add up to the whole or more, so that nothing is left
    /// for its last target.
    SolutionWeightOverflow,
    /// A voter or target index points outside the snapshot.
    SolutionInvalidIndex,
    /// The stakes of a voter could not be brought to add up to the voter's stake.
    ArithmeticError,
}

/// Why a page, or the score of a candidate, is not feasible.
#[derive(Clone, Copy, Debug, PartialEq, Eq, Structural)]
pub enum FeasibilityError {
    /// The target snapshot or the voter snapshot of the page is missing.
    SnapshotUnavailable,
    /// A voter backs a target that the snapshot does not list for them.
    InvalidVote,
    /// A voter of the solution is not in the snapshot of the page.
    InvalidVoter,
    /// The solution names a target index outside the target snapshot.
    InvalidWinner,
    /// The claimed score does not improve enough on the queued one, or is not above the
    /// minimum asked of untrusted solutions.
    ScoreTooLow,
    /// Turning the solution into stakes failed.
    NposElection(ElectionError),
}

/// Why a page or a seal of a candidate is refused.
#[derive(Clone, Copy, Debug, PartialEq, Eq, Structural)]
pub enum SubmitError {
    /// A sealed candidate is being verified; nothing was changed.
    AlreadySealed,
    /// The claimed score is not good enough; the pages of the candidate were dropped.
    ScoreTooLow,
}

/// Why a privileged call is refused.
#[derive(Clone, Copy, Debug, PartialEq, Eq, Structural)]
pub enum Error {
    /// The caller is not the origin that may control the verifier.
    BadOrigin,
    /// The call is allowed in the emergency phase only.
    CallNotAllowed,
    /// The number of pages given is not the number of pages of a round.
    WrongPageCount,
}

} // verus!
