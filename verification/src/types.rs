//! Plain data that flows through the verifier: identities, stakes, scores,
//! solution pages, snapshot voters and supports, each with its mathematical view.

use vstd::prelude::*;

verus! {

/// Identity of a voter or of a target.
pub type AccountId = u64;

/// Stake of a voter, as the snapshot records it.
pub type VoteWeight = u64;

/// The type in which stakes are added up.
pub type ExtendedBalance = u128;

/// Number of a page of a solution or of the voter snapshot.
pub type PageIndex = u8;

/// Position of a voter in one page of the voter snapshot.
pub type VoterIndex = u32;

/// Position of a target in the target snapshot.
pub type TargetIndex = u16;

/// A share of a voter's stake, in parts of [`ACCURACY_ONE`].
pub type Accuracy = u16;

/// The share that stands for the whole of a voter's stake.
pub const ACCURACY_ONE: Accuracy = 65535;

/// The largest fraction, in parts per billion, that a threshold can hold.
pub const PERBILL_ONE: u32 = 1_000_000_000;

/// The score of an election, most significant measure first.
#[derive(Clone, Copy, Debug, PartialEq, Eq, Structural)]
pub struct ElectionScore {
    /// Backing of the least backed winner; larger is better.
    pub minimal_stake: ExtendedBalance,
    /// Sum of the backings of all winners; larger is better.
    pub sum_stake: ExtendedBalance,
    /// Sum of the squared backings of all winners; smaller is better.
    pub sum_stake_squared: ExtendedBalance,
}

/// One voter of the snapshot: who votes, with how much, and for whom they may vote.
#[derive(Clone, Debug, PartialEq, Eq)]
pub struct Voter {
    pub who: AccountId,
    pub stake: VoteWeight,
    pub targets: Vec<AccountId>,
}

/// The mathematical value of a [`Voter`].
pub struct VoterView {
    pub who: AccountId,
    pub stake: VoteWeight,
    pub targets: Seq<AccountId>,
}

impl DeepView for Voter {
    type V = VoterView;

    open spec fn deep_view(&self) -> VoterView {
        VoterView { who: self.who, stake: self.stake, targets: self.targets@ }
    }
}

/// A voter who splits their stake between two or more targets.
///
/// Every target but the last comes with its share; the last target gets what is left of
/// the whole.
#[derive(Clone, Debug, PartialEq, Eq)]
pub struct SplitVote {
    pub voter: VoterIndex,
    pub shares: Vec<(TargetIndex, Accuracy)>,
    pub last: TargetIndex,
}

/// The mathematical value of a [`SplitVote`].
pub struct SplitVoteView {
    pub voter: VoterIndex,
    pub shares: Seq<(TargetIndex, Accuracy)>,
    pub last: TargetIndex,
}

impl DeepView for SplitVote {
    type V = SplitVoteView;

    open spec fn deep_view(&self) -> SplitVoteView {
        SplitVoteView { voter: self.voter, shares: self.shares@, last: self.last }
    }
}

/// One page of a solution in its compact, index-based form.
///
/// All indices are positions in the snapshot: voters in the voter page of the same
/// number, targets in the one target list.
#[derive(Clone, Debug, PartialEq, Eq)]
pub struct PartialSolution {
    /// Voters who back a single target with all of their stake.
    pub votes1: Vec<(VoterIndex, TargetIndex)>,
    /// Voters who split their stake.
    pub votes_n: Vec<SplitVote>,
}

/// The mathematical value of a [`PartialSolution`].
pub struct PartialSolutionView {
    pub votes1: Seq<(VoterIndex, TargetIndex)>,
    pub votes_n: Seq<SplitVoteView>,
}

impl DeepView for PartialSolution {
    type V = PartialSolutionView;

    open spec fn deep_view(&self) -> PartialSolutionView {
        PartialSolutionView { votes1: self.votes1@, votes_n: self.votes_n.deep_view() }
    }
}

impl PartialSolutionView {
    /// The solution that holds no vote.
    pub open spec fn empty() -> PartialSolutionView {
        PartialSolutionView { votes1: Seq::empty(), votes_n: Seq::empty() }
    }
}

impl Default for PartialSolution {
    fn default() -> (solution: Self)
        ensures
            solution.deep_view() == PartialSolutionView::empty(),
    {
        let solution = PartialSolution { votes1: Vec::new(), votes_n: Vec::new() };
        assert(solution.deep_view().votes_n =~= Seq::empty());
        solution
    }
}

/// A voter's stake spread over targets as shares.
#[derive(Clone, Debug, PartialEq, Eq)]
pub struct Assignment {
    pub who: AccountId,
    pub distribution: Vec<(AccountId, Accuracy)>,
}

/// The mathematical value of an [`Assignment`].
pub struct AssignmentView {
    pub who: AccountId,
    pub distribution: Seq<(AccountId, Accuracy)>,
}

impl DeepView for Assignment {
    type V = AssignmentView;

    open spec fn deep_view(&self) -> AssignmentView {
        AssignmentView { who: self.who, distribution: self.distribution@ }
    }
}

/// A voter's stake spread over targets as absolute amounts.
#[derive(Clone, Debug, PartialEq, Eq)]
pub struct StakedAssignment {
    pub who: AccountId,
    pub distribution: Vec<(AccountId, ExtendedBalance)>,
}

/// The mathematical value of a [`StakedAssignment`].
pub struct StakedAssignmentView {
    pub who: AccountId,
    pub distribution: Seq<(AccountId, ExtendedBalance)>,
}

impl DeepView for StakedAssignment {
    type V = StakedAssignmentView;

    open spec fn deep_view(&self) -> StakedAssignmentView {
        StakedAssignmentView { who: self.who, distribution: self.distribution@ }
    }
}

/// The backing of one elected target: its total and who contributes how much.
#[derive(Clone, Debug, PartialEq, Eq)]
pub struct Support {
    pub total: ExtendedBalance,
    pub voters: Vec<(AccountId, ExtendedBalance)>,
}

/// The mathematical value of a [`Support`].
pub struct SupportView {
    pub total: ExtendedBalance,
    pub voters: Seq<(AccountId, ExtendedBalance)>,
}

impl DeepView for Support {
    type V = SupportView;

    open spec fn deep_view(&self) -> SupportView {
        SupportView { total: self.total, voters: self.voters@ }
    }
}

/// The supports of one page, one entry for each target that the page backs.
pub type Supports = Vec<(AccountId, Support)>;

/// The mathematical value of [`Supports`].
pub type SupportsView = Seq<(AccountId, SupportView)>;

/// The backings of one page: each backed target with its total.
pub type Backings = Vec<(AccountId, ExtendedBalance)>;

} // verus!
