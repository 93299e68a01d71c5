//! The election arithmetic that the verifier takes from `sp-npos-elections`: turning
//! shares into stakes, building supports, scoring supports and comparing scores.
//!
//! Nothing in this file is proved about that crate. Each function here states what is
//! taken on trust of one of its functions.

use crate::score::{score_of, totals_of};
use crate::snapshot::stake_of;
use crate::types::{
    AccountId, Assignment, AssignmentView, ElectionScore, ExtendedBalance, StakedAssignment,
    StakedAssignmentView, Support, Supports, SupportsView, Voter, VoterView,
};
use sp_arithmetic::{PerU16, Perbill};
use sp_npos_elections::EvaluateSupport;
use vstd::prelude::*;

verus! {

/// The stakes that `sp_npos_elections::assignment_ratio_to_staked_normalized` gives for
/// `assignments` when each voter's stake is looked up in `voters`, or `None` where it
/// fails.
pub uninterp spec fn staked_normalized(
    assignments: Seq<AssignmentView>,
    voters: Seq<VoterView>,
) -> Option<Seq<StakedAssignmentView>>;

/// The supports that `sp_npos_elections::to_supports` builds from `staked`.
pub uninterp spec fn supports_of(staked: Seq<StakedAssignmentView>) -> SupportsView;

/// Whether `sp_npos_elections::ElectionScore::strict_threshold_better` finds `this`
/// better than `that` by the fraction of `threshold` parts per billion.
pub uninterp spec fn threshold_better(
    this: ElectionScore,
    that: ElectionScore,
    threshold: u32,
) -> bool;

/// Calls `sp_npos_elections::assignment_ratio_to_staked_normalized` on `assignments`,
/// with [`stake_of`] over `voters` as the stake of a voter.
///
/// Taken on trust: the outcome depends on the assignments and the voters alone, so it
/// can be named; `None` stands for the outside function's error.
#[verifier::external_body]
pub(crate) fn assignment_ratio_to_staked_normalized(
    assignments: &Vec<Assignment>,
    voters: &Vec<Voter>,
) -> (staked: Option<Vec<StakedAssignment>>)
    ensures
        staked.deep_view() == staked_normalized(assignments.deep_view(), voters.deep_view()),
{
    let ratios = assignments.iter().map(|a| sp_npos_elections::Assignment {
        who: a.who,
        distribution: a.distribution.iter().map(|(t, p)| (*t, PerU16::from_parts(*p))).collect(),
    }).collect();
    let stake = |who: &AccountId| stake_of(voters, *who);
    let staked = sp_npos_elections::assignment_ratio_to_staked_normalized(ratios, stake).ok();
    staked.map(|all| all.into_iter().map(|s| StakedAssignment {
        who: s.who,
        distribution: s.distribution,
    }).collect())
}

/// Calls `sp_npos_elections::to_supports` on `staked`.
///
/// Taken on trust: the supports depend on the staked assignments alone, so they can be
/// named.
#[verifier::external_body]
pub(crate) fn to_supports(staked: &Vec<StakedAssignment>) -> (supports: Supports)
    ensures
        supports.deep_view() == supports_of(staked.deep_view()),
{
    let staked: Vec<_> = staked.iter().map(|s| sp_npos_elections::StakedAssignment {
        who: s.who,
        distribution: s.distribution.clone(),
    }).collect();
    sp_npos_elections::to_supports(&staked).into_iter().map(|(target, support)| {
        (target, Support { total: support.total, voters: support.voters })
    }).collect()
}

/// Calls `sp_npos_elections::EvaluateSupport::evaluate` on supports that have the totals
/// of `backings` and no voters.
///
/// Taken on trust: the score holds the least total (the largest balance where there is
/// no total), the sum of the totals, and the sum of their squares, every sum and square
/// held at the largest balance.
#[verifier::external_body]
pub(crate) fn evaluate(backings: &Vec<(AccountId, ExtendedBalance)>) -> (score: ElectionScore)
    ensures
        score == score_of(totals_of(backings@)),
{
    let supports: sp_npos_elections::Supports<AccountId> = backings.iter().map(|(who, total)| {
        (*who, sp_npos_elections::Support { total: *total, voters: Vec::new() })
    }).collect();
    let score = supports.evaluate();
    ElectionScore {
        minimal_stake: score.minimal_stake,
        sum_stake: score.sum_stake,
        sum_stake_squared: score.sum_stake_squared,
    }
}

/// Calls `sp_npos_elections::ElectionScore::strict_threshold_better` with `threshold`
/// parts per billion as the fraction.
///
/// Taken on trust: the answer depends on the two scores and the threshold alone, so it
/// can be named.
#[verifier::external_body]
pub(crate) fn strict_threshold_better(
    this: ElectionScore,
    that: ElectionScore,
    threshold: u32,
) -> (better: bool)
    ensures
        better == threshold_better(this, that, threshold),
{
    let this = sp_npos_elections::ElectionScore {
        minimal_stake: this.minimal_stake,
        sum_stake: this.sum_stake,
        sum_stake_squared: this.sum_stake_squared,
    };
    let that = sp_npos_elections::ElectionScore {
        minimal_stake: that.minimal_stake,
        sum_stake: that.sum_stake,
        sum_stake_squared: that.sum_stake_squared,
    };
    this.strict_threshold_better(that, Perbill::from_parts(threshold))
}

} // verus!
