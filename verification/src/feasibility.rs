//! The feasibility check of one page: from a compact solution and the snapshot to the
//! supports of the page, or to the reason why the page is not feasible.

use crate::election::{
    assignment_ratio_to_staked_normalized, staked_normalized, supports_of, to_supports,
};
use crate::error::{ElectionError, FeasibilityError};
use crate::snapshot::{
    lemma_voter_index_below, target_at, target_at_spec, voter_at, voter_at_spec, voter_index,
    voter_index_spec, Snapshot,
};
use crate::types::{
    AccountId, Accuracy, Assignment, AssignmentView, PageIndex, PartialSolution,
    PartialSolutionView, SplitVote, SplitVoteView, Supports, SupportsView, TargetIndex, Voter,
    VoterIndex, VoterView, ACCURACY_ONE,
};
use vstd::prelude::*;

verus! {

/// Whether every target that `vote` names is one of the first `targets` targets.
pub open spec fn split_targets_known(vote: SplitVoteView, targets: int) -> bool {
    &&& (vote.last as int) < targets
    &&& forall|k: int| 0 <= k < vote.shares.len() ==> (#[trigger] vote.shares[k].0 as int) < targets
}

/// Whether every target that `solution` names is one of the first `targets` targets.
pub open spec fn winners_known(solution: PartialSolutionView, targets: int) -> bool {
    &&& forall|i: int|
        0 <= i < solution.votes1.len() ==> (#[trigger] solution.votes1[i].1 as int) < targets
    &&& forall|j: int|
        0 <= j < solution.votes_n.len() ==> split_targets_known(
            #[trigger] solution.votes_n[j],
            targets,
        )
}

/// The assignment of a voter who backs one target with their whole stake.
pub open spec fn single_assignment(
    vote: (VoterIndex, TargetIndex),
    voters: Seq<VoterView>,
    targets: Seq<AccountId>,
) -> Result<AssignmentView, ElectionError> {
    match (voter_at_spec(voters, vote.0), target_at_spec(targets, vote.1)) {
        (Some(who), Some(target)) => Ok(
            AssignmentView { who, distribution: seq![(target, ACCURACY_ONE)] },
        ),
        _ => Err(ElectionError::SolutionInvalidIndex),
    }
}

/// The sum of the shares of a split vote.
pub open spec fn shares_sum(shares: Seq<(TargetIndex, Accuracy)>) -> int
    decreases shares.len(),
{
    if shares.len() == 0 {
        0
    } else {
        shares_sum(shares.drop_last()) + shares.last().1
    }
}

/// Whether every target of `shares` is in `targets`.
pub open spec fn shares_known(
    shares: Seq<(TargetIndex, Accuracy)>,
    targets: Seq<AccountId>,
) -> bool {
    forall|k: int| 0 <= k < shares.len() ==> (#[trigger] shares[k].0 as int) < targets.len()
}

/// The shares with each target index replaced by the target's identity.
pub open spec fn resolved_shares(
    shares: Seq<(TargetIndex, Accuracy)>,
    targets: Seq<AccountId>,
) -> Seq<(AccountId, Accuracy)> {
    Seq::new(shares.len(), |k: int| (targets[shares[k].0 as int], shares[k].1))
}

/// The assignment of a voter who splits their stake.
///
/// A share whose target is unknown is an index error. Known targets whose shares add up
/// to the whole or more are a weight overflow. After that the last target and the voter
/// must be known; the last target gets what is left of the whole.
pub open spec fn split_assignment(
    vote: SplitVoteView,
    voters: Seq<VoterView>,
    targets: Seq<AccountId>,
) -> Result<AssignmentView, ElectionError> {
    if !shares_known(vote.shares, targets) {
        Err(ElectionError::SolutionInvalidIndex)
    } else if shares_sum(vote.shares) >= ACCURACY_ONE {
        Err(ElectionError::SolutionWeightOverflow)
    } else {
        match (target_at_spec(targets, vote.last), voter_at_spec(voters, vote.voter)) {
            (Some(last), Some(who)) => Ok(
                AssignmentView {
                    who,
                    distribution: resolved_shares(vote.shares, targets).push(
                        (last, (ACCURACY_ONE - shares_sum(vote.shares)) as Accuracy),
                    ),
                },
            ),
            _ => Err(ElectionError::SolutionInvalidIndex),
        }
    }
}

/// The outcome of each vote of `solution`: the single votes first, then the split ones.
pub open spec fn vote_results(
    solution: PartialSolutionView,
    voters: Seq<VoterView>,
    targets: Seq<AccountId>,
) -> Seq<Result<AssignmentView, ElectionError>> {
    Seq::new(solution.votes1.len(), |i: int| single_assignment(solution.votes1[i], voters, targets))
        + Seq::new(
        solution.votes_n.len(),
        |j: int| split_assignment(solution.votes_n[j], voters, targets),
    )
}

/// All of `results` if none is an error, else the first error.
pub open spec fn collect_results(results: Seq<Result<AssignmentView, ElectionError>>) -> Result<
    Seq<AssignmentView>,
    ElectionError,
>
    decreases results.len(),
{
    if results.len() == 0 {
        Ok(Seq::empty())
    } else {
        match collect_results(results.drop_last()) {
            Err(e) => Err(e),
            Ok(front) => match results.last() {
                Err(e) => Err(e),
                Ok(assignment) => Ok(front.push(assignment)),
            },
        }
    }
}

/// The assignments that `solution` stands for, or the error of its first bad vote.
pub open spec fn assignments_of(
    solution: PartialSolutionView,
    voters: Seq<VoterView>,
    targets: Seq<AccountId>,
) -> Result<Seq<AssignmentView>, ElectionError> {
    collect_results(vote_results(solution, voters, targets))
}

/// An error among the first `len` results is the outcome of the whole.
pub proof fn lemma_collect_error(results: Seq<Result<AssignmentView, ElectionError>>, len: int)
    requires
        0 <= len <= results.len(),
        collect_results(results.take(len)) is Err,
    ensures
        collect_results(results) == collect_results(results.take(len)),
    decreases results.len() - len,
{
    if len < results.len() {
        assert(results.take(len + 1).drop_last() =~= results.take(len));
        lemma_collect_error(results, len + 1);
    } else {
        assert(results.take(len) =~= results);
    }
}

/// Whether `assignment` is one that the snapshot allows: its voter is in `voters`, and
/// each target it backs is among the targets recorded for that voter.
pub open spec fn assignment_check(assignment: AssignmentView, voters: Seq<VoterView>) -> Result<
    (),
    FeasibilityError,
> {
    match voter_index_spec(voters, assignment.who) {
        None => Err(FeasibilityError::InvalidVoter),
        Some(index) => if forall|k: int|
            0 <= k < assignment.distribution.len() ==> voters[index].targets.contains(
                #[trigger] assignment.distribution[k].0,
            ) {
            Ok(())
        } else {
            Err(FeasibilityError::InvalidVote)
        },
    }
}

/// Whether the snapshot allows all of `assignments`; if not, what is wrong with the
/// first one that it does not allow.
pub open spec fn assignments_check(
    assignments: Seq<AssignmentView>,
    voters: Seq<VoterView>,
) -> Result<(), FeasibilityError>
    decreases assignments.len(),
{
    if assignments.len() == 0 {
        Ok(())
    } else {
        match assignments_check(assignments.drop_last(), voters) {
            Err(e) => Err(e),
            Ok(()) => assignment_check(assignments.last(), voters),
        }
    }
}

/// An error among the first `len` assignments is the outcome of the whole.
pub proof fn lemma_check_error(assignments: Seq<AssignmentView>, voters: Seq<VoterView>, len: int)
    requires
        0 <= len <= assignments.len(),
        assignments_check(assignments.take(len), voters) is Err,
    ensures
        assignments_check(assignments, voters) == assignments_check(assignments.take(len), voters),
    decreases assignments.len() - len,
{
    if len < assignments.len() {
        assert(assignments.take(len + 1).drop_last() =~= assignments.take(len));
        lemma_check_error(assignments, voters, len + 1);
    } else {
        assert(assignments.take(len) =~= assignments);
    }
}

/// The supports of a page, or the reason why the page is not feasible.
///
/// The checks come in this order: both snapshots are there; every target that the
/// solution names is known; the solution unfolds into assignments; the snapshot allows
/// each assignment; the stakes can be normalized.
pub open spec fn feasibility(
    targets: Option<Seq<AccountId>>,
    voters: Option<Seq<VoterView>>,
    solution: PartialSolutionView,
) -> Result<SupportsView, FeasibilityError> {
    if targets is None || voters is None {
        Err(FeasibilityError::SnapshotUnavailable)
    } else if !winners_known(solution, targets->0.len() as int) {
        Err(FeasibilityError::InvalidWinner)
    } else {
        match assignments_of(solution, voters->0, targets->0) {
            Err(e) => Err(FeasibilityError::NposElection(e)),
            Ok(assignments) => match assignments_check(assignments, voters->0) {
                Err(e) => Err(e),
                Ok(()) => match staked_normalized(assignments, voters->0) {
                    None => Err(FeasibilityError::NposElection(ElectionError::ArithmeticError)),
                    Some(staked) => Ok(supports_of(staked)),
                },
            },
        }
    }
}

/// Where all of `results` are assignments, collecting gives them one for one.
pub proof fn lemma_collect_ok(results: Seq<Result<AssignmentView, ElectionError>>)
    requires
        collect_results(results) is Ok,
    ensures
        collect_results(results)->Ok_0.len() == results.len(),
        forall|i: int|
            0 <= i < results.len() ==> #[trigger] results[i] == Ok::<AssignmentView, ElectionError>(
                collect_results(results)->Ok_0[i],
            ),
    decreases results.len(),
{
    if results.len() > 0 {
        lemma_collect_ok(results.drop_last());
        assert forall|i: int| 0 <= i < results.len() implies #[trigger] results[i] == Ok::<
            AssignmentView,
            ElectionError,
        >(collect_results(results)->Ok_0[i]) by {
            if i < results.len() - 1 {
                assert(results.drop_last()[i] == results[i]);
            }
        }
    }
}

/// Assignments whose voters are all among `voters` are never turned down for an
/// unknown voter.
pub proof fn lemma_known_voters_pass(assignments: Seq<AssignmentView>, voters: Seq<VoterView>)
    requires
        forall|i: int|
            0 <= i < assignments.len() ==> exists|k: int|
                0 <= k < voters.len() && voters[k].who == (#[trigger] assignments[i]).who,
    ensures
        assignments_check(assignments, voters) != Err::<(), FeasibilityError>(
            FeasibilityError::InvalidVoter,
        ),
    decreases assignments.len(),
{
    if assignments.len() > 0 {
        let front = assignments.drop_last();
        assert forall|i: int| 0 <= i < front.len() implies exists|k: int|
            0 <= k < voters.len() && voters[k].who == (#[trigger] front[i]).who by {
            assert(front[i] == assignments[i]);
        }
        lemma_known_voters_pass(front, voters);
        let last = assignments[assignments.len() - 1];
        let k = choose|k: int| 0 <= k < voters.len() && voters[k].who == last.who;
        lemma_voter_index_below(voters, last.who, voters.len() as int);
        assert(voters[k].who == last.who);
    }
}

/// The check never turns a page down for an unknown voter: the voters of a solution
/// are taken from the snapshot by their position, so each of them is in it.
pub proof fn lemma_voters_are_known(
    targets: Option<Seq<AccountId>>,
    voters: Option<Seq<VoterView>>,
    solution: PartialSolutionView,
)
    ensures
        feasibility(targets, voters, solution) != Err::<SupportsView, FeasibilityError>(
            FeasibilityError::InvalidVoter,
        ),
{
    if targets is Some && voters is Some {
        let results = vote_results(solution, voters->0, targets->0);
        if let Ok(assignments) = collect_results(results) {
            lemma_collect_ok(results);
            assert forall|i: int| 0 <= i < assignments.len() implies exists|k: int|
                0 <= k < voters->0.len() && voters->0[k].who == (#[trigger] assignments[i]).who by {
                assert(results[i] == Ok::<AssignmentView, ElectionError>(assignments[i]));
                if i < solution.votes1.len() {
                    let k = solution.votes1[i].0 as int;
                    assert(voters->0[k].who == assignments[i].who);
                } else {
                    let k = solution.votes_n[i - solution.votes1.len()].voter as int;
                    assert(voters->0[k].who == assignments[i].who);
                }
            }
            lemma_known_voters_pass(assignments, voters->0);
        }
    }
}

/// The value of an outcome of the check: supports by their value, an error as it is.
pub open spec fn outcome_view(outcome: Result<Supports, FeasibilityError>) -> Result<
    SupportsView,
    FeasibilityError,
> {
    match outcome {
        Ok(supports) => Ok(supports.deep_view()),
        Err(e) => Err(e),
    }
}

/// Whether every target that `vote` names is in `targets`.
fn split_vote_targets_known(vote: &SplitVote, targets: &Vec<AccountId>) -> (known: bool)
    ensures
        known == split_targets_known(vote.deep_view(), targets@.len() as int),
{
    if vote.last as usize >= targets.len() {
        return false;
    }
    let mut k: usize = 0;
    while k < vote.shares.len()
        invariant
            k <= vote.shares.len(),
            forall|n: int| 0 <= n < k ==> (#[trigger] vote.shares@[n].0 as int) < targets@.len(),
        decreases vote.shares.len() - k,
    {
        if vote.shares[k].0 as usize >= targets.len() {
            assert(vote.deep_view().shares[k as int].0 as int >= targets@.len());
            return false;
        }
        k = k + 1;
    }
    true
}

/// Whether every target that `solution` names is in `targets`.
pub fn check_winners(solution: &PartialSolution, targets: &Vec<AccountId>) -> (known: bool)
    ensures
        known == winners_known(solution.deep_view(), targets@.len() as int),
{
    let mut i: usize = 0;
    while i < solution.votes1.len()
        invariant
            i <= solution.votes1.len(),
            forall|n: int|
                0 <= n < i ==> (#[trigger] solution.votes1@[n].1 as int) < targets@.len(),
        decreases solution.votes1.len() - i,
    {
        if solution.votes1[i].1 as usize >= targets.len() {
            assert(solution.deep_view().votes1[i as int].1 as int >= targets@.len());
            return false;
        }
        i = i + 1;
    }
    let mut j: usize = 0;
    while j < solution.votes_n.len()
        invariant
            j <= solution.votes_n.len(),
            forall|n: int|
                0 <= n < solution.votes1.len() ==> (#[trigger] solution.votes1@[n].1 as int)
                    < targets@.len(),
            forall|n: int|
                0 <= n < j ==> split_targets_known(
                    #[trigger] solution.deep_view().votes_n[n],
                    targets@.len() as int,
                ),
        decreases solution.votes_n.len() - j,
    {
        proof {
            let vote = solution.votes_n@[j as int];
            assert(solution.deep_view().votes_n[j as int] == vote.deep_view());
        }
        if !split_vote_targets_known(&solution.votes_n[j], targets) {
            return false;
        }
        j = j + 1;
    }
    true
}

/// The assignment of a voter who splits their stake.
fn split_vote_assignment(vote: &SplitVote, voters: &Vec<Voter>, targets: &Vec<AccountId>) -> (res:
    Result<Assignment, ElectionError>)
    ensures
        match res {
            Ok(assignment) => split_assignment(vote.deep_view(), voters.deep_view(), targets@)
                == Ok::<AssignmentView, ElectionError>(assignment.deep_view()),
            Err(e) => split_assignment(vote.deep_view(), voters.deep_view(), targets@) == Err::<
                AssignmentView,
                ElectionError,
            >(e),
        },
{
    let mut distribution: Vec<(AccountId, Accuracy)> = Vec::new();
    let mut sum: Accuracy = 0;
    let mut k: usize = 0;
    while k < vote.shares.len()
        invariant
            k <= vote.shares.len(),
            shares_known(vote.shares@.take(k as int), targets@),
            distribution@ == resolved_shares(vote.shares@.take(k as int), targets@),
            sum as int == if shares_sum(vote.shares@.take(k as int)) >= ACCURACY_ONE {
                ACCURACY_ONE as int
            } else {
                shares_sum(vote.shares@.take(k as int))
            },
            0 <= shares_sum(vote.shares@.take(k as int)),
        decreases vote.shares.len() - k,
    {
        let share = vote.shares[k];
        proof {
            assert(vote.shares@.take(k + 1).drop_last() =~= vote.shares@.take(k as int));
        }
        match target_at(targets, share.0) {
            None => {
                proof {
                    assert(vote.shares@[k as int].0 as int >= targets@.len());
                }
                return Err(ElectionError::SolutionInvalidIndex);
            },
            Some(target) => {
                sum = sum.saturating_add(share.1);
                distribution.push((target, share.1));
                proof {
                    assert(distribution@ =~= resolved_shares(
                        vote.shares@.take(k + 1),
                        targets@,
                    ));
                }
            },
        }
        k = k + 1;
    }
    proof {
        assert(vote.shares@.take(k as int) =~= vote.shares@);
    }
    if sum >= ACCURACY_ONE {
        return Err(ElectionError::SolutionWeightOverflow);
    }
    let rest: Accuracy = ACCURACY_ONE - sum;
    let last = match target_at(targets, vote.last) {
        Some(last) => last,
        None => {
            return Err(ElectionError::SolutionInvalidIndex);
        },
    };
    let who = match voter_at(voters, vote.voter) {
        Some(who) => who,
        None => {
            return Err(ElectionError::SolutionInvalidIndex);
        },
    };
    distribution.push((last, rest));
    Ok(Assignment { who, distribution })
}

/// Unfolds `solution` into the assignments that it stands for: the single votes first,
/// then the split ones, and the error of the first vote that cannot be unfolded.
pub fn into_assignment(
    solution: &PartialSolution,
    voters: &Vec<Voter>,
    targets: &Vec<AccountId>,
) -> (res: Result<Vec<Assignment>, ElectionError>)
    ensures
        match res {
            Ok(assignments) => assignments_of(solution.deep_view(), voters.deep_view(), targets@)
                == Ok::<Seq<AssignmentView>, ElectionError>(assignments.deep_view()),
            Err(e) => assignments_of(solution.deep_view(), voters.deep_view(), targets@) == Err::<
                Seq<AssignmentView>,
                ElectionError,
            >(e),
        },
{
    let ghost results = vote_results(solution.deep_view(), voters.deep_view(), targets@);
    let ghost singles = solution.votes1@.len() as int;
    let mut assignments: Vec<Assignment> = Vec::new();
    let mut i: usize = 0;
    proof {
        assert(results.take(0) =~= Seq::empty());
        assert(assignments.deep_view() =~= Seq::empty());
    }
    while i < solution.votes1.len()
        invariant
            i <= solution.votes1.len(),
            singles == solution.votes1@.len(),
            results == vote_results(solution.deep_view(), voters.deep_view(), targets@),
            collect_results(results.take(i as int)) == Ok::<Seq<AssignmentView>, ElectionError>(
                assignments.deep_view(),
            ),
        decreases solution.votes1.len() - i,
    {
        let vote = solution.votes1[i];
        proof {
            assert(results.take(i + 1).drop_last() =~= results.take(i as int));
            assert(results.take(i + 1).last() == single_assignment(
                solution.votes1@[i as int],
                voters.deep_view(),
                targets@,
            ));
        }
        let found = match (voter_at(voters, vote.0), target_at(targets, vote.1)) {
            (Some(who), Some(target)) => Some((who, target)),
            _ => None,
        };
        match found {
            Some((who, target)) => {
                let mut distribution: Vec<(AccountId, Accuracy)> = Vec::new();
                distribution.push((target, ACCURACY_ONE));
                let assignment = Assignment { who, distribution };
                let ghost front = assignments.deep_view();
                proof {
                    assert(assignment.deep_view().distribution =~= seq![(target, ACCURACY_ONE)]);
                }
                assignments.push(assignment);
                proof {
                    assert(assignments.deep_view() =~= front.push(assignment.deep_view()));
                }
            },
            None => {
                proof {
                    lemma_collect_error(results, i + 1);
                }
                return Err(ElectionError::SolutionInvalidIndex);
            },
        }
        i = i + 1;
    }
    let mut j: usize = 0;
    while j < solution.votes_n.len()
        invariant
            j <= solution.votes_n.len(),
            singles == solution.votes1@.len(),
            results == vote_results(solution.deep_view(), voters.deep_view(), targets@),
            collect_results(results.take(singles + j)) == Ok::<Seq<AssignmentView>, ElectionError>(
                assignments.deep_view(),
            ),
        decreases solution.votes_n.len() - j,
    {
        proof {
            assert(results.take(singles + j + 1).drop_last() =~= results.take(singles + j));
            assert(results.take(singles + j + 1).last() == split_assignment(
                solution.votes_n@[j as int].deep_view(),
                voters.deep_view(),
                targets@,
            ));
        }
        match split_vote_assignment(&solution.votes_n[j], voters, targets) {
            Ok(assignment) => {
                let ghost front = assignments.deep_view();
                assignments.push(assignment);
                proof {
                    assert(assignments.deep_view() =~= front.push(assignment.deep_view()));
                }
            },
            Err(e) => {
                proof {
                    lemma_collect_error(results, singles + j + 1);
                }
                return Err(e);
            },
        }
        j = j + 1;
    }
    proof {
        assert(results.take(singles + j) =~= results);
    }
    Ok(assignments)
}

/// Whether `target` is one of `targets`.
fn targets_contain(targets: &Vec<AccountId>, target: AccountId) -> (found: bool)
    ensures
        found == targets@.contains(target),
{
    let mut i: usize = 0;
    while i < targets.len()
        invariant
            i <= targets.len(),
            forall|n: int| 0 <= n < i ==> targets@[n] != target,
        decreases targets.len() - i,
    {
        if targets[i] == target {
            return true;
        }
        i = i + 1;
    }
    false
}

/// Checks one assignment against the snapshot.
fn check_assignment(assignment: &Assignment, voters: &Vec<Voter>) -> (res: Result<
    (),
    FeasibilityError,
>)
    ensures
        res == assignment_check(assignment.deep_view(), voters.deep_view()),
{
    let index = match voter_index(voters, assignment.who) {
        Some(index) => index,
        None => {
            return Err(FeasibilityError::InvalidVoter);
        },
    };
    proof {
        lemma_voter_index_below(voters.deep_view(), assignment.who, voters.len() as int);
    }
    let allowed = &voters[index].targets;
    let mut k: usize = 0;
    while k < assignment.distribution.len()
        invariant
            k <= assignment.distribution.len(),
            0 <= index < voters.len(),
            voter_index_spec(voters.deep_view(), assignment.who) == Some(index as int),
            allowed@ == voters.deep_view()[index as int].targets,
            forall|n: int|
                0 <= n < k ==> allowed@.contains(#[trigger] assignment.distribution@[n].0),
        decreases assignment.distribution.len() - k,
    {
        if !targets_contain(allowed, assignment.distribution[k].0) {
            assert(!allowed@.contains(assignment.deep_view().distribution[k as int].0));
            return Err(FeasibilityError::InvalidVote);
        }
        k = k + 1;
    }
    Ok(())
}

/// Checks that the snapshot allows every assignment: the voter is in the snapshot, and
/// each target they back is among the targets recorded for them.
pub fn check_assignments(assignments: &Vec<Assignment>, voters: &Vec<Voter>) -> (res: Result<
    (),
    FeasibilityError,
>)
    ensures
        res == assignments_check(assignments.deep_view(), voters.deep_view()),
{
    let ghost all = assignments.deep_view();
    let mut i: usize = 0;
    proof {
        assert(all.take(0) =~= Seq::empty());
    }
    while i < assignments.len()
        invariant
            i <= assignments.len(),
            all == assignments.deep_view(),
            assignments_check(all.take(i as int), voters.deep_view()) == Ok::<
                (),
                FeasibilityError,
            >(()),
        decreases assignments.len() - i,
    {
        proof {
            assert(all.take(i + 1).drop_last() =~= all.take(i as int));
            assert(all.take(i + 1).last() == assignments@[i as int].deep_view());
        }
        match check_assignment(&assignments[i], voters) {
            Ok(()) => {},
            Err(e) => {
                proof {
                    lemma_check_error(all, voters.deep_view(), i + 1);
                }
                return Err(e);
            },
        }
        i = i + 1;
    }
    proof {
        assert(all.take(i as int) =~= all);
    }
    Ok(())
}

/// Checks one page of a solution against the snapshot and builds its supports.
///
/// The voters are those of `page`; the targets are the one list of the round. Nothing
/// of other pages is looked at.
pub fn feasibility_check_page_inner(
    snapshot: &Snapshot,
    partial_solution: &PartialSolution,
    page: PageIndex,
) -> (res: Result<Supports, FeasibilityError>)
    ensures
        outcome_view(res) == feasibility(
            snapshot@.targets,
            snapshot@.voters_of(page),
            partial_solution.deep_view(),
        ),
        res != Err::<Supports, FeasibilityError>(FeasibilityError::InvalidVoter),
{
    proof {
        lemma_voters_are_known(
            snapshot@.targets,
            snapshot@.voters_of(page),
            partial_solution.deep_view(),
        );
    }
    let snapshot_targets = match snapshot.targets() {
        Some(targets) => targets,
        None => {
            return Err(FeasibilityError::SnapshotUnavailable);
        },
    };
    let snapshot_voters = match snapshot.voters(page) {
        Some(voters) => voters,
        None => {
            return Err(FeasibilityError::SnapshotUnavailable);
        },
    };
    if !check_winners(partial_solution, snapshot_targets) {
        return Err(FeasibilityError::InvalidWinner);
    }
    let assignments = match into_assignment(partial_solution, snapshot_voters, snapshot_targets) {
        Ok(assignments) => assignments,
        Err(e) => {
            return Err(FeasibilityError::NposElection(e));
        },
    };
    match check_assignments(&assignments, snapshot_voters) {
        Ok(()) => {},
        Err(e) => {
            return Err(e);
        },
    }
    let staked_assignments = match assignment_ratio_to_staked_normalized(
        &assignments,
        snapshot_voters,
    ) {
        Some(staked) => staked,
        None => {
            return Err(FeasibilityError::NposElection(ElectionError::ArithmeticError));
        },
    };
    Ok(to_supports(&staked_assignments))
}

} // verus!
