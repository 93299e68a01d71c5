//! The score of an election, as a function of the totals that back its winners.

use crate::types::{AccountId, ElectionScore, ExtendedBalance};
use vstd::prelude::*;

verus! {

/// `sum`, held at the largest balance.
pub open spec fn capped(sum: int) -> ExtendedBalance {
    if sum > ExtendedBalance::MAX {
        ExtendedBalance::MAX
    } else {
        sum as ExtendedBalance
    }
}

/// The sum of `a` and `b`, held at the largest balance.
pub open spec fn saturating_sum(a: ExtendedBalance, b: ExtendedBalance) -> ExtendedBalance {
    if a + b > ExtendedBalance::MAX {
        ExtendedBalance::MAX
    } else {
        (a + b) as ExtendedBalance
    }
}

/// The square of `a`, held at the largest balance.
pub open spec fn saturating_square(a: ExtendedBalance) -> ExtendedBalance {
    if a * a > ExtendedBalance::MAX {
        ExtendedBalance::MAX
    } else {
        (a * a) as ExtendedBalance
    }
}

/// The least of `totals`, and the largest balance where there is none.
pub open spec fn minimal_stake_of(totals: Seq<ExtendedBalance>) -> ExtendedBalance
    decreases totals.len(),
{
    if totals.len() == 0 {
        ExtendedBalance::MAX
    } else {
        let rest = minimal_stake_of(totals.drop_last());
        if totals.last() < rest {
            totals.last()
        } else {
            rest
        }
    }
}

/// The sum of `totals`, held at the largest balance.
pub open spec fn sum_stake_of(totals: Seq<ExtendedBalance>) -> ExtendedBalance
    decreases totals.len(),
{
    if totals.len() == 0 {
        0
    } else {
        saturating_sum(sum_stake_of(totals.drop_last()), totals.last())
    }
}

/// The sum of the squares of `totals`, each square and the sum held at the largest
/// balance.
pub open spec fn sum_stake_squared_of(totals: Seq<ExtendedBalance>) -> ExtendedBalance
    decreases totals.len(),
{
    if totals.len() == 0 {
        0
    } else {
        saturating_sum(
            sum_stake_squared_of(totals.drop_last()),
            saturating_square(totals.last()),
        )
    }
}

/// The score of targets that are backed by `totals`.
pub open spec fn score_of(totals: Seq<ExtendedBalance>) -> ElectionScore {
    ElectionScore {
        minimal_stake: minimal_stake_of(totals),
        sum_stake: sum_stake_of(totals),
        sum_stake_squared: sum_stake_squared_of(totals),
    }
}

/// The totals of `backings`, in their order.
pub open spec fn totals_of(backings: Seq<(AccountId, ExtendedBalance)>) -> Seq<ExtendedBalance> {
    Seq::new(backings.len(), |i: int| backings[i].1)
}

/// The sum of `totals`.
pub open spec fn plain_sum(totals: Seq<ExtendedBalance>) -> int
    decreases totals.len(),
{
    if totals.len() == 0 {
        0
    } else {
        plain_sum(totals.drop_last()) + totals.last()
    }
}

/// The sum of the squares of `totals`, each square held at the largest balance.
pub open spec fn squares_sum(totals: Seq<ExtendedBalance>) -> int
    decreases totals.len(),
{
    if totals.len() == 0 {
        0
    } else {
        squares_sum(totals.drop_last()) + saturating_square(totals.last())
    }
}

/// The least of the totals is one of them and no larger than any of them; where there
/// is no total, it is the largest balance.
pub proof fn lemma_minimal_stake(totals: Seq<ExtendedBalance>)
    ensures
        forall|i: int| 0 <= i < totals.len() ==> minimal_stake_of(totals) <= #[trigger] totals[i],
        totals.len() == 0 ==> minimal_stake_of(totals) == ExtendedBalance::MAX,
        totals.len() > 0 ==> exists|i: int|
            0 <= i < totals.len() && minimal_stake_of(totals) == #[trigger] totals[i],
    decreases totals.len(),
{
    if totals.len() > 0 {
        let front = totals.drop_last();
        lemma_minimal_stake(front);
        assert forall|i: int| 0 <= i < totals.len() implies minimal_stake_of(totals)
            <= #[trigger] totals[i] by {
            if i < front.len() {
                assert(front[i] == totals[i]);
            }
        }
        if totals.last() < minimal_stake_of(front) || front.len() == 0 {
            assert(minimal_stake_of(totals) == totals[totals.len() - 1]);
        } else {
            let i = choose|i: int| 0 <= i < front.len() && minimal_stake_of(front) == front[i];
            assert(minimal_stake_of(totals) == totals[i]);
        }
    }
}

/// The sums of a score are the plain sums, held at the largest balance: nothing is
/// lost by holding every step of the addition.
pub proof fn lemma_sums(totals: Seq<ExtendedBalance>)
    ensures
        0 <= plain_sum(totals),
        0 <= squares_sum(totals),
        sum_stake_of(totals) == capped(plain_sum(totals)),
        sum_stake_squared_of(totals) == capped(squares_sum(totals)),
    decreases totals.len(),
{
    if totals.len() > 0 {
        lemma_sums(totals.drop_last());
    }
}

} // verus!
