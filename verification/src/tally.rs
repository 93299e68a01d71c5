//! The tally of backings: what each target is backed with in total, added up over the
//! backings of many pages.
//!
//! A tally lists each backed target once. A total never exceeds the largest balance:
//! where the backings of a target add up to more, its total is the largest balance.

use crate::score::{capped, saturating_sum};
use crate::types::{AccountId, ExtendedBalance, PageIndex};
use vstd::prelude::*;

verus! {

/// The position of `who` among the first `len` entries of `totals`: the last one that
/// is for `who`, if any is.
pub open spec fn position_below(
    totals: Seq<(AccountId, ExtendedBalance)>,
    who: AccountId,
    len: int,
) -> Option<int>
    decreases len,
{
    if len <= 0 {
        None
    } else if totals[len - 1].0 == who {
        Some(len - 1)
    } else {
        position_below(totals, who, len - 1)
    }
}

/// The position of the entry for `who` in `totals`, if there is one.
pub open spec fn position_of(totals: Seq<(AccountId, ExtendedBalance)>, who: AccountId) -> Option<
    int,
> {
    position_below(totals, who, totals.len() as int)
}

/// The total that `totals` has for `who`, if it has one.
pub open spec fn total_of(totals: Seq<(AccountId, ExtendedBalance)>, who: AccountId) -> Option<
    ExtendedBalance,
> {
    match position_of(totals, who) {
        Some(k) => Some(totals[k].1),
        None => None,
    }
}

/// Whether no target has two entries in `totals`.
pub open spec fn keys_distinct(totals: Seq<(AccountId, ExtendedBalance)>) -> bool {
    forall|i: int, j: int|
        0 <= i < j < totals.len() ==> (#[trigger] totals[i]).0 != (#[trigger] totals[j]).0
}

/// `totals` after `amount` more has come in for `who`: the entry of `who` grows, held at
/// the largest balance; a target without an entry gets one at the end.
pub open spec fn add_backing(
    totals: Seq<(AccountId, ExtendedBalance)>,
    who: AccountId,
    amount: ExtendedBalance,
) -> Seq<(AccountId, ExtendedBalance)> {
    match position_of(totals, who) {
        Some(k) => totals.update(k, (who, saturating_sum(totals[k].1, amount))),
        None => totals.push((who, amount)),
    }
}

/// `totals` after all of `backings` have come in, one after the other.
pub open spec fn merge_backings(
    totals: Seq<(AccountId, ExtendedBalance)>,
    backings: Seq<(AccountId, ExtendedBalance)>,
) -> Seq<(AccountId, ExtendedBalance)>
    decreases backings.len(),
{
    if backings.len() == 0 {
        totals
    } else {
        add_backing(
            merge_backings(totals, backings.drop_last()),
            backings.last().0,
            backings.last().1,
        )
    }
}

/// The tally of the pages below `bound`, pages taken in ascending order.
pub open spec fn total_backings(
    pages: Map<PageIndex, Seq<(AccountId, ExtendedBalance)>>,
    bound: int,
) -> Seq<(AccountId, ExtendedBalance)>
    decreases bound,
{
    if bound <= 0 {
        Seq::empty()
    } else {
        let front = total_backings(pages, bound - 1);
        let page = (bound - 1) as PageIndex;
        if pages.contains_key(page) {
            merge_backings(front, pages[page])
        } else {
            front
        }
    }
}

/// Whether `backings` has an entry for `who`.
pub open spec fn occurs(backings: Seq<(AccountId, ExtendedBalance)>, who: AccountId) -> bool
    decreases backings.len(),
{
    backings.len() > 0 && (backings.last().0 == who || occurs(backings.drop_last(), who))
}

/// The sum of what `backings` holds for `who`.
pub open spec fn backing_of(backings: Seq<(AccountId, ExtendedBalance)>, who: AccountId) -> int
    decreases backings.len(),
{
    if backings.len() == 0 {
        0
    } else if backings.last().0 == who {
        backing_of(backings.drop_last(), who) + backings.last().1
    } else {
        backing_of(backings.drop_last(), who)
    }
}

/// Whether a page below `bound` has an entry for `who`.
pub open spec fn occurs_below(
    pages: Map<PageIndex, Seq<(AccountId, ExtendedBalance)>>,
    bound: int,
    who: AccountId,
) -> bool
    decreases bound,
{
    bound > 0 && (occurs_below(pages, bound - 1, who) || (pages.contains_key(
        (bound - 1) as PageIndex,
    ) && occurs(pages[(bound - 1) as PageIndex], who)))
}

/// The sum of what the pages below `bound` hold for `who`.
pub open spec fn backing_below(
    pages: Map<PageIndex, Seq<(AccountId, ExtendedBalance)>>,
    bound: int,
    who: AccountId,
) -> int
    decreases bound,
{
    if bound <= 0 {
        0
    } else if pages.contains_key((bound - 1) as PageIndex) {
        backing_below(pages, bound - 1, who) + backing_of(pages[(bound - 1) as PageIndex], who)
    } else {
        backing_below(pages, bound - 1, who)
    }
}

/// The targets of `totals`, in their order.
pub open spec fn targets_of(totals: Seq<(AccountId, ExtendedBalance)>) -> Seq<AccountId> {
    Seq::new(totals.len(), |i: int| totals[i].0)
}

/// What `position_below` finds is a position of `who`, and it finds one if there is any.
pub proof fn lemma_position_below(
    totals: Seq<(AccountId, ExtendedBalance)>,
    who: AccountId,
    len: int,
)
    requires
        0 <= len <= totals.len(),
    ensures
        match position_below(totals, who, len) {
            Some(k) => 0 <= k < len && totals[k].0 == who,
            None => forall|i: int| 0 <= i < len ==> (#[trigger] totals[i]).0 != who,
        },
    decreases len,
{
    if len > 0 && totals[len - 1].0 != who {
        lemma_position_below(totals, who, len - 1);
    }
}

/// In a tally the entry for a target is found where it is.
pub proof fn lemma_position_is_unique(
    totals: Seq<(AccountId, ExtendedBalance)>,
    who: AccountId,
    k: int,
)
    requires
        keys_distinct(totals),
        0 <= k < totals.len(),
        totals[k].0 == who,
    ensures
        position_of(totals, who) == Some(k),
{
    lemma_position_below(totals, who, totals.len() as int);
    let found = position_of(totals, who);
    if found is Some {
        let p = found->0;
        if p < k {
            assert(totals[p].0 != totals[k].0);
        } else if k < p {
            assert(totals[k].0 != totals[p].0);
        }
    } else {
        assert(totals[k].0 != who);
    }
}

/// What a tally holds after one more backing: the total of its target has grown by the
/// amount, held at the largest balance, and every other total is as it was.
pub proof fn lemma_add_backing(
    totals: Seq<(AccountId, ExtendedBalance)>,
    who: AccountId,
    amount: ExtendedBalance,
    other: AccountId,
)
    requires
        keys_distinct(totals),
    ensures
        keys_distinct(add_backing(totals, who, amount)),
        total_of(add_backing(totals, who, amount), other) == (if other == who {
            Some(
                saturating_sum(
                    match total_of(totals, who) {
                        Some(total) => total,
                        None => 0,
                    },
                    amount,
                ),
            )
        } else {
            total_of(totals, other)
        }),
{
    let after = add_backing(totals, who, amount);
    lemma_position_below(totals, who, totals.len() as int);
    lemma_position_below(totals, other, totals.len() as int);
    assert(keys_distinct(after)) by {
        assert forall|i: int, j: int| 0 <= i < j < after.len() implies (#[trigger] after[i]).0 != (
        #[trigger] after[j]).0 by {
            if j < totals.len() {
                assert(totals[i].0 != totals[j].0);
            } else {
                assert(totals[i].0 != who);
            }
        }
    }
    match position_of(totals, other) {
        Some(j) => {
            assert(after[j].0 == other);
            lemma_position_is_unique(after, other, j);
        },
        None => {
            if other == who {
                assert(after[totals.len() as int].0 == who);
                lemma_position_is_unique(after, who, totals.len() as int);
            } else {
                lemma_position_below(after, other, after.len() as int);
                if position_of(after, other) is Some {
                    let p = position_of(after, other)->0;
                    if p < totals.len() {
                        assert(totals[p].0 != other);
                    }
                }
            }
        },
    }
}

/// What backings hold for a target is not negative.
pub proof fn lemma_backing_of_is_natural(
    backings: Seq<(AccountId, ExtendedBalance)>,
    who: AccountId,
)
    ensures
        0 <= backing_of(backings, who),
    decreases backings.len(),
{
    if backings.len() > 0 {
        lemma_backing_of_is_natural(backings.drop_last(), who);
    }
}

/// Backings without an entry for a target hold nothing for it.
pub proof fn lemma_absent_backs_nothing(
    backings: Seq<(AccountId, ExtendedBalance)>,
    who: AccountId,
)
    requires
        !occurs(backings, who),
    ensures
        backing_of(backings, who) == 0,
    decreases backings.len(),
{
    if backings.len() > 0 {
        lemma_absent_backs_nothing(backings.drop_last(), who);
    }
}

/// Pages without an entry for a target hold nothing for it.
pub proof fn lemma_absent_below_backs_nothing(
    pages: Map<PageIndex, Seq<(AccountId, ExtendedBalance)>>,
    bound: int,
    who: AccountId,
)
    requires
        !occurs_below(pages, bound, who),
    ensures
        backing_below(pages, bound, who) == 0,
    decreases bound,
{
    if bound > 0 {
        lemma_absent_below_backs_nothing(pages, bound - 1, who);
        if pages.contains_key((bound - 1) as PageIndex) {
            lemma_absent_backs_nothing(pages[(bound - 1) as PageIndex], who);
        }
    }
}

/// What pages hold for a target is not negative.
pub proof fn lemma_backing_below_is_natural(
    pages: Map<PageIndex, Seq<(AccountId, ExtendedBalance)>>,
    bound: int,
    who: AccountId,
)
    ensures
        0 <= backing_below(pages, bound, who),
    decreases bound,
{
    if bound > 0 {
        lemma_backing_below_is_natural(pages, bound - 1, who);
        if pages.contains_key((bound - 1) as PageIndex) {
            lemma_backing_of_is_natural(pages[(bound - 1) as PageIndex], who);
        }
    }
}

/// A total that is held at the largest balance and then grows is what the whole sum is
/// when held at the largest balance.
pub proof fn lemma_capped_sum(sum: int, amount: ExtendedBalance)
    requires
        0 <= sum,
    ensures
                saturating_sum(capped(sum), amount) == capped(sum + amount),
{
}

/// What a tally holds after the backings of a page: each target that the tally or the
/// page has an entry for, with what the tally had for it and what the page holds for
/// it, added up and held at the largest balance.
pub proof fn lemma_merge_backings(
    totals: Seq<(AccountId, ExtendedBalance)>,
    sum: int,
    backings: Seq<(AccountId, ExtendedBalance)>,
    who: AccountId,
)
    requires
        keys_distinct(totals),
        0 <= sum,
        total_of(totals, who) matches Some(total) ==> total == capped(sum),
        total_of(totals, who) is None ==> sum == 0,
    ensures
        keys_distinct(merge_backings(totals, backings)),
        total_of(merge_backings(totals, backings), who) == (if total_of(totals, who) is Some
            || occurs(backings, who) {
            Some(capped(sum + backing_of(backings, who)))
        } else {
            None
        }),
    decreases backings.len(),
{
    if backings.len() > 0 {
        let front = backings.drop_last();
        let last = backings.last();
        lemma_merge_backings(totals, sum, front, who);
        lemma_add_backing(merge_backings(totals, front), last.0, last.1, who);
        if !occurs(front, who) {
            lemma_absent_backs_nothing(front, who);
        }
        if last.0 == who {
            lemma_backing_of_is_natural(front, who);
            lemma_capped_sum(sum + backing_of(front, who), last.1);
        }
    }
}

/// What the tally of pages holds: each target that a page has an entry for, once, with
/// the sum of what all pages hold for it, held at the largest balance.
pub proof fn lemma_total_backings(
    pages: Map<PageIndex, Seq<(AccountId, ExtendedBalance)>>,
    bound: int,
    who: AccountId,
)
    ensures
        keys_distinct(total_backings(pages, bound)),
        total_of(total_backings(pages, bound), who) == (if occurs_below(pages, bound, who) {
            Some(capped(backing_below(pages, bound, who)))
        } else {
            None
        }),
    decreases bound,
{
    if bound > 0 {
        lemma_total_backings(pages, bound - 1, who);
        let page = (bound - 1) as PageIndex;
        lemma_backing_below_is_natural(pages, bound - 1, who);
        if !occurs_below(pages, bound - 1, who) {
            lemma_absent_below_backs_nothing(pages, bound - 1, who);
        }
        if pages.contains_key(page) {
            lemma_merge_backings(
                total_backings(pages, bound - 1),
                backing_below(pages, bound - 1, who),
                pages[page],
                who,
            );
        }
    } else {
        assert(position_of(Seq::<(AccountId, ExtendedBalance)>::empty(), who) is None);
    }
}

/// A tally has as many entries as there are targets with a total in it.
pub proof fn lemma_tally_len(totals: Seq<(AccountId, ExtendedBalance)>)
    requires
        keys_distinct(totals),
    ensures
        Set::new(|who: AccountId| total_of(totals, who) is Some).finite(),
        totals.len() == Set::new(|who: AccountId| total_of(totals, who) is Some).len(),
{
    let targets = targets_of(totals);
    assert(targets.no_duplicates()) by {
        assert forall|i: int, j: int|
            0 <= i < targets.len() && 0 <= j < targets.len() && i != j implies targets[i]
            != targets[j] by {
            if i < j {
                assert(totals[i].0 != totals[j].0);
            } else {
                assert(totals[j].0 != totals[i].0);
            }
        }
    }
    targets.unique_seq_to_set();
    assert(targets.to_set() =~= Set::new(|who: AccountId| total_of(totals, who) is Some)) by {
        assert forall|who: AccountId| targets.to_set().contains(who) <==> total_of(
            totals,
            who,
        ) is Some by {
            lemma_position_below(totals, who, totals.len() as int);
            if targets.contains(who) {
                let k = choose|k: int| 0 <= k < targets.len() && targets[k] == who;
                assert(totals[k].0 == who);
            }
            if total_of(totals, who) is Some {
                let k = position_of(totals, who)->0;
                assert(targets[k] == who);
            }
        }
    }
    vstd::seq_lib::seq_to_set_is_finite(targets);
}

/// The tally of all of `pages`.
pub open spec fn tally_of(pages: Map<PageIndex, Seq<(AccountId, ExtendedBalance)>>) -> Seq<
    (AccountId, ExtendedBalance),
> {
    total_backings(pages, PageIndex::MAX + 1)
}

/// The targets that some page of `pages` has an entry for.
pub open spec fn backed_targets(pages: Map<PageIndex, Seq<(AccountId, ExtendedBalance)>>) -> Set<
    AccountId,
> {
    Set::new(|who: AccountId| occurs_below(pages, PageIndex::MAX + 1, who))
}

/// The sum of what all of `pages` hold for `who`, held at the largest balance.
pub open spec fn total_backing(
    pages: Map<PageIndex, Seq<(AccountId, ExtendedBalance)>>,
    who: AccountId,
) -> ExtendedBalance {
    capped(backing_below(pages, PageIndex::MAX + 1, who))
}

/// What the tally of all pages is: it has one entry for each backed target and none for
/// any other; the total of a target is the sum of what all pages hold for it, held at
/// the largest balance; and it has as many entries as there are backed targets.
pub proof fn lemma_tally_of_pages(pages: Map<PageIndex, Seq<(AccountId, ExtendedBalance)>>)
    ensures
        keys_distinct(tally_of(pages)),
        forall|who: AccountId| #[trigger]
            total_of(tally_of(pages), who) == (if backed_targets(pages).contains(who) {
                Some(total_backing(pages, who))
            } else {
                None
            }),
        backed_targets(pages).finite(),
        tally_of(pages).len() == backed_targets(pages).len(),
{
    let tally = tally_of(pages);
    lemma_total_backings(pages, PageIndex::MAX + 1, 0);
    assert forall|who: AccountId| #[trigger]
        total_of(tally, who) == (if backed_targets(pages).contains(who) {
            Some(total_backing(pages, who))
        } else {
            None
        }) by {
        lemma_total_backings(pages, PageIndex::MAX + 1, who);
    }
    lemma_tally_len(tally);
    assert(backed_targets(pages) =~= Set::new(|who: AccountId| total_of(tally, who) is Some));
}

/// Adds `amount` to the total of `who`, or starts one at the end of `totals`.
pub fn add_to_totals(
    totals: &mut Vec<(AccountId, ExtendedBalance)>,
    who: AccountId,
    amount: ExtendedBalance,
)
    ensures
        final(totals)@ == add_backing(old(totals)@, who, amount),
{
    let mut len: usize = totals.len();
    while len > 0
        invariant
            len <= totals.len(),
            totals@ == old(totals)@,
            position_of(totals@, who) == position_below(totals@, who, len as int),
        decreases len,
    {
        if totals[len - 1].0 == who {
            let sum = totals[len - 1].1.saturating_add(amount);
            totals[len - 1] = (who, sum);
            return ;
        }
        len = len - 1;
    }
    totals.push((who, amount));
}

/// Adds all of `backings` to `totals`, one after the other.
pub fn merge_into_totals(
    totals: &mut Vec<(AccountId, ExtendedBalance)>,
    backings: &Vec<(AccountId, ExtendedBalance)>,
)
    ensures
        final(totals)@ == merge_backings(old(totals)@, backings@),
{
    let mut i: usize = 0;
    proof {
        assert(backings@.take(0) =~= Seq::empty());
    }
    while i < backings.len()
        invariant
            i <= backings.len(),
            totals@ == merge_backings(old(totals)@, backings@.take(i as int)),
        decreases backings.len() - i,
    {
        proof {
            assert(backings@.take(i + 1).drop_last() =~= backings@.take(i as int));
        }
        add_to_totals(totals, backings[i].0, backings[i].1);
        i = i + 1;
    }
    proof {
        assert(backings@.take(i as int) =~= backings@);
    }
}

} // verus!
