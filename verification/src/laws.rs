//! What holds of every run of the verifier, whatever is submitted to it and whatever the
//! snapshots hold.

use crate::error::{FeasibilityError, SubmitError};
use crate::paged_store::page_range;
use crate::pallet::PalletView;
use crate::queued::{lemma_backed_scratch, score_of_pages};
use crate::snapshot::SnapshotView;
use crate::types::{
    AccountId, ElectionScore, ExtendedBalance, PageIndex, PartialSolutionView, SupportsView,
};
use crate::verifying::VerifyingView;
use vstd::prelude::*;

verus! {

/// What can happen to a verifier in a round.
pub enum Event {
    /// A page of a candidate is submitted.
    Page(PageIndex, PartialSolutionView),
    /// The candidate is sealed with the score it claims.
    Seal(ElectionScore),
    /// A tick, against the snapshot as it is at that time.
    Tick(SnapshotView),
}

impl Event {
    /// Whether the event is a submission: a page or a seal.
    pub open spec fn is_submission(self) -> bool {
        self is Page || self is Seal
    }
}

/// The verifier after `event`.
pub open spec fn step(s: PalletView, event: Event) -> PalletView {
    match event {
        Event::Page(page, solution) => s.set_unverified_solution_page(page, solution),
        Event::Seal(claimed_score) => s.seal_unverified_solution(claimed_score),
        Event::Tick(snapshot) => s.tick(snapshot),
    }
}

/// What `event` is answered with; a tick answers nothing.
pub open spec fn answer(s: PalletView, event: Event) -> Result<(), SubmitError> {
    match event {
        Event::Page(_, _) => s.verifying.put_page_result(),
        Event::Seal(claimed_score) => s.seal_result(claimed_score),
        Event::Tick(_) => Ok(()),
    }
}

/// The verifier after all of `events`, one after the other.
pub open spec fn run(s: PalletView, events: Seq<Event>) -> PalletView
    decreases events.len(),
{
    if events.len() == 0 {
        s
    } else {
        step(run(s, events.drop_last()), events.last())
    }
}

/// Whether a tick against `snapshot` promotes the candidate: the cursor is at the last
/// page to verify, that page passes the check, and with it collected the claim of the
/// candidate holds.
pub open spec fn promotes(s: PalletView, snapshot: SnapshotView) -> bool {
    &&& s.verifying.cursor == Some(0 as PageIndex)
    &&& s.check_current_page(snapshot) matches Ok(supports)
    &&& s.collect(supports).claim_holds()
}

/// Whether `event` is a tick that promotes the candidate.
pub open spec fn is_promotion(s: PalletView, event: Event) -> bool {
    event matches Event::Tick(snapshot) && promotes(s, snapshot)
}

/// Every event keeps what holds of the verifier between calls.
pub proof fn lemma_step_keeps_inv(s: PalletView, event: Event)
    requires
        s.inv(),
    ensures
        step(s, event).inv(),
{
    match event {
        Event::Page(page, solution) => {},
        Event::Seal(claimed_score) => {
            assert(s.verified_pages(s.msp()) =~= Set::<PageIndex>::empty());
        },
        Event::Tick(snapshot) => {
            lemma_outcome_keeps_inv(s, s.check_current_page(snapshot));
        },
    }
}

/// Whatever the check of a page gives, taking it keeps what holds of the verifier
/// between calls.
pub proof fn lemma_outcome_keeps_inv(s: PalletView, outcome: Result<SupportsView, FeasibilityError>)
    requires
        s.inv(),
    ensures
        s.page_outcome(outcome).inv(),
{
    if let Some(cursor) = s.verifying.cursor {
        if let Ok(supports) = outcome {
            let after = s.collect(supports);
            if cursor > 0 {
                assert(after.queued.backings.dom() =~= after.verified_pages(
                    (cursor - 1) as PageIndex,
                ));
            }
        }
    }
}

/// Every run keeps what holds of the verifier between calls.
pub proof fn lemma_run_keeps_inv(s: PalletView, events: Seq<Event>)
    requires
        s.inv(),
    ensures
        run(s, events).inv(),
    decreases events.len(),
{
    if events.len() > 0 {
        lemma_run_keeps_inv(s, events.drop_last());
        lemma_step_keeps_inv(run(s, events.drop_last()), events.last());
    }
}

/// A seal that succeeds leaves a sealed candidate that claims the sealed score and is
/// verified from the last page of the round down.
pub proof fn lemma_seal_seals(s: PalletView, claimed_score: ElectionScore)
    requires
        s.seal_result(claimed_score) is Ok,
    ensures
        s.seal_unverified_solution(claimed_score).verifying.is_sealed(),
        s.seal_unverified_solution(claimed_score).verifying.score == Some(claimed_score),
        s.seal_unverified_solution(claimed_score).verifying.cursor == Some(s.msp()),
        s.seal_unverified_solution(claimed_score).verifying.pages == s.verifying.pages,
{
}

/// While a sealed candidate is there, every page and every seal is refused as already
/// sealed, and changes nothing.
///
/// `events` is any run from `s`; the claim is about its event number `at`, be it after
/// submissions, ticks or both, as long as the tracker has not become idle by then.
pub proof fn lemma_exclusivity(s: PalletView, events: Seq<Event>, at: int)
    requires
        0 <= at < events.len(),
        events[at].is_submission(),
        run(s, events.take(at)).verifying.is_sealed(),
    ensures
        answer(run(s, events.take(at)), events[at]) == Err::<(), SubmitError>(
            SubmitError::AlreadySealed,
        ),
        run(s, events.take(at + 1)) == run(s, events.take(at)),
{
    assert(events.take(at + 1).drop_last() =~= events.take(at));
    assert(events.take(at + 1).last() == events[at]);
}

/// A sealed candidate stays as it was sealed through any number of submissions: none of
/// them changes the verifier.
pub proof fn lemma_submissions_bounce(s: PalletView, events: Seq<Event>)
    requires
        s.verifying.is_sealed(),
        forall|i: int| 0 <= i < events.len() ==> (#[trigger] events[i]).is_submission(),
    ensures
        run(s, events) == s,
    decreases events.len(),
{
    if events.len() > 0 {
        assert forall|i: int| 0 <= i < events.drop_last().len() implies (
        #[trigger] events.drop_last()[i]).is_submission() by {
            assert(events.drop_last()[i] == events[i]);
        }
        lemma_submissions_bounce(s, events.drop_last());
        assert(events.last() == events[events.len() - 1]);
    }
}

/// An event either leaves what readers see exactly as it was, or it is the tick that
/// promotes the candidate, after which readers see the claimed score and every page of
/// the round as it was verified: the pages collected before, and the page that this tick
/// verified. Nothing in between can be seen.
pub proof fn lemma_atomic_promotion(s: PalletView, event: Event)
    requires
        s.inv(),
    ensures
        !is_promotion(s, event) ==> step(s, event).readers_view() == s.readers_view(),
        is_promotion(s, event) ==> {
            let supports = s.check_current_page(event->Tick_0)->Ok_0;
            &&& step(s, event).readers_view().0 == s.verifying.score
            &&& step(s, event).readers_view().1 == s.queued.invalid_pages().insert(
                0 as PageIndex,
                supports,
            )
            &&& step(s, event).readers_view().1.dom() == page_range(s.config.pages as int)
        },
{
    if let Event::Tick(snapshot) = event {
        if promotes(s, snapshot) {
            let supports = s.check_current_page(snapshot)->Ok_0;
            lemma_backed_scratch(s.queued);
            assert(s.queued.invalid_pages().insert(0 as PageIndex, supports).dom() =~= page_range(
                s.config.pages as int,
            ));
        }
    }
}

/// When the check of the page under the cursor fails, the candidate is gone, with all
/// that was collected for it, and what readers see is what they saw before.
pub proof fn lemma_failed_page_discards(s: PalletView, snapshot: SnapshotView)
    requires
        s.verifying.cursor is Some,
        s.check_current_page(snapshot) is Err,
    ensures
        s.tick(snapshot).readers_view() == s.readers_view(),
        s.tick(snapshot).verifying == VerifyingView::empty(),
        s.tick(snapshot).queued.invalid_pages() == Map::<PageIndex, SupportsView>::empty(),
        s.tick(snapshot).queued.backings == Map::<
            PageIndex,
            Seq<(AccountId, ExtendedBalance)>,
        >::empty(),
        !promotes(s, snapshot),
{
}

/// As long as no tick promotes a candidate, what readers see is what they saw at the
/// start, whatever was submitted, sealed and verified in between.
pub proof fn lemma_unpromoted_run_keeps_queue(s: PalletView, events: Seq<Event>)
    requires
        s.inv(),
        forall|i: int|
            0 <= i < events.len() ==> !is_promotion(run(s, events.take(i)), #[trigger] events[i]),
    ensures
        run(s, events).readers_view() == s.readers_view(),
    decreases events.len(),
{
    if events.len() > 0 {
        let front = events.drop_last();
        assert forall|i: int| 0 <= i < front.len() implies !is_promotion(
            run(s, front.take(i)),
            #[trigger] front[i],
        ) by {
            assert(front.take(i) =~= events.take(i));
            assert(front[i] == events[i]);
        }
        lemma_unpromoted_run_keeps_queue(s, front);
        lemma_run_keeps_inv(s, front);
        assert(events.take(events.len() - 1) =~= front);
        assert(!is_promotion(run(s, front), events[events.len() - 1]));
        lemma_atomic_promotion(run(s, front), events.last());
    }
}

/// At the end of a verification the collected pages become the valid solution exactly if
/// their score is the claimed score and they elect as many targets as are desired; the
/// score that is queued with them is then the recomputed one. Else the candidate is
/// dropped.
pub proof fn lemma_finalize_promotes_iff_claim_holds(s: PalletView)
    ensures
        s.finalize().queued.valid_variant != s.queued.valid_variant <==> s.claim_holds(),
        s.claim_holds() ==> s.finalize().queued == s.queued.finalize_correct(
            s.queued.final_score().0,
        ) && s.finalize().queued.score == s.verifying.score,
        !s.claim_holds() ==> s.finalize() == s.discard(),
        s.finalize().verifying == VerifyingView::empty(),
{
}

/// The slots are flipped exactly by the tick
/// that verifies the last page of a candidate whose claim holds of the collected
/// pages.
pub proof fn lemma_tick_promotes_iff(s: PalletView, snapshot: SnapshotView)
    requires
        s.inv(),
    ensures
        s.tick(snapshot).queued.valid_variant != s.queued.valid_variant <==> promotes(s, snapshot),
{
    if let Some(cursor) = s.verifying.cursor {
        if let Ok(supports) = s.check_current_page(snapshot) {
            if cursor == 0 {
                lemma_finalize_promotes_iff_claim_holds(s.collect(supports));
            }
        }
    }
}

/// What is promoted has the score that is queued with it: after the tick that promotes
/// a candidate, the queued score is the score of the queued pages, recomputed from
/// their supports, and they elect as many targets as are desired.
pub proof fn lemma_promoted_score_is_recomputed(s: PalletView, snapshot: SnapshotView)
    requires
        s.inv(),
        promotes(s, snapshot),
    ensures
        s.tick(snapshot).queued.score == Some(
            score_of_pages(s.tick(snapshot).queued.valid_pages()).0,
        ),
        score_of_pages(s.tick(snapshot).queued.valid_pages()).1 == s.config.desired_targets,
{
    let supports = s.check_current_page(snapshot)->Ok_0;
    let after = s.collect(supports);
    lemma_outcome_keeps_scratch_backed(s, supports);
    lemma_backed_scratch(after.queued);
}

/// Collecting a page keeps the backings those of the pages in the scratch slot.
pub proof fn lemma_outcome_keeps_scratch_backed(s: PalletView, supports: SupportsView)
    requires
        s.inv(),
        s.verifying.cursor is Some,
    ensures
        s.collect(supports).queued.scratch_is_backed(),
{
}

/// Without a candidate under verification a tick changes nothing,
/// and so does any number of ticks.
pub proof fn lemma_idle_ticks_change_nothing(s: PalletView, events: Seq<Event>)
    requires
        s.verifying.cursor is None,
        forall|i: int| 0 <= i < events.len() ==> #[trigger] events[i] is Tick,
    ensures
        run(s, events) == s,
    decreases events.len(),
{
    if events.len() > 0 {
        let front = events.drop_last();
        assert forall|i: int| 0 <= i < front.len() implies #[trigger] front[i] is Tick by {
            assert(front[i] == events[i]);
        }
        lemma_idle_ticks_change_nothing(s, front);
        assert(events.last() == events[events.len() - 1]);
    }
}

/// A run that starts with `first` is the run of the rest from where `first` leads.
pub proof fn lemma_run_from_first(s: PalletView, first: Event, rest: Seq<Event>)
    ensures
        run(s, seq![first] + rest) == run(step(s, first), rest),
    decreases rest.len(),
{
    let events = seq![first] + rest;
    if rest.len() == 0 {
        assert(events.drop_last() =~= Seq::<Event>::empty());
        assert(events.last() == first);
        assert(run(s, events.drop_last()) == s);
        assert(run(step(s, first), rest) == step(s, first));
    } else {
        assert(events.drop_last() =~= seq![first] + rest.drop_last());
        assert(events.last() == rest.last());
        lemma_run_from_first(s, first, rest.drop_last());
        assert(run(s, events) == step(run(s, events.drop_last()), events.last()));
        assert(run(step(s, first), rest) == step(
            run(step(s, first), rest.drop_last()),
            rest.last(),
        ));
    }
}

/// Every candidate is decided in time: a sealed candidate whose cursor stands at a
/// page is gone, promoted or dropped, after one tick for that page and one for each
/// page below it, whatever the snapshots hold at those ticks.
pub proof fn lemma_verification_ends(s: PalletView, ticks: Seq<Event>)
    requires
        s.inv(),
        forall|i: int| 0 <= i < ticks.len() ==> #[trigger] ticks[i] is Tick,
        s.verifying.cursor matches Some(cursor) ==> ticks.len() > cursor,
    ensures
        run(s, ticks).verifying.cursor is None,
        !run(s, ticks).verifying.is_sealed(),
    decreases ticks.len(),
{
    lemma_run_keeps_inv(s, ticks);
    if s.verifying.cursor is None {
        lemma_idle_ticks_change_nothing(s, ticks);
    } else {
        let first = ticks[0];
        let rest = ticks.skip(1);
        assert(ticks =~= seq![first] + rest);
        lemma_run_from_first(s, first, rest);
        lemma_step_keeps_inv(s, first);
        assert forall|i: int| 0 <= i < rest.len() implies #[trigger] rest[i] is Tick by {
            assert(rest[i] == ticks[i + 1]);
        }
        lemma_verification_ends(step(s, first), rest);
    }
}

/// Whether `ticks` are the ticks of a correct candidate: each of them finds the page
/// under the cursor feasible, and the last of them promotes the candidate.
pub open spec fn verifies_correct_candidate(s: PalletView, ticks: Seq<Event>) -> bool
    decreases ticks.len(),
{
    &&& ticks.len() > 0
    &&& ticks[0] matches Event::Tick(snapshot)
    &&& s.check_current_page(snapshot) is Ok
    &&& if ticks.len() == 1 {
        promotes(s, snapshot)
    } else {
        verifies_correct_candidate(s.tick(snapshot), ticks.skip(1))
    }
}

/// A candidate that is correct is queued: when every page from the cursor down passes
/// its check, one tick each, and the claim holds once the last page is collected, then
/// after those ticks readers see the score that the candidate claimed, and no candidate
/// is left.
pub proof fn lemma_correct_candidate_is_queued(s: PalletView, ticks: Seq<Event>)
    requires
        s.inv(),
        s.verifying.cursor matches Some(cursor) && ticks.len() == cursor + 1,
        verifies_correct_candidate(s, ticks),
    ensures
        run(s, ticks).readers_view().0 == s.verifying.score,
        run(s, ticks).verifying == VerifyingView::empty(),
    decreases ticks.len(),
{
    let first = ticks[0];
    let rest = ticks.skip(1);
    let next = step(s, first);
    assert(ticks =~= seq![first] + rest);
    lemma_run_from_first(s, first, rest);
    if rest.len() == 0 {
        assert(run(next, rest) == next);
        lemma_atomic_promotion(s, first);
        lemma_round_ends_idle(s, first->Tick_0);
    } else {
        lemma_step_keeps_inv(s, first);
        lemma_page_verified(s, first->Tick_0);
        lemma_correct_candidate_is_queued(next, rest);
    }
}

/// Every end of a verification ends in idleness: after the tick on page 0, and after a
/// tick on a page that fails, no candidate is left and nothing is left in the scratch.
pub proof fn lemma_round_ends_idle(s: PalletView, snapshot: SnapshotView)
    requires
        s.inv(),
        s.verifying.cursor is Some,
        s.verifying.cursor == Some(0 as PageIndex) || s.check_current_page(snapshot) is Err,
    ensures
        s.tick(snapshot).verifying == VerifyingView::empty(),
        s.tick(snapshot).queued.invalid_pages() == Map::<PageIndex, SupportsView>::empty(),
{
    if let Some(cursor) = s.verifying.cursor {
        if let Ok(supports) = s.check_current_page(snapshot) {
            let after = s.collect(supports);
            assert(after.finalize().queued.invalid_pages() =~= Map::<
                PageIndex,
                SupportsView,
            >::empty());
        }
    }
}

/// A tick on a page that passes, with pages left, keeps the candidate sealed as it was
/// and moves the cursor one page down.
pub proof fn lemma_page_verified(s: PalletView, snapshot: SnapshotView)
    requires
        s.inv(),
        s.verifying.cursor matches Some(cursor) && cursor > 0,
        s.check_current_page(snapshot) is Ok,
    ensures
        s.tick(snapshot).verifying.score == s.verifying.score,
        s.tick(snapshot).verifying.pages == s.verifying.pages,
        s.tick(snapshot).verifying.cursor == Some((s.verifying.cursor->0 - 1) as PageIndex),
        s.tick(snapshot).queued == s.queued.set_invalid_page(
            s.verifying.cursor->0,
            s.check_current_page(snapshot)->Ok_0,
        ),
{
}

} // verus!
