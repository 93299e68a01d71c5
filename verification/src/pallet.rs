//! The verifier: it takes the pages of a candidate, seals it, verifies one page per tick
//! and promotes the candidate to the queued solution once all of it is known to be
//! correct.

use crate::election::{strict_threshold_better, threshold_better};
use crate::error::{Error, FeasibilityError, SubmitError};
use crate::feasibility::{feasibility, feasibility_check_page_inner, outcome_view};
use crate::paged_store::{lemma_page_range_len, page_range};
use crate::queued::{QueuedSolution, QueuedView};
use crate::snapshot::{Snapshot, SnapshotView};
use crate::types::{
    ElectionScore, PageIndex, PartialSolution, PartialSolutionView, Supports, SupportsView,
};
use crate::verifying::{VerifyingSolution, VerifyingView};
use vstd::prelude::*;

verus! {

/// What a round is configured with.
#[derive(Clone, Copy, Debug, PartialEq, Eq, Structural)]
pub struct Config {
    /// The least improvement over the queued score, in parts per billion, that makes a
    /// claimed score better.
    pub solution_improvement_threshold: u32,
    /// The largest number of voters that may back one target over all pages.
    pub max_total_backings_per_target: u32,
    /// The number of pages of a round; at least one.
    pub pages: PageIndex,
    /// The number of targets that a solution must elect.
    pub desired_targets: u32,
}

/// The mathematical value of a [`Pallet`].
pub struct PalletView {
    pub config: Config,
    /// The floor that the score of every sealed candidate must exceed.
    pub minimum_untrusted_score: Option<ElectionScore>,
    /// The candidate that is being loaded or verified.
    pub verifying: VerifyingView,
    /// The queued solution and the scratch of the candidate.
    pub queued: QueuedView,
}

impl PalletView {
    /// A verifier that has seen nothing yet.
    pub open spec fn initial(config: Config) -> PalletView {
        PalletView {
            config,
            minimum_untrusted_score: None,
            verifying: VerifyingView::empty(),
            queued: QueuedView::empty(),
        }
    }

    /// The most significant page: the last page of a round, verified first.
    pub open spec fn msp(self) -> PageIndex {
        if self.config.pages == 0 {
            0
        } else {
            (self.config.pages - 1) as PageIndex
        }
    }

    /// The pages that have been verified while the cursor stands at `cursor`.
    pub open spec fn verified_pages(self, cursor: PageIndex) -> Set<PageIndex> {
        Set::new(|p: PageIndex| cursor < p <= self.msp())
    }

    /// What holds of the verifier between any two calls.
    ///
    /// A round has a page. A cursor stands exactly while a candidate is sealed. The
    /// backings are those of the pages in the scratch slot. The scratch slot holds no
    /// page while nothing is being verified, else exactly the pages above the cursor.
    pub open spec fn inv(self) -> bool {
        &&& self.config.pages >= 1
        &&& self.verifying.cursor is Some <==> self.verifying.score is Some
        &&& self.queued.scratch_is_backed()
        &&& match self.verifying.cursor {
            None => self.queued.backings.dom() =~= Set::<PageIndex>::empty(),
            Some(cursor) => cursor <= self.msp() && self.queued.backings.dom()
                =~= self.verified_pages(cursor),
        }
    }

    /// What readers see: the score and the pages of the valid solution.
    pub open spec fn readers_view(self) -> (Option<ElectionScore>, Map<PageIndex, SupportsView>) {
        (self.queued.score, self.queued.valid_pages())
    }

    /// Whether `score` improves on the queued score by the configured threshold; it
    /// does where nothing is queued.
    pub open spec fn is_improvement(self, score: ElectionScore) -> bool {
        match self.queued.score {
            Some(best) => threshold_better(score, best, self.config.solution_improvement_threshold),
            None => true,
        }
    }

    /// Whether `score` is strictly above the minimum asked of untrusted solutions; it
    /// is where no minimum is set.
    pub open spec fn is_above_minimum(self, score: ElectionScore) -> bool {
        match self.minimum_untrusted_score {
            Some(minimum) => threshold_better(score, minimum, 0),
            None => true,
        }
    }

    /// Whether `score` is good enough to be sealed.
    pub open spec fn score_quality(self, score: ElectionScore) -> Result<(), FeasibilityError> {
        quality_verdict_spec(self.is_improvement(score), self.is_above_minimum(score))
    }

    /// The verifier after a page was submitted.
    pub open spec fn set_unverified_solution_page(
        self,
        page: PageIndex,
        solution: PartialSolutionView,
    ) -> PalletView {
        PalletView { verifying: self.verifying.put_page(page, solution), ..self }
    }

    /// The verifier after an attempt to seal the candidate with `claimed_score`.
    pub open spec fn seal_unverified_solution(self, claimed_score: ElectionScore) -> PalletView {
        PalletView {
            verifying: self.verifying.seal(
                claimed_score,
                self.score_quality(claimed_score) is Ok,
                self.msp(),
            ),
            ..self
        }
    }

    /// What an attempt to seal the candidate with `claimed_score` is answered with.
    pub open spec fn seal_result(self, claimed_score: ElectionScore) -> Result<(), SubmitError> {
        self.verifying.seal_result(self.score_quality(claimed_score) is Ok)
    }

    /// The verifier after the candidate was dropped: no candidate, empty scratch.
    pub open spec fn discard(self) -> PalletView {
        PalletView {
            verifying: VerifyingView::empty(),
            queued: self.queued.clear_invalid(),
            ..self
        }
    }

    /// Whether the collected pages are what the candidate claimed: their score is the
    /// claimed score, and they elect as many targets as are desired.
    pub open spec fn claim_holds(self) -> bool {
        &&& self.verifying.score == Some(self.queued.final_score().0)
        &&& self.queued.final_score().1 == self.config.desired_targets
    }

    /// The verifier after the last page was collected: the candidate is promoted if its
    /// claim holds, and dropped if not.
    pub open spec fn finalize(self) -> PalletView {
        if self.claim_holds() {
            PalletView {
                verifying: VerifyingView::empty(),
                queued: self.queued.finalize_correct(self.queued.final_score().0),
                ..self
            }
        } else {
            self.discard()
        }
    }

    /// The verifier with the supports of the page under the cursor collected and the
    /// cursor moved on, before it is decided what becomes of the candidate.
    pub open spec fn collect(self, supports: SupportsView) -> PalletView {
        PalletView {
            verifying: self.verifying.proceed_page(),
            queued: self.queued.set_invalid_page(self.verifying.cursor->0, supports),
            ..self
        }
    }

    /// The verifier after the page under the cursor was checked with `outcome`.
    ///
    /// Without a candidate under verification nothing changes. An error drops the
    /// candidate. Supports are collected; after the last page the candidate is promoted
    /// or dropped.
    pub open spec fn page_outcome(
        self,
        outcome: Result<SupportsView, FeasibilityError>,
    ) -> PalletView {
        if self.verifying.cursor is None {
            self
        } else {
            match outcome {
                Ok(supports) => if self.verifying.has_more_pages() {
                    self.collect(supports)
                } else {
                    self.collect(supports).finalize()
                },
                Err(_) => self.discard(),
            }
        }
    }

    /// What the check of the page under the cursor gives, against `snapshot`.
    pub open spec fn check_current_page(self, snapshot: SnapshotView) -> Result<
        SupportsView,
        FeasibilityError,
    > {
        let page = self.verifying.cursor->0;
        feasibility(
            snapshot.targets,
            snapshot.voters_of(page),
            self.verifying.page_or_empty(page),
        )
    }

    /// The verifier after one tick against `snapshot`.
    pub open spec fn tick(self, snapshot: SnapshotView) -> PalletView {
        self.page_outcome(self.check_current_page(snapshot))
    }

    /// The number of given pages as a page index, held at the largest page index.
    pub open spec fn page_count_of(len: nat) -> PageIndex {
        if len > PageIndex::MAX {
            PageIndex::MAX
        } else {
            len as PageIndex
        }
    }

    /// What an emergency solution of `len` pages is answered with.
    pub open spec fn emergency_result(
        self,
        force_origin: bool,
        emergency: bool,
        len: nat,
    ) -> Result<(), Error> {
        if !force_origin {
            Err(Error::BadOrigin)
        } else if !emergency {
            Err(Error::CallNotAllowed)
        } else if Self::page_count_of(len) != self.config.pages {
            Err(Error::WrongPageCount)
        } else {
            Ok(())
        }
    }

    /// The verifier after an emergency solution was offered.
    pub open spec fn set_emergency_solution(
        self,
        force_origin: bool,
        emergency: bool,
        paged: Seq<SupportsView>,
        claimed_score: ElectionScore,
    ) -> PalletView {
        if self.emergency_result(force_origin, emergency, paged.len()) is Ok {
            PalletView {
                queued: self.queued.force_set_valid(paged, claimed_score, self.config.pages),
                ..self
            }
        } else {
            self
        }
    }
}

/// The answer to a claimed score of which it is known whether it improves on the queued
/// one and whether it is above the minimum.
pub open spec fn quality_verdict_spec(is_improvement: bool, is_above_minimum: bool) -> Result<
    (),
    FeasibilityError,
> {
    if is_improvement && is_above_minimum {
        Ok(())
    } else {
        Err(FeasibilityError::ScoreTooLow)
    }
}

/// The answer to a claimed score of which it is known whether it improves on the queued
/// one and whether it is above the minimum: both are needed.
pub fn quality_verdict(is_improvement: bool, is_above_minimum: bool) -> (res: Result<
    (),
    FeasibilityError,
>)
    ensures
        res == quality_verdict_spec(is_improvement, is_above_minimum),
{
    if !is_improvement {
        return Err(FeasibilityError::ScoreTooLow);
    }
    if !is_above_minimum {
        return Err(FeasibilityError::ScoreTooLow);
    }
    Ok(())
}

/// The verifier of paged solutions.
pub struct Pallet {
    config: Config,
    minimum_untrusted_score: Option<ElectionScore>,
    verifying: VerifyingSolution,
    queued: QueuedSolution,
}

impl View for Pallet {
    type V = PalletView;

    closed spec fn view(&self) -> PalletView {
        PalletView {
            config: self.config,
            minimum_untrusted_score: self.minimum_untrusted_score,
            verifying: self.verifying@,
            queued: self.queued@,
        }
    }
}

impl Pallet {
    /// A verifier for rounds as `config` describes them, or `None` where `config` gives
    /// a round no page.
    pub fn new(config: Config) -> (pallet: Option<Self>)
        ensures
            match pallet {
                Some(pallet) => config.pages >= 1 && pallet@ == PalletView::initial(config)
                    && pallet@.inv(),
                None => config.pages == 0,
            },
    {
        if config.pages == 0 {
            return None;
        }
        Some(
            Pallet {
                config,
                minimum_untrusted_score: None,
                verifying: VerifyingSolution::new(),
                queued: QueuedSolution::new(),
            },
        )
    }

    /// What the verifier is configured with.
    pub fn config(&self) -> (config: Config)
        ensures
            config == self@.config,
    {
        self.config
    }

    /// The candidate that is being loaded or verified.
    pub fn verifying(&self) -> (verifying: &VerifyingSolution)
        ensures
            verifying@ == self@.verifying,
    {
        &self.verifying
    }

    /// The queued solution and the scratch of the candidate.
    pub fn queued(&self) -> (queued: &QueuedSolution)
        ensures
            queued@ == self@.queued,
    {
        &self.queued
    }

    /// The most significant page: the last page of a round, verified first.
    pub fn msp(&self) -> (page: PageIndex)
        ensures
            page == self@.msp(),
    {
        self.config.pages.saturating_sub(1)
    }

    /// The minimum that the score of an untrusted solution must exceed, if one is set.
    pub fn minimum_untrusted_score(&self) -> (score: Option<ElectionScore>)
        ensures
            score == self@.minimum_untrusted_score,
    {
        self.minimum_untrusted_score
    }

    /// Sets or, with `None`, removes the minimum that the score of an untrusted solution
    /// must exceed. Only the controlling origin may do so.
    pub fn set_minimum_untrusted_score(
        &mut self,
        force_origin: bool,
        maybe_next_score: Option<ElectionScore>,
    ) -> (res: Result<(), Error>)
        requires
            old(self)@.inv(),
        ensures
            final(self)@.inv(),
            res == (if force_origin {
                Ok::<(), Error>(())
            } else {
                Err::<(), Error>(Error::BadOrigin)
            }),
            final(self)@ == (if force_origin {
                PalletView { minimum_untrusted_score: maybe_next_score, ..old(self)@ }
            } else {
                old(self)@
            }),
    {
        if !force_origin {
            return Err(Error::BadOrigin);
        }
        self.minimum_untrusted_score = maybe_next_score;
        Ok(())
    }

    /// Puts a solution in the queue without checking it, for the emergency phase.
    ///
    /// Only the controlling origin may do so, only in the emergency phase, and only
    /// with as many pages as a round has. What is being verified is not touched.
    pub fn set_emergency_solution(
        &mut self,
        force_origin: bool,
        emergency: bool,
        paged_supports: Vec<Supports>,
        claimed_score: ElectionScore,
    ) -> (res: Result<(), Error>)
        requires
            old(self)@.inv(),
        ensures
            final(self)@.inv(),
            res == old(self)@.emergency_result(force_origin, emergency, paged_supports@.len()),
            final(self)@ == old(self)@.set_emergency_solution(
                force_origin,
                emergency,
                paged_supports.deep_view(),
                claimed_score,
            ),
    {
        if !force_origin {
            return Err(Error::BadOrigin);
        }
        if !emergency {
            return Err(Error::CallNotAllowed);
        }
        let len = paged_supports.len();
        let count: PageIndex = if len > PageIndex::MAX as usize {
            PageIndex::MAX
        } else {
            len as PageIndex
        };
        if count != self.config.pages {
            return Err(Error::WrongPageCount);
        }
        self.queued.force_set_valid(paged_supports, claimed_score, self.config.pages);
        Ok(())
    }

    /// Replaces the queued solution by a single page, unchecked. What is being verified
    /// is not touched.
    pub fn force_set_single_page_valid(
        &mut self,
        page: PageIndex,
        supports: Supports,
        score: ElectionScore,
    )
        requires
            old(self)@.inv(),
        ensures
            final(self)@.inv(),
            final(self)@ == (PalletView {
                queued: old(self)@.queued.force_set_single_page_valid(
                    page,
                    supports.deep_view(),
                    score,
                ),
                ..old(self)@
            }),
    {
        self.queued.force_set_single_page_valid(page, supports, score);
    }

    /// Removes the candidate and everything queued.
    pub fn kill(&mut self)
        requires
            old(self)@.inv(),
        ensures
            final(self)@.inv(),
            final(self)@ == (PalletView {
                verifying: VerifyingView::empty(),
                queued: QueuedView::empty(),
                ..old(self)@
            }),
    {
        self.verifying.kill();
        self.queued.kill();
    }

    /// The score of the queued solution, if there is one.
    pub fn queued_solution(&self) -> (score: Option<ElectionScore>)
        ensures
            score == self@.readers_view().0,
    {
        self.queued.queued_solution()
    }

    /// A page of the queued solution.
    pub fn get_queued_solution_page(&self, page: PageIndex) -> (supports: Option<&Supports>)
        ensures
            supports.deep_view() == (if self@.readers_view().1.contains_key(page) {
                Some(self@.readers_view().1[page])
            } else {
                None
            }),
    {
        self.queued.get_queued_solution_page(page)
    }

    /// Checks that `score` is good enough to be sealed: better than the queued score by
    /// the configured threshold, if a solution is queued, and strictly above the
    /// minimum asked of untrusted solutions, if one is set.
    pub fn ensure_score_quality(&self, score: ElectionScore) -> (res: Result<
        (),
        FeasibilityError,
    >)
        ensures
            res == self@.score_quality(score),
    {
        let is_improvement = match self.queued.queued_solution() {
            Some(best_score) => strict_threshold_better(
                score,
                best_score,
                self.config.solution_improvement_threshold,
            ),
            None => true,
        };
        let is_greater_than_min_trusted = match self.minimum_untrusted_score {
            Some(min_score) => strict_threshold_better(score, min_score, 0),
            None => true,
        };
        quality_verdict(is_improvement, is_greater_than_min_trusted)
    }

    /// Takes one page of the candidate that is being loaded.
    ///
    /// While a sealed candidate is being verified the page is refused and nothing
    /// changes.
    pub fn set_unverified_solution_page(
        &mut self,
        page_index: PageIndex,
        page_solution: PartialSolution,
    ) -> (res: Result<(), SubmitError>)
        requires
            old(self)@.inv(),
        ensures
            final(self)@.inv(),
            res == old(self)@.verifying.put_page_result(),
            final(self)@ == old(self)@.set_unverified_solution_page(
                page_index,
                page_solution.deep_view(),
            ),
            old(self)@.verifying.is_sealed() ==> res == Err::<(), SubmitError>(
                SubmitError::AlreadySealed,
            ) && final(self)@ == old(self)@,
            final(self)@.readers_view() == old(self)@.readers_view(),
    {
        self.verifying.put_page(page_index, page_solution)
    }

    /// Seals the loaded candidate with the score it claims; verification starts with
    /// the next tick, at the last page of the round.
    ///
    /// While a sealed candidate is being verified the seal is refused and nothing
    /// changes. A score that is not good enough is refused, and the loaded pages are
    /// dropped.
    pub fn seal_unverified_solution(&mut self, claimed_score: ElectionScore) -> (res: Result<
        (),
        SubmitError,
    >)
        requires
            old(self)@.inv(),
        ensures
            final(self)@.inv(),
            res == old(self)@.seal_result(claimed_score),
            final(self)@ == old(self)@.seal_unverified_solution(claimed_score),
            old(self)@.verifying.is_sealed() ==> res == Err::<(), SubmitError>(
                SubmitError::AlreadySealed,
            ) && final(self)@ == old(self)@,
            res is Ok ==> final(self)@.verifying.is_sealed(),
            final(self)@.readers_view() == old(self)@.readers_view(),
    {
        if self.verifying.is_sealed() {
            return Err(SubmitError::AlreadySealed);
        }
        let good_enough = self.ensure_score_quality(claimed_score).is_ok();
        let first = self.msp();
        proof {
            assert(self@.verified_pages(first) =~= Set::<PageIndex>::empty());
        }
        self.verifying.seal_unverified_solution(claimed_score, good_enough, first)
    }

    /// Ends the verification of a candidate whose last page has just been collected:
    /// the candidate is promoted if the score of the collected pages is the claimed
    /// score and they elect as many targets as are desired; else it is dropped.
    fn finalize_verification(&mut self)
        requires
            old(self)@.verifying.score is Some,
            old(self)@.queued.backings.dom().len() == old(self)@.config.pages,
        ensures
            final(self)@ == old(self)@.finalize(),
    {
        let (final_score, winner_count) = self.queued.final_score(self.config.pages);
        let claimed_score = self.verifying.get_score().unwrap();
        if final_score == claimed_score && winner_count == self.config.desired_targets {
            self.verifying.kill();
            self.queued.finalize_correct(final_score);
        } else {
            self.verifying.kill();
            self.queued.clear_invalid();
        }
    }

    /// Takes the outcome of the check of the page under the cursor.
    ///
    /// Supports are collected in the scratch slot and the cursor moves on; after the
    /// last page the candidate is promoted or dropped. An error drops the candidate.
    /// Without a candidate nothing happens.
    pub fn process_page_outcome(&mut self, outcome: Result<Supports, FeasibilityError>)
        requires
            old(self)@.inv(),
        ensures
            final(self)@.inv(),
            final(self)@ == old(self)@.page_outcome(outcome_view(outcome)),
    {
        let ghost before = self@;
        if let Some(current_page) = self.verifying.current_page() {
            match outcome {
                Ok(support) => {
                    self.queued.set_invalid_page(current_page, support);
                    let has_more_pages = self.verifying.proceed_page();
                    if !has_more_pages {
                        proof {
                            assert(self@.queued.backings.dom() =~= page_range(
                                before.config.pages as int,
                            ));
                            lemma_page_range_len(before.config.pages as int);
                        }
                        self.finalize_verification();
                    } else {
                        proof {
                            assert(self@.queued.backings.dom() =~= self@.verified_pages(
                                (current_page - 1) as PageIndex,
                            ));
                        }
                    }
                },
                Err(_) => {
                    self.verifying.kill();
                    self.queued.clear_invalid();
                },
            }
        }
    }

    /// Checks one page of a solution against `snapshot`; see
    /// [`feasibility_check_page_inner`].
    pub fn feasibility_check_page(
        snapshot: &Snapshot,
        partial_solution: &PartialSolution,
        page: PageIndex,
    ) -> (res: Result<Supports, FeasibilityError>)
        ensures
            outcome_view(res) == feasibility(
                snapshot@.targets,
                snapshot@.voters_of(page),
                partial_solution.deep_view(),
            ),
    {
        feasibility_check_page_inner(snapshot, partial_solution, page)
    }

    /// One tick: verifies the page under the cursor against `snapshot`.
    ///
    /// A page that was never submitted is verified as the empty solution. Without a
    /// candidate nothing happens.
    pub fn on_initialize(&mut self, snapshot: &Snapshot)
        requires
            old(self)@.inv(),
        ensures
            final(self)@.inv(),
            final(self)@ == old(self)@.tick(snapshot@),
            old(self)@.verifying.cursor is None ==> final(self)@ == old(self)@,
    {
        if let Some(current_page) = self.verifying.current_page() {
            let maybe_support = match self.verifying.get_page(current_page) {
                Some(page_solution) => feasibility_check_page_inner(
                    snapshot,
                    page_solution,
                    current_page,
                ),
                None => {
                    let page_solution = PartialSolution::default();
                    feasibility_check_page_inner(snapshot, &page_solution, current_page)
                },
            };
            self.process_page_outcome(maybe_support);
        }
    }
}

} // verus!
