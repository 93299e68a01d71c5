//! The queued solution: two slots of pages, one of which is the valid one that readers
//! see, while the other collects the pages of the candidate that is being verified.

use crate::election::evaluate;
use crate::score::{score_of, totals_of};
use crate::paged_store::{lists, PagedStore};
use crate::tally::{merge_into_totals, tally_of, total_backings};
use crate::types::{
    AccountId, Backings, ElectionScore, ExtendedBalance, PageIndex, Supports, SupportsView,
};
use vstd::prelude::*;

verus! {

/// Which of the two slots holds the valid solution.
#[derive(Clone, Copy, Debug, PartialEq, Eq, Structural)]
pub enum ValidSolution {
    X,
    Y,
}

impl Default for ValidSolution {
    fn default() -> (variant: Self)
        ensures
            variant == ValidSolution::Y,
    {
        ValidSolution::Y
    }
}

impl ValidSolution {
    /// The other slot.
    pub open spec fn other_spec(&self) -> ValidSolution {
        match self {
            ValidSolution::X => ValidSolution::Y,
            ValidSolution::Y => ValidSolution::X,
        }
    }

    /// The other slot.
    #[verifier::when_used_as_spec(other_spec)]
    pub fn other(&self) -> (variant: Self)
        ensures
            variant == self.other_spec(),
    {
        match *self {
            ValidSolution::X => ValidSolution::Y,
            ValidSolution::Y => ValidSolution::X,
        }
    }
}

/// The backings that `supports` brings: each target with its total.
pub open spec fn backings_of(supports: SupportsView) -> Seq<(AccountId, ExtendedBalance)> {
    Seq::new(supports.len(), |i: int| (supports[i].0, supports[i].1.total))
}

/// The page at which the `index`-th of `len` given pages is written in a round of
/// `pages` pages: the given pages fill the round from its last page down, so fewer than
/// `pages` of them leave the first pages empty. Every step holds at the largest page
/// index.
pub open spec fn pagify_index(index: int, len: int, pages: PageIndex) -> PageIndex {
    let position = if index > PageIndex::MAX {
        PageIndex::MAX as int
    } else {
        index
    };
    let missing = if pages <= len {
        0
    } else if pages - len > PageIndex::MAX {
        PageIndex::MAX as int
    } else {
        pages - len
    };
    if position + missing > PageIndex::MAX {
        PageIndex::MAX
    } else {
        (position + missing) as PageIndex
    }
}

/// `slot` after the first `upto` of `paged` have been written to it, each at its page.
pub open spec fn write_pages(
    slot: Map<PageIndex, SupportsView>,
    paged: Seq<SupportsView>,
    pages: PageIndex,
    upto: int,
) -> Map<PageIndex, SupportsView>
    decreases upto,
{
    if upto <= 0 {
        slot
    } else {
        write_pages(slot, paged, pages, upto - 1).insert(
            pagify_index(upto - 1, paged.len() as int, pages),
            paged[upto - 1],
        )
    }
}

/// The backings of each of `pages`.
pub open spec fn backings_by_page(pages: Map<PageIndex, SupportsView>) -> Map<
    PageIndex,
    Seq<(AccountId, ExtendedBalance)>,
> {
    Map::new(|p: PageIndex| pages.contains_key(p), |p: PageIndex| backings_of(pages[p]))
}

/// The score that `pages` have as a solution, and the number of targets that they back.
pub open spec fn score_of_pages(pages: Map<PageIndex, SupportsView>) -> (ElectionScore, u32) {
    let totals = tally_of(backings_by_page(pages));
    (score_of(totals_of(totals)), totals.len() as u32)
}

/// Where the backings are those of the pages in the invalid slot, both hold the same
/// pages, and the score of the collected pages is the score that the invalid slot has as
/// a solution.
pub proof fn lemma_backed_scratch(queued: QueuedView)
    requires
        queued.scratch_is_backed(),
    ensures
        queued.invalid_pages().dom() == queued.backings.dom(),
        queued.final_score() == score_of_pages(queued.invalid_pages()),
{
    assert(queued.invalid_pages().dom() =~= backings_by_page(queued.invalid_pages()).dom());
}

/// The mathematical value of a [`QueuedSolution`].
pub struct QueuedView {
    /// The pages of slot X.
    pub x: Map<PageIndex, SupportsView>,
    /// The pages of slot Y.
    pub y: Map<PageIndex, SupportsView>,
    /// The slot that is valid.
    pub valid_variant: ValidSolution,
    /// The backings of the pages that the other slot has collected.
    pub backings: Map<PageIndex, Seq<(AccountId, ExtendedBalance)>>,
    /// The score of the valid solution.
    pub score: Option<ElectionScore>,
}

impl QueuedView {
    /// Nothing queued, nothing collected.
    pub open spec fn empty() -> QueuedView {
        QueuedView {
            x: Map::empty(),
            y: Map::empty(),
            valid_variant: ValidSolution::Y,
            backings: Map::empty(),
            score: None,
        }
    }

    /// The pages of `variant`'s slot.
    pub open spec fn pages_of(self, variant: ValidSolution) -> Map<PageIndex, SupportsView> {
        match variant {
            ValidSolution::X => self.x,
            ValidSolution::Y => self.y,
        }
    }

    /// `self` with `pages` in `variant`'s slot.
    pub open spec fn with_pages(
        self,
        variant: ValidSolution,
        pages: Map<PageIndex, SupportsView>,
    ) -> QueuedView {
        match variant {
            ValidSolution::X => QueuedView { x: pages, ..self },
            ValidSolution::Y => QueuedView { y: pages, ..self },
        }
    }

    /// The pages that readers see.
    pub open spec fn valid_pages(self) -> Map<PageIndex, SupportsView> {
        self.pages_of(self.valid_variant)
    }

    /// The pages collected for the candidate; no reader sees them.
    pub open spec fn invalid_pages(self) -> Map<PageIndex, SupportsView> {
        self.pages_of(self.valid_variant.other_spec())
    }

    /// After a verified page has been written to the invalid slot.
    pub open spec fn set_invalid_page(self, page: PageIndex, supports: SupportsView) -> QueuedView {
        QueuedView {
            backings: self.backings.insert(page, backings_of(supports)),
            ..self.with_pages(
                self.valid_variant.other_spec(),
                self.invalid_pages().insert(page, supports),
            )
        }
    }

    /// After the invalid slot and the backings have been wiped.
    pub open spec fn clear_invalid(self) -> QueuedView {
        QueuedView {
            backings: Map::empty(),
            ..self.with_pages(self.valid_variant.other_spec(), Map::empty())
        }
    }

    /// After the valid slot and its score have been wiped.
    pub open spec fn clear_valid(self) -> QueuedView {
        QueuedView { score: None, ..self.with_pages(self.valid_variant, Map::empty()) }
    }

    /// After the invalid slot has been promoted: it is the valid one now, with `score`;
    /// the slot that was valid is empty, and so are the backings.
    pub open spec fn finalize_correct(self, score: ElectionScore) -> QueuedView {
        QueuedView {
            valid_variant: self.valid_variant.other_spec(),
            backings: Map::empty(),
            score: Some(score),
            ..self.with_pages(self.valid_variant, Map::empty())
        }
    }

    /// After `paged` has been written over the valid slot, with `score`.
    pub open spec fn force_set_valid(
        self,
        paged: Seq<SupportsView>,
        score: ElectionScore,
        pages: PageIndex,
    ) -> QueuedView {
        QueuedView {
            score: Some(score),
            ..self.with_pages(
                self.valid_variant,
                write_pages(self.valid_pages(), paged, pages, paged.len() as int),
            )
        }
    }

    /// After the valid slot has been replaced by the one page `supports`, with `score`.
    pub open spec fn force_set_single_page_valid(
        self,
        page: PageIndex,
        supports: SupportsView,
        score: ElectionScore,
    ) -> QueuedView {
        QueuedView {
            score: Some(score),
            ..self.with_pages(
                self.valid_variant,
                Map::<PageIndex, SupportsView>::empty().insert(page, supports),
            )
        }
    }

    /// Whether the backings are those of the pages in the invalid slot, page by page.
    pub open spec fn scratch_is_backed(self) -> bool {
        self.backings =~= backings_by_page(self.invalid_pages())
    }

    /// The totals that the collected pages give each target.
    pub open spec fn totals(self) -> Seq<(AccountId, ExtendedBalance)> {
        tally_of(self.backings)
    }

    /// The score of the collected pages, and the number of targets that they back.
    pub open spec fn final_score(self) -> (ElectionScore, u32) {
        (score_of(totals_of(self.totals())), self.totals().len() as u32)
    }
}

/// The page at which the `index`-th of `len` given pages is written in a round of
/// `pages` pages.
pub fn pagify(index: usize, len: usize, pages: PageIndex) -> (page: PageIndex)
    ensures
        page == pagify_index(index as int, len as int, pages),
{
    let position: PageIndex = if index > PageIndex::MAX as usize {
        PageIndex::MAX
    } else {
        index as PageIndex
    };
    let missing: PageIndex = if pages as usize <= len {
        0
    } else {
        (pages as usize - len) as PageIndex
    };
    position.saturating_add(missing)
}

/// The backings of `supports`: each target with its total.
fn backings_from(supports: &Supports) -> (backings: Backings)
    ensures
        backings@ == backings_of(supports.deep_view()),
{
    let mut backings: Backings = Vec::new();
    let mut i: usize = 0;
    while i < supports.len()
        invariant
            i <= supports.len(),
            backings@ == backings_of(supports.deep_view()).take(i as int),
        decreases supports.len() - i,
    {
        backings.push((supports[i].0, supports[i].1.total));
        proof {
            assert(backings@ =~= backings_of(supports.deep_view()).take(i + 1));
        }
        i = i + 1;
    }
    proof {
        assert(backings@ =~= backings_of(supports.deep_view()));
    }
    backings
}

/// The solution that readers see, and the scratch of the candidate that is being
/// verified.
pub struct QueuedSolution {
    x: PagedStore<Supports>,
    y: PagedStore<Supports>,
    valid_variant: ValidSolution,
    backings: PagedStore<Backings>,
    score: Option<ElectionScore>,
}

impl View for QueuedSolution {
    type V = QueuedView;

    closed spec fn view(&self) -> QueuedView {
        QueuedView {
            x: self.x@,
            y: self.y@,
            valid_variant: self.valid_variant,
            backings: self.backings@,
            score: self.score,
        }
    }
}

impl QueuedSolution {
    /// Nothing queued, nothing collected.
    pub fn new() -> (queued: Self)
        ensures
            queued@ == QueuedView::empty(),
    {
        QueuedSolution {
            x: PagedStore::new(),
            y: PagedStore::new(),
            valid_variant: ValidSolution::Y,
            backings: PagedStore::new(),
            score: None,
        }
    }

    /// The score of the pages collected in the invalid slot, and the number of targets
    /// that they back.
    ///
    /// It is computed from the backings of all collected pages. A caller must have
    /// collected every page of the round: one page of backings for each of the `pages`
    /// pages.
    pub fn final_score(&self, pages: PageIndex) -> (res: (ElectionScore, u32))
        requires
            self@.backings.dom().len() == pages,
        ensures
            res == self@.final_score(),
    {
        let mut totals: Vec<(AccountId, ExtendedBalance)> = Vec::new();
        let mut page: usize = 0;
        while page <= PageIndex::MAX as usize
            invariant
                page <= PageIndex::MAX + 1,
                totals@ == total_backings(self@.backings, page as int),
            decreases PageIndex::MAX + 1 - page,
        {
            match self.backings.get(page as PageIndex) {
                Some(backings) => {
                    proof {
                        assert(backings.deep_view() =~= backings@);
                    }
                    merge_into_totals(&mut totals, backings);
                },
                None => {},
            }
            page = page + 1;
        }
        let count = totals.len() as u32;
        (evaluate(&totals), count)
    }

    /// Promotes the invalid slot: it becomes the valid one, with `score`. The backings
    /// and the slot that was valid are wiped.
    ///
    /// Whether `score` is better than what was queued is for the caller to check.
    pub fn finalize_correct(&mut self, score: ElectionScore)
        ensures
            final(self)@ == old(self)@.finalize_correct(score),
    {
        self.valid_variant = self.valid_variant.other();
        self.score = Some(score);
        self.backings.clear();
        self.clear_invalid();
    }

    /// Wipes the invalid slot and the backings. The valid slot is not touched.
    pub fn clear_invalid(&mut self)
        ensures
            final(self)@ == old(self)@.clear_invalid(),
    {
        match self.invalid() {
            ValidSolution::X => self.x.clear(),
            ValidSolution::Y => self.y.clear(),
        }
        self.backings.clear();
    }

    /// Wipes the valid slot and its score.
    pub fn clear_valid(&mut self)
        ensures
            final(self)@ == old(self)@.clear_valid(),
    {
        match self.valid() {
            ValidSolution::X => self.x.clear(),
            ValidSolution::Y => self.y.clear(),
        }
        self.score = None;
    }

    /// Writes one verified page of a candidate to the invalid slot and records its
    /// backings.
    pub fn set_invalid_page(&mut self, page: PageIndex, supports: Supports)
        ensures
            final(self)@ == old(self)@.set_invalid_page(page, supports.deep_view()),
    {
        let backings = backings_from(&supports);
        proof {
            assert(backings.deep_view() =~= backings@);
        }
        self.backings.insert(page, backings);
        match self.invalid() {
            ValidSolution::X => self.x.insert(page, supports),
            ValidSolution::Y => self.y.insert(page, supports),
        }
    }

    /// Writes `paged_supports` over the valid slot and sets `score`, unchecked.
    ///
    /// The given pages fill a round of `pages` pages from its last page down.
    pub fn force_set_valid(
        &mut self,
        paged_supports: Vec<Supports>,
        score: ElectionScore,
        pages: PageIndex,
    )
        ensures
            final(self)@ == old(self)@.force_set_valid(paged_supports.deep_view(), score, pages),
    {
        let ghost before = self@;
        let ghost given = paged_supports@;
        let ghost paged = paged_supports.deep_view();
        let len = paged_supports.len();
        let mut index: usize = 0;
        for supports in given_pages: paged_supports.into_iter()
            invariant
                given_pages.seq() == given,
                given.len() == len,
                paged.len() == len,
                forall|k: int| 0 <= k < len ==> (#[trigger] given[k]).deep_view() == paged[k],
                index == given_pages.index(),
                self@ == before.with_pages(
                    before.valid_variant,
                    write_pages(before.valid_pages(), paged, pages, index as int),
                ),
        {
            let page = pagify(index, len, pages);
            match self.valid() {
                ValidSolution::X => self.x.insert(page, supports),
                ValidSolution::Y => self.y.insert(page, supports),
            }
            index = index + 1;
        }
        self.score = Some(score);
    }

    /// Replaces the valid slot by the one page `supports` at `page`, with `score`,
    /// unchecked.
    pub fn force_set_single_page_valid(
        &mut self,
        page: PageIndex,
        supports: Supports,
        score: ElectionScore,
    )
        ensures
            final(self)@ == old(self)@.force_set_single_page_valid(
                page,
                supports.deep_view(),
                score,
            ),
    {
        self.clear_valid();
        match self.valid() {
            ValidSolution::X => self.x.insert(page, supports),
            ValidSolution::Y => self.y.insert(page, supports),
        }
        self.score = Some(score);
    }

    /// Wipes everything: both slots, the backings, the score, and which slot is valid.
    pub fn kill(&mut self)
        ensures
            final(self)@ == QueuedView::empty(),
    {
        self.x.clear();
        self.y.clear();
        self.valid_variant = ValidSolution::default();
        self.backings.clear();
        self.score = None;
    }

    /// The score of the valid solution, if there is one.
    pub fn queued_solution(&self) -> (score: Option<ElectionScore>)
        ensures
            score == self@.score,
    {
        self.score
    }

    /// A page of the valid solution.
    pub fn get_queued_solution_page(&self, page: PageIndex) -> (supports: Option<&Supports>)
        ensures
            supports.deep_view() == (if self@.valid_pages().contains_key(page) {
                Some(self@.valid_pages()[page])
            } else {
                None
            }),
    {
        match self.valid() {
            ValidSolution::X => self.x.get(page),
            ValidSolution::Y => self.y.get(page),
        }
    }

    /// The pages of the valid solution, in ascending order.
    pub fn valid_iter(&self) -> (entries: Vec<(PageIndex, &Supports)>)
        ensures
            lists(entries@, self@.valid_pages()),
    {
        match self.valid() {
            ValidSolution::X => self.x.iter(),
            ValidSolution::Y => self.y.iter(),
        }
    }

    /// The pages collected in the invalid slot, in ascending order.
    pub fn invalid_iter(&self) -> (entries: Vec<(PageIndex, &Supports)>)
        ensures
            lists(entries@, self@.invalid_pages()),
    {
        match self.invalid() {
            ValidSolution::X => self.x.iter(),
            ValidSolution::Y => self.y.iter(),
        }
    }

    /// A page of the invalid slot.
    pub fn get_invalid_page(&self, page: PageIndex) -> (supports: Option<&Supports>)
        ensures
            supports.deep_view() == (if self@.invalid_pages().contains_key(page) {
                Some(self@.invalid_pages()[page])
            } else {
                None
            }),
    {
        match self.invalid() {
            ValidSolution::X => self.x.get(page),
            ValidSolution::Y => self.y.get(page),
        }
    }

    /// The backings recorded for a page of the invalid slot.
    pub fn get_backing_page(&self, page: PageIndex) -> (backings: Option<&Backings>)
        ensures
            backings.deep_view() == (if self@.backings.contains_key(page) {
                Some(self@.backings[page])
            } else {
                None
            }),
    {
        self.backings.get(page)
    }

    /// The backings recorded for the invalid slot, in ascending order of their pages.
    pub fn backing_iter(&self) -> (entries: Vec<(PageIndex, &Backings)>)
        ensures
            lists(entries@, self@.backings),
    {
        self.backings.iter()
    }

    /// The slot that is valid.
    pub fn valid(&self) -> (variant: ValidSolution)
        ensures
            variant == self@.valid_variant,
    {
        self.valid_variant
    }

    /// The slot that is not valid.
    pub fn invalid(&self) -> (variant: ValidSolution)
        ensures
            variant == self@.valid_variant.other_spec(),
    {
        self.valid_variant.other()
    }
}

} // verus!
