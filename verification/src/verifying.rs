//! The candidate that is being loaded or verified: its pages, the score it claims once
//! it is sealed, and the page that is to be verified next.

use crate::error::SubmitError;
use crate::paged_store::{lists, PagedStore};
use crate::types::{ElectionScore, PageIndex, PartialSolution, PartialSolutionView};
use vstd::prelude::*;

verus! {

/// The mathematical value of a [`VerifyingSolution`].
pub struct VerifyingView {
    /// The pages submitted so far.
    pub pages: Map<PageIndex, PartialSolutionView>,
    /// The page to verify next; `None` while nothing is being verified.
    pub cursor: Option<PageIndex>,
    /// The claimed score; set by the seal.
    pub score: Option<ElectionScore>,
}

impl VerifyingView {
    /// No pages, no cursor, no score.
    pub open spec fn empty() -> VerifyingView {
        VerifyingView { pages: Map::empty(), cursor: None, score: None }
    }

    /// Whether a sealed candidate exists.
    pub open spec fn is_sealed(self) -> bool {
        self.score is Some
    }

    /// The solution to verify for `page`: the submitted one, and the empty solution for
    /// a page that was never submitted.
    pub open spec fn page_or_empty(self, page: PageIndex) -> PartialSolutionView {
        if self.pages.contains_key(page) {
            self.pages[page]
        } else {
            PartialSolutionView::empty()
        }
    }

    /// The candidate after `solution` was submitted for `page`.
    pub open spec fn put_page(
        self,
        page: PageIndex,
        solution: PartialSolutionView,
    ) -> VerifyingView {
        if self.is_sealed() {
            self
        } else {
            VerifyingView { pages: self.pages.insert(page, solution), ..self }
        }
    }

    /// What a submitted page is answered with.
    pub open spec fn put_page_result(self) -> Result<(), SubmitError> {
        if self.is_sealed() {
            Err(SubmitError::AlreadySealed)
        } else {
            Ok(())
        }
    }

    /// The candidate after an attempt to seal it with `claimed_score`, where
    /// `good_enough` says whether that score passes the quality checks and `first` is
    /// the page to verify first.
    pub open spec fn seal(
        self,
        claimed_score: ElectionScore,
        good_enough: bool,
        first: PageIndex,
    ) -> VerifyingView {
        if self.is_sealed() {
            self
        } else if !good_enough {
            VerifyingView::empty()
        } else {
            VerifyingView { cursor: Some(first), score: Some(claimed_score), ..self }
        }
    }

    /// What an attempt to seal is answered with.
    pub open spec fn seal_result(self, good_enough: bool) -> Result<(), SubmitError> {
        if self.is_sealed() {
            Err(SubmitError::AlreadySealed)
        } else if !good_enough {
            Err(SubmitError::ScoreTooLow)
        } else {
            Ok(())
        }
    }

    /// Whether a page is left to verify after the one under the cursor.
    pub open spec fn has_more_pages(self) -> bool {
        self.cursor matches Some(page) && page > 0
    }

    /// The candidate after the cursor has moved on: down by one page where one is left,
    /// else unchanged.
    pub open spec fn proceed_page(self) -> VerifyingView {
        match self.cursor {
            Some(page) if page > 0 => VerifyingView {
                cursor: Some((page - 1) as PageIndex),
                ..self
            },
            _ => self,
        }
    }
}

/// The candidate that is being loaded or verified.
pub struct VerifyingSolution {
    storage: PagedStore<PartialSolution>,
    page: Option<PageIndex>,
    score: Option<ElectionScore>,
}

impl View for VerifyingSolution {
    type V = VerifyingView;

    closed spec fn view(&self) -> VerifyingView {
        VerifyingView { pages: self.storage@, cursor: self.page, score: self.score }
    }
}

impl VerifyingSolution {
    /// No candidate.
    pub fn new() -> (verifying: Self)
        ensures
            verifying@ == VerifyingView::empty(),
    {
        VerifyingSolution { storage: PagedStore::new(), page: None, score: None }
    }

    /// Writes a page of the candidate that is being loaded. A page written twice keeps
    /// what was written last. Once the candidate is sealed, nothing is written.
    pub fn put_page(&mut self, page_index: PageIndex, page_solution: PartialSolution) -> (res:
        Result<(), SubmitError>)
        ensures
            res == old(self)@.put_page_result(),
            final(self)@ == old(self)@.put_page(page_index, page_solution.deep_view()),
    {
        if self.is_sealed() {
            return Err(SubmitError::AlreadySealed);
        }
        self.storage.insert(page_index, page_solution);
        Ok(())
    }

    /// Seals the loaded candidate with the score it claims, so that verification
    /// starts at page `first`.
    ///
    /// A sealed candidate is left as it is. A score that is not `good_enough` wipes the
    /// pages that were loaded.
    pub fn seal_unverified_solution(
        &mut self,
        claimed_score: ElectionScore,
        good_enough: bool,
        first: PageIndex,
    ) -> (res: Result<(), SubmitError>)
        ensures
            res == old(self)@.seal_result(good_enough),
            final(self)@ == old(self)@.seal(claimed_score, good_enough, first),
    {
        if self.is_sealed() {
            return Err(SubmitError::AlreadySealed);
        }
        if !good_enough {
            self.kill();
            return Err(SubmitError::ScoreTooLow);
        }
        self.score = Some(claimed_score);
        self.page = Some(first);
        Ok(())
    }

    /// Removes the candidate: pages, cursor and score.
    pub fn kill(&mut self)
        ensures
            final(self)@ == VerifyingView::empty(),
    {
        self.storage.clear();
        self.page = None;
        self.score = None;
    }

    /// Moves the cursor to the next page, one down, and says whether there was one.
    ///
    /// At page 0, and without a cursor, nothing changes and `false` is returned.
    pub fn proceed_page(&mut self) -> (more: bool)
        ensures
            more == old(self)@.has_more_pages(),
            final(self)@ == old(self)@.proceed_page(),
    {
        match self.page {
            Some(current) => match current.checked_sub(1) {
                Some(next) => {
                    self.page = Some(next);
                    true
                },
                None => false,
            },
            None => false,
        }
    }

    /// Whether a sealed candidate exists. While it does, nothing else can be submitted.
    pub fn is_sealed(&self) -> (sealed: bool)
        ensures
            sealed == self@.is_sealed(),
    {
        self.score.is_some()
    }

    /// The score that the sealed candidate claims.
    pub fn get_score(&self) -> (score: Option<ElectionScore>)
        ensures
            score == self@.score,
    {
        self.score
    }

    /// The page of the candidate at `index`, if it was submitted.
    pub fn get_page(&self, index: PageIndex) -> (page: Option<&PartialSolution>)
        ensures
            page.deep_view() == (if self@.pages.contains_key(index) {
                Some(self@.pages[index])
            } else {
                None
            }),
    {
        self.storage.get(index)
    }

    /// The page that is verified next.
    pub fn current_page(&self) -> (page: Option<PageIndex>)
        ensures
            page == self@.cursor,
    {
        self.page
    }

    /// The submitted pages, in ascending order.
    pub fn iter(&self) -> (entries: Vec<(PageIndex, &PartialSolution)>)
        ensures
            lists(entries@, self@.pages),
    {
        self.storage.iter()
    }
}

} // verus!
