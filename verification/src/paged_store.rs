//! A store of paged data: at most one value for each page index.

use crate::types::PageIndex;
use vstd::prelude::*;

verus! {

/// Values kept by page index.
///
/// Its mathematical value is the map from the pages that hold a value to the deep view
/// of that value.
pub struct PagedStore<T> {
    slots: Vec<Option<T>>,
}

impl<T: DeepView> View for PagedStore<T> {
    type V = Map<PageIndex, T::V>;

    closed spec fn view(&self) -> Map<PageIndex, T::V> {
        Map::new(
            |p: PageIndex| (p as int) < self.slots@.len() && self.slots@[p as int] is Some,
            |p: PageIndex| self.slots@[p as int]->0.deep_view(),
        )
    }
}

/// The pages below `bound` that `m` holds.
pub open spec fn pages_below<V>(m: Map<PageIndex, V>, bound: int) -> Set<PageIndex> {
    Set::new(|p: PageIndex| m.contains_key(p) && (p as int) < bound)
}

/// The set of all pages below `bound`.
pub open spec fn page_range(bound: int) -> Set<PageIndex> {
    Set::new(|p: PageIndex| (p as int) < bound)
}

/// There are `bound` pages below `bound`, for every bound that a page index can reach.
pub proof fn lemma_page_range_len(bound: int)
    requires
        0 <= bound <= 256,
    ensures
        page_range(bound).finite(),
        page_range(bound).len() == bound,
    decreases bound,
{
    if bound == 0 {
        assert(page_range(0) =~= Set::<PageIndex>::empty());
    } else {
        lemma_page_range_len(bound - 1);
        let last = (bound - 1) as PageIndex;
        assert(page_range(bound) =~= page_range(bound - 1).insert(last));
    }
}

/// Whether `entries` lists what `m` holds: every page of `m` once, in ascending order,
/// each with the value that `m` has for it.
pub open spec fn lists<T: DeepView>(
    entries: Seq<(PageIndex, &T)>,
    m: Map<PageIndex, T::V>,
) -> bool {
    &&& entries.len() == m.dom().len()
    &&& forall|i: int|
        0 <= i < entries.len() ==> m.contains_key(#[trigger] entries[i].0)
            && entries[i].1.deep_view() == m[entries[i].0]
    &&& forall|i: int, j: int|
        0 <= i < j < entries.len() ==> #[trigger] entries[i].0 < #[trigger] entries[j].0
    &&& forall|p: PageIndex|
        m.contains_key(p) ==> exists|i: int| 0 <= i < entries.len() && #[trigger] entries[i].0 == p
}

impl<T: DeepView> PagedStore<T> {
    /// A store that holds no page.
    pub fn new() -> (store: Self)
        ensures
            store@ == Map::<PageIndex, T::V>::empty(),
    {
        let store = PagedStore { slots: Vec::new() };
        assert(store@ =~= Map::<PageIndex, T::V>::empty());
        store
    }

    /// Stores `value` at `page`, in place of what the page held.
    pub fn insert(&mut self, page: PageIndex, value: T)
        ensures
            final(self)@ == old(self)@.insert(page, value.deep_view()),
    {
        let ghost before = self@;
        while self.slots.len() <= page as usize
            invariant
                self@ =~= before,
            decreases page as int + 1 - self.slots.len(),
        {
            self.slots.push(None);
        }
        self.slots[page as usize] = Some(value);
        assert(self@ =~= before.insert(page, value.deep_view()));
    }

    /// The value at `page`, if the page holds one.
    pub fn get(&self, page: PageIndex) -> (value: Option<&T>)
        ensures
            value.deep_view() == (if self@.contains_key(page) {
                Some(self@[page])
            } else {
                None
            }),
    {
        if (page as usize) < self.slots.len() {
            self.slots[page as usize].as_ref()
        } else {
            None
        }
    }

    /// Whether `page` holds a value.
    pub fn contains(&self, page: PageIndex) -> (present: bool)
        ensures
            present == self@.contains_key(page),
    {
        (page as usize) < self.slots.len() && self.slots[page as usize].is_some()
    }

    /// Empties `page`.
    pub fn remove(&mut self, page: PageIndex)
        ensures
            final(self)@ == old(self)@.remove(page),
    {
        let ghost before = self@;
        if (page as usize) < self.slots.len() {
            self.slots[page as usize] = None;
        }
        assert(self@ =~= before.remove(page));
    }

    /// Empties every page.
    pub fn clear(&mut self)
        ensures
            final(self)@ == Map::<PageIndex, T::V>::empty(),
    {
        self.slots.clear();
        assert(self@ =~= Map::<PageIndex, T::V>::empty());
    }

    /// The number of pages that hold a value.
    pub fn len(&self) -> (count: usize)
        ensures
            self@.dom().finite(),
            count == self@.dom().len(),
            count <= 256,
    {
        let bound: usize = if self.slots.len() < 256 {
            self.slots.len()
        } else {
            256
        };
        let mut count: usize = 0;
        let mut i: usize = 0;
        proof {
            assert(pages_below(self@, 0) =~= Set::<PageIndex>::empty());
        }
        while i < bound
            invariant
                i <= bound <= 256,
                bound <= self.slots.len(),
                bound == self.slots.len() || bound == 256,
                pages_below(self@, i as int).finite(),
                count == pages_below(self@, i as int).len(),
                count <= i,
            decreases bound - i,
        {
            let ghost page = i as PageIndex;
            if self.slots[i].is_some() {
                proof {
                    assert(pages_below(self@, i + 1) =~= pages_below(self@, i as int).insert(
                        page,
                    ));
                }
                count = count + 1;
            } else {
                proof {
                    assert(pages_below(self@, i + 1) =~= pages_below(self@, i as int));
                }
            }
            i = i + 1;
        }
        proof {
            assert(pages_below(self@, bound as int) =~= self@.dom());
        }
        count
    }

    /// The pages that hold a value, in ascending order, each with its value.
    pub fn iter(&self) -> (entries: Vec<(PageIndex, &T)>)
        ensures
            lists(entries@, self@),
    {
        let bound: usize = if self.slots.len() < 256 {
            self.slots.len()
        } else {
            256
        };
        let mut entries: Vec<(PageIndex, &T)> = Vec::new();
        let mut i: usize = 0;
        proof {
            assert(pages_below(self@, 0) =~= Set::<PageIndex>::empty());
        }
        while i < bound
            invariant
                i <= bound <= 256,
                bound <= self.slots.len(),
                bound == self.slots.len() || bound == 256,
                pages_below(self@, i as int).finite(),
                entries.len() == pages_below(self@, i as int).len(),
                forall|k: int|
                    0 <= k < entries.len() ==> self@.contains_key(#[trigger] entries[k].0)
                        && entries[k].1.deep_view() == self@[entries[k].0] && entries[k].0 < i,
                forall|k: int, j: int|
                    0 <= k < j < entries.len() ==> #[trigger] entries[k].0
                        < #[trigger] entries[j].0,
                forall|p: PageIndex|
                    self@.contains_key(p) && p < i ==> exists|k: int|
                        0 <= k < entries.len() && #[trigger] entries[k].0 == p,
            decreases bound - i,
        {
            let page = i as PageIndex;
            match &self.slots[i] {
                Some(value) => {
                    proof {
                        assert(pages_below(self@, i + 1) =~= pages_below(self@, i as int).insert(
                            page,
                        ));
                    }
                    let ghost before = entries@;
                    entries.push((page, value));
                    assert forall|p: PageIndex| self@.contains_key(p) && p < i + 1 implies exists|
                        k: int,
                    |
                        0 <= k < entries.len() && #[trigger] entries[k].0 == p by {
                        if p < i {
                            let k = choose|k: int| 0 <= k < before.len() && before[k].0 == p;
                            assert(entries[k].0 == p);
                        } else {
                            assert(entries[before.len() as int].0 == p);
                        }
                    }
                },
                None => {
                    proof {
                        assert(pages_below(self@, i + 1) =~= pages_below(self@, i as int));
                    }
                },
            }
            i = i + 1;
        }
        proof {
            assert(pages_below(self@, bound as int) =~= self@.dom());
        }
        entries
    }
}

} // verus!
