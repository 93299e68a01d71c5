//! The snapshot that solutions are checked against: the targets, and the voters by page.

use crate::paged_store::PagedStore;
use crate::types::{AccountId, PageIndex, TargetIndex, VoteWeight, Voter, VoterIndex, VoterView};
use vstd::prelude::*;

verus! {

/// The targets and the paged voters of one round.
pub struct Snapshot {
    targets: Option<Vec<AccountId>>,
    voters: PagedStore<Vec<Voter>>,
}

/// The mathematical value of a [`Snapshot`].
pub struct SnapshotView {
    pub targets: Option<Seq<AccountId>>,
    pub voters: Map<PageIndex, Seq<VoterView>>,
}

impl SnapshotView {
    /// The voters of `page`, if the snapshot has that page.
    pub open spec fn voters_of(self, page: PageIndex) -> Option<Seq<VoterView>> {
        if self.voters.contains_key(page) {
            Some(self.voters[page])
        } else {
            None
        }
    }
}

impl View for Snapshot {
    type V = SnapshotView;

    closed spec fn view(&self) -> SnapshotView {
        SnapshotView { targets: self.targets.deep_view(), voters: self.voters@ }
    }
}

impl Snapshot {
    /// A snapshot without targets and without voters.
    pub fn new() -> (snapshot: Self)
        ensures
            snapshot@.targets is None,
            snapshot@.voters == Map::<PageIndex, Seq<VoterView>>::empty(),
    {
        Snapshot { targets: None, voters: PagedStore::new() }
    }

    /// Sets the list of targets.
    pub fn set_targets(&mut self, targets: Vec<AccountId>)
        ensures
            final(self)@.targets == Some(targets@),
            final(self)@.voters == old(self)@.voters,
    {
        assert(targets.deep_view() =~= targets@);
        self.targets = Some(targets);
    }

    /// Sets the voters of `page`.
    pub fn set_voters(&mut self, page: PageIndex, voters: Vec<Voter>)
        ensures
            final(self)@.targets == old(self)@.targets,
            final(self)@.voters == old(self)@.voters.insert(page, voters.deep_view()),
    {
        self.voters.insert(page, voters);
    }

    /// Removes the list of targets.
    pub fn remove_target_page(&mut self)
        ensures
            final(self)@.targets is None,
            final(self)@.voters == old(self)@.voters,
    {
        self.targets = None;
    }

    /// Removes the voters of `page`.
    pub fn remove_voter_page(&mut self, page: PageIndex)
        ensures
            final(self)@.targets == old(self)@.targets,
            final(self)@.voters == old(self)@.voters.remove(page),
    {
        self.voters.remove(page);
    }

    /// The list of targets, if there is one.
    pub fn targets(&self) -> (targets: Option<&Vec<AccountId>>)
        ensures
            match targets {
                Some(list) => self@.targets == Some(list@),
                None => self@.targets is None,
            },
    {
        match &self.targets {
            Some(list) => {
                assert(list.deep_view() =~= list@);
                Some(list)
            },
            None => None,
        }
    }

    /// The voters of `page`, if the snapshot has that page.
    pub fn voters(&self, page: PageIndex) -> (voters: Option<&Vec<Voter>>)
        ensures
            voters.deep_view() == self@.voters_of(page),
    {
        self.voters.get(page)
    }
}

/// The identity of the target at position `index`, if there is one.
pub open spec fn target_at_spec(targets: Seq<AccountId>, index: TargetIndex) -> Option<AccountId> {
    if (index as int) < targets.len() {
        Some(targets[index as int])
    } else {
        None
    }
}

/// The identity of the voter at position `index`, if there is one.
pub open spec fn voter_at_spec(voters: Seq<VoterView>, index: VoterIndex) -> Option<AccountId> {
    if (index as int) < voters.len() {
        Some(voters[index as int].who)
    } else {
        None
    }
}

/// The position of `who` among the first `len` voters: the last one that carries this
/// identity, if any does.
pub open spec fn voter_index_below(voters: Seq<VoterView>, who: AccountId, len: int) -> Option<
    int,
>
    decreases len,
{
    if len <= 0 {
        None
    } else if voters[len - 1].who == who {
        Some(len - 1)
    } else {
        voter_index_below(voters, who, len - 1)
    }
}

/// The position of `who` in the voters: the last one that carries this identity.
pub open spec fn voter_index_spec(voters: Seq<VoterView>, who: AccountId) -> Option<int> {
    voter_index_below(voters, who, voters.len() as int)
}

/// The stake of `who`: that of their position in the voters, and zero for a stranger.
pub open spec fn stake_of_spec(voters: Seq<VoterView>, who: AccountId) -> VoteWeight {
    match voter_index_spec(voters, who) {
        Some(index) => voters[index].stake,
        None => 0,
    }
}

/// What `voter_index_below` finds is a position of `who`, and it finds one if there is any.
pub proof fn lemma_voter_index_below(voters: Seq<VoterView>, who: AccountId, len: int)
    requires
        0 <= len <= voters.len(),
    ensures
        match voter_index_below(voters, who, len) {
            Some(index) => 0 <= index < len && voters[index].who == who,
            None => forall|i: int| 0 <= i < len ==> voters[i].who != who,
        },
    decreases len,
{
    if len > 0 && voters[len - 1].who != who {
        lemma_voter_index_below(voters, who, len - 1);
    }
}

/// The identity of the target at position `index`, if there is one.
pub fn target_at(targets: &Vec<AccountId>, index: TargetIndex) -> (target: Option<AccountId>)
    ensures
        target == target_at_spec(targets@, index),
{
    if (index as usize) < targets.len() {
        Some(targets[index as usize])
    } else {
        None
    }
}

/// The identity of the voter at position `index`, if there is one.
pub fn voter_at(voters: &Vec<Voter>, index: VoterIndex) -> (voter: Option<AccountId>)
    ensures
        voter == voter_at_spec(voters.deep_view(), index),
{
    if (index as usize) < voters.len() {
        Some(voters[index as usize].who)
    } else {
        None
    }
}

/// The position of `who` in the voters: the last one that carries this identity.
pub fn voter_index(voters: &Vec<Voter>, who: AccountId) -> (index: Option<usize>)
    ensures
        match index {
            Some(i) => voter_index_spec(voters.deep_view(), who) == Some(i as int),
            None => voter_index_spec(voters.deep_view(), who) is None,
        },
{
    let mut len: usize = voters.len();
    while len > 0
        invariant
            len <= voters.len(),
            voter_index_spec(voters.deep_view(), who) == voter_index_below(
                voters.deep_view(),
                who,
                len as int,
            ),
        decreases len,
    {
        if voters[len - 1].who == who {
            return Some(len - 1);
        }
        len = len - 1;
    }
    None
}

/// The stake of `who`: that of their position in the voters, and zero for a stranger.
pub fn stake_of(voters: &Vec<Voter>, who: AccountId) -> (stake: VoteWeight)
    ensures
        stake == stake_of_spec(voters.deep_view(), who),
{
    match voter_index(voters, who) {
        Some(index) => {
            proof {
                lemma_voter_index_below(voters.deep_view(), who, voters.len() as int);
            }
            voters[index].stake
        },
        None => 0,
    }
}

} // verus!
