use paged_verifier::error::{ElectionError, Error, FeasibilityError, SubmitError};
use paged_verifier::pallet::{quality_verdict, Config, Pallet};
use paged_verifier::queued::pagify;
use paged_verifier::snapshot::Snapshot;
use paged_verifier::types::{
    AccountId, ElectionScore, PageIndex, PartialSolution, SplitVote, Support, Supports, Voter,
};

fn voter(who: AccountId, stake: u64, targets: Vec<AccountId>) -> Voter {
    Voter { who, stake, targets }
}

/// Four targets; twelve voters in three pages, the most significant page first.
fn snapshot() -> Snapshot {
    let mut snapshot = Snapshot::new();
    snapshot.set_targets(vec![10, 20, 30, 40]);
    snapshot.set_voters(
        2,
        vec![
            voter(1, 10, vec![10, 20]),
            voter(2, 10, vec![30, 40]),
            voter(3, 10, vec![40]),
            voter(4, 10, vec![10, 20, 40]),
        ],
    );
    snapshot.set_voters(
        1,
        vec![
            voter(5, 10, vec![10, 30, 40]),
            voter(6, 10, vec![20, 30, 40]),
            voter(7, 10, vec![20, 30]),
            voter(8, 10, vec![10]),
        ],
    );
    snapshot.set_voters(
        0,
        vec![
            voter(10, 10, vec![10]),
            voter(20, 20, vec![20]),
            voter(30, 30, vec![30]),
            voter(40, 40, vec![40]),
        ],
    );
    snapshot
}

const PAGES: PageIndex = 3;

fn config() -> Config {
    Config {
        solution_improvement_threshold: 0,
        max_total_backings_per_target: 12,
        pages: PAGES,
        desired_targets: 2,
    }
}

fn new_pallet() -> Pallet {
    Pallet::new(config()).unwrap()
}

fn election_score(minimal_stake: u128, sum_stake: u128, sum_stake_squared: u128) -> ElectionScore {
    ElectionScore { minimal_stake, sum_stake, sum_stake_squared }
}

/// A solution and its score.
struct Paged {
    solution_pages: Vec<PartialSolution>,
    score: ElectionScore,
}

/// The best solution for the snapshot: 30 and 40 win, backed by 55 and 75.
fn good_solution() -> Paged {
    Paged {
        solution_pages: vec![
            PartialSolution { votes1: vec![(2, 2), (3, 3)], votes_n: vec![] },
            PartialSolution {
                votes1: vec![(1, 2), (2, 2)],
                votes_n: vec![SplitVote { voter: 0, shares: vec![(2, 32768)], last: 3 }],
            },
            PartialSolution { votes1: vec![(1, 3), (2, 3), (3, 3)], votes_n: vec![] },
        ],
        score: election_score(55, 130, 8650),
    }
}

/// A correct solution of a single page with a low score: 10 and 30 win, backed by 10
/// each.
fn raw_paged_solution_low_score() -> Paged {
    Paged {
        solution_pages: vec![PartialSolution { votes1: vec![(0, 0), (1, 2)], votes_n: vec![] }],
        score: election_score(10, 20, 200),
    }
}

fn better(this: ElectionScore, that: ElectionScore) -> bool {
    let convert = |s: ElectionScore| sp_npos_elections::ElectionScore {
        minimal_stake: s.minimal_stake,
        sum_stake: s.sum_stake,
        sum_stake_squared: s.sum_stake_squared,
    };
    convert(this) > convert(that)
}

fn submit_all(pallet: &mut Pallet, paged: &Paged) {
    let len = paged.solution_pages.len();
    for (index, page) in paged.solution_pages.iter().enumerate() {
        assert_eq!(
            pallet.set_unverified_solution_page(pagify(index, len, PAGES), page.clone()),
            Ok(())
        );
    }
}

fn tick(pallet: &mut Pallet, times: usize) {
    let snapshot = snapshot();
    for _ in 0..times {
        pallet.on_initialize(&snapshot);
    }
}

#[test]
fn setting_unverified_and_sealing_it() {
    let mut pallet = new_pallet();
    let paged = good_solution();
    let score = paged.score;

    for (page_index, solution_page) in paged.solution_pages.into_iter().enumerate() {
        assert_eq!(
            pallet.set_unverified_solution_page(page_index as PageIndex, solution_page),
            Ok(())
        );
    }

    // after this, the pages should be set
    assert_eq!(pallet.seal_unverified_solution(score), Ok(()));

    assert_eq!(pallet.verifying().current_page(), Some(2));
    assert_eq!(pallet.verifying().get_score(), Some(score));
    assert_eq!(pallet.queued().invalid_iter().len(), 0);
    assert_eq!(pallet.queued().valid_iter().len(), 0);
    assert_eq!(pallet.queued().backing_iter().len(), 0);

    tick(&mut pallet, 1);

    // check the queued solution variants
    assert!(pallet.queued().get_invalid_page(2).is_some());
    assert_eq!(pallet.queued().invalid_iter().len(), 1);
    assert_eq!(pallet.queued().valid_iter().len(), 0);

    // check the backings
    assert!(pallet.queued().get_backing_page(2).is_some());
    assert_eq!(pallet.queued().backing_iter().len(), 1);

    // check the page cursor.
    assert_eq!(pallet.verifying().current_page(), Some(1));

    tick(&mut pallet, 1);

    // check the queued solution variants
    assert!(pallet.queued().get_invalid_page(1).is_some());
    assert!(pallet.queued().get_backing_page(1).is_some());
    assert_eq!(pallet.queued().invalid_iter().len(), 2);
    assert_eq!(pallet.queued().valid_iter().len(), 0);

    // check the backings
    assert!(pallet.queued().get_backing_page(1).is_some());
    assert_eq!(pallet.queued().backing_iter().len(), 2);

    // check the page cursor.
    assert_eq!(pallet.verifying().current_page(), Some(0));

    // now we finalize everything.
    tick(&mut pallet, 1);

    assert_eq!(pallet.queued().valid_iter().len(), 3);

    // invalid related queued solution data is cleared
    assert_eq!(pallet.queued().invalid_iter().len(), 0);
    assert_eq!(pallet.queued().backing_iter().len(), 0);

    // everything about the verifying solution is now removed.
    assert_eq!(pallet.verifying().current_page(), None);
    assert_eq!(pallet.verifying().get_score(), None);
    assert_eq!(pallet.verifying().iter().len(), 0);
}

#[test]
fn correct_solution_becomes_queued() {
    let mut pallet = new_pallet();
    let paged = good_solution();

    // set each page of the solution
    submit_all(&mut pallet, &paged);

    // seal the solution
    assert_eq!(pallet.seal_unverified_solution(paged.score), Ok(()));

    // load the last page of the solution
    tick(&mut pallet, 2);

    // the invalid queued solution is full
    assert_eq!(pallet.queued().invalid_iter().len(), 2);
    assert_eq!(pallet.queued().valid_iter().len(), 0);
    // and there is no queued solution
    assert_eq!(pallet.queued().queued_solution(), None);
    assert_eq!(pallet.queued().backing_iter().len(), 2);

    // now we finalize everything
    tick(&mut pallet, 1);

    // the solution becomes the valid solution
    assert_eq!(pallet.queued().valid_iter().len(), 3);
    assert_eq!(pallet.queued().invalid_iter().len(), 0);
    // which is also the queued solution
    assert!(matches!(pallet.queued().queued_solution(), Some(_)));

    // backing is cleared
    assert_eq!(pallet.queued().backing_iter().len(), 0);

    // everything about the verifying solution is now removed.
    assert_eq!(pallet.verifying().current_page(), None);
    assert_eq!(pallet.verifying().get_score(), None);
    assert_eq!(pallet.verifying().iter().len(), 0);
}

#[test]
fn incorrect_solution_is_discarded() {
    // first solution and invalid, should do nothing and make sure storage is totally
    // cleared.
    let mut pallet = new_pallet();
    let mut paged = good_solution();
    let score = paged.score;

    // change a vote in the 2nd page to out an out-of-bounds target index
    assert_eq!(
        paged.solution_pages[1]
            .votes_n
            .iter_mut()
            .filter(|vote| vote.voter == 0)
            .map(|vote| vote.shares[0].0 = 4)
            .count(),
        1,
    );

    // set each page of the solution
    submit_all(&mut pallet, &paged);

    // seal the solution
    assert_eq!(pallet.seal_unverified_solution(paged.score), Ok(()));
    // thus full loading the verify solution
    assert_eq!(pallet.verifying().iter().len(), 3);
    assert_eq!(pallet.verifying().get_score(), Some(score));
    assert_eq!(pallet.verifying().current_page(), Some(2));

    // the queued solution is untouched
    assert_eq!(pallet.queued().invalid_iter().len(), 0);
    assert_eq!(pallet.queued().backing_iter().len(), 0);

    // verifying the 1st page is fine since it is valid
    tick(&mut pallet, 1);

    // cursor decrements by 1
    assert_eq!(pallet.verifying().current_page(), Some(1));
    // the queued solution has its first page
    assert_eq!(pallet.queued().invalid_iter().len(), 1);
    // and the target backings now include the first page
    assert!(pallet.queued().get_backing_page(2).is_some());
    assert_eq!(pallet.queued().backing_iter().len(), 1);

    // the 2nd page is rejected since it is invalid
    tick(&mut pallet, 1);

    // .. so the verifying solution is totally cleared
    assert_eq!(pallet.verifying().iter().len(), 0);
    assert_eq!(pallet.verifying().get_score(), None);
    assert_eq!(pallet.verifying().current_page(), None);

    // and the invalid backing solution is totally cleared/
    assert_eq!(pallet.queued().invalid_iter().len(), 0);
    assert_eq!(pallet.queued().backing_iter().len(), 0);

    // nothing was ever queued.
    assert_eq!(pallet.queued_solution(), None);
    assert_eq!(pallet.queued().valid_iter().len(), 0);
}

#[test]
fn better_solution_replaces_ok_solution() {
    // we have an ok solution, new better one comes along, we stored it.
    let mut pallet = new_pallet();
    let good_paged = good_solution();
    let good_score = good_paged.score;
    let ok_paged = raw_paged_solution_low_score();
    let ok_score = ok_paged.score;

    // ensure the good solution is actually better than the ok solution
    assert!(better(good_score, ok_score));

    // set
    submit_all(&mut pallet, &ok_paged);
    // and seal the ok solution against the verifier
    assert_eq!(pallet.seal_unverified_solution(ok_score), Ok(()));

    // load the 2nd page of the ok solution
    tick(&mut pallet, 2);
    assert_eq!(pallet.queued().invalid_iter().len(), 2);
    assert_eq!(pallet.queued().valid_iter().len(), 0);

    // load the last page of the ok solution, and finalize it
    tick(&mut pallet, 1);

    // the valid solution and invalid are flipped
    assert_eq!(pallet.queued().invalid_iter().len(), 0);
    assert_eq!(pallet.queued().valid_iter().len(), 3);
    assert_eq!(pallet.queued_solution(), Some(ok_score));

    // everything about the verifying solution is now removed
    assert_eq!(pallet.verifying().current_page(), None);
    assert_eq!(pallet.verifying().get_score(), None);
    assert_eq!(pallet.verifying().iter().len(), 0);

    // the queued solutions backings are cleared
    assert_eq!(pallet.queued().backing_iter().len(), 0);

    submit_all(&mut pallet, &good_paged);
    // and seal the good solution against the verifier
    assert_eq!(pallet.seal_unverified_solution(good_score), Ok(()));

    // load the 2nd page of the good solution
    tick(&mut pallet, 2);

    // the invalid solution is the good solution
    assert_eq!(pallet.queued().invalid_iter().len(), 2);
    assert_eq!(pallet.verifying().get_score(), Some(good_score));

    // and the valid solution is still the ok one
    assert_eq!(pallet.queued().valid_iter().len(), 3);
    assert_eq!(pallet.queued_solution(), Some(ok_score));

    // finalize the good solution
    tick(&mut pallet, 1);

    // the invalid solution is cleared
    assert_eq!(pallet.queued().invalid_iter().len(), 0);

    // the good solution becomes the valid solution
    assert_eq!(pallet.queued().valid_iter().len(), 3);
    assert_eq!(pallet.queued_solution(), Some(good_score));

    // the verifying solution is now removed.
    assert_eq!(pallet.verifying().current_page(), None);
    assert_eq!(pallet.verifying().get_score(), None);
    assert_eq!(pallet.verifying().iter().len(), 0);

    // the queued solutions backings are cleared
    assert_eq!(pallet.queued().backing_iter().len(), 0);
}

#[test]
fn ok_solution_does_not_replace_good_solution() {
    let mut pallet = new_pallet();
    let good_paged = good_solution();
    let good_score = good_paged.score;
    let ok_paged = raw_paged_solution_low_score();
    let ok_score = ok_paged.score;

    // ensure the good solution is actually better than the ok solution
    assert!(better(good_score, ok_score));

    // set
    submit_all(&mut pallet, &good_paged);
    // and seal the good solution against the verifier
    assert_eq!(pallet.seal_unverified_solution(good_paged.score), Ok(()));

    // load the last page of the good solution, and finalize it
    tick(&mut pallet, 3);

    // the valid solution and invalid are flipped
    assert_eq!(pallet.queued().valid_iter().len(), 3);
    assert_eq!(pallet.queued_solution(), Some(good_score));

    // set
    submit_all(&mut pallet, &ok_paged);
    // and the solution will not be successfully sealed because the score is too low
    assert!(pallet.seal_unverified_solution(ok_score).is_err());

    // the invalid solution is cleared
    assert_eq!(pallet.queued().invalid_iter().len(), 0);

    // the good solution is still the valid solution
    assert_eq!(pallet.queued().valid_iter().len(), 3);
    assert_eq!(pallet.queued_solution(), Some(good_score));

    // everything about the verifying solution is now removed.
    assert_eq!(pallet.verifying().current_page(), None);
    assert_eq!(pallet.verifying().get_score(), None);
    assert_eq!(pallet.verifying().iter().len(), 0);

    // the queued solutions backings are cleared
    assert_eq!(pallet.queued().backing_iter().len(), 0);
}

#[test]
fn incorrect_solution_does_not_mess_with_queued() {
    // we have a good solution, bad one comes along, we discard it safely
    let mut pallet = new_pallet();

    let paged = good_solution();
    let score = paged.score;
    assert_eq!(score, election_score(55, 130, 8650));

    let mut bad_paged = good_solution();
    bad_paged.score = election_score(54, 129, 8640);

    // change a vote in the 2nd page to out an out-of-bounds target index
    assert_eq!(
        bad_paged.solution_pages[1]
            .votes_n
            .iter_mut()
            .filter(|vote| vote.voter == 0)
            .map(|vote| vote.shares[0].0 = 4)
            .count(),
        1,
    );

    // set
    submit_all(&mut pallet, &paged);
    // and seal the solution against the verifier
    assert_eq!(pallet.seal_unverified_solution(score), Ok(()));

    // finalize the solution
    tick(&mut pallet, 3);
    assert_eq!(pallet.queued().valid_iter().len(), 3);
    assert_eq!(pallet.queued_solution(), Some(score));

    // set
    submit_all(&mut pallet, &bad_paged);
    // and the bad solution cannot be successfully sealed against the verifier because
    // it has a bad score.
    assert!(pallet.seal_unverified_solution(bad_paged.score).is_err());

    // then the verifying solution storage is wiped
    assert_eq!(pallet.queued_solution(), Some(score));

    // everything about the verifying solution is removed
    assert_eq!(pallet.verifying().current_page(), None);
    assert_eq!(pallet.verifying().get_score(), None);
    assert_eq!(pallet.verifying().iter().len(), 0);

    // the queued solutions backings are cleared
    assert_eq!(pallet.queued().backing_iter().len(), 0);

    // the valid solution is unchanged
    assert_eq!(pallet.queued().valid_iter().len(), 3);
}

/// The pages of the queued solution, by page.
fn queued_pages(pallet: &Pallet) -> Vec<Option<Supports>> {
    (0..PAGES).map(|page| pallet.get_queued_solution_page(page).cloned()).collect()
}

#[test]
fn desired_targets() {
    // a correct solution that elects two targets where three are desired is dropped
    // once its last page has been verified.
    let mut pallet = Pallet::new(Config { desired_targets: 3, ..config() }).unwrap();
    let paged = good_solution();
    submit_all(&mut pallet, &paged);
    assert_eq!(pallet.seal_unverified_solution(paged.score), Ok(()));

    tick(&mut pallet, 2);
    assert_eq!(pallet.verifying().current_page(), Some(0));
    assert_eq!(pallet.queued().invalid_iter().len(), 2);

    tick(&mut pallet, 1);
    assert_eq!(pallet.queued_solution(), None);
    assert_eq!(pallet.queued().valid_iter().len(), 0);
    assert_eq!(pallet.queued().invalid_iter().len(), 0);
    assert_eq!(pallet.queued().backing_iter().len(), 0);
    assert_eq!(pallet.verifying().current_page(), None);
    assert_eq!(pallet.verifying().get_score(), None);
    assert_eq!(pallet.verifying().iter().len(), 0);
}

#[test]
fn score() {
    // the score recomputed from the verified pages must be the claimed one exactly: one
    // unit more or less in any part of the claim drops the candidate.
    let claims = [
        election_score(56, 130, 8650),
        election_score(55, 131, 8650),
        election_score(55, 130, 8651),
        election_score(54, 130, 8650),
        election_score(55, 129, 8650),
        election_score(55, 130, 8649),
    ];
    for claim in claims {
        let mut pallet = new_pallet();
        let paged = good_solution();
        submit_all(&mut pallet, &paged);
        assert_eq!(pallet.seal_unverified_solution(claim), Ok(()));
        tick(&mut pallet, 3);
        assert_eq!(pallet.queued_solution(), None);
        assert_eq!(pallet.queued().valid_iter().len(), 0);
        assert_eq!(pallet.queued().invalid_iter().len(), 0);
        assert_eq!(pallet.verifying().get_score(), None);
    }

    // the exact claim is promoted.
    let mut pallet = new_pallet();
    let paged = good_solution();
    submit_all(&mut pallet, &paged);
    assert_eq!(pallet.seal_unverified_solution(paged.score), Ok(()));
    tick(&mut pallet, 3);
    assert_eq!(pallet.queued_solution(), Some(election_score(55, 130, 8650)));
}

#[test]
fn max_voters_per_target() {
    // the bound on the backers of a target is carried by the configuration; the
    // verification of pages does not look at it: 40 has five backers here.
    let mut pallet =
        Pallet::new(Config { max_total_backings_per_target: 1, ..config() }).unwrap();
    assert_eq!(pallet.config().max_total_backings_per_target, 1);
    let paged = good_solution();
    submit_all(&mut pallet, &paged);
    assert_eq!(pallet.seal_unverified_solution(paged.score), Ok(()));
    tick(&mut pallet, 3);
    assert_eq!(pallet.queued_solution(), Some(paged.score));
}

#[test]
fn three_page_round_queues_its_supports() {
    let mut pallet = new_pallet();
    let paged = good_solution();
    submit_all(&mut pallet, &paged);
    assert_eq!(pallet.seal_unverified_solution(paged.score), Ok(()));
    tick(&mut pallet, 3);

    assert_eq!(pallet.queued_solution(), Some(election_score(55, 130, 8650)));
    assert!(!pallet.verifying().is_sealed());
    assert_eq!(
        queued_pages(&pallet),
        vec![
            Some(vec![
                (30, Support { total: 30, voters: vec![(30, 30)] }),
                (40, Support { total: 40, voters: vec![(40, 40)] }),
            ]),
            Some(vec![
                (30, Support { total: 25, voters: vec![(6, 10), (7, 10), (5, 5)] }),
                (40, Support { total: 5, voters: vec![(5, 5)] }),
            ]),
            Some(vec![(40, Support { total: 30, voters: vec![(2, 10), (3, 10), (4, 10)] })]),
        ]
    );
    assert_eq!(pallet.get_queued_solution_page(3), None);
}

#[test]
fn sealed_candidate_refuses_pages_and_seals() {
    let mut pallet = new_pallet();
    let paged = good_solution();
    submit_all(&mut pallet, &paged);
    assert_eq!(pallet.seal_unverified_solution(paged.score), Ok(()));

    // nothing gets in while the candidate is verified..
    for _ in 0..3 {
        assert_eq!(
            pallet.set_unverified_solution_page(0, PartialSolution::default()),
            Err(SubmitError::AlreadySealed)
        );
        assert_eq!(
            pallet.seal_unverified_solution(election_score(100, 200, 300)),
            Err(SubmitError::AlreadySealed)
        );
        assert_eq!(pallet.verifying().get_score(), Some(paged.score));
        assert_eq!(pallet.verifying().iter().len(), 3);
        assert_eq!(
            pallet.verifying().get_page(0),
            Some(&good_solution().solution_pages[0])
        );
        tick(&mut pallet, 1);
    }

    // ..and the verifier takes pages again once it is idle.
    assert!(!pallet.verifying().is_sealed());
    assert_eq!(pallet.set_unverified_solution_page(0, PartialSolution::default()), Ok(()));
}

#[test]
fn readers_never_see_a_partly_verified_candidate() {
    let mut pallet = new_pallet();
    let ok_paged = raw_paged_solution_low_score();
    submit_all(&mut pallet, &ok_paged);
    assert_eq!(pallet.seal_unverified_solution(ok_paged.score), Ok(()));
    tick(&mut pallet, 3);
    let before = queued_pages(&pallet);
    let seen = (Some(ok_paged.score), before.clone());
    assert_eq!(pallet.queued_solution(), Some(ok_paged.score));

    let good_paged = good_solution();
    submit_all(&mut pallet, &good_paged);
    assert_eq!((pallet.queued_solution(), queued_pages(&pallet)), seen);
    assert_eq!(pallet.seal_unverified_solution(good_paged.score), Ok(()));
    assert_eq!((pallet.queued_solution(), queued_pages(&pallet)), seen);
    tick(&mut pallet, 1);
    assert_eq!((pallet.queued_solution(), queued_pages(&pallet)), seen);
    tick(&mut pallet, 1);
    assert_eq!((pallet.queued_solution(), queued_pages(&pallet)), seen);
    tick(&mut pallet, 1);
    assert_eq!(pallet.queued_solution(), Some(good_paged.score));
    assert!(queued_pages(&pallet).iter().all(|page| page.is_some()));
    assert!(queued_pages(&pallet) != before);
}

#[test]
fn failing_page_leaves_the_queued_solution_as_it_was() {
    let mut pallet = new_pallet();
    let ok_paged = raw_paged_solution_low_score();
    submit_all(&mut pallet, &ok_paged);
    assert_eq!(pallet.seal_unverified_solution(ok_paged.score), Ok(()));
    tick(&mut pallet, 3);
    let before = (pallet.queued_solution(), queued_pages(&pallet));

    // page 1 of the next candidate names a target index out of range.
    let mut bad_paged = good_solution();
    bad_paged.solution_pages[1].votes1[0].1 = 4;
    submit_all(&mut pallet, &bad_paged);
    assert_eq!(pallet.seal_unverified_solution(bad_paged.score), Ok(()));
    tick(&mut pallet, 1);
    assert!(pallet.verifying().is_sealed());
    tick(&mut pallet, 1);

    assert_eq!((pallet.queued_solution(), queued_pages(&pallet)), before);
    assert!(!pallet.verifying().is_sealed());
    assert_eq!(pallet.verifying().current_page(), None);
    assert_eq!(pallet.queued().invalid_iter().len(), 0);

    // further ticks change nothing.
    tick(&mut pallet, 2);
    assert_eq!((pallet.queued_solution(), queued_pages(&pallet)), before);
}

#[test]
fn tick_without_candidate_changes_nothing() {
    let mut pallet = new_pallet();
    tick(&mut pallet, 2);
    assert_eq!(pallet.queued_solution(), None);
    assert_eq!(pallet.verifying().current_page(), None);
    assert_eq!(pallet.queued().valid_iter().len(), 0);
    assert_eq!(pallet.queued().invalid_iter().len(), 0);

    // pages that were loaded but not sealed are not verified and stay.
    assert_eq!(
        pallet.set_unverified_solution_page(1, good_solution().solution_pages[1].clone()),
        Ok(())
    );
    tick(&mut pallet, 2);
    assert_eq!(pallet.verifying().iter().len(), 1);
    assert_eq!(pallet.verifying().current_page(), None);
    assert_eq!(pallet.queued().invalid_iter().len(), 0);
}

#[test]
fn seal_below_minimum_untrusted_score_wipes_the_pages() {
    let mut pallet = new_pallet();
    assert_eq!(pallet.set_minimum_untrusted_score(true, Some(election_score(60, 0, 0))), Ok(()));
    assert_eq!(pallet.minimum_untrusted_score(), Some(election_score(60, 0, 0)));

    let paged = good_solution();
    assert_eq!(
        pallet.set_unverified_solution_page(0, paged.solution_pages[0].clone()),
        Ok(())
    );
    assert_eq!(pallet.verifying().iter().len(), 1);
    assert_eq!(pallet.seal_unverified_solution(paged.score), Err(SubmitError::ScoreTooLow));
    assert_eq!(pallet.verifying().iter().len(), 0);
    assert!(!pallet.verifying().is_sealed());
    assert_eq!(pallet.verifying().current_page(), None);

    // a score must be strictly above the minimum.
    assert_eq!(pallet.set_minimum_untrusted_score(true, Some(paged.score)), Ok(()));
    assert_eq!(pallet.seal_unverified_solution(paged.score), Err(SubmitError::ScoreTooLow));
    assert_eq!(
        pallet.set_minimum_untrusted_score(true, Some(election_score(55, 130, 8651))),
        Ok(())
    );
    assert_eq!(pallet.seal_unverified_solution(paged.score), Ok(()));
}

#[test]
fn minimum_untrusted_score_is_for_the_controlling_origin() {
    let mut pallet = new_pallet();
    assert_eq!(
        pallet.set_minimum_untrusted_score(false, Some(election_score(60, 0, 0))),
        Err(Error::BadOrigin)
    );
    assert_eq!(pallet.minimum_untrusted_score(), None);
    assert_eq!(pallet.set_minimum_untrusted_score(true, Some(election_score(60, 0, 0))), Ok(()));
    assert_eq!(pallet.set_minimum_untrusted_score(true, None), Ok(()));
    assert_eq!(pallet.minimum_untrusted_score(), None);
}

#[test]
fn improvement_threshold_is_asked_of_the_next_candidate() {
    // with a threshold of a tenth, a claim that is less than a tenth above the queued
    // score in its least backing, and no better in the rest, is not an improvement.
    let mut pallet =
        Pallet::new(Config { solution_improvement_threshold: 100_000_000, ..config() }).unwrap();
    pallet.force_set_single_page_valid(0, vec![], election_score(51, 130, 8650));
    assert_eq!(
        pallet.seal_unverified_solution(election_score(55, 130, 8650)),
        Err(SubmitError::ScoreTooLow)
    );
    // a tenth of 50, rounded up, is 5: 55 is not more than 5 above 50.
    pallet.force_set_single_page_valid(0, vec![], election_score(50, 130, 8650));
    assert_eq!(
        pallet.seal_unverified_solution(election_score(55, 130, 8650)),
        Err(SubmitError::ScoreTooLow)
    );
    // a tenth of 49, rounded up, is 5: 55 is more than 5 above 49.
    pallet.force_set_single_page_valid(0, vec![], election_score(49, 130, 8650));
    assert_eq!(pallet.seal_unverified_solution(election_score(55, 130, 8650)), Ok(()));
}

fn emergency_supports() -> Vec<Supports> {
    vec![
        vec![(10, Support { total: 10, voters: vec![(10, 10)] })],
        vec![(20, Support { total: 20, voters: vec![(20, 20)] })],
        vec![(30, Support { total: 30, voters: vec![(30, 30)] })],
    ]
}

#[test]
fn emergency_solution_is_queued_unchecked() {
    let mut pallet = new_pallet();
    let claimed = election_score(1, 2, 3);
    assert_eq!(
        pallet.set_emergency_solution(false, true, emergency_supports(), claimed),
        Err(Error::BadOrigin)
    );
    assert_eq!(
        pallet.set_emergency_solution(true, false, emergency_supports(), claimed),
        Err(Error::CallNotAllowed)
    );
    assert_eq!(
        pallet.set_emergency_solution(true, true, emergency_supports()[0..2].to_vec(), claimed),
        Err(Error::WrongPageCount)
    );
    assert_eq!(
        pallet.set_emergency_solution(true, true, vec![], claimed),
        Err(Error::WrongPageCount)
    );
    assert_eq!(pallet.queued_solution(), None);
    assert_eq!(pallet.queued().valid_iter().len(), 0);

    assert_eq!(pallet.set_emergency_solution(true, true, emergency_supports(), claimed), Ok(()));
    assert_eq!(pallet.queued_solution(), Some(claimed));
    assert_eq!(
        queued_pages(&pallet),
        emergency_supports().into_iter().map(Some).collect::<Vec<_>>()
    );
}

#[test]
fn emergency_solution_does_not_disturb_the_candidate() {
    let mut pallet = new_pallet();
    let paged = good_solution();
    submit_all(&mut pallet, &paged);
    assert_eq!(pallet.seal_unverified_solution(paged.score), Ok(()));
    tick(&mut pallet, 1);

    let claimed = election_score(1, 2, 3);
    assert_eq!(pallet.set_emergency_solution(true, true, emergency_supports(), claimed), Ok(()));
    assert_eq!(pallet.verifying().current_page(), Some(1));
    assert_eq!(pallet.queued().invalid_iter().len(), 1);
    assert_eq!(pallet.queued_solution(), Some(claimed));

    // the candidate goes on and replaces the emergency solution once it is verified.
    tick(&mut pallet, 2);
    assert_eq!(pallet.queued_solution(), Some(paged.score));
    assert_eq!(pallet.queued().invalid_iter().len(), 0);
}

#[test]
fn kill_removes_candidate_and_queue() {
    let mut pallet = new_pallet();
    let ok_paged = raw_paged_solution_low_score();
    submit_all(&mut pallet, &ok_paged);
    assert_eq!(pallet.seal_unverified_solution(ok_paged.score), Ok(()));
    tick(&mut pallet, 3);
    let paged = good_solution();
    submit_all(&mut pallet, &paged);
    assert_eq!(pallet.seal_unverified_solution(paged.score), Ok(()));
    tick(&mut pallet, 1);

    pallet.kill();
    assert_eq!(pallet.queued_solution(), None);
    assert_eq!(pallet.queued().valid_iter().len(), 0);
    assert_eq!(pallet.queued().invalid_iter().len(), 0);
    assert_eq!(pallet.queued().backing_iter().len(), 0);
    assert_eq!(pallet.verifying().iter().len(), 0);
    assert_eq!(pallet.verifying().current_page(), None);
    tick(&mut pallet, 1);
    assert_eq!(pallet.queued_solution(), None);
}

#[test]
fn round_needs_a_page() {
    assert!(Pallet::new(Config { pages: 0, ..config() }).is_none());
    let pallet = Pallet::new(Config { pages: 1, ..config() }).unwrap();
    assert_eq!(pallet.msp(), 0);
    assert_eq!(new_pallet().msp(), 2);
    assert_eq!(new_pallet().config(), config());
}

#[test]
fn pages_fill_a_round_from_its_last_page() {
    assert_eq!(pagify(0, 1, 3), 2);
    assert_eq!(pagify(0, 3, 3), 0);
    assert_eq!(pagify(2, 3, 3), 2);
    assert_eq!(pagify(1, 2, 3), 2);
    assert_eq!(pagify(0, 5, 3), 0);
    assert_eq!(pagify(4, 5, 3), 4);
    assert_eq!(pagify(300, 400, 3), 255);
    assert_eq!(pagify(254, 1, 3), 255);
}

#[test]
fn page_outcomes_are_collected_and_decide_the_candidate() {
    let mut pallet = Pallet::new(Config { pages: 2, ..config() }).unwrap();
    assert_eq!(pallet.seal_unverified_solution(election_score(10, 30, 500)), Ok(()));
    assert_eq!(pallet.verifying().current_page(), Some(1));

    let page1 = vec![(30, Support { total: 10, voters: vec![(1, 10)] })];
    let page0 = vec![
        (30, Support { total: 10, voters: vec![(2, 10)] }),
        (40, Support { total: 10, voters: vec![(3, 10)] }),
    ];
    pallet.process_page_outcome(Ok(page1.clone()));
    assert_eq!(pallet.verifying().current_page(), Some(0));
    assert_eq!(pallet.queued().get_invalid_page(1), Some(&page1));
    assert_eq!(pallet.queued().get_backing_page(1), Some(&vec![(30, 10)]));
    assert_eq!(pallet.queued_solution(), None);

    // 30 is backed by 20 and 40 by 10: the claim of (10, 30, 500) holds.
    pallet.process_page_outcome(Ok(page0.clone()));
    assert_eq!(pallet.queued_solution(), Some(election_score(10, 30, 500)));
    assert_eq!(pallet.get_queued_solution_page(1), Some(&page1));
    assert_eq!(pallet.get_queued_solution_page(0), Some(&page0));
    assert!(!pallet.verifying().is_sealed());
    assert_eq!(pallet.queued().invalid_iter().len(), 0);
}

#[test]
fn page_outcome_with_an_error_drops_the_candidate() {
    let errors = [
        FeasibilityError::SnapshotUnavailable,
        FeasibilityError::InvalidVote,
        FeasibilityError::InvalidVoter,
        FeasibilityError::InvalidWinner,
        FeasibilityError::ScoreTooLow,
        FeasibilityError::NposElection(ElectionError::ArithmeticError),
    ];
    for error in errors {
        let mut pallet = Pallet::new(Config { pages: 2, ..config() }).unwrap();
        assert_eq!(pallet.set_unverified_solution_page(0, PartialSolution::default()), Ok(()));
        assert_eq!(pallet.seal_unverified_solution(election_score(10, 30, 500)), Ok(()));
        pallet.process_page_outcome(Ok(vec![(30, Support { total: 10, voters: vec![(1, 10)] })]));
        pallet.process_page_outcome(Err(error));
        assert!(!pallet.verifying().is_sealed());
        assert_eq!(pallet.verifying().current_page(), None);
        assert_eq!(pallet.verifying().iter().len(), 0);
        assert_eq!(pallet.queued().invalid_iter().len(), 0);
        assert_eq!(pallet.queued().backing_iter().len(), 0);
        assert_eq!(pallet.queued_solution(), None);
    }
}

#[test]
fn page_outcome_without_a_candidate_is_dropped() {
    let mut pallet = new_pallet();
    pallet.process_page_outcome(Ok(vec![(30, Support { total: 10, voters: vec![(1, 10)] })]));
    pallet.process_page_outcome(Err(FeasibilityError::InvalidVote));
    assert_eq!(pallet.queued().invalid_iter().len(), 0);
    assert_eq!(pallet.queued().backing_iter().len(), 0);
    assert_eq!(pallet.queued_solution(), None);
    assert_eq!(pallet.verifying().current_page(), None);
}

#[test]
fn score_quality_needs_both_answers() {
    assert_eq!(quality_verdict(true, true), Ok(()));
    assert_eq!(quality_verdict(true, false), Err(FeasibilityError::ScoreTooLow));
    assert_eq!(quality_verdict(false, true), Err(FeasibilityError::ScoreTooLow));
    assert_eq!(quality_verdict(false, false), Err(FeasibilityError::ScoreTooLow));
}

#[test]
fn score_quality_of_a_fresh_verifier_lets_every_score_in() {
    let pallet = new_pallet();
    assert_eq!(pallet.ensure_score_quality(election_score(0, 0, 0)), Ok(()));
    assert_eq!(pallet.ensure_score_quality(election_score(0, 0, u128::MAX)), Ok(()));
}

#[test]
fn score_quality_compares_with_what_is_queued() {
    let mut pallet = new_pallet();
    pallet.force_set_single_page_valid(0, vec![], election_score(55, 130, 8650));
    // with no threshold, any strictly better score will do, most significant part
    // first; of the sum of squares, less is better.
    assert_eq!(pallet.ensure_score_quality(election_score(56, 0, u128::MAX)), Ok(()));
    assert_eq!(pallet.ensure_score_quality(election_score(55, 131, 9000)), Ok(()));
    assert_eq!(pallet.ensure_score_quality(election_score(55, 130, 8649)), Ok(()));
    assert_eq!(
        pallet.ensure_score_quality(election_score(55, 130, 8650)),
        Err(FeasibilityError::ScoreTooLow)
    );
    assert_eq!(
        pallet.ensure_score_quality(election_score(55, 130, 8651)),
        Err(FeasibilityError::ScoreTooLow)
    );
    assert_eq!(
        pallet.ensure_score_quality(election_score(54, 1000, 0)),
        Err(FeasibilityError::ScoreTooLow)
    );
}
