use paged_verifier::error::SubmitError;
use paged_verifier::types::{ElectionScore, PartialSolution, SplitVote};
use paged_verifier::verifying::VerifyingSolution;

fn claimed() -> ElectionScore {
    ElectionScore { minimal_stake: 55, sum_stake: 130, sum_stake_squared: 8650 }
}

fn page(voter: u32) -> PartialSolution {
    PartialSolution {
        votes1: vec![(voter, 0)],
        votes_n: vec![SplitVote { voter, shares: vec![(1, 100)], last: 2 }],
    }
}

#[test]
fn put_page_keeps_the_last_write() {
    let mut verifying = VerifyingSolution::new();
    assert_eq!(verifying.put_page(1, page(1)), Ok(()));
    assert_eq!(verifying.put_page(1, page(2)), Ok(()));
    assert_eq!(verifying.put_page(0, page(3)), Ok(()));
    assert_eq!(verifying.get_page(1), Some(&page(2)));
    assert_eq!(verifying.get_page(0), Some(&page(3)));
    assert_eq!(verifying.get_page(2), None);
    assert_eq!(verifying.iter(), vec![(0, &page(3)), (1, &page(2))]);
    assert!(!verifying.is_sealed());
    assert_eq!(verifying.get_score(), None);
    assert_eq!(verifying.current_page(), None);
}

#[test]
fn seal_sets_score_and_cursor() {
    let mut verifying = VerifyingSolution::new();
    assert_eq!(verifying.put_page(0, page(1)), Ok(()));
    assert_eq!(verifying.seal_unverified_solution(claimed(), true, 2), Ok(()));
    assert!(verifying.is_sealed());
    assert_eq!(verifying.get_score(), Some(claimed()));
    assert_eq!(verifying.current_page(), Some(2));
    assert_eq!(verifying.get_page(0), Some(&page(1)));
}

#[test]
fn sealed_candidate_cannot_be_changed() {
    let mut verifying = VerifyingSolution::new();
    assert_eq!(verifying.put_page(0, page(1)), Ok(()));
    assert_eq!(verifying.seal_unverified_solution(claimed(), true, 2), Ok(()));

    assert_eq!(verifying.put_page(0, page(2)), Err(SubmitError::AlreadySealed));
    assert_eq!(verifying.put_page(1, page(2)), Err(SubmitError::AlreadySealed));
    let other = ElectionScore { minimal_stake: 1, sum_stake: 1, sum_stake_squared: 1 };
    assert_eq!(
        verifying.seal_unverified_solution(other, true, 5),
        Err(SubmitError::AlreadySealed)
    );
    // a bad score does not wipe a sealed candidate either.
    assert_eq!(
        verifying.seal_unverified_solution(other, false, 5),
        Err(SubmitError::AlreadySealed)
    );
    assert_eq!(verifying.get_page(0), Some(&page(1)));
    assert_eq!(verifying.get_page(1), None);
    assert_eq!(verifying.get_score(), Some(claimed()));
    assert_eq!(verifying.current_page(), Some(2));
}

#[test]
fn seal_with_a_low_score_wipes_the_pages() {
    let mut verifying = VerifyingSolution::new();
    assert_eq!(verifying.put_page(0, page(1)), Ok(()));
    assert_eq!(verifying.put_page(1, page(2)), Ok(()));
    assert_eq!(
        verifying.seal_unverified_solution(claimed(), false, 2),
        Err(SubmitError::ScoreTooLow)
    );
    assert!(!verifying.is_sealed());
    assert_eq!(verifying.iter().len(), 0);
    assert_eq!(verifying.get_score(), None);
    assert_eq!(verifying.current_page(), None);
}

#[test]
fn proceed_page_counts_down_to_zero() {
    let mut verifying = VerifyingSolution::new();
    assert!(!verifying.proceed_page());
    assert_eq!(verifying.current_page(), None);

    assert_eq!(verifying.seal_unverified_solution(claimed(), true, 2), Ok(()));
    assert!(verifying.proceed_page());
    assert_eq!(verifying.current_page(), Some(1));
    assert!(verifying.proceed_page());
    assert_eq!(verifying.current_page(), Some(0));
    assert!(!verifying.proceed_page());
    assert_eq!(verifying.current_page(), Some(0));
    assert!(!verifying.proceed_page());
    assert_eq!(verifying.current_page(), Some(0));
    assert!(verifying.is_sealed());
}

#[test]
fn kill_removes_the_candidate() {
    let mut verifying = VerifyingSolution::new();
    assert_eq!(verifying.put_page(0, page(1)), Ok(()));
    assert_eq!(verifying.seal_unverified_solution(claimed(), true, 0), Ok(()));
    verifying.kill();
    assert!(!verifying.is_sealed());
    assert_eq!(verifying.get_score(), None);
    assert_eq!(verifying.current_page(), None);
    assert_eq!(verifying.iter().len(), 0);
    // and a new candidate can be loaded.
    assert_eq!(verifying.put_page(0, page(4)), Ok(()));
}
