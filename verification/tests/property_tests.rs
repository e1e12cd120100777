//! Scenario checks for the aggregation, bounds and payment properties.

use pallet_chainlink_feed::handle::FeedBuilder;
use pallet_chainlink_feed::mock::Test;
use pallet_chainlink_feed::types::{Error, FeedConfig};

#[test]
fn median_of_three_submissions() {
    let mut p = Test::new_ext();
    assert!(FeedBuilder::new()
        .min_submissions(3)
        .oracles(vec![(1, 9), (2, 9), (3, 9)])
        .build_and_store(&mut p)
        .is_ok());
    assert!(p.submit(1, 0, 1, 10).is_ok());
    assert!(p.submit(2, 0, 1, 30).is_ok());
    assert!(p.submit(3, 0, 1, 20).is_ok());
    assert_eq!(p.round(0, 1).unwrap().answer, Some(20));
}

#[test]
fn median_of_two_rounds_toward_zero() {
    let mut p = Test::new_ext();
    assert!(FeedBuilder::new()
        .min_submissions(2)
        .oracles(vec![(1, 9), (2, 9), (3, 9)])
        .build_and_store(&mut p)
        .is_ok());
    // the average of the two middle values rounds toward zero
    assert!(p.submit(1, 0, 1, 10).is_ok());
    assert!(p.submit(2, 0, 1, 21).is_ok());
    assert_eq!(p.round(0, 1).unwrap().answer, Some(15));
}

#[test]
fn submission_value_bounds_are_inclusive() {
    let mut p = Test::new_ext();
    assert!(FeedBuilder::new()
        .value_bounds(10, 100)
        .min_submissions(4)
        .oracles(vec![(1, 9), (2, 9), (3, 9), (4, 9)])
        .build_and_store(&mut p)
        .is_ok());
    assert_eq!(p.submit(1, 0, 1, 9), Err(Error::SubmissionBelowMinimum));
    assert_eq!(p.submit(1, 0, 1, 101), Err(Error::SubmissionAboveMaximum));
    assert!(p.submit(1, 0, 1, 10).is_ok());
    assert!(p.submit(2, 0, 1, 100).is_ok());
}

#[test]
fn double_submission_is_rejected() {
    let mut p = Test::new_ext();
    assert!(FeedBuilder::new()
        .min_submissions(2)
        .oracles(vec![(1, 9), (2, 9), (3, 9)])
        .build_and_store(&mut p)
        .is_ok());
    assert!(p.submit(1, 0, 1, 10).is_ok());
    assert_eq!(p.submit(1, 0, 1, 11), Err(Error::InvalidRound));
}

#[test]
fn restart_delay_gates_round_starts() {
    let mut p = Test::new_ext();
    // with restart_delay = oracle_count - 1 every oracle may start a round
    // exactly when its turn comes around again
    assert!(FeedBuilder::new()
        .min_submissions(1)
        .restart_delay(2)
        .oracles(vec![(1, 9), (2, 9), (3, 9)])
        .build_and_store(&mut p)
        .is_ok());
    assert!(p.submit(1, 0, 1, 10).is_ok());
    // round 2 <= 1 + 2, so oracle 1 may not start it
    assert_eq!(p.submit(1, 0, 2, 10), Err(Error::InvalidRound));
    assert!(p.submit(2, 0, 2, 10).is_ok());
    assert!(p.submit(3, 0, 3, 10).is_ok());
    // round 4 > 1 + 2, so oracle 1 may start again
    assert!(p.submit(1, 0, 4, 10).is_ok());
}

#[test]
fn created_feed_reads_back() {
    let mut p = Test::new_ext();
    assert!(p
        .create_feed(1, 20, 10, (10, 1_000), 2, 5, b"desc".to_vec(), 1, vec![(1, 4), (2, 4)])
        .is_ok());
    let expected = FeedConfig {
        owner: 1,
        pending_owner: None,
        payment: 20,
        timeout: 10,
        submission_value_min: 10,
        submission_value_max: 1_000,
        min_submissions: 2,
        max_submissions: 2,
        decimals: 5,
        description: b"desc".to_vec(),
        restart_delay: 1,
        latest_round: 0,
        reporting_round: 0,
        first_valid_round: None,
        oracle_count: 2,
    };
    assert_eq!(p.feed_config(0), Some(&expected));
}

#[test]
fn payments_move_into_the_reserved_backing() {
    let mut p = Test::new_ext();
    assert!(FeedBuilder::new()
        .payment(20)
        .min_submissions(2)
        .oracles(vec![(1, 4), (2, 4), (3, 4)])
        .build_and_store(&mut p)
        .is_ok());
    assert!(p.submit(1, 0, 1, 42).is_ok());
    assert!(p.submit(2, 0, 1, 42).is_ok());
    // each accepted submission moved the payment from free to reserved
    assert_eq!(p.fund_free, 10000 - 40);
    assert_eq!(p.fund_reserved, 40);
    assert_eq!(p.oracle(1).unwrap().withdrawable, 20);
    // withdrawal pays out of the backing
    assert!(p.withdraw_payment(4, 1, 7, 20).is_ok());
    assert_eq!(p.oracle(1).unwrap().withdrawable, 0);
    assert_eq!(p.fund_free, 10000 - 40);
    assert_eq!(p.fund_reserved, 20);
}
