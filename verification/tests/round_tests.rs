//! Submissions, round closing, oracle membership changes and pruning.

use pallet_chainlink_feed::handle::FeedBuilder;
use pallet_chainlink_feed::mock::Test;
use pallet_chainlink_feed::types::{Error, OracleStatus, Round, RoundData, RoundDetails};

#[test]
fn submit_should_work() {
    let mut p = Test::new_ext();
    let payment = 20;
    let timeout = 10;
    let min_submissions = 2;
    let oracles = vec![(1, 4), (2, 4), (3, 4)];
    assert!(FeedBuilder::new()
        .payment(payment)
        .timeout(timeout)
        .min_submissions(min_submissions)
        .oracles(oracles)
        .build_and_store(&mut p)
        .is_ok());

    let feed_id = 0;
    let round_id = 1;
    let oracle = 2;
    let submission = 42;
    assert!(p.submit(oracle, feed_id, round_id, submission).is_ok());
    let second_oracle = 3;
    assert!(p.submit(second_oracle, feed_id, round_id, submission).is_ok());
    let round = p.round(feed_id, round_id).expect("first round should be present");
    assert_eq!(
        round,
        Round {
            started_at: 0,
            answer: Some(submission),
            updated_at: Some(0),
            answered_in_round: Some(1),
        }
    );
    let details = p
        .round_details(feed_id, round_id)
        .expect("details for first round should be present");
    assert_eq!(
        *details,
        RoundDetails {
            submissions: vec![submission, submission],
            min_submissions,
            max_submissions: 3,
            payment,
            timeout,
        }
    );
    let oracle_status = p.oracle_status(feed_id, oracle).expect("oracle status should be present");
    assert_eq!(oracle_status.latest_submission, Some(submission));
}

#[test]
fn details_are_cleared() {
    let mut p = Test::new_ext();
    let payment = 20;
    let timeout = 10;
    let min_submissions = 2;
    let oracle = 2;
    let snd_oracle = 3;
    let oracles = vec![(1, 4), (oracle, 4), (snd_oracle, 4)];
    assert!(FeedBuilder::new()
        .payment(payment)
        .timeout(timeout)
        .min_submissions(min_submissions)
        .oracles(oracles)
        .build_and_store(&mut p)
        .is_ok());

    let feed_id = 0;
    {
        // round 1
        let r = 1;
        let submission = 42;
        let answer = submission;
        assert!(p.submit(oracle, feed_id, r, submission).is_ok());
        assert!(p.submit(snd_oracle, feed_id, r, submission).is_ok());
        let round = p.round(feed_id, r).unwrap();
        assert_eq!(round.answer, Some(answer));
        let details = p.round_details(feed_id, r).unwrap();
        assert_eq!(details.submissions, vec![submission, submission]);
        let oracle_status = p.oracle_status(feed_id, oracle).unwrap();
        assert_eq!(oracle_status.latest_submission, Some(submission));
    }
    {
        // round 2
        let r = 2;
        let submission = 21;
        let answer = submission;
        // switch the order because `oracle` is not allowed
        // to start a new round
        assert!(p.submit(snd_oracle, feed_id, r, submission).is_ok());
        assert!(p.submit(oracle, feed_id, r, submission).is_ok());
        let round = p.round(feed_id, r).unwrap();
        assert_eq!(round.answer, Some(answer));
        let details = p.round_details(feed_id, r).unwrap();
        assert_eq!(details.submissions, vec![submission, submission]);
        let oracle_status = p.oracle_status(feed_id, oracle).unwrap();
        assert_eq!(oracle_status.latest_submission, Some(submission));
        // old round details should be gone
        assert!(p.round_details(feed_id, 1).is_none());
    }
}

#[test]
fn submit_failure_cases() {
    let mut p = Test::new_ext();
    let oracle = 2;
    let oracles = vec![(1, 4), (oracle, 4), (3, 4)];
    assert!(FeedBuilder::new()
        .value_bounds(1, 100)
        .oracles(oracles)
        .build_and_store(&mut p)
        .is_ok());

    let feed_id = 0;
    let no_feed = 1234;
    let round_id = 1;
    let submission = 42;
    assert_eq!(
        p.submit(oracle, no_feed, round_id, submission),
        Err(Error::FeedNotFound)
    );
    let not_oracle = 1337;
    assert_eq!(
        p.submit(not_oracle, feed_id, round_id, submission),
        Err(Error::NotOracle)
    );
    let invalid_round = 1337;
    assert_eq!(
        p.submit(oracle, feed_id, invalid_round, submission),
        Err(Error::InvalidRound)
    );
    let low_value = 0;
    assert_eq!(
        p.submit(oracle, feed_id, round_id, low_value),
        Err(Error::SubmissionBelowMinimum)
    );
    let high_value = 13377331;
    assert_eq!(
        p.submit(oracle, feed_id, round_id, high_value),
        Err(Error::SubmissionAboveMaximum)
    );
}

#[test]
fn change_oracles_should_work() {
    let mut p = Test::new_ext();
    let oracle = 2;
    let admin = 4;
    let initial_oracles = vec![(1, admin), (oracle, admin), (3, admin)];
    assert!(FeedBuilder::new()
        .oracles(initial_oracles.clone())
        .min_submissions(1)
        .build_and_store(&mut p)
        .is_ok());
    for (o, _a) in initial_oracles.iter() {
        assert!(p.oracle(*o).is_some(), "oracle should be present");
    }
    let feed_id = 0;
    let owner = 1;
    let feed = p.feed_config(feed_id).expect("feed should be there");
    assert_eq!(feed.oracle_count, 3);

    let round = 1;
    let submission = 42;
    assert!(p.submit(oracle, feed_id, round, submission).is_ok());

    let to_disable: Vec<u64> = initial_oracles.iter().cloned().take(2).map(|(o, _a)| o).collect();
    let to_add = vec![(6, 9), (7, 9), (8, 9)];
    // failing cases
    assert_eq!(
        p.change_oracles(owner, 123, to_disable.clone(), to_add.clone()),
        Err(Error::FeedNotFound)
    );
    assert_eq!(
        p.change_oracles(123, feed_id, to_disable.clone(), to_add.clone()),
        Err(Error::NotFeedOwner)
    );
    // we cannot disable the oracles before adding them
    let cannot_disable: Vec<u64> = to_add.iter().cloned().take(2).map(|(o, _a)| o).collect();
    assert_eq!(
        p.change_oracles(owner, feed_id, cannot_disable, to_add.clone()),
        Err(Error::OracleNotFound)
    );
    let too_many_oracles: Vec<(u64, u64)> = (0..11).map(|i| (i as u64, i as u64)).collect();
    assert_eq!(
        p.change_oracles(owner, feed_id, to_disable.clone(), too_many_oracles),
        Err(Error::OraclesLimitExceeded)
    );
    let changed_admin: Vec<(u64, u64)> =
        initial_oracles.iter().cloned().map(|(o, _a)| (o, 33)).collect();
    assert_eq!(
        p.change_oracles(owner, feed_id, to_disable.clone(), changed_admin),
        Err(Error::OwnerCannotChangeAdmin)
    );
    let many_duplicates: Vec<u64> = initial_oracles
        .iter()
        .cloned()
        .chain(initial_oracles.iter().cloned())
        .map(|(o, _a)| o)
        .collect();
    assert_eq!(
        p.change_oracles(owner, feed_id, many_duplicates.clone(), to_add.clone()),
        Err(Error::NotEnoughOracles)
    );
    let duplicates = vec![1, 1, 1];
    assert_eq!(
        p.change_oracles(owner, feed_id, duplicates.clone(), to_add.clone()),
        Err(Error::OracleDisabled)
    );

    {
        let mut feed = p.feed_mut(feed_id).unwrap();
        assert!(feed.request_new_round(&mut p, 0).is_ok());
        assert!(p.save_feed(feed).is_ok());
    }
    // successfully change oracles
    assert!(p
        .change_oracles(owner, feed_id, to_disable.clone(), to_add.clone())
        .is_ok());

    // we cannot disable the same oracles a second time
    assert_eq!(
        p.change_oracles(owner, feed_id, to_disable.clone(), to_add.clone()),
        Err(Error::OracleDisabled)
    );
    assert_eq!(
        p.change_oracles(owner, feed_id, vec![], to_add.clone()),
        Err(Error::AlreadyEnabled)
    );

    let feed = p.feed_config(feed_id).expect("feed should be there");
    assert_eq!(feed.oracle_count, 4);
    assert_eq!(p.oracles.entries.len(), 6);
    assert_eq!(p.statuses.entries.len(), 6);
    for o in to_disable.iter() {
        assert!(
            p.oracle_status(feed_id, *o).unwrap().ending_round.is_some(),
            "oracle should be disabled"
        );
    }
    for (o, _a) in to_add.iter() {
        assert!(p.oracle(*o).is_some(), "oracle should be present");
    }
    assert!(p
        .change_oracles(owner, feed_id, vec![], vec![(oracle, admin)])
        .is_ok());
    let expected_status = OracleStatus {
        starting_round: 2,
        ending_round: None,
        last_reported_round: Some(1),
        last_started_round: Some(1),
        latest_submission: Some(submission),
    };
    assert_eq!(p.oracle_status(feed_id, oracle), Some(expected_status));
}

#[test]
fn feed_oracle_trait_should_work() {
    let mut p = Test::new_ext();
    let oracle = 2;
    let second_oracle = 3;
    assert!(FeedBuilder::new()
        .oracles(vec![(oracle, 4), (second_oracle, 4)])
        .build_and_store(&mut p)
        .is_ok());

    let feed_id = 0;
    {
        let feed = p.feed(feed_id).expect("feed should be there");
        assert_eq!(feed.first_valid_round(), None);
        assert_eq!(feed.latest_round(), 0);
        assert_eq!(feed.latest_data(&p), RoundData::default());
    }
    let round_id = 1;
    let submission = 42;
    assert!(p.submit(oracle, feed_id, round_id, submission).is_ok());
    assert!(p.submit(second_oracle, feed_id, round_id, submission).is_ok());
    {
        let mut feed = p.feed(feed_id).expect("feed should be there");
        assert_eq!(feed.first_valid_round(), Some(1));
        assert_eq!(feed.latest_round(), 1);
        assert_eq!(
            feed.latest_data(&p),
            RoundData { answer: 42, started_at: 0, updated_at: 0, answered_in_round: 1 }
        );

        assert!(feed.request_new_round(&mut p, 0).is_ok());
    }
    let round_id = 2;
    let round = p.round(feed_id, round_id).expect("second round should be present");
    assert_eq!(round, Round { started_at: 0, ..Default::default() });
}

#[test]
fn prune_should_work() {
    // Pruning scenario: rounds 1 and 2 time out, rounds 3 to 7 close with
    // answers, round 8 stays open, so the first valid round is 3 and the
    // latest round is 7.
    let mut p = Test::new_ext();
    let feed_id = 0;
    let oracle_a = 2;
    let oracle_b = 3;
    let oracle_admin = 4;
    let submission = 42;

    let owner = 1;
    // min 2 oracles are required so that the first few rounds can be timed
    // out and first_valid_round ends up > 1
    assert!(FeedBuilder::new()
        .owner(owner)
        .timeout(1)
        .min_submissions(2)
        .restart_delay(0)
        .oracles(vec![(oracle_a, oracle_admin), (oracle_b, oracle_admin)])
        .build_and_store(&mut p)
        .is_ok());

    p.set_block_number(1);
    // submit 2 rounds that will be timed out
    assert!(p.submit(oracle_a, feed_id, 1, submission).is_ok());
    p.set_block_number(3);
    assert!(p.submit(oracle_a, feed_id, 2, submission).is_ok());
    p.set_block_number(5);
    assert_eq!(p.prune(owner, feed_id, 1, 3), Err(Error::NoValidRoundYet));
    // submit the valid rounds
    assert!(p.submit(oracle_a, feed_id, 3, submission).is_ok());
    assert!(p.submit(oracle_b, feed_id, 3, submission).is_ok());
    assert_eq!(p.prune(owner, feed_id, 1, 3), Err(Error::NothingToPrune));
    assert!(p.submit(oracle_a, feed_id, 4, submission).is_ok());
    assert!(p.submit(oracle_b, feed_id, 4, submission).is_ok());
    assert!(p.submit(oracle_a, feed_id, 5, submission).is_ok());
    assert!(p.submit(oracle_b, feed_id, 5, submission).is_ok());
    assert!(p.submit(oracle_a, feed_id, 6, submission).is_ok());
    assert!(p.submit(oracle_b, feed_id, 6, submission).is_ok());
    assert!(p.submit(oracle_a, feed_id, 7, submission).is_ok());
    assert!(p.submit(oracle_b, feed_id, 7, submission).is_ok());
    // simulate an unfinished round so reporting_round != latest_round
    assert!(p.submit(oracle_a, feed_id, 8, submission).is_ok());

    let first_to_prune = 1;
    let keep_round = 5;
    // failure cases
    assert_eq!(
        p.prune(owner, feed_id, 0, keep_round),
        Err(Error::CannotPruneRoundZero)
    );
    assert_eq!(
        p.prune(owner, feed_id, 6, keep_round),
        Err(Error::NothingToPrune)
    );
    assert_eq!(
        p.prune(owner, 23, first_to_prune, keep_round),
        Err(Error::FeedNotFound)
    );
    assert_eq!(
        p.prune(23, feed_id, first_to_prune, keep_round),
        Err(Error::NotFeedOwner)
    );
    assert_eq!(
        p.prune(owner, feed_id, 4, keep_round),
        Err(Error::PruneContiguously)
    );

    // do the successful prune
    assert!(p.prune(owner, feed_id, first_to_prune, keep_round).is_ok());
    // the prune asks for rounds up to 5, but the limits only allow pruning
    // up to 4
    assert!(p.round(feed_id, 3).is_none());
    let round = p.round(feed_id, 4).expect("fourth round should be present");
    assert_eq!(
        round,
        Round {
            started_at: 5,
            answer: Some(submission),
            updated_at: Some(5),
            answered_in_round: Some(4),
        }
    );
}
