//! Feed creation, configuration updates and the ownership life cycle.

use pallet_chainlink_feed::handle::{Feed, FeedBuilder};
use pallet_chainlink_feed::mock::Test;
use pallet_chainlink_feed::types::{Error, FeedConfig};

#[test]
fn feed_creation_should_work() {
    let mut p = Test::new_ext();
    assert!(p
        .create_feed(
            1,
            20,
            10,
            (10, 1_000),
            3,
            5,
            b"desc".to_vec(),
            2,
            vec![(1, 4), (2, 4), (3, 4)],
        )
        .is_ok());
}

#[test]
fn feed_creation_failure_cases() {
    let mut p = Test::new_ext();
    assert_eq!(
        FeedBuilder::new().owner(123).build_and_store(&mut p),
        Err(Error::NotFeedCreator)
    );
    assert_eq!(
        FeedBuilder::new()
            .description(b"waaaaaaaaaaaaaaaaay too long".to_vec())
            .build_and_store(&mut p),
        Err(Error::DescriptionTooLong)
    );
    let too_many_oracles: Vec<(u64, u64)> = (0..11).map(|i| (i as u64, i as u64)).collect();
    assert_eq!(
        FeedBuilder::new()
            .oracles(too_many_oracles)
            .build_and_store(&mut p),
        Err(Error::OraclesLimitExceeded)
    );
    assert_eq!(
        FeedBuilder::new()
            .min_submissions(3)
            .oracles(vec![(1, 2)])
            .build_and_store(&mut p),
        Err(Error::WrongBounds)
    );
    assert_eq!(
        FeedBuilder::new()
            .min_submissions(0)
            .oracles(vec![(1, 2)])
            .build_and_store(&mut p),
        Err(Error::WrongBounds)
    );
    assert_eq!(
        FeedBuilder::new()
            .oracles(vec![(1, 2), (2, 3), (3, 4)])
            .restart_delay(3)
            .build_and_store(&mut p),
        Err(Error::DelayNotBelowCount)
    );

    for _feed in 0..10 {
        assert!(FeedBuilder::new().build_and_store(&mut p).is_ok());
    }
    assert_eq!(
        FeedBuilder::new().build_and_store(&mut p),
        Err(Error::FeedLimitReached)
    );
}

#[test]
fn update_future_rounds_should_work() {
    let mut p = Test::new_ext();
    let old_payment = 20;
    let old_timeout = 10;
    let old_min = 3;
    let oracles = vec![(1, 4), (2, 4), (3, 4)];
    assert!(FeedBuilder::new()
        .payment(old_payment)
        .timeout(old_timeout)
        .min_submissions(old_min)
        .oracles(oracles.clone())
        .build_and_store(&mut p)
        .is_ok());
    let feed_id = 0;
    let feed = p.feed_config(feed_id).expect("feed should be there");
    assert_eq!(feed.payment, old_payment);

    let owner = 1;
    let new_payment = 30;
    let new_min = 3;
    let new_max = 3;
    let new_delay = 1;
    let new_timeout = 5;
    // failure cases
    assert_eq!(
        p.update_future_rounds(owner, 5, new_payment, (new_min, new_max), new_delay, new_timeout),
        Err(Error::FeedNotFound)
    );
    assert_eq!(
        p.update_future_rounds(
            123,
            feed_id,
            new_payment,
            (new_min, new_max),
            new_delay,
            new_timeout
        ),
        Err(Error::NotFeedOwner)
    );
    assert_eq!(
        p.update_future_rounds(
            owner,
            feed_id,
            new_payment,
            (new_max + 1, new_max),
            new_delay,
            new_timeout
        ),
        Err(Error::WrongBounds)
    );
    assert_eq!(
        p.update_future_rounds(
            owner,
            feed_id,
            new_payment,
            (new_min, oracles.len() as u64 + 1),
            new_delay,
            new_timeout
        ),
        Err(Error::MaxExceededTotal)
    );
    assert_eq!(
        p.update_future_rounds(
            owner,
            feed_id,
            new_payment,
            (new_min, new_max),
            oracles.len() as u64,
            new_timeout
        ),
        Err(Error::DelayNotBelowCount)
    );
    assert_eq!(
        p.update_future_rounds(owner, feed_id, new_payment, (0, new_max), new_delay, new_timeout),
        Err(Error::WrongBounds)
    );

    // successful update
    assert!(p
        .update_future_rounds(owner, feed_id, new_payment, (new_min, new_max), new_delay, new_timeout)
        .is_ok());

    let feed_id = 0;
    let feed = p.feed_config(feed_id).expect("feed should be there");
    assert_eq!(feed.payment, new_payment);
}

#[test]
fn transfer_ownership_should_work() {
    let mut p = Test::new_ext();
    let old_owner = 1;
    assert!(FeedBuilder::new().owner(old_owner).build_and_store(&mut p).is_ok());

    let feed_id = 0;
    let new_owner = 42;
    assert_eq!(
        p.transfer_ownership(old_owner, 5, new_owner),
        Err(Error::FeedNotFound)
    );
    assert_eq!(
        p.transfer_ownership(23, feed_id, new_owner),
        Err(Error::NotFeedOwner)
    );
    assert!(p.transfer_ownership(old_owner, feed_id, new_owner).is_ok());
    assert!(p.transfer_ownership(old_owner, feed_id, new_owner).is_ok());
    let feed = p.feed_config(feed_id).expect("feed should be there");
    assert_eq!(feed.pending_owner, Some(new_owner));
    assert_eq!(
        p.accept_ownership(new_owner, 123),
        Err(Error::FeedNotFound)
    );
    assert_eq!(
        p.accept_ownership(old_owner, feed_id),
        Err(Error::NotPendingOwner)
    );
    assert!(p.accept_ownership(new_owner, feed_id).is_ok());
    let feed = p.feed_config(feed_id).expect("feed should be there");
    assert_eq!(feed.pending_owner, None);
    assert_eq!(feed.owner, new_owner);
}

#[test]
fn feed_creation_permissioning() {
    let mut p = Test::new_ext();
    let admin = Test::module_account();
    let new_creator = 15;
    assert_eq!(
        FeedBuilder::new().owner(new_creator).build_and_store(&mut p),
        Err(Error::NotFeedCreator)
    );
    assert_eq!(
        p.set_feed_creator(123, new_creator),
        Err(Error::NotPalletAdmin)
    );
    assert!(p.set_feed_creator(admin, new_creator).is_ok());
    assert!(FeedBuilder::new().owner(new_creator).build_and_store(&mut p).is_ok());
    assert_eq!(
        p.remove_feed_creator(123, new_creator),
        Err(Error::NotPalletAdmin)
    );
    assert!(p.remove_feed_creator(admin, new_creator).is_ok());
    assert_eq!(
        FeedBuilder::new().owner(new_creator).build_and_store(&mut p),
        Err(Error::NotFeedCreator)
    );
}

#[test]
fn feed_life_cylce() {
    let mut p = Test::new_ext();
    let id = 0;
    let owner = 1;
    let payment = 33;
    let timeout = 10;
    let decimals = 5;
    let description = b"desc".to_vec();
    let restart_delay = 1;
    let new_config = FeedConfig {
        owner,
        pending_owner: None,
        payment,
        timeout,
        submission_value_min: 1,
        submission_value_max: 1_000,
        min_submissions: 1,
        max_submissions: 3,
        decimals,
        description,
        restart_delay,
        latest_round: 0,
        reporting_round: 0,
        first_valid_round: None,
        oracle_count: 0,
    };
    let oracles = vec![(2, 2), (3, 3), (4, 4)];
    {
        let mut feed = Feed::new(id, new_config.clone());
        assert!(feed.add_oracles(&mut p, oracles.clone()).is_ok());
        assert!(feed.update_future_rounds(payment, (1, 3), restart_delay, timeout).is_ok());
        assert!(p.save_feed(feed).is_ok());
    }
    let new_config = FeedConfig { oracle_count: oracles.len() as u64, ..new_config.clone() };
    // the configuration is stored by the save
    assert_eq!(p.feed_config(id), Some(&new_config));
    let new_timeout = 5;
    {
        let mut feed = Feed::load_from(&p, id).expect("feed should be there");
        feed.config.timeout = new_timeout;
        assert!(p.save_feed(feed).is_ok());
    }
    let modified_config = FeedConfig { timeout: new_timeout, ..new_config.clone() };
    // the modified configuration is stored by the save
    assert_eq!(p.feed_config(id), Some(&modified_config));
    let ignored_timeout = 23;
    {
        let mut feed = Feed::read_only_from(&p, id).expect("feed should be there");
        feed.config.timeout = ignored_timeout;
    }
    // a read-only snapshot is never saved, so its changes are discarded
    assert_eq!(p.feed_config(id), Some(&modified_config));
    {
        let mut feed = p.feed_mut(id).expect("feed should be there");
        assert!(feed.request_new_round(&mut p, 0).is_ok());
        assert!(p.save_feed(feed).is_ok());
    }
    assert_eq!(p.feed_config(id).unwrap().reporting_round, 1);
}
