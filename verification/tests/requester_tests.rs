//! Requester registration and requester-driven round starts.

use pallet_chainlink_feed::handle::FeedBuilder;
use pallet_chainlink_feed::mock::Test;
use pallet_chainlink_feed::types::{Error, Requester, Round, RoundDetails};

#[test]
fn request_new_round_should_work() {
    let mut p = Test::new_ext();
    let owner = 1;
    let payment = 20;
    let timeout = 10;
    let min_submissions = 2;
    let oracles = vec![(1, 4), (2, 4), (3, 4)];
    assert!(FeedBuilder::new()
        .owner(owner)
        .payment(payment)
        .timeout(timeout)
        .min_submissions(min_submissions)
        .oracles(oracles)
        .build_and_store(&mut p)
        .is_ok());

    let feed_id = 0;
    let requester = 22;
    let snd_requester = 33;
    let delay = 4;
    assert!(p.set_requester(owner, feed_id, requester, delay).is_ok());
    assert!(p.set_requester(owner, feed_id, snd_requester, delay).is_ok());
    let requester_meta = p.requester(feed_id, requester).expect("requester should be present");
    assert_eq!(requester_meta, Requester { delay, last_started_round: None });
    // failure cases
    assert_eq!(
        p.request_new_round(123, feed_id),
        Err(Error::NotAuthorizedRequester)
    );
    // a nonexistent feed is not present but also not authorized
    assert_eq!(
        p.request_new_round(requester, 123),
        Err(Error::NotAuthorizedRequester)
    );

    // actually request a new round
    assert!(p.request_new_round(requester, feed_id).is_ok());
    // the requester has to wait `delay` rounds before requesting again
    assert_eq!(
        p.request_new_round(requester, feed_id),
        Err(Error::CannotRequestRoundYet)
    );
    // the round has no data and is not timed out, so it is not supersedable
    assert_eq!(
        p.request_new_round(snd_requester, feed_id),
        Err(Error::RoundNotSupersedable)
    );

    let round_id = 1;
    let round = p.round(feed_id, round_id).expect("first round should be present");
    assert_eq!(round, Round { started_at: 0, ..Default::default() });
    let details = p
        .round_details(feed_id, round_id)
        .expect("details for first round should be present");
    assert_eq!(
        *details,
        RoundDetails {
            submissions: Vec::new(),
            min_submissions,
            max_submissions: 3,
            payment,
            timeout,
        }
    );
    let requester_meta = p.requester(feed_id, requester).expect("requester should be present");
    assert_eq!(requester_meta, Requester { delay, last_started_round: Some(1) });
}

#[test]
fn requester_permissions() {
    let mut p = Test::new_ext();
    let owner = 1;
    assert!(FeedBuilder::new().owner(owner).build_and_store(&mut p).is_ok());

    let feed_id = 0;
    let requester = 22;
    let delay = 4;
    // failure cases
    assert_eq!(
        p.set_requester(owner, 123, requester, delay),
        Err(Error::FeedNotFound)
    );
    assert_eq!(
        p.set_requester(123, feed_id, requester, delay),
        Err(Error::NotFeedOwner)
    );
    // actually set the requester
    assert!(p.set_requester(owner, feed_id, requester, delay).is_ok());
    let requester_meta = p.requester(feed_id, requester).expect("requester should be present");
    assert_eq!(requester_meta, Requester { delay, last_started_round: None });
    // failure cases
    assert_eq!(
        p.remove_requester(owner, 123, requester),
        Err(Error::FeedNotFound)
    );
    assert_eq!(
        p.remove_requester(123, feed_id, requester),
        Err(Error::NotFeedOwner)
    );
    assert_eq!(
        p.remove_requester(owner, feed_id, 123),
        Err(Error::RequesterNotFound)
    );
    // actually remove the requester
    assert!(p.remove_requester(owner, feed_id, requester).is_ok());
    assert_eq!(p.requester(feed_id, requester), None);
}
