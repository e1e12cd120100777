//! The library's general laws, stated over the operations' transition
//! relations and the state invariant and proved once and for all.

use vstd::prelude::*;
use crate::admin::{
    accept_admin_rel, accept_ownership_rel, accept_pallet_admin_rel, transfer_admin_rel,
    transfer_ownership_rel, transfer_pallet_admin_rel,
};
use crate::ledger::sum_withdrawable;
use crate::median::is_median_of;
use crate::membership::create_feed_rel;
use crate::pallet::{ChainlinkFeed, rec_wf, entry_wf};
use crate::rounds::{submit_check, value_check};
use crate::types::{
    AccountId, Balance, BlockNumber, Error, FeedConfig, FeedId, RoundId, Value,
};

verus! {

/// Every stored answer is the median of some non-empty set of submissions.
pub proof fn lemma_answers_are_medians(s: ChainlinkFeed, f: int, r: int)
    requires
        s.wf(),
        s.round_spec(f, r) is Some,
        s.round_spec(f, r).unwrap().answer is Some,
    ensures
        exists|subs: Seq<u64>|
            subs.len() >= 1 && #[trigger] is_median_of(
                s.round_spec(f, r).unwrap().answer.unwrap(),
                subs,
            ),
{
    let rec = s.feeds@[f];
    assert(rec_wf(rec, s.block_number));
    let i = r - rec.first_stored_round;
    assert(entry_wf(rec.rounds@[i], rec.first_stored_round + i, s.block_number));
}

/// An oracle that already reported on a round (or any earlier one) cannot
/// submit to it again: together with `submit`'s contract — which sets
/// `last_reported_round` to the submitted round and leaves the state
/// unchanged on an error — there is at most one submission per oracle and
/// round.
pub proof fn lemma_no_second_submission(
    s: ChainlinkFeed,
    origin: AccountId,
    feed: FeedId,
    round: RoundId,
    value: Value,
)
    requires
        s.feed_exists(feed as int),
        s.status_spec(feed, origin) is Some,
        match s.status_spec(feed, origin).unwrap().last_reported_round {
            Some(lr) => round <= lr,
            None => false,
        },
    ensures
        submit_check(s, origin, feed, round, value) == Some(Error::InvalidRound),
{
}

/// The latest answered round never passes the highest opened round, and the
/// first valid round never passes the latest one.
pub proof fn lemma_round_counters(s: ChainlinkFeed, f: int)
    requires
        s.wf(),
        0 <= f < s.num_feeds(),
    ensures
        s.cfg(f).latest_round <= s.cfg(f).reporting_round,
        match s.cfg(f).first_valid_round {
            Some(x) => x <= s.cfg(f).latest_round,
            None => true,
        },
{
    assert(rec_wf(s.feeds@[f], s.block_number));
}

/// While the minimum reserve sits in the free balance and the ledger
/// invariant holds — which every operation preserves — the module account's
/// balance plus the recorded debt covers everything owed to oracles plus the
/// minimum reserve.
pub proof fn lemma_reserve_covers_obligations(s: ChainlinkFeed)
    requires
        s.ledger_ok(),
        s.minimum_reserve <= s.fund_free,
    ensures
        sum_withdrawable(s.oracles.entries@) + s.minimum_reserve <= (s.fund_free
            + s.fund_reserved) + s.debt,
{
}

/// After staging a feed-ownership transfer, acceptance by the staged account
/// succeeds and hands it the feed; acceptance by anyone else fails and
/// changes nothing.
pub proof fn lemma_two_step_ownership(
    s0: ChainlinkFeed,
    s1: ChainlinkFeed,
    s2: ChainlinkFeed,
    owner: AccountId,
    feed: FeedId,
    pending: AccountId,
    caller: AccountId,
    r2: Result<(), Error>,
)
    requires
        transfer_ownership_rel(s0, s1, owner, feed, pending, Ok(())),
        accept_ownership_rel(s1, s2, caller, feed, r2),
    ensures
        caller == pending ==> r2 == Ok::<(), Error>(()) && s2.cfg(feed as int).owner == pending
            && s2.cfg(feed as int).pending_owner is None,
        caller != pending ==> r2 == Err::<(), Error>(Error::NotPendingOwner) && s2 == s1,
{
    assert(s1.cfg(feed as int).pending_owner == Some(pending));
}

/// After staging an oracle-admin transfer, acceptance by the staged account
/// succeeds and hands it the oracle; acceptance by anyone else fails and
/// changes nothing.
pub proof fn lemma_two_step_oracle_admin(
    s0: ChainlinkFeed,
    s1: ChainlinkFeed,
    s2: ChainlinkFeed,
    admin: AccountId,
    oracle: AccountId,
    pending: AccountId,
    caller: AccountId,
    r2: Result<(), Error>,
)
    requires
        transfer_admin_rel(s0, s1, admin, oracle, pending, Ok(())),
        accept_admin_rel(s1, s2, caller, oracle, r2),
    ensures
        caller == pending ==> r2 == Ok::<(), Error>(()) && s2.oracles@[oracle].admin == pending
            && s2.oracles@[oracle].pending_admin is None,
        caller != pending ==> r2 == Err::<(), Error>(Error::NotPendingAdmin) && s2 == s1,
{
    assert(s1.oracles@[oracle].pending_admin == Some(pending));
}

/// After staging a pallet-admin transfer, acceptance by the staged account
/// succeeds and hands it the role; acceptance by anyone else fails and
/// changes nothing.
pub proof fn lemma_two_step_pallet_admin(
    s0: ChainlinkFeed,
    s1: ChainlinkFeed,
    s2: ChainlinkFeed,
    admin: AccountId,
    pending: AccountId,
    caller: AccountId,
    r2: Result<(), Error>,
)
    requires
        transfer_pallet_admin_rel(s0, s1, admin, pending, Ok(())),
        accept_pallet_admin_rel(s1, s2, caller, r2),
    ensures
        caller == pending ==> r2 == Ok::<(), Error>(()) && s2.pallet_admin == pending
            && s2.pending_pallet_admin is None,
        caller != pending ==> r2 == Err::<(), Error>(Error::NotPendingPalletAdmin) && s2 == s1,
{
}

/// Two successive ownership transfers leave the second staged owner pending.
pub proof fn lemma_transfer_overwrites_pending(
    s0: ChainlinkFeed,
    s1: ChainlinkFeed,
    s2: ChainlinkFeed,
    owner: AccountId,
    feed: FeedId,
    x: AccountId,
    y: AccountId,
)
    requires
        transfer_ownership_rel(s0, s1, owner, feed, x, Ok(())),
        transfer_ownership_rel(s1, s2, owner, feed, y, Ok(())),
    ensures
        s2.cfg(feed as int).pending_owner == Some(y),
{
}

/// A created feed stores exactly the requested configuration, with the
/// oracle count and the submission maximum set to the number of oracles.
pub proof fn lemma_create_feed_stores_config(
    pre: ChainlinkFeed,
    post: ChainlinkFeed,
    origin: AccountId,
    payment: Balance,
    timeout: BlockNumber,
    value_bounds: (Value, Value),
    min_submissions: u64,
    decimals: u8,
    description: Seq<u8>,
    restart_delay: RoundId,
    oracles: Seq<(AccountId, AccountId)>,
)
    requires
        create_feed_rel(
            pre,
            post,
            origin,
            payment,
            timeout,
            value_bounds,
            min_submissions,
            decimals,
            description,
            restart_delay,
            oracles,
            Ok(()),
        ),
    ensures
        post.num_feeds() == pre.num_feeds() + 1,
        post.cfg(pre.num_feeds()).owner == origin,
        post.cfg(pre.num_feeds()).payment == payment,
        post.cfg(pre.num_feeds()).timeout == timeout,
        post.cfg(pre.num_feeds()).submission_value_min == value_bounds.0,
        post.cfg(pre.num_feeds()).submission_value_max == value_bounds.1,
        post.cfg(pre.num_feeds()).min_submissions == min_submissions,
        post.cfg(pre.num_feeds()).max_submissions == oracles.len(),
        post.cfg(pre.num_feeds()).oracle_count == oracles.len(),
        post.cfg(pre.num_feeds()).description@ == description,
        post.cfg(pre.num_feeds()).restart_delay == restart_delay,
        post.cfg(pre.num_feeds()).reporting_round == 0,
        post.cfg(pre.num_feeds()).latest_round == 0,
        post.cfg(pre.num_feeds()).first_valid_round is None,
{
}

/// Values at the bounds are accepted; values one past either bound are
/// rejected with the matching error.
pub proof fn lemma_value_bounds(cfg: FeedConfig, value: Value)
    requires
        cfg.submission_value_min <= cfg.submission_value_max,
    ensures
        cfg.submission_value_min <= value <= cfg.submission_value_max ==> value_check(cfg, value)
            is None,
        value < cfg.submission_value_min ==> value_check(cfg, value) == Some(
            Error::SubmissionBelowMinimum,
        ),
        value > cfg.submission_value_max ==> value_check(cfg, value) == Some(
            Error::SubmissionAboveMaximum,
        ),
{
}

/// An oracle may start a new round exactly when its restart delay has
/// passed: with every other condition met, the submission is rejected while
/// the target round is within `restart_delay` of the last round the oracle
/// started, and is judged only by the value bounds from the first round
/// after that.
pub proof fn lemma_restart_delay_gate(
    s: ChainlinkFeed,
    origin: AccountId,
    feed: FeedId,
    round: RoundId,
    value: Value,
    ls: RoundId,
)
    requires
        s.feed_exists(feed as int),
        s.status_spec(feed, origin) is Some,
        s.status_spec(feed, origin).unwrap().starting_round <= round,
        s.status_spec(feed, origin).unwrap().ending_round is None,
        match s.status_spec(feed, origin).unwrap().last_reported_round {
            Some(lr) => lr < round,
            None => true,
        },
        s.status_spec(feed, origin).unwrap().last_started_round == Some(ls),
        s.cfg(feed as int).reporting_round < u64::MAX,
        round == s.cfg(feed as int).reporting_round + 1,
        crate::rounds::supersedable(s, feed as int),
    ensures
        round <= ls + s.cfg(feed as int).restart_delay ==> submit_check(
            s,
            origin,
            feed,
            round,
            value,
        ) == Some(Error::InvalidRound),
        round > ls + s.cfg(feed as int).restart_delay ==> submit_check(
            s,
            origin,
            feed,
            round,
            value,
        ) == value_check(s.cfg(feed as int), value),
{
}

/// Once the feed limit is reached, creating one more feed fails with
/// `FeedLimitReached`, whatever its parameters.
pub proof fn lemma_feed_limit(
    pre: ChainlinkFeed,
    post: ChainlinkFeed,
    origin: AccountId,
    payment: Balance,
    timeout: BlockNumber,
    value_bounds: (Value, Value),
    min_submissions: u64,
    decimals: u8,
    description: Seq<u8>,
    restart_delay: RoundId,
    oracles: Seq<(AccountId, AccountId)>,
    r: Result<(), Error>,
)
    requires
        create_feed_rel(
            pre,
            post,
            origin,
            payment,
            timeout,
            value_bounds,
            min_submissions,
            decimals,
            description,
            restart_delay,
            oracles,
            r,
        ),
        pre.feed_creators@.contains(origin),
        description.len() <= pre.string_limit,
        oracles.len() <= pre.oracle_count_limit,
        1 <= min_submissions <= oracles.len(),
        restart_delay < oracles.len(),
        pre.num_feeds() >= pre.feed_limit,
    ensures
        r == Err::<(), Error>(Error::FeedLimitReached),
        post == pre,
{
}

/// More oracles than the limit allows are rejected at creation with
/// `OraclesLimitExceeded`.
pub proof fn lemma_oracle_count_limit(
    pre: ChainlinkFeed,
    post: ChainlinkFeed,
    origin: AccountId,
    payment: Balance,
    timeout: BlockNumber,
    value_bounds: (Value, Value),
    min_submissions: u64,
    decimals: u8,
    description: Seq<u8>,
    restart_delay: RoundId,
    oracles: Seq<(AccountId, AccountId)>,
    r: Result<(), Error>,
)
    requires
        create_feed_rel(
            pre,
            post,
            origin,
            payment,
            timeout,
            value_bounds,
            min_submissions,
            decimals,
            description,
            restart_delay,
            oracles,
            r,
        ),
        pre.feed_creators@.contains(origin),
        description.len() <= pre.string_limit,
        oracles.len() > pre.oracle_count_limit,
    ensures
        r == Err::<(), Error>(Error::OraclesLimitExceeded),
        post == pre,
{
}

} // verus!
