//! Feed creation and oracle membership: adding and disabling oracles, feed
//! creation and the update of parameters for future rounds.
//!
//! Adding and disabling walk their input lists one element at a time and fail
//! on the first bad element; the spec-level folds `add_all` and `disable_all`
//! are the exact statement of that walk, and the operations commit only when
//! the whole walk succeeded, so an error never leaves a partial write.

use vstd::prelude::*;
use crate::ledger::{sat_add, sum_withdrawable, lemma_sum_push};
use crate::pairstore::PairTable;
use crate::pallet::{ChainlinkFeed, FeedRecord, rec_wf, cfg_wf};
use crate::store::Table;
use crate::types::{
    AccountId, Balance, BlockNumber, Error, FeedConfig, FeedId, OracleMeta, OracleStatus, RoundId,
    Value, copy_values,
};

verus! {

/// Round from which a newly enabled oracle may report: the round after the
/// current one, except that an oracle disabled in the current round may
/// rejoin it.
pub open spec fn new_starting_round(
    sts: Map<(u64, u64), OracleStatus>,
    feed: u64,
    reporting: u64,
    o: u64,
) -> u64 {
    if sts.contains_key((feed, o)) && sts[(feed, o)].ending_round == Some(reporting) && reporting
        != 0 {
        reporting
    } else {
        sat_add(reporting, 1)
    }
}

/// The membership record a newly enabled oracle gets; a re-enabled oracle
/// keeps its reporting history.
pub open spec fn added_status(
    sts: Map<(u64, u64), OracleStatus>,
    feed: u64,
    reporting: u64,
    o: u64,
) -> OracleStatus {
    let starting = new_starting_round(sts, feed, reporting, o);
    if sts.contains_key((feed, o)) {
        OracleStatus { starting_round: starting, ending_round: None, ..sts[(feed, o)] }
    } else {
        OracleStatus {
            starting_round: starting,
            ending_round: None,
            last_reported_round: None,
            last_started_round: None,
            latest_submission: None,
        }
    }
}

/// Enabling one oracle: the owner cannot pick a different admin for a known
/// oracle, and an enabled oracle cannot be enabled again.
pub open spec fn add_step(
    sts: Map<(u64, u64), OracleStatus>,
    mts: Map<u64, OracleMeta>,
    feed: u64,
    reporting: u64,
    o: u64,
    a: u64,
) -> Result<(Map<(u64, u64), OracleStatus>, Map<u64, OracleMeta>), Error> {
    if mts.contains_key(o) && mts[o].admin != a {
        Err(Error::OwnerCannotChangeAdmin)
    } else if sts.contains_key((feed, o)) && sts[(feed, o)].ending_round is None {
        Err(Error::AlreadyEnabled)
    } else {
        Ok(
            (
                sts.insert((feed, o), added_status(sts, feed, reporting, o)),
                if mts.contains_key(o) {
                    mts
                } else {
                    mts.insert(o, OracleMeta { withdrawable: 0, admin: a, pending_admin: None })
                },
            ),
        )
    }
}

/// Enabling a list of oracles, stopping at the first bad element.
pub open spec fn add_all(
    sts: Map<(u64, u64), OracleStatus>,
    mts: Map<u64, OracleMeta>,
    feed: u64,
    reporting: u64,
    list: Seq<(u64, u64)>,
) -> Result<(Map<(u64, u64), OracleStatus>, Map<u64, OracleMeta>), Error>
    decreases list.len(),
{
    if list.len() == 0 {
        Ok((sts, mts))
    } else {
        match add_step(sts, mts, feed, reporting, list.first().0, list.first().1) {
            Ok((s2, m2)) => add_all(s2, m2, feed, reporting, list.drop_first()),
            Err(e) => Err(e),
        }
    }
}

/// The fold over `list` splits at any prefix.
proof fn lemma_add_all_split(
    sts: Map<(u64, u64), OracleStatus>,
    mts: Map<u64, OracleMeta>,
    feed: u64,
    reporting: u64,
    list: Seq<(u64, u64)>,
    i: int,
)
    requires
        0 <= i <= list.len(),
    ensures
        add_all(sts, mts, feed, reporting, list) == match add_all(
            sts,
            mts,
            feed,
            reporting,
            list.take(i),
        ) {
            Ok((s, m)) => add_all(s, m, feed, reporting, list.skip(i)),
            Err(e) => Err(e),
        },
    decreases i,
{
    if i == 0 {
        assert(list.take(0) =~= Seq::<(u64, u64)>::empty());
        assert(list.skip(0) =~= list);
    } else {
        assert(list.take(i).first() == list.first());
        assert(list.take(i).drop_first() =~= list.drop_first().take(i - 1));
        assert(list.skip(i) =~= list.drop_first().skip(i - 1));
        match add_step(sts, mts, feed, reporting, list.first().0, list.first().1) {
            Ok((s2, m2)) => {
                lemma_add_all_split(s2, m2, feed, reporting, list.drop_first(), i - 1);
            },
            Err(e) => {},
        }
    }
}

/// Disabling one oracle: it must be enabled on the feed.
pub open spec fn disable_step(
    sts: Map<(u64, u64), OracleStatus>,
    feed: u64,
    reporting: u64,
    o: u64,
) -> Result<Map<(u64, u64), OracleStatus>, Error> {
    if !sts.contains_key((feed, o)) {
        Err(Error::OracleNotFound)
    } else if sts[(feed, o)].ending_round is Some {
        Err(Error::OracleDisabled)
    } else {
        Ok(sts.insert((feed, o), OracleStatus { ending_round: Some(reporting), ..sts[(feed, o)] }))
    }
}

/// Disabling a list of oracles, stopping at the first bad element; a
/// duplicate in the list hits the already-disabled record and fails.
pub open spec fn disable_all(
    sts: Map<(u64, u64), OracleStatus>,
    feed: u64,
    reporting: u64,
    list: Seq<u64>,
) -> Result<Map<(u64, u64), OracleStatus>, Error>
    decreases list.len(),
{
    if list.len() == 0 {
        Ok(sts)
    } else {
        match disable_step(sts, feed, reporting, list.first()) {
            Ok(s2) => disable_all(s2, feed, reporting, list.drop_first()),
            Err(e) => Err(e),
        }
    }
}

/// The disable fold splits at any prefix.
proof fn lemma_disable_all_split(
    sts: Map<(u64, u64), OracleStatus>,
    feed: u64,
    reporting: u64,
    list: Seq<u64>,
    i: int,
)
    requires
        0 <= i <= list.len(),
    ensures
        disable_all(sts, feed, reporting, list) == match disable_all(
            sts,
            feed,
            reporting,
            list.take(i),
        ) {
            Ok(s) => disable_all(s, feed, reporting, list.skip(i)),
            Err(e) => Err(e),
        },
    decreases i,
{
    if i == 0 {
        assert(list.take(0) =~= Seq::<u64>::empty());
        assert(list.skip(0) =~= list);
    } else {
        assert(list.take(i).first() == list.first());
        assert(list.take(i).drop_first() =~= list.drop_first().take(i - 1));
        assert(list.skip(i) =~= list.drop_first().skip(i - 1));
        match disable_step(sts, feed, reporting, list.first()) {
            Ok(s2) => {
                lemma_disable_all_split(s2, feed, reporting, list.drop_first(), i - 1);
            },
            Err(e) => {},
        }
    }
}

/// Every status key points at a known oracle record.
pub open spec fn covered(
    sts: Map<(u64, u64), OracleStatus>,
    mts: Map<u64, OracleMeta>,
) -> bool {
    forall|k: (u64, u64)| sts.contains_key(k) ==> mts.contains_key(k.1)
}

/// Runs the add fold on scratch stores. On an error the stores are garbage
/// and the caller discards them.
pub(crate) fn apply_add_oracles(
    sts: &mut PairTable<OracleStatus>,
    mts: &mut Table<OracleMeta>,
    feed: u64,
    reporting: u64,
    to_add: &Vec<(AccountId, AccountId)>,
) -> (r: Result<(), Error>)
    requires
        old(sts).wf(),
        old(mts).wf(),
    ensures
        final(sts).wf(),
        final(mts).wf(),
        match r {
            Ok(()) => add_all(old(sts)@, old(mts)@, feed, reporting, to_add@) == Ok::<
                _,
                Error,
            >((final(sts)@, final(mts)@)),
            Err(e) => add_all(old(sts)@, old(mts)@, feed, reporting, to_add@) == Err::<
                (Map<(u64, u64), OracleStatus>, Map<u64, OracleMeta>),
                Error,
            >(e),
        },
        sum_withdrawable(final(mts).entries@) == sum_withdrawable(old(mts).entries@),
        covered(old(sts)@, old(mts)@) ==> covered(final(sts)@, final(mts)@),
{
    let ghost sts0 = sts@;
    let ghost mts0 = mts@;
    proof {
        reveal_with_fuel(add_all, 3);
        assert(to_add@.take(0) =~= Seq::<(u64, u64)>::empty());
    }
    let mut i: usize = 0;
    while i < to_add.len()
        invariant
            sts.wf(),
            mts.wf(),
            i <= to_add@.len(),
            sts0 == old(sts)@,
            mts0 == old(mts)@,
            add_all(sts0, mts0, feed, reporting, to_add@.take(i as int)) == Ok::<_, Error>(
                (sts@, mts@),
            ),
            sum_withdrawable(mts.entries@) == sum_withdrawable(old(mts).entries@),
            covered(sts0, mts0) ==> covered(sts@, mts@),
        decreases to_add@.len() - i,
    {
        let (o, a) = to_add[i];
        let ghost sts_cur = sts@;
        let ghost mts_cur = mts@;
        proof {
            reveal_with_fuel(add_all, 3);
            lemma_add_all_split(sts0, mts0, feed, reporting, to_add@, i as int);
            assert(to_add@.skip(i as int).first() == to_add@[i as int]);
        }
        // The owner cannot pick a different admin for a known oracle.
        let admin_conflict = match mts.get(o) {
            Some(m) => m.admin != a,
            None => false,
        };
        if admin_conflict {
            proof {
                reveal_with_fuel(add_all, 3);
                assert(add_step(sts_cur, mts_cur, feed, reporting, o, a) == Err::<
                    (Map<(u64, u64), OracleStatus>, Map<u64, OracleMeta>),
                    Error,
                >(Error::OwnerCannotChangeAdmin));
            }
            return Err(Error::OwnerCannotChangeAdmin);
        }
        let old_status = match sts.get(feed, o) {
            Some(s) => Some(*s),
            None => None,
        };
        let new_status = match old_status {
            Some(st) => {
                if st.ending_round.is_none() {
                    proof {
                        reveal_with_fuel(add_all, 3);
                        assert(add_step(sts_cur, mts_cur, feed, reporting, o, a) == Err::<
                            (Map<(u64, u64), OracleStatus>, Map<u64, OracleMeta>),
                            Error,
                        >(Error::AlreadyEnabled));
                    }
                    return Err(Error::AlreadyEnabled);
                }
                let rejoin = match st.ending_round {
                    Some(e) => e == reporting && reporting != 0,
                    None => false,
                };
                let starting = if rejoin {
                    reporting
                } else if reporting < u64::MAX {
                    reporting + 1
                } else {
                    u64::MAX
                };
                OracleStatus { starting_round: starting, ending_round: None, ..st }
            },
            None => {
                let starting = if reporting < u64::MAX {
                    reporting + 1
                } else {
                    u64::MAX
                };
                OracleStatus {
                    starting_round: starting,
                    ending_round: None,
                    last_reported_round: None,
                    last_started_round: None,
                    latest_submission: None,
                }
            },
        };
        sts.insert(feed, o, new_status);
        let meta_known = mts.contains(o);
        if !meta_known {
            let ghost pre_entries = mts.entries@;
            mts.insert(o, OracleMeta { withdrawable: 0, admin: a, pending_admin: None });
            proof {
                assert(mts.entries@ == pre_entries.push(
                    (o, OracleMeta { withdrawable: 0, admin: a, pending_admin: None }),
                ));
                lemma_sum_push(
                    pre_entries,
                    o,
                    OracleMeta { withdrawable: 0, admin: a, pending_admin: None },
                );
            }
        }
        proof {
            reveal_with_fuel(add_all, 3);
            assert(new_status == added_status(sts_cur, feed, reporting, o));
            assert(add_step(sts_cur, mts_cur, feed, reporting, o, a) == Ok::<_, Error>(
                (sts@, mts@),
            ));
            assert(to_add@.take(i + 1 as int).drop_last() =~= to_add@.take(i as int));
            assert(to_add@.take(i + 1 as int) =~= to_add@.take(i as int).push(to_add@[i as int]));
            lemma_add_all_split(sts0, mts0, feed, reporting, to_add@.take(i + 1 as int), i as int);
            assert(to_add@.take(i + 1 as int).take(i as int) =~= to_add@.take(i as int));
            assert(to_add@.take(i + 1 as int).skip(i as int) =~= seq![to_add@[i as int]]);
            assert(seq![to_add@[i as int]].drop_first() =~= Seq::<(u64, u64)>::empty());
        }
        i = i + 1;
    }
    proof {
        assert(to_add@.take(to_add@.len() as int) =~= to_add@);
    }
    Ok(())
}

/// Runs the disable fold on a scratch store. On an error the store is
/// garbage and the caller discards it.
fn apply_disable_oracles(
    sts: &mut PairTable<OracleStatus>,
    feed: u64,
    reporting: u64,
    to_disable: &Vec<AccountId>,
) -> (r: Result<(), Error>)
    requires
        old(sts).wf(),
    ensures
        final(sts).wf(),
        match r {
            Ok(()) => disable_all(old(sts)@, feed, reporting, to_disable@) == Ok::<_, Error>(
                final(sts)@,
            ),
            Err(e) => disable_all(old(sts)@, feed, reporting, to_disable@) == Err::<
                Map<(u64, u64), OracleStatus>,
                Error,
            >(e),
        },
        final(sts)@.dom() == old(sts)@.dom(),
{
    let ghost sts0 = sts@;
    proof {
        reveal_with_fuel(disable_all, 3);
        assert(to_disable@.take(0) =~= Seq::<u64>::empty());
    }
    let mut i: usize = 0;
    while i < to_disable.len()
        invariant
            sts.wf(),
            i <= to_disable@.len(),
            sts0 == old(sts)@,
            disable_all(sts0, feed, reporting, to_disable@.take(i as int)) == Ok::<_, Error>(sts@),
            sts@.dom() == sts0.dom(),
        decreases to_disable@.len() - i,
    {
        let o = to_disable[i];
        let ghost sts_cur = sts@;
        proof {
            reveal_with_fuel(disable_all, 3);
            lemma_disable_all_split(sts0, feed, reporting, to_disable@, i as int);
            assert(to_disable@.skip(i as int).first() == to_disable@[i as int]);
        }
        let st = match sts.get(feed, o) {
            Some(s) => *s,
            None => {
                proof {
                    reveal_with_fuel(disable_all, 3);
                }
                return Err(Error::OracleNotFound);
            },
        };
        if st.ending_round.is_some() {
            proof {
                reveal_with_fuel(disable_all, 3);
            }
            return Err(Error::OracleDisabled);
        }
        sts.insert(feed, o, OracleStatus { ending_round: Some(reporting), ..st });
        proof {
            reveal_with_fuel(disable_all, 3);
            assert(disable_step(sts_cur, feed, reporting, o) == Ok::<_, Error>(sts@));
            lemma_disable_all_split(sts0, feed, reporting, to_disable@.take(i + 1 as int), i as int);
            assert(to_disable@.take(i + 1 as int).take(i as int) =~= to_disable@.take(i as int));
            assert(to_disable@.take(i + 1 as int).skip(i as int) =~= seq![to_disable@[i as int]]);
            assert(seq![to_disable@[i as int]].drop_first() =~= Seq::<u64>::empty());
            assert(sts@.dom() =~= sts0.dom());
        }
        i = i + 1;
    }
    proof {
        assert(to_disable@.take(to_disable@.len() as int) =~= to_disable@);
    }
    Ok(())
}

/// What `create_feed` does.
pub open spec fn create_feed_rel(
    pre: ChainlinkFeed,
    post: ChainlinkFeed,
    origin: AccountId,
    payment: Balance,
    timeout: BlockNumber,
    value_bounds: (Value, Value),
    min_submissions: u64,
    decimals: u8,
    description: Seq<u8>,
    restart_delay: RoundId,
    oracles: Seq<(AccountId, AccountId)>,
    r: Result<(), Error>,
) -> bool {
    let id = pre.num_feeds() as u64;
    if !pre.feed_creators@.contains(origin) {
        r == Err::<(), Error>(Error::NotFeedCreator) && post == pre
    } else if description.len() > pre.string_limit {
        r == Err::<(), Error>(Error::DescriptionTooLong) && post == pre
    } else if oracles.len() > pre.oracle_count_limit {
        r == Err::<(), Error>(Error::OraclesLimitExceeded) && post == pre
    } else if min_submissions < 1 || min_submissions > oracles.len() {
        r == Err::<(), Error>(Error::WrongBounds) && post == pre
    } else if restart_delay >= oracles.len() {
        r == Err::<(), Error>(Error::DelayNotBelowCount) && post == pre
    } else if pre.num_feeds() >= pre.feed_limit {
        r == Err::<(), Error>(Error::FeedLimitReached) && post == pre
    } else {
        match add_all(pre.statuses@, pre.oracles@, id, 0, oracles) {
            Ok((sts, mts)) => {
                &&& r == Ok::<(), Error>(())
                &&& post.statuses@ == sts
                &&& post.oracles@ == mts
                &&& post.num_feeds() == pre.num_feeds() + 1
                &&& forall|g: int| 0 <= g < pre.num_feeds() ==> post.feeds@[g] == pre.feeds@[g]
                &&& post.feeds@[id as int].first_stored_round == 1
                &&& post.feeds@[id as int].rounds@.len() == 0
                &&& post.cfg(id as int) == (FeedConfig {
                    owner: origin,
                    pending_owner: None,
                    payment,
                    timeout,
                    submission_value_min: value_bounds.0,
                    submission_value_max: value_bounds.1,
                    min_submissions,
                    max_submissions: oracles.len() as u64,
                    decimals,
                    description: post.cfg(id as int).description,
                    restart_delay,
                    latest_round: 0,
                    reporting_round: 0,
                    first_valid_round: None,
                    oracle_count: oracles.len() as u64,
                })
                &&& post.cfg(id as int).description@ == description
                &&& post == (ChainlinkFeed {
                    feeds: post.feeds,
                    oracles: post.oracles,
                    statuses: post.statuses,
                    ..pre
                })
            },
            Err(e) => r == Err::<(), Error>(e) && post == pre,
        }
    }
}

/// What `update_future_rounds` does to a configuration.
pub open spec fn update_future_rounds_cfg_rel(
    pre: FeedConfig,
    post: FeedConfig,
    payment: Balance,
    min: u64,
    max: u64,
    restart_delay: RoundId,
    timeout: BlockNumber,
    r: Result<(), Error>,
) -> bool {
    if min > max {
        r == Err::<(), Error>(Error::WrongBounds) && post == pre
    } else if max > pre.oracle_count {
        r == Err::<(), Error>(Error::MaxExceededTotal) && post == pre
    } else if restart_delay >= pre.oracle_count {
        r == Err::<(), Error>(Error::DelayNotBelowCount) && post == pre
    } else if min < 1 {
        r == Err::<(), Error>(Error::WrongBounds) && post == pre
    } else {
        r == Ok::<(), Error>(()) && post == (FeedConfig {
            payment,
            min_submissions: min,
            max_submissions: max,
            restart_delay,
            timeout,
            ..pre
        })
    }
}

/// What `update_future_rounds` does.
pub open spec fn update_future_rounds_rel(
    pre: ChainlinkFeed,
    post: ChainlinkFeed,
    origin: AccountId,
    feed: FeedId,
    payment: Balance,
    min: u64,
    max: u64,
    restart_delay: RoundId,
    timeout: BlockNumber,
    r: Result<(), Error>,
) -> bool {
    let cfg = pre.cfg(feed as int);
    if !pre.feed_exists(feed as int) {
        r == Err::<(), Error>(Error::FeedNotFound) && post == pre
    } else if cfg.owner != origin {
        r == Err::<(), Error>(Error::NotFeedOwner) && post == pre
    } else if min > max {
        r == Err::<(), Error>(Error::WrongBounds) && post == pre
    } else if max > cfg.oracle_count {
        r == Err::<(), Error>(Error::MaxExceededTotal) && post == pre
    } else if restart_delay >= cfg.oracle_count {
        r == Err::<(), Error>(Error::DelayNotBelowCount) && post == pre
    } else if min < 1 {
        r == Err::<(), Error>(Error::WrongBounds) && post == pre
    } else {
        &&& r == Ok::<(), Error>(())
        &&& post.feeds@ == pre.feeds@.update(
            feed as int,
            FeedRecord {
                config: FeedConfig {
                    payment,
                    min_submissions: min,
                    max_submissions: max,
                    restart_delay,
                    timeout,
                    ..cfg
                },
                ..pre.feeds@[feed as int]
            },
        )
        &&& post == (ChainlinkFeed { feeds: post.feeds, ..pre })
    }
}

/// What `change_oracles` does.
pub open spec fn change_oracles_rel(
    pre: ChainlinkFeed,
    post: ChainlinkFeed,
    origin: AccountId,
    feed: FeedId,
    to_disable: Seq<AccountId>,
    to_add: Seq<(AccountId, AccountId)>,
    r: Result<(), Error>,
) -> bool {
    let cfg = pre.cfg(feed as int);
    let reporting = cfg.reporting_round;
    if !pre.feed_exists(feed as int) {
        r == Err::<(), Error>(Error::FeedNotFound) && post == pre
    } else if cfg.owner != origin {
        r == Err::<(), Error>(Error::NotFeedOwner) && post == pre
    } else if cfg.oracle_count + to_add.len() < to_disable.len() {
        r == Err::<(), Error>(Error::NotEnoughOracles) && post == pre
    } else if cfg.oracle_count + to_add.len() - to_disable.len() > pre.oracle_count_limit {
        r == Err::<(), Error>(Error::OraclesLimitExceeded) && post == pre
    } else if cfg.oracle_count + to_add.len() - to_disable.len() < cfg.max_submissions {
        r == Err::<(), Error>(Error::NotEnoughOracles) && post == pre
    } else {
        match disable_all(pre.statuses@, feed, reporting, to_disable) {
            Ok(sts1) => match add_all(sts1, pre.oracles@, feed, reporting, to_add) {
                Ok((sts2, mts2)) => {
                    &&& r == Ok::<(), Error>(())
                    &&& post.statuses@ == sts2
                    &&& post.oracles@ == mts2
                    &&& post.feeds@ == pre.feeds@.update(
                        feed as int,
                        FeedRecord {
                            config: FeedConfig {
                                oracle_count: (cfg.oracle_count + to_add.len()
                                    - to_disable.len()) as u64,
                                ..cfg
                            },
                            ..pre.feeds@[feed as int]
                        },
                    )
                    &&& post == (ChainlinkFeed {
                        feeds: post.feeds,
                        oracles: post.oracles,
                        statuses: post.statuses,
                        ..pre
                    })
                },
                Err(e) => r == Err::<(), Error>(e) && post == pre,
            },
            Err(e) => r == Err::<(), Error>(e) && post == pre,
        }
    }
}

impl ChainlinkFeed {
    /// Creates a feed owned by the caller; only feed creators may, the
    /// description and oracle set must be within limits, and the feed
    /// counter must be below the feed limit.
    #[verifier::rlimit(50)]
    pub fn create_feed(
        &mut self,
        origin: AccountId,
        payment: Balance,
        timeout: BlockNumber,
        value_bounds: (Value, Value),
        min_submissions: u64,
        decimals: u8,
        description: Vec<u8>,
        restart_delay: RoundId,
        oracles: Vec<(AccountId, AccountId)>,
    ) -> (r: Result<(), Error>)
        requires
            old(self).wf(),
        ensures
            final(self).wf(),
            create_feed_rel(
                *old(self),
                *final(self),
                origin,
                payment,
                timeout,
                value_bounds,
                min_submissions,
                decimals,
                description@,
                restart_delay,
                oracles@,
                r,
            ),
            old(self).ledger_ok() ==> final(self).ledger_ok(),
    {
        if !self.is_feed_creator(origin) {
            return Err(Error::NotFeedCreator);
        }
        if description.len() as u64 > self.string_limit {
            return Err(Error::DescriptionTooLong);
        }
        if oracles.len() as u64 > self.oracle_count_limit {
            return Err(Error::OraclesLimitExceeded);
        }
        if min_submissions < 1 || min_submissions > oracles.len() as u64 {
            return Err(Error::WrongBounds);
        }
        if restart_delay >= oracles.len() as u64 {
            return Err(Error::DelayNotBelowCount);
        }
        if self.feeds.len() as u64 >= self.feed_limit {
            return Err(Error::FeedLimitReached);
        }
        let id = self.feeds.len() as u64;
        let mut sts = PairTable { entries: copy_values(&self.statuses.entries) };
        let mut mts = Table { entries: copy_values(&self.oracles.entries) };
        match apply_add_oracles(&mut sts, &mut mts, id, 0, &oracles) {
            Ok(()) => {},
            Err(e) => {
                return Err(e);
            },
        }
        let oracle_count = oracles.len() as u64;
        let config = FeedConfig {
            owner: origin,
            pending_owner: None,
            payment,
            timeout,
            submission_value_min: value_bounds.0,
            submission_value_max: value_bounds.1,
            min_submissions,
            max_submissions: oracle_count,
            decimals,
            description,
            restart_delay,
            latest_round: 0,
            reporting_round: 0,
            first_valid_round: None,
            oracle_count,
        };
        self.feeds.push(FeedRecord { config, first_stored_round: 1, rounds: Vec::new() });
        self.statuses = sts;
        self.oracles = mts;
        proof {
            assert(self.feeds@.last() == self.feeds@[id as int]);
            assert(cfg_wf(self.feeds@[id as int].config));
            assert(self.feeds@[id as int].rounds@.len() == 0);
            assert(rec_wf(self.feeds@[id as int], self.block_number));
            assert forall|f: int| 0 <= f < self.feeds@.len() implies rec_wf(
                #[trigger] self.feeds@[f],
                self.block_number,
            ) by {
                if f < id as int {
                    assert(rec_wf(old(self).feeds@[f], self.block_number));
                }
            }
            assert(covered(old(self).statuses@, old(self).oracles@));
            assert(covered(self.statuses@, self.oracles@));
        }
        Ok(())
    }

    /// Updates payment, submission count bounds, restart delay and timeout
    /// for rounds not yet opened; only the feed owner may.
    pub fn update_future_rounds(
        &mut self,
        origin: AccountId,
        feed: FeedId,
        payment: Balance,
        submission_count_bounds: (u64, u64),
        restart_delay: RoundId,
        timeout: BlockNumber,
    ) -> (r: Result<(), Error>)
        requires
            old(self).wf(),
        ensures
            final(self).wf(),
            update_future_rounds_rel(
                *old(self),
                *final(self),
                origin,
                feed,
                payment,
                submission_count_bounds.0,
                submission_count_bounds.1,
                restart_delay,
                timeout,
                r,
            ),
            old(self).ledger_ok() ==> final(self).ledger_ok(),
    {
        if feed >= self.feeds.len() as u64 {
            return Err(Error::FeedNotFound);
        }
        let fid = feed as usize;
        if self.feeds[fid].config.owner != origin {
            return Err(Error::NotFeedOwner);
        }
        let (min, max) = submission_count_bounds;
        if min > max {
            return Err(Error::WrongBounds);
        }
        if max > self.feeds[fid].config.oracle_count {
            return Err(Error::MaxExceededTotal);
        }
        if restart_delay >= self.feeds[fid].config.oracle_count {
            return Err(Error::DelayNotBelowCount);
        }
        if min < 1 {
            return Err(Error::WrongBounds);
        }
        let mut rec = self.feeds.remove(fid);
        rec.config.payment = payment;
        rec.config.min_submissions = min;
        rec.config.max_submissions = max;
        rec.config.restart_delay = restart_delay;
        rec.config.timeout = timeout;
        self.feeds.insert(fid, rec);
        proof {
            assert(self.feeds@ =~= old(self).feeds@.update(fid as int, self.feeds@[fid as int]));
            assert forall|f: int| 0 <= f < self.feeds@.len() implies rec_wf(
                #[trigger] self.feeds@[f],
                self.block_number,
            ) by {
                assert(rec_wf(old(self).feeds@[f], self.block_number));
            }
        }
        Ok(())
    }

    /// Disables and enables oracles on a feed; only the feed owner may, and
    /// the resulting oracle set must stay within the limits.
    pub fn change_oracles(
        &mut self,
        origin: AccountId,
        feed: FeedId,
        to_disable: Vec<AccountId>,
        to_add: Vec<(AccountId, AccountId)>,
    ) -> (r: Result<(), Error>)
        requires
            old(self).wf(),
        ensures
            final(self).wf(),
            change_oracles_rel(*old(self), *final(self), origin, feed, to_disable@, to_add@, r),
            old(self).ledger_ok() ==> final(self).ledger_ok(),
    {
        if feed >= self.feeds.len() as u64 {
            return Err(Error::FeedNotFound);
        }
        let fid = feed as usize;
        if self.feeds[fid].config.owner != origin {
            return Err(Error::NotFeedOwner);
        }
        let count = self.feeds[fid].config.oracle_count;
        let reporting = self.feeds[fid].config.reporting_round;
        let total: u128 = count as u128 + to_add.len() as u128;
        if total < to_disable.len() as u128 {
            return Err(Error::NotEnoughOracles);
        }
        let remaining: u128 = total - to_disable.len() as u128;
        if remaining > self.oracle_count_limit as u128 {
            return Err(Error::OraclesLimitExceeded);
        }
        if remaining < self.feeds[fid].config.max_submissions as u128 {
            return Err(Error::NotEnoughOracles);
        }
        let mut sts = PairTable { entries: copy_values(&self.statuses.entries) };
        match apply_disable_oracles(&mut sts, feed, reporting, &to_disable) {
            Ok(()) => {},
            Err(e) => {
                return Err(e);
            },
        }
        let mut mts = Table { entries: copy_values(&self.oracles.entries) };
        match apply_add_oracles(&mut sts, &mut mts, feed, reporting, &to_add) {
            Ok(()) => {},
            Err(e) => {
                return Err(e);
            },
        }
        let mut rec = self.feeds.remove(fid);
        rec.config.oracle_count = (remaining as u64);
        self.feeds.insert(fid, rec);
        self.statuses = sts;
        self.oracles = mts;
        proof {
            assert(self.feeds@ =~= old(self).feeds@.update(fid as int, self.feeds@[fid as int]));
            assert forall|f: int| 0 <= f < self.feeds@.len() implies rec_wf(
                #[trigger] self.feeds@[f],
                self.block_number,
            ) by {
                assert(rec_wf(old(self).feeds@[f], self.block_number));
            }
        }
        Ok(())
    }
}

impl FeedConfig {
    /// Validates and applies new future-round parameters to this
    /// configuration.
    pub fn update_future_rounds(
        &mut self,
        payment: Balance,
        submission_count_bounds: (u64, u64),
        restart_delay: RoundId,
        timeout: BlockNumber,
    ) -> (r: Result<(), Error>)
        ensures
            update_future_rounds_cfg_rel(
                *old(self),
                *final(self),
                payment,
                submission_count_bounds.0,
                submission_count_bounds.1,
                restart_delay,
                timeout,
                r,
            ),
    {
        let (min, max) = submission_count_bounds;
        if min > max {
            return Err(Error::WrongBounds);
        }
        if max > self.oracle_count {
            return Err(Error::MaxExceededTotal);
        }
        if restart_delay >= self.oracle_count {
            return Err(Error::DelayNotBelowCount);
        }
        if min < 1 {
            return Err(Error::WrongBounds);
        }
        self.payment = payment;
        self.min_submissions = min;
        self.max_submissions = max;
        self.restart_delay = restart_delay;
        self.timeout = timeout;
        Ok(())
    }
}

} // verus!
