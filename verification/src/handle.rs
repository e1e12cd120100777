//! An explicit load / modify / save handle over one feed, and a builder for
//! creating feeds from defaults.
//!
//! A handle is a snapshot of a feed's configuration: changes to it reach the
//! stored state only through [`ChainlinkFeed::save_feed`]; a snapshot taken
//! for reading is simply never saved.

use vstd::prelude::*;
use crate::membership::{add_all, update_future_rounds_cfg_rel};
use crate::pairstore::PairTable;
use crate::pallet::{ChainlinkFeed, FeedRecord, rec_wf, cfg_wf};
use crate::store::Table;
use crate::types::{
    AccountId, Balance, BlockNumber, Error, FeedConfig, FeedId, OracleMeta, OracleStatus, RoundData,
    RoundId, Value, cfg_eq, copy_values,
};

verus! {

/// A loaded feed: its id and a private copy of its configuration.
pub struct Feed {
    pub id: FeedId,
    pub config: FeedConfig,
}

impl Feed {
    /// Wraps a configuration for a feed id; nothing is stored until saved.
    pub fn new(id: FeedId, config: FeedConfig) -> (r: Feed)
        ensures
            r.id == id,
            r.config == config,
    {
        Feed { id, config }
    }

    /// Loads a snapshot whose changes take effect when saved back.
    pub fn load_from(pallet: &ChainlinkFeed, id: FeedId) -> (r: Option<Feed>)
        ensures
            match r {
                Some(feed) => pallet.feed_exists(id as int) && feed.id == id && cfg_eq(
                    feed.config,
                    pallet.cfg(id as int),
                ),
                None => !pallet.feed_exists(id as int),
            },
    {
        match pallet.feed_config(id) {
            Some(c) => Some(Feed { id, config: c.duplicate() }),
            None => None,
        }
    }

    /// Loads a snapshot meant for reading; changes to it are discarded by
    /// never saving it.
    pub fn read_only_from(pallet: &ChainlinkFeed, id: FeedId) -> (r: Option<Feed>)
        ensures
            match r {
                Some(feed) => pallet.feed_exists(id as int) && feed.id == id && cfg_eq(
                    feed.config,
                    pallet.cfg(id as int),
                ),
                None => !pallet.feed_exists(id as int),
            },
    {
        Feed::load_from(pallet, id)
    }

    /// The lowest round that closed with an answer, if any.
    pub fn first_valid_round(&self) -> (r: Option<RoundId>)
        ensures
            r == self.config.first_valid_round,
    {
        self.config.first_valid_round
    }

    /// The highest round that closed with an answer.
    pub fn latest_round(&self) -> (r: RoundId)
        ensures
            r == self.config.latest_round,
    {
        self.config.latest_round
    }

    /// The data of the latest answered round, or all zeroes before any
    /// round was answered.
    pub fn latest_data(&self, pallet: &ChainlinkFeed) -> (r: RoundData)
        ensures
            r == latest_data_spec(*pallet, self.id, self.config.latest_round),
    {
        match pallet.round(self.id, self.config.latest_round) {
            Some(rnd) => match rnd.answer {
                Some(a) => RoundData {
                    started_at: rnd.started_at,
                    answer: a,
                    updated_at: match rnd.updated_at {
                        Some(u) => u,
                        None => 0,
                    },
                    answered_in_round: match rnd.answered_in_round {
                        Some(ar) => ar,
                        None => 0,
                    },
                },
                None => RoundData { started_at: 0, answer: 0, updated_at: 0, answered_in_round: 0 },
            },
            None => RoundData { started_at: 0, answer: 0, updated_at: 0, answered_in_round: 0 },
        }
    }

    /// Validates and applies new future-round parameters to the snapshot.
    pub fn update_future_rounds(
        &mut self,
        payment: Balance,
        submission_count_bounds: (u64, u64),
        restart_delay: RoundId,
        timeout: BlockNumber,
    ) -> (r: Result<(), Error>)
        ensures
            final(self).id == old(self).id,
            update_future_rounds_cfg_rel(
                old(self).config,
                final(self).config,
                payment,
                submission_count_bounds.0,
                submission_count_bounds.1,
                restart_delay,
                timeout,
                r,
            ),
    {
        self.config.update_future_rounds(payment, submission_count_bounds, restart_delay, timeout)
    }

    /// Enables oracles for this feed, writing their records to the stores at
    /// once and staging the new oracle count in the snapshot.
    pub fn add_oracles(&mut self, pallet: &mut ChainlinkFeed, oracles: Vec<(AccountId, AccountId)>)
        -> (r: Result<(), Error>)
        requires
            old(pallet).wf(),
        ensures
            final(pallet).wf(),
            final(self).id == old(self).id,
            old(pallet).ledger_ok() ==> final(pallet).ledger_ok(),
            if old(self).config.oracle_count + oracles@.len() > old(pallet).oracle_count_limit {
                &&& r == Err::<(), Error>(Error::OraclesLimitExceeded)
                &&& *final(pallet) == *old(pallet)
                &&& *final(self) == *old(self)
            } else {
                match add_all(
                    old(pallet).statuses@,
                    old(pallet).oracles@,
                    old(self).id,
                    old(self).config.reporting_round,
                    oracles@,
                ) {
                    Ok((sts, mts)) => {
                        &&& r == Ok::<(), Error>(())
                        &&& final(pallet).statuses@ == sts
                        &&& final(pallet).oracles@ == mts
                        &&& *final(pallet) == (ChainlinkFeed {
                            oracles: final(pallet).oracles,
                            statuses: final(pallet).statuses,
                            ..*old(pallet)
                        })
                        &&& final(self).config == (FeedConfig {
                            oracle_count: (old(self).config.oracle_count + oracles@.len()) as u64,
                            ..old(self).config
                        })
                    },
                    Err(e) => r == Err::<(), Error>(e) && *final(pallet) == *old(pallet)
                        && *final(self) == *old(self),
                }
            },
    {
        let n = oracles.len() as u64;
        if self.config.oracle_count as u128 + n as u128 > pallet.oracle_count_limit as u128 {
            return Err(Error::OraclesLimitExceeded);
        }
        let mut sts = PairTable { entries: copy_values(&pallet.statuses.entries) };
        let mut mts = Table { entries: copy_values(&pallet.oracles.entries) };
        match crate::membership::apply_add_oracles(
            &mut sts,
            &mut mts,
            self.id,
            self.config.reporting_round,
            &oracles,
        ) {
            Ok(()) => {},
            Err(e) => {
                return Err(e);
            },
        }
        pallet.statuses = sts;
        pallet.oracles = mts;
        self.config.oracle_count = self.config.oracle_count + n;
        Ok(())
    }

    /// Opens the next round for this feed, updating both the stored state
    /// and the snapshot's reporting round.
    pub fn request_new_round(&mut self, pallet: &mut ChainlinkFeed, account: AccountId) -> (r:
        Result<(), Error>)
        requires
            old(pallet).wf(),
        ensures
            final(pallet).wf(),
            final(self).id == old(self).id,
            old(pallet).ledger_ok() ==> final(pallet).ledger_ok(),
            match ChainlinkFeed::request_check(*old(pallet), old(self).id, account, false) {
                Some(e) => r == Err::<(), Error>(e) && *final(pallet) == *old(pallet)
                    && *final(self) == *old(self),
                None => {
                    &&& r == Ok::<(), Error>(())
                    &&& ChainlinkFeed::request_ok_rel(
                        *old(pallet),
                        *final(pallet),
                        old(self).id,
                        account,
                    )
                    &&& final(self).config == (FeedConfig {
                        reporting_round: final(pallet).cfg(old(self).id as int).reporting_round,
                        ..old(self).config
                    })
                },
            },
    {
        match pallet.trigger_new_round(self.id, account, false) {
            Ok(()) => {},
            Err(e) => {
                return Err(e);
            },
        }
        let nfeeds = pallet.feeds.len();
        proof {
            assert(self.id < nfeeds as u64);
        }
        self.config.reporting_round = pallet.feeds[self.id as usize].config.reporting_round;
        Ok(())
    }
}

/// The data of the latest answered round of a feed, all zeroes when there is
/// none.
pub open spec fn latest_data_spec(pallet: ChainlinkFeed, id: FeedId, latest: RoundId) -> RoundData {
    match pallet.round_spec(id as int, latest as int) {
        Some(rnd) => match rnd.answer {
            Some(a) => RoundData {
                started_at: rnd.started_at,
                answer: a,
                updated_at: match rnd.updated_at {
                    Some(u) => u,
                    None => 0,
                },
                answered_in_round: match rnd.answered_in_round {
                    Some(ar) => ar,
                    None => 0,
                },
            },
            None => RoundData { started_at: 0, answer: 0, updated_at: 0, answered_in_round: 0 },
        },
        None => RoundData { started_at: 0, answer: 0, updated_at: 0, answered_in_round: 0 },
    }
}

impl ChainlinkFeed {
    /// Loads a feed snapshot for reading.
    pub fn feed(&self, id: FeedId) -> (r: Option<Feed>)
        ensures
            match r {
                Some(feed) => self.feed_exists(id as int) && feed.id == id && cfg_eq(
                    feed.config,
                    self.cfg(id as int),
                ),
                None => !self.feed_exists(id as int),
            },
    {
        Feed::load_from(self, id)
    }

    /// Loads a feed snapshot whose changes are meant to be saved back.
    pub fn feed_mut(&self, id: FeedId) -> (r: Option<Feed>)
        ensures
            match r {
                Some(feed) => self.feed_exists(id as int) && feed.id == id && cfg_eq(
                    feed.config,
                    self.cfg(id as int),
                ),
                None => !self.feed_exists(id as int),
            },
    {
        Feed::load_from(self, id)
    }

    /// Writes a feed snapshot back: an existing feed gets the snapshot's
    /// configuration, the next free id becomes a new feed. The snapshot must
    /// keep the stored round counters, which only the round machinery moves.
    pub fn save_feed(&mut self, feed: Feed) -> (r: Result<(), Error>)
        requires
            old(self).wf(),
            (feed.id as int) <= old(self).num_feeds(),
            cfg_wf(feed.config),
            feed.id as int == old(self).num_feeds() ==> (feed.config.reporting_round == 0
                && feed.config.latest_round == 0 && feed.config.first_valid_round is None),
            (feed.id as int) < old(self).num_feeds() ==> (feed.config.reporting_round == old(
                self,
            ).cfg(feed.id as int).reporting_round && feed.config.latest_round == old(self).cfg(
                feed.id as int,
            ).latest_round && feed.config.first_valid_round == old(self).cfg(
                feed.id as int,
            ).first_valid_round),
        ensures
            final(self).wf(),
            r == Ok::<(), Error>(()),
            *final(self) == (ChainlinkFeed { feeds: final(self).feeds, ..*old(self) }),
            (feed.id as int) == old(self).num_feeds() ==> final(self).feeds@.len() == old(
                self,
            ).num_feeds() + 1 && final(self).feeds@[feed.id as int].first_stored_round == 1
                && final(self).feeds@[feed.id as int].rounds@.len() == 0 && forall|g: int|
                0 <= g < old(self).num_feeds() ==> final(self).feeds@[g] == old(self).feeds@[g],
            (feed.id as int) < old(self).num_feeds() ==> final(self).feeds@ == old(
                self,
            ).feeds@.update(
                feed.id as int,
                FeedRecord { config: feed.config, ..old(self).feeds@[feed.id as int] },
            ),
            final(self).cfg(feed.id as int) == feed.config,
            old(self).ledger_ok() ==> final(self).ledger_ok(),
    {
        let nfeeds = self.feeds.len();
        if feed.id == nfeeds as u64 {
            self.feeds.push(
                FeedRecord { config: feed.config, first_stored_round: 1, rounds: Vec::new() },
            );
            proof {
                assert(self.feeds@.last() == self.feeds@[feed.id as int]);
                assert forall|f: int| 0 <= f < self.feeds@.len() implies rec_wf(
                    #[trigger] self.feeds@[f],
                    self.block_number,
                ) by {
                    if f < feed.id as int {
                        assert(rec_wf(old(self).feeds@[f], self.block_number));
                    }
                }
            }
        } else {
            let fid = feed.id as usize;
            let mut rec = self.feeds.remove(fid);
            rec.config = feed.config;
            self.feeds.insert(fid, rec);
            proof {
                assert(self.feeds@ =~= old(self).feeds@.update(
                    fid as int,
                    self.feeds@[fid as int],
                ));
                assert forall|f: int| 0 <= f < self.feeds@.len() implies rec_wf(
                    #[trigger] self.feeds@[f],
                    self.block_number,
                ) by {
                    assert(rec_wf(old(self).feeds@[f], self.block_number));
                }
            }
        }
        Ok(())
    }
}

/// Builds a feed from defaults, mirroring the common creation call.
pub struct FeedBuilder {
    pub owner: Option<AccountId>,
    pub payment: Option<Balance>,
    pub timeout: Option<BlockNumber>,
    pub value_bounds: Option<(Value, Value)>,
    pub min_submissions: Option<u64>,
    pub description: Option<Vec<u8>>,
    pub restart_delay: Option<RoundId>,
    pub oracles: Option<Vec<(AccountId, AccountId)>>,
}

impl FeedBuilder {
    pub open spec fn owner_or_default(self) -> AccountId {
        match self.owner {
            Some(o) => o,
            None => 1,
        }
    }

    pub open spec fn payment_or_default(self) -> Balance {
        match self.payment {
            Some(p) => p,
            None => 20,
        }
    }

    pub open spec fn timeout_or_default(self) -> BlockNumber {
        match self.timeout {
            Some(t) => t,
            None => 1,
        }
    }

    pub open spec fn value_bounds_or_default(self) -> (Value, Value) {
        match self.value_bounds {
            Some(b) => b,
            None => (1, 1000),
        }
    }

    pub open spec fn min_submissions_or_default(self) -> u64 {
        match self.min_submissions {
            Some(m) => m,
            None => 2,
        }
    }

    pub open spec fn description_or_default(self) -> Seq<u8> {
        match self.description {
            Some(d) => d@,
            None => seq![100u8, 101u8, 115u8, 99u8],
        }
    }

    pub open spec fn oracles_or_default(self) -> Seq<(AccountId, AccountId)> {
        match self.oracles {
            Some(o) => o@,
            None => seq![(2u64, 4u64), (3u64, 4u64), (4u64, 4u64)],
        }
    }

    pub open spec fn restart_delay_or_default(self) -> RoundId {
        match self.restart_delay {
            Some(d) => d,
            None => if self.oracles_or_default().len() == 0 {
                0
            } else {
                (self.oracles_or_default().len() - 1) as u64
            },
        }
    }

    /// A builder with every field left to its default.
    pub fn new() -> (r: Self)
        ensures
            r.owner is None,
            r.payment is None,
            r.timeout is None,
            r.value_bounds is None,
            r.min_submissions is None,
            r.description is None,
            r.restart_delay is None,
            r.oracles is None,
    {
        FeedBuilder {
            owner: None,
            payment: None,
            timeout: None,
            value_bounds: None,
            min_submissions: None,
            description: None,
            restart_delay: None,
            oracles: None,
        }
    }

    pub fn owner(self, o: AccountId) -> (r: Self)
        ensures
            r == (FeedBuilder { owner: Some(o), ..self }),
    {
        FeedBuilder { owner: Some(o), ..self }
    }

    pub fn payment(self, p: Balance) -> (r: Self)
        ensures
            r == (FeedBuilder { payment: Some(p), ..self }),
    {
        FeedBuilder { payment: Some(p), ..self }
    }

    pub fn timeout(self, t: BlockNumber) -> (r: Self)
        ensures
            r == (FeedBuilder { timeout: Some(t), ..self }),
    {
        FeedBuilder { timeout: Some(t), ..self }
    }

    pub fn value_bounds(self, min: Value, max: Value) -> (r: Self)
        ensures
            r == (FeedBuilder { value_bounds: Some((min, max)), ..self }),
    {
        FeedBuilder { value_bounds: Some((min, max)), ..self }
    }

    pub fn min_submissions(self, m: u64) -> (r: Self)
        ensures
            r == (FeedBuilder { min_submissions: Some(m), ..self }),
    {
        FeedBuilder { min_submissions: Some(m), ..self }
    }

    pub fn description(self, d: Vec<u8>) -> (r: Self)
        ensures
            r == (FeedBuilder { description: Some(d), ..self }),
    {
        FeedBuilder { description: Some(d), ..self }
    }

    pub fn restart_delay(self, d: RoundId) -> (r: Self)
        ensures
            r == (FeedBuilder { restart_delay: Some(d), ..self }),
    {
        FeedBuilder { restart_delay: Some(d), ..self }
    }

    pub fn oracles(self, o: Vec<(AccountId, AccountId)>) -> (r: Self)
        ensures
            r == (FeedBuilder { oracles: Some(o), ..self }),
    {
        FeedBuilder { oracles: Some(o), ..self }
    }

    /// Creates the feed on the module state, filling unset fields with the
    /// defaults.
    pub fn build_and_store(self, pallet: &mut ChainlinkFeed) -> (r: Result<(), Error>)
        requires
            old(pallet).wf(),
        ensures
            final(pallet).wf(),
            old(pallet).ledger_ok() ==> final(pallet).ledger_ok(),
            crate::membership::create_feed_rel(
                *old(pallet),
                *final(pallet),
                self.owner_or_default(),
                self.payment_or_default(),
                self.timeout_or_default(),
                self.value_bounds_or_default(),
                self.min_submissions_or_default(),
                5,
                self.description_or_default(),
                self.restart_delay_or_default(),
                self.oracles_or_default(),
                r,
            ),
    {
        let owner = match self.owner {
            Some(o) => o,
            None => 1,
        };
        let payment = match self.payment {
            Some(p) => p,
            None => 20,
        };
        let timeout = match self.timeout {
            Some(t) => t,
            None => 1,
        };
        let value_bounds = match self.value_bounds {
            Some(b) => b,
            None => (1, 1000),
        };
        let min_submissions = match self.min_submissions {
            Some(m) => m,
            None => 2,
        };
        let description = match self.description {
            Some(d) => d,
            None => {
                let mut d: Vec<u8> = Vec::new();
                d.push(100);
                d.push(101);
                d.push(115);
                d.push(99);
                proof {
                    assert(d@ =~= seq![100u8, 101u8, 115u8, 99u8]);
                }
                d
            },
        };
        let oracles = match self.oracles {
            Some(o) => o,
            None => {
                let mut o: Vec<(AccountId, AccountId)> = Vec::new();
                o.push((2, 4));
                o.push((3, 4));
                o.push((4, 4));
                proof {
                    assert(o@ =~= seq![(2u64, 4u64), (3u64, 4u64), (4u64, 4u64)]);
                }
                o
            },
        };
        let restart_delay = match self.restart_delay {
            Some(d) => d,
            None => if oracles.len() == 0 {
                0
            } else {
                (oracles.len() - 1) as u64
            },
        };
        pallet.create_feed(
            owner,
            payment,
            timeout,
            value_bounds,
            min_submissions,
            5,
            description,
            restart_delay,
            oracles,
        )
    }
}

} // verus!
