//! The pallet state: every durable store of the module plus the modelled
//! parts of the host (block height and the module account's balance), with
//! the well-formedness invariant every operation preserves.

use vstd::prelude::*;
use crate::median::is_median_of;
use crate::pairstore::PairTable;
use crate::store::Table;
use crate::types::{AccountId, Balance, BlockNumber, FeedConfig, FeedId, OracleMeta, OracleStatus, Requester, Round, RoundDetails, RoundId};

verus! {

/// One stored round: the public record and, while needed, its details.
pub struct RoundEntry {
    pub round: Round,
    pub details: Option<RoundDetails>,
}

/// Everything a feed owns: its configuration and its round history.
///
/// Rounds are stored densely: entry `i` is round `first_stored_round + i`,
/// so pruning can only take contiguous prefixes, exactly as required.
pub struct FeedRecord {
    pub config: FeedConfig,
    /// The oldest round still stored; rounds below it were pruned.
    pub first_stored_round: RoundId,
    pub rounds: Vec<RoundEntry>,
}

/// The whole module state.
pub struct ChainlinkFeed {
    // Constants fixed at genesis.
    /// Account id under which the host keeps the module's funds.
    pub module_account: AccountId,
    /// Amount that must stay in the free balance when paying out.
    pub minimum_reserve: Balance,
    /// Longest accepted feed description, in bytes.
    pub string_limit: u64,
    /// Most oracles per feed.
    pub oracle_count_limit: u64,
    /// Most feeds that can ever be created.
    pub feed_limit: u64,
    /// Tail distance from the latest round that pruning must leave alone.
    pub pruning_window: u64,
    // The modelled host state.
    /// Current block height, advanced by the host.
    pub block_number: BlockNumber,
    /// Free balance of the module account.
    pub fund_free: Balance,
    /// Part of the module account's balance set aside to back payments owed.
    pub fund_reserved: Balance,
    // Module singletons.
    pub pallet_admin: AccountId,
    pub pending_pallet_admin: Option<AccountId>,
    /// Accounts allowed to create feeds.
    pub feed_creators: Vec<AccountId>,
    /// Payment obligations accrued while the reserve could not back them.
    pub debt: Balance,
    // Keyed stores.
    pub feeds: Vec<FeedRecord>,
    pub oracles: Table<OracleMeta>,
    /// Per-feed oracle membership, keyed by `(feed, oracle)`.
    pub statuses: PairTable<OracleStatus>,
    /// Round requesters, keyed by `(feed, account)`.
    pub requesters: PairTable<Requester>,
}

/// Configuration constraints that hold for every stored feed.
pub open spec fn cfg_wf(c: FeedConfig) -> bool {
    &&& 1 <= c.min_submissions <= c.max_submissions <= c.oracle_count
    &&& c.latest_round <= c.reporting_round
    &&& match c.first_valid_round {
        Some(x) => x <= c.latest_round,
        None => true,
    }
}

/// Constraints on one stored round entry; `rn` is its round number.
pub open spec fn entry_wf(e: RoundEntry, rn: int, now: BlockNumber) -> bool {
    &&& e.round.started_at <= now
    &&& match e.round.answer {
        Some(a) => {
            &&& exists|s: Seq<u64>| s.len() >= 1 && #[trigger] is_median_of(a, s)
            &&& e.round.updated_at is Some
            &&& match e.round.answered_in_round {
                Some(ar) => 1 <= ar <= rn,
                None => false,
            }
        },
        None => e.round.updated_at is None && e.round.answered_in_round is None,
    }
    &&& match e.round.updated_at {
        Some(u) => u <= now,
        None => true,
    }
    &&& match e.details {
        Some(d) => d.min_submissions >= 1,
        None => true,
    }
}

/// Constraints on one stored feed record.
pub open spec fn rec_wf(rec: FeedRecord, now: BlockNumber) -> bool {
    &&& rec.first_stored_round >= 1
    &&& rec.first_stored_round + rec.rounds@.len() == rec.config.reporting_round + 1
    &&& cfg_wf(rec.config)
    &&& forall|i: int|
        0 <= i < rec.rounds@.len() ==> entry_wf(
            #[trigger] rec.rounds@[i],
            rec.first_stored_round + i,
            now,
        )
    &&& rec.rounds@.len() > 0 ==> rec.rounds@.last().details is Some
}

impl ChainlinkFeed {
    /// Number of feeds created so far; also the next feed id.
    pub open spec fn num_feeds(self) -> int {
        self.feeds@.len() as int
    }

    pub open spec fn feed_exists(self, feed: int) -> bool {
        0 <= feed < self.feeds@.len()
    }

    /// Configuration of feed `feed`.
    pub open spec fn cfg(self, feed: int) -> FeedConfig {
        self.feeds@[feed].config
    }

    /// The stored round `round` of feed `feed`, if present.
    pub open spec fn round_spec(self, feed: int, round: int) -> Option<Round> {
        if self.feed_exists(feed) {
            let rec = self.feeds@[feed];
            if rec.first_stored_round <= round < rec.first_stored_round + rec.rounds@.len() {
                Some(rec.rounds@[round - rec.first_stored_round].round)
            } else {
                None
            }
        } else {
            None
        }
    }

    /// The stored details of round `round` of feed `feed`, if present.
    pub open spec fn details_spec(self, feed: int, round: int) -> Option<RoundDetails> {
        if self.feed_exists(feed) {
            let rec = self.feeds@[feed];
            if rec.first_stored_round <= round < rec.first_stored_round + rec.rounds@.len() {
                rec.rounds@[round - rec.first_stored_round].details
            } else {
                None
            }
        } else {
            None
        }
    }

    /// Oracle membership record on a feed.
    pub open spec fn status_spec(self, feed: u64, oracle: u64) -> Option<OracleStatus> {
        if self.statuses@.contains_key((feed, oracle)) {
            Some(self.statuses@[(feed, oracle)])
        } else {
            None
        }
    }

    /// Global oracle record.
    pub open spec fn oracle_spec(self, oracle: u64) -> Option<OracleMeta> {
        if self.oracles@.contains_key(oracle) {
            Some(self.oracles@[oracle])
        } else {
            None
        }
    }

    /// Requester record on a feed.
    pub open spec fn requester_spec(self, feed: u64, account: u64) -> Option<Requester> {
        if self.requesters@.contains_key((feed, account)) {
            Some(self.requesters@[(feed, account)])
        } else {
            None
        }
    }

    /// The state invariant: every operation requires and re-establishes it.
    pub open spec fn wf(self) -> bool {
        &&& self.oracles.wf()
        &&& self.statuses.wf()
        &&& self.requesters.wf()
        &&& self.fund_free + self.fund_reserved <= u64::MAX
        &&& forall|f: int|
            0 <= f < self.feeds@.len() ==> rec_wf(#[trigger] self.feeds@[f], self.block_number)
        &&& forall|k: (u64, u64)|
            self.statuses@.contains_key(k) ==> self.oracles@.contains_key(k.1)
    }

    /// Fresh module state, as the host's genesis would initialize it.
    pub fn new(
        module_account: AccountId,
        pallet_admin: AccountId,
        feed_creators: Vec<AccountId>,
        fund_balance: Balance,
        minimum_reserve: Balance,
        string_limit: u64,
        oracle_count_limit: u64,
        feed_limit: u64,
        pruning_window: u64,
    ) -> (r: Self)
        ensures
            r.wf(),
            r.module_account == module_account,
            r.pallet_admin == pallet_admin,
            r.pending_pallet_admin is None,
            r.feed_creators@ == feed_creators@,
            r.fund_free == fund_balance,
            r.fund_reserved == 0,
            r.debt == 0,
            r.block_number == 0,
            r.minimum_reserve == minimum_reserve,
            r.string_limit == string_limit,
            r.oracle_count_limit == oracle_count_limit,
            r.feed_limit == feed_limit,
            r.pruning_window == pruning_window,
            r.num_feeds() == 0,
            r.oracles@ == Map::<u64, OracleMeta>::empty(),
            r.statuses@ == Map::<(u64, u64), OracleStatus>::empty(),
            r.requesters@ == Map::<(u64, u64), Requester>::empty(),
    {
        ChainlinkFeed {
            module_account,
            minimum_reserve,
            string_limit,
            oracle_count_limit,
            feed_limit,
            pruning_window,
            block_number: 0,
            fund_free: fund_balance,
            fund_reserved: 0,
            pallet_admin,
            pending_pallet_admin: None,
            feed_creators,
            debt: 0,
            feeds: Vec::new(),
            oracles: Table::new(),
            statuses: PairTable::new(),
            requesters: PairTable::new(),
        }
    }

    /// Host model: the chain advanced to block `n`.
    pub fn set_block_number(&mut self, n: BlockNumber)
        requires
            old(self).wf(),
            n >= old(self).block_number,
        ensures
            final(self).wf(),
            *final(self) == (ChainlinkFeed { block_number: n, ..*old(self) }),
    {
        proof {
            assert(forall|f: int|
                0 <= f < self.feeds@.len() && rec_wf(#[trigger] self.feeds@[f], self.block_number)
                    ==> rec_wf(self.feeds@[f], n));
        }
        self.block_number = n;
    }

    /// Host model: the balance module set the module account's free balance
    /// (as a genesis endowment or an external transfer would).
    pub fn set_module_balance(&mut self, amount: Balance)
        requires
            old(self).wf(),
            amount + old(self).fund_reserved <= u64::MAX,
        ensures
            final(self).wf(),
            *final(self) == (ChainlinkFeed { fund_free: amount, ..*old(self) }),
    {
        self.fund_free = amount;
    }

    /// Host model: raw write of an oracle record into storage.
    pub fn insert_oracle_meta(&mut self, oracle: AccountId, meta: OracleMeta)
        requires
            old(self).wf(),
        ensures
            final(self).wf(),
            final(self).oracles@ == old(self).oracles@.insert(oracle, meta),
            *final(self) == (ChainlinkFeed { oracles: final(self).oracles, ..*old(self) }),
    {
        self.oracles.insert(oracle, meta);
    }

    /// The stored configuration of a feed.
    pub fn feed_config(&self, feed: FeedId) -> (r: Option<&FeedConfig>)
        ensures
            match r {
                Some(c) => self.feed_exists(feed as int) && *c == self.cfg(feed as int),
                None => !self.feed_exists(feed as int),
            },
    {
        if feed < self.feeds.len() as u64 {
            Some(&self.feeds[feed as usize].config)
        } else {
            None
        }
    }

    /// The stored round, if present.
    pub fn round(&self, feed: FeedId, round: RoundId) -> (r: Option<Round>)
        ensures
            r == self.round_spec(feed as int, round as int),
    {
        if feed < self.feeds.len() as u64 {
            let rec = &self.feeds[feed as usize];
            if round >= rec.first_stored_round && round - rec.first_stored_round < rec.rounds.len()
                as u64 {
                let i = (round - rec.first_stored_round) as usize;
                Some(rec.rounds[i].round)
            } else {
                None
            }
        } else {
            None
        }
    }

    /// The stored round details, if present.
    pub fn round_details(&self, feed: FeedId, round: RoundId) -> (r: Option<&RoundDetails>)
        ensures
            match r {
                Some(d) => self.details_spec(feed as int, round as int) == Some(*d),
                None => self.details_spec(feed as int, round as int) is None,
            },
    {
        if feed < self.feeds.len() as u64 {
            let rec = &self.feeds[feed as usize];
            if round >= rec.first_stored_round && round - rec.first_stored_round < rec.rounds.len()
                as u64 {
                let i = (round - rec.first_stored_round) as usize;
                match &rec.rounds[i].details {
                    Some(d) => Some(d),
                    None => None,
                }
            } else {
                None
            }
        } else {
            None
        }
    }

    /// The global oracle record, if present.
    pub fn oracle(&self, oracle: AccountId) -> (r: Option<OracleMeta>)
        requires
            self.wf(),
        ensures
            r == self.oracle_spec(oracle),
    {
        match self.oracles.get(oracle) {
            Some(m) => Some(*m),
            None => None,
        }
    }

    /// The oracle's membership record on a feed, if present.
    pub fn oracle_status(&self, feed: FeedId, oracle: AccountId) -> (r: Option<OracleStatus>)
        requires
            self.wf(),
        ensures
            r == self.status_spec(feed, oracle),
    {
        match self.statuses.get(feed, oracle) {
            Some(s) => Some(*s),
            None => None,
        }
    }

    /// The requester record on a feed, if present.
    pub fn requester(&self, feed: FeedId, account: AccountId) -> (r: Option<Requester>)
        requires
            self.wf(),
        ensures
            r == self.requester_spec(feed, account),
    {
        match self.requesters.get(feed, account) {
            Some(q) => Some(*q),
            None => None,
        }
    }

    /// Whether an account may create feeds.
    pub fn is_feed_creator(&self, account: AccountId) -> (r: bool)
        ensures
            r == self.feed_creators@.contains(account),
    {
        let mut i: usize = 0;
        while i < self.feed_creators.len()
            invariant
                i <= self.feed_creators@.len(),
                forall|j: int| 0 <= j < i ==> self.feed_creators@[j] != account,
            decreases self.feed_creators@.len() - i,
        {
            if self.feed_creators[i] == account {
                return true;
            }
            i = i + 1;
        }
        false
    }
}

} // verus!
