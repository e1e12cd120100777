//! A canned runtime configuration for exercising the module: the constants a
//! small test chain would choose, with the module account also acting as the
//! genesis pallet admin and account 1 as the only feed creator.

use vstd::prelude::*;
use crate::pallet::ChainlinkFeed;
use crate::types::AccountId;

verus! {

/// The canned runtime configuration.
pub struct Test;

impl Test {
    /// The account id the host derives for the module's fund.
    pub fn module_account() -> (a: AccountId)
        ensures
            a == 99,
    {
        99
    }

    /// Genesis state under the canned constants: a minimum reserve of 100
    /// with the fund holding a hundred times that, a description limit of 15
    /// bytes, at most 10 oracles per feed, at most 10 feeds, and a pruning
    /// window of 3 rounds.
    pub fn new_ext() -> (p: ChainlinkFeed)
        ensures
            p.wf(),
            p.ledger_ok(),
            p.module_account == 99,
            p.pallet_admin == 99,
            p.pending_pallet_admin is None,
            p.feed_creators@ == seq![1u64],
            p.fund_free == 10000,
            p.fund_reserved == 0,
            p.debt == 0,
            p.block_number == 0,
            p.minimum_reserve == 100,
            p.string_limit == 15,
            p.oracle_count_limit == 10,
            p.feed_limit == 10,
            p.pruning_window == 3,
            p.num_feeds() == 0,
            p.oracles@ == Map::<u64, crate::types::OracleMeta>::empty(),
            p.statuses@ == Map::<(u64, u64), crate::types::OracleStatus>::empty(),
            p.requesters@ == Map::<(u64, u64), crate::types::Requester>::empty(),
    {
        let mut creators: Vec<AccountId> = Vec::new();
        creators.push(1);
        proof {
            assert(creators@ =~= seq![1u64]);
        }
        let p = ChainlinkFeed::new(99, 99, creators, 10000, 100, 15, 10, 10, 3);
        proof {
            crate::store::lemma_entries_map_len(p.oracles.entries@);
            assert(p.oracles@.dom() =~= Set::<u64>::empty());
            assert(p.oracles.entries@.len() == 0);
            assert(crate::ledger::sum_withdrawable(p.oracles.entries@) == 0);
        }
        p
    }
}

} // verus!
