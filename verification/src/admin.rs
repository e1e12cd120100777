//! Authorization-gated administrative transitions: the two-step transfers of
//! pallet admin, feed ownership and oracle admin, the feed-creator list, and
//! the requester table.

use vstd::prelude::*;
use crate::pallet::{ChainlinkFeed, FeedRecord, rec_wf};
use crate::types::{AccountId, Error, FeedConfig, FeedId, OracleMeta, Requester, RoundId};

verus! {

broadcast use vstd::seq_lib::lemma_seq_contains_after_push;

/// The fields no operation in this module ever touches.
pub open spec fn host_eq(pre: ChainlinkFeed, post: ChainlinkFeed) -> bool {
    &&& post.module_account == pre.module_account
    &&& post.minimum_reserve == pre.minimum_reserve
    &&& post.string_limit == pre.string_limit
    &&& post.oracle_count_limit == pre.oracle_count_limit
    &&& post.feed_limit == pre.feed_limit
    &&& post.pruning_window == pre.pruning_window
    &&& post.block_number == pre.block_number
}

/// Money-related fields unchanged.
pub open spec fn money_eq(pre: ChainlinkFeed, post: ChainlinkFeed) -> bool {
    &&& post.fund_free == pre.fund_free
    &&& post.fund_reserved == pre.fund_reserved
    &&& post.debt == pre.debt
}

/// Pallet-admin fields unchanged.
pub open spec fn admins_eq(pre: ChainlinkFeed, post: ChainlinkFeed) -> bool {
    &&& post.pallet_admin == pre.pallet_admin
    &&& post.pending_pallet_admin == pre.pending_pallet_admin
}

/// Keyed stores unchanged.
pub open spec fn stores_eq(pre: ChainlinkFeed, post: ChainlinkFeed) -> bool {
    &&& post.feeds == pre.feeds
    &&& post.oracles == pre.oracles
    &&& post.statuses == pre.statuses
    &&& post.requesters == pre.requesters
}

/// What `transfer_pallet_admin` does.
pub open spec fn transfer_pallet_admin_rel(
    pre: ChainlinkFeed,
    post: ChainlinkFeed,
    origin: AccountId,
    new_admin: AccountId,
    r: Result<(), Error>,
) -> bool {
    if origin != pre.pallet_admin {
        r == Err::<(), Error>(Error::NotPalletAdmin) && post == pre
    } else {
        r == Ok::<(), Error>(()) && post == (ChainlinkFeed {
            pending_pallet_admin: Some(new_admin),
            ..pre
        })
    }
}

/// What `accept_pallet_admin` does.
pub open spec fn accept_pallet_admin_rel(
    pre: ChainlinkFeed,
    post: ChainlinkFeed,
    origin: AccountId,
    r: Result<(), Error>,
) -> bool {
    if pre.pending_pallet_admin != Some(origin) {
        r == Err::<(), Error>(Error::NotPendingPalletAdmin) && post == pre
    } else {
        r == Ok::<(), Error>(()) && post == (ChainlinkFeed {
            pallet_admin: origin,
            pending_pallet_admin: None,
            ..pre
        })
    }
}

/// What `set_feed_creator` does.
pub open spec fn set_feed_creator_rel(
    pre: ChainlinkFeed,
    post: ChainlinkFeed,
    origin: AccountId,
    new_creator: AccountId,
    r: Result<(), Error>,
) -> bool {
    if origin != pre.pallet_admin {
        r == Err::<(), Error>(Error::NotPalletAdmin) && post == pre
    } else {
        &&& r == Ok::<(), Error>(())
        &&& host_eq(pre, post) && money_eq(pre, post) && admins_eq(pre, post)
        &&& post.feeds == pre.feeds && post.oracles == pre.oracles && post.statuses
            == pre.statuses && post.requesters == pre.requesters
        &&& post.feed_creators@.contains(new_creator)
        &&& forall|a: AccountId|
            a != new_creator ==> (post.feed_creators@.contains(a) <==> pre.feed_creators@.contains(
                a,
            ))
    }
}

/// What `remove_feed_creator` does.
pub open spec fn remove_feed_creator_rel(
    pre: ChainlinkFeed,
    post: ChainlinkFeed,
    origin: AccountId,
    creator: AccountId,
    r: Result<(), Error>,
) -> bool {
    if origin != pre.pallet_admin {
        r == Err::<(), Error>(Error::NotPalletAdmin) && post == pre
    } else {
        &&& r == Ok::<(), Error>(())
        &&& host_eq(pre, post) && money_eq(pre, post) && admins_eq(pre, post)
        &&& post.feeds == pre.feeds && post.oracles == pre.oracles && post.statuses
            == pre.statuses && post.requesters == pre.requesters
        &&& !post.feed_creators@.contains(creator)
        &&& forall|a: AccountId|
            a != creator ==> (post.feed_creators@.contains(a) <==> pre.feed_creators@.contains(a))
    }
}

/// What `transfer_ownership` does.
pub open spec fn transfer_ownership_rel(
    pre: ChainlinkFeed,
    post: ChainlinkFeed,
    origin: AccountId,
    feed: FeedId,
    new_owner: AccountId,
    r: Result<(), Error>,
) -> bool {
    if !pre.feed_exists(feed as int) {
        r == Err::<(), Error>(Error::FeedNotFound) && post == pre
    } else if pre.cfg(feed as int).owner != origin {
        r == Err::<(), Error>(Error::NotFeedOwner) && post == pre
    } else {
        &&& r == Ok::<(), Error>(())
        &&& host_eq(pre, post) && money_eq(pre, post) && admins_eq(pre, post)
        &&& post.feed_creators == pre.feed_creators && post.oracles == pre.oracles
            && post.statuses == pre.statuses && post.requesters == pre.requesters
        &&& post.feeds@ == pre.feeds@.update(
            feed as int,
            FeedRecord {
                config: FeedConfig { pending_owner: Some(new_owner), ..pre.cfg(feed as int) },
                ..pre.feeds@[feed as int]
            },
        )
    }
}

/// What `accept_ownership` does.
pub open spec fn accept_ownership_rel(
    pre: ChainlinkFeed,
    post: ChainlinkFeed,
    origin: AccountId,
    feed: FeedId,
    r: Result<(), Error>,
) -> bool {
    if !pre.feed_exists(feed as int) {
        r == Err::<(), Error>(Error::FeedNotFound) && post == pre
    } else if pre.cfg(feed as int).pending_owner != Some(origin) {
        r == Err::<(), Error>(Error::NotPendingOwner) && post == pre
    } else {
        &&& r == Ok::<(), Error>(())
        &&& host_eq(pre, post) && money_eq(pre, post) && admins_eq(pre, post)
        &&& post.feed_creators == pre.feed_creators && post.oracles == pre.oracles
            && post.statuses == pre.statuses && post.requesters == pre.requesters
        &&& post.feeds@ == pre.feeds@.update(
            feed as int,
            FeedRecord {
                config: FeedConfig {
                    owner: origin,
                    pending_owner: None,
                    ..pre.cfg(feed as int)
                },
                ..pre.feeds@[feed as int]
            },
        )
    }
}

/// What `transfer_admin` does.
pub open spec fn transfer_admin_rel(
    pre: ChainlinkFeed,
    post: ChainlinkFeed,
    origin: AccountId,
    oracle: AccountId,
    new_admin: AccountId,
    r: Result<(), Error>,
) -> bool {
    if pre.oracle_spec(oracle) is None {
        r == Err::<(), Error>(Error::OracleNotFound) && post == pre
    } else if pre.oracles@[oracle].admin != origin {
        r == Err::<(), Error>(Error::NotAdmin) && post == pre
    } else {
        &&& r == Ok::<(), Error>(())
        &&& host_eq(pre, post) && money_eq(pre, post) && admins_eq(pre, post)
        &&& post.feed_creators == pre.feed_creators && post.feeds == pre.feeds && post.statuses
            == pre.statuses && post.requesters == pre.requesters
        &&& post.oracles@ == pre.oracles@.insert(
            oracle,
            OracleMeta { pending_admin: Some(new_admin), ..pre.oracles@[oracle] },
        )
    }
}

/// What `accept_admin` does.
pub open spec fn accept_admin_rel(
    pre: ChainlinkFeed,
    post: ChainlinkFeed,
    origin: AccountId,
    oracle: AccountId,
    r: Result<(), Error>,
) -> bool {
    if pre.oracle_spec(oracle) is None {
        r == Err::<(), Error>(Error::OracleNotFound) && post == pre
    } else if pre.oracles@[oracle].pending_admin != Some(origin) {
        r == Err::<(), Error>(Error::NotPendingAdmin) && post == pre
    } else {
        &&& r == Ok::<(), Error>(())
        &&& host_eq(pre, post) && money_eq(pre, post) && admins_eq(pre, post)
        &&& post.feed_creators == pre.feed_creators && post.feeds == pre.feeds && post.statuses
            == pre.statuses && post.requesters == pre.requesters
        &&& post.oracles@ == pre.oracles@.insert(
            oracle,
            OracleMeta { admin: origin, pending_admin: None, ..pre.oracles@[oracle] },
        )
    }
}

/// What `set_requester` does. An existing requester keeps its
/// `last_started_round`, so re-registering cannot dodge the delay.
pub open spec fn set_requester_rel(
    pre: ChainlinkFeed,
    post: ChainlinkFeed,
    origin: AccountId,
    feed: FeedId,
    requester: AccountId,
    delay: RoundId,
    r: Result<(), Error>,
) -> bool {
    if !pre.feed_exists(feed as int) {
        r == Err::<(), Error>(Error::FeedNotFound) && post == pre
    } else if pre.cfg(feed as int).owner != origin {
        r == Err::<(), Error>(Error::NotFeedOwner) && post == pre
    } else {
        &&& r == Ok::<(), Error>(())
        &&& host_eq(pre, post) && money_eq(pre, post) && admins_eq(pre, post)
        &&& post.feed_creators == pre.feed_creators && post.feeds == pre.feeds && post.oracles
            == pre.oracles && post.statuses == pre.statuses
        &&& post.requesters@ == pre.requesters@.insert(
            (feed, requester),
            Requester {
                delay,
                last_started_round: match pre.requester_spec(feed, requester) {
                    Some(q) => q.last_started_round,
                    None => None,
                },
            },
        )
    }
}

/// What `remove_requester` does.
pub open spec fn remove_requester_rel(
    pre: ChainlinkFeed,
    post: ChainlinkFeed,
    origin: AccountId,
    feed: FeedId,
    requester: AccountId,
    r: Result<(), Error>,
) -> bool {
    if !pre.feed_exists(feed as int) {
        r == Err::<(), Error>(Error::FeedNotFound) && post == pre
    } else if pre.cfg(feed as int).owner != origin {
        r == Err::<(), Error>(Error::NotFeedOwner) && post == pre
    } else if pre.requester_spec(feed, requester) is None {
        r == Err::<(), Error>(Error::RequesterNotFound) && post == pre
    } else {
        &&& r == Ok::<(), Error>(())
        &&& host_eq(pre, post) && money_eq(pre, post) && admins_eq(pre, post)
        &&& post.feed_creators == pre.feed_creators && post.feeds == pre.feeds && post.oracles
            == pre.oracles && post.statuses == pre.statuses
        &&& post.requesters@ == pre.requesters@.remove((feed, requester))
    }
}

impl ChainlinkFeed {
    /// Stage a new pallet admin; only the current admin may.
    pub fn transfer_pallet_admin(&mut self, origin: AccountId, new_admin: AccountId) -> (r: Result<
        (),
        Error,
    >)
        requires
            old(self).wf(),
        ensures
            final(self).wf(),
            transfer_pallet_admin_rel(*old(self), *final(self), origin, new_admin, r),
            old(self).ledger_ok() ==> final(self).ledger_ok(),
    {
        if origin != self.pallet_admin {
            return Err(Error::NotPalletAdmin);
        }
        self.pending_pallet_admin = Some(new_admin);
        Ok(())
    }

    /// Take over as pallet admin; only the staged account may.
    pub fn accept_pallet_admin(&mut self, origin: AccountId) -> (r: Result<(), Error>)
        requires
            old(self).wf(),
        ensures
            final(self).wf(),
            accept_pallet_admin_rel(*old(self), *final(self), origin, r),
            old(self).ledger_ok() ==> final(self).ledger_ok(),
    {
        let pending_matches = match self.pending_pallet_admin {
            Some(p) => p == origin,
            None => false,
        };
        if !pending_matches {
            return Err(Error::NotPendingPalletAdmin);
        }
        self.pallet_admin = origin;
        self.pending_pallet_admin = None;
        Ok(())
    }

    /// Allow an account to create feeds; only the pallet admin may.
    pub fn set_feed_creator(&mut self, origin: AccountId, new_creator: AccountId) -> (r: Result<
        (),
        Error,
    >)
        requires
            old(self).wf(),
        ensures
            final(self).wf(),
            set_feed_creator_rel(*old(self), *final(self), origin, new_creator, r),
            old(self).ledger_ok() ==> final(self).ledger_ok(),
    {
        if origin != self.pallet_admin {
            return Err(Error::NotPalletAdmin);
        }
        if !self.is_feed_creator(new_creator) {
            let ghost pre = self.feed_creators@;
            self.feed_creators.push(new_creator);
            proof {
                assert(self.feed_creators@ == pre.push(new_creator));
            }
        }
        Ok(())
    }

    /// Withdraw the right to create feeds; only the pallet admin may.
    pub fn remove_feed_creator(&mut self, origin: AccountId, creator: AccountId) -> (r: Result<
        (),
        Error,
    >)
        requires
            old(self).wf(),
        ensures
            final(self).wf(),
            remove_feed_creator_rel(*old(self), *final(self), origin, creator, r),
            old(self).ledger_ok() ==> final(self).ledger_ok(),
    {
        if origin != self.pallet_admin {
            return Err(Error::NotPalletAdmin);
        }
        let ghost pre = self.feed_creators@;
        let mut kept: Vec<AccountId> = Vec::new();
        let mut i: usize = 0;
        while i < self.feed_creators.len()
            invariant
                i <= pre.len(),
                self.feed_creators@ == pre,
                !kept@.contains(creator),
                forall|a: AccountId|
                    a != creator ==> (kept@.contains(a) <==> pre.subrange(0, i as int).contains(a)),
            decreases pre.len() - i,
        {
            let ghost kept_before = kept@;
            let c = self.feed_creators[i];
            if c != creator {
                kept.push(c);
            }
            proof {
                assert(pre.subrange(0, i + 1 as int) =~= pre.subrange(0, i as int).push(
                    pre[i as int],
                ));
                if c != creator {
                    assert(kept@ == kept_before.push(c));
                }
            }
            i = i + 1;
        }
        proof {
            assert(pre.subrange(0, pre.len() as int) == pre);
        }
        self.feed_creators = kept;
        Ok(())
    }

    /// Stage a new owner for a feed; only the current owner may.
    pub fn transfer_ownership(
        &mut self,
        origin: AccountId,
        feed: FeedId,
        new_owner: AccountId,
    ) -> (r: Result<(), Error>)
        requires
            old(self).wf(),
        ensures
            final(self).wf(),
            transfer_ownership_rel(*old(self), *final(self), origin, feed, new_owner, r),
            old(self).ledger_ok() ==> final(self).ledger_ok(),
    {
        if feed >= self.feeds.len() as u64 {
            return Err(Error::FeedNotFound);
        }
        let fid = feed as usize;
        if self.feeds[fid].config.owner != origin {
            return Err(Error::NotFeedOwner);
        }
        let mut rec = self.feeds.remove(fid);
        rec.config.pending_owner = Some(new_owner);
        self.feeds.insert(fid, rec);
        proof {
            assert(self.feeds@ =~= old(self).feeds@.update(
                fid as int,
                FeedRecord {
                    config: FeedConfig {
                        pending_owner: Some(new_owner),
                        ..old(self).cfg(fid as int)
                    },
                    ..old(self).feeds@[fid as int]
                },
            ));
            assert forall|f: int| 0 <= f < self.feeds@.len() implies rec_wf(
                #[trigger] self.feeds@[f],
                self.block_number,
            ) by {
                assert(rec_wf(old(self).feeds@[f], self.block_number));
            }
        }
        Ok(())
    }

    /// Take over feed ownership; only the staged pending owner may.
    pub fn accept_ownership(&mut self, origin: AccountId, feed: FeedId) -> (r: Result<(), Error>)
        requires
            old(self).wf(),
        ensures
            final(self).wf(),
            accept_ownership_rel(*old(self), *final(self), origin, feed, r),
            old(self).ledger_ok() ==> final(self).ledger_ok(),
    {
        if feed >= self.feeds.len() as u64 {
            return Err(Error::FeedNotFound);
        }
        let fid = feed as usize;
        let pending_matches = match self.feeds[fid].config.pending_owner {
            Some(p) => p == origin,
            None => false,
        };
        if !pending_matches {
            return Err(Error::NotPendingOwner);
        }
        let mut rec = self.feeds.remove(fid);
        rec.config.owner = origin;
        rec.config.pending_owner = None;
        self.feeds.insert(fid, rec);
        proof {
            assert(self.feeds@ =~= old(self).feeds@.update(
                fid as int,
                FeedRecord {
                    config: FeedConfig {
                        owner: origin,
                        pending_owner: None,
                        ..old(self).cfg(fid as int)
                    },
                    ..old(self).feeds@[fid as int]
                },
            ));
            assert forall|f: int| 0 <= f < self.feeds@.len() implies rec_wf(
                #[trigger] self.feeds@[f],
                self.block_number,
            ) by {
                assert(rec_wf(old(self).feeds@[f], self.block_number));
            }
        }
        Ok(())
    }

    /// Stage a new admin for an oracle; only the current admin may.
    pub fn transfer_admin(&mut self, origin: AccountId, oracle: AccountId, new_admin: AccountId)
        -> (r: Result<(), Error>)
        requires
            old(self).wf(),
        ensures
            final(self).wf(),
            transfer_admin_rel(*old(self), *final(self), origin, oracle, new_admin, r),
            old(self).ledger_ok() ==> final(self).ledger_ok(),
    {
        let meta = match self.oracles.get(oracle) {
            Some(m) => *m,
            None => {
                return Err(Error::OracleNotFound);
            },
        };
        if meta.admin != origin {
            return Err(Error::NotAdmin);
        }
        let ghost pre_entries = self.oracles.entries@;
        self.oracles.insert(
            oracle,
            OracleMeta { pending_admin: Some(new_admin), ..meta },
        );
        proof {
            let nm = OracleMeta { pending_admin: Some(new_admin), ..meta };
            let i = choose|i: int|
                #![trigger pre_entries[i]]
                0 <= i < pre_entries.len() && pre_entries[i].0 == oracle
                    && self.oracles.entries@ == pre_entries.update(i, (oracle, nm));
            crate::store::lemma_entries_map_get(pre_entries, i);
            crate::ledger::lemma_sum_update(pre_entries, i, oracle, nm);
        }
        Ok(())
    }

    /// Take over as an oracle's admin; only the staged pending admin may.
    pub fn accept_admin(&mut self, origin: AccountId, oracle: AccountId) -> (r: Result<(), Error>)
        requires
            old(self).wf(),
        ensures
            final(self).wf(),
            accept_admin_rel(*old(self), *final(self), origin, oracle, r),
            old(self).ledger_ok() ==> final(self).ledger_ok(),
    {
        let meta = match self.oracles.get(oracle) {
            Some(m) => *m,
            None => {
                return Err(Error::OracleNotFound);
            },
        };
        let pending_matches = match meta.pending_admin {
            Some(p) => p == origin,
            None => false,
        };
        if !pending_matches {
            return Err(Error::NotPendingAdmin);
        }
        let ghost pre_entries = self.oracles.entries@;
        self.oracles.insert(oracle, OracleMeta { admin: origin, pending_admin: None, ..meta });
        proof {
            let nm = OracleMeta { admin: origin, pending_admin: None, ..meta };
            let i = choose|i: int|
                #![trigger pre_entries[i]]
                0 <= i < pre_entries.len() && pre_entries[i].0 == oracle
                    && self.oracles.entries@ == pre_entries.update(i, (oracle, nm));
            crate::store::lemma_entries_map_get(pre_entries, i);
            crate::ledger::lemma_sum_update(pre_entries, i, oracle, nm);
        }
        Ok(())
    }

    /// Register a round requester on a feed; only the feed owner may.
    pub fn set_requester(
        &mut self,
        origin: AccountId,
        feed: FeedId,
        requester: AccountId,
        delay: RoundId,
    ) -> (r: Result<(), Error>)
        requires
            old(self).wf(),
        ensures
            final(self).wf(),
            set_requester_rel(*old(self), *final(self), origin, feed, requester, delay, r),
            old(self).ledger_ok() ==> final(self).ledger_ok(),
    {
        if feed >= self.feeds.len() as u64 {
            return Err(Error::FeedNotFound);
        }
        if self.feeds[feed as usize].config.owner != origin {
            return Err(Error::NotFeedOwner);
        }
        let last_started_round = match self.requesters.get(feed, requester) {
            Some(q) => q.last_started_round,
            None => None,
        };
        self.requesters.insert(feed, requester, Requester { delay, last_started_round });
        Ok(())
    }

    /// Drop a round requester from a feed; only the feed owner may.
    pub fn remove_requester(&mut self, origin: AccountId, feed: FeedId, requester: AccountId) -> (r:
        Result<(), Error>)
        requires
            old(self).wf(),
        ensures
            final(self).wf(),
            remove_requester_rel(*old(self), *final(self), origin, feed, requester, r),
            old(self).ledger_ok() ==> final(self).ledger_ok(),
    {
        if feed >= self.feeds.len() as u64 {
            return Err(Error::FeedNotFound);
        }
        if self.feeds[feed as usize].config.owner != origin {
            return Err(Error::NotFeedOwner);
        }
        if self.requesters.get(feed, requester).is_none() {
            return Err(Error::RequesterNotFound);
        }
        self.requesters.remove(feed, requester);
        Ok(())
    }
}

} // verus!
