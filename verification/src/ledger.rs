//! Payment accounting against the module account.
//!
//! Each accepted submission credits the submitting oracle and tries to move
//! the payment from the free balance into the reserved part that backs what
//! oracles can withdraw; when the free balance cannot cover it while keeping
//! the minimum reserve, the obligation is recorded as debt instead. The
//! ledger invariant says the backing never falls short:
//! `sum of withdrawable <= reserved + debt`.

use vstd::prelude::*;
use crate::pallet::ChainlinkFeed;
use crate::types::{AccountId, Balance, Error, OracleMeta};

verus! {

/// `a + b`, capped at the largest balance.
pub open spec fn sat_add(a: u64, b: u64) -> u64 {
    if a + b > u64::MAX {
        u64::MAX
    } else {
        (a + b) as u64
    }
}

/// Total amount owed to oracles.
pub open spec fn sum_withdrawable(s: Seq<(u64, OracleMeta)>) -> int
    decreases s.len(),
{
    if s.len() == 0 {
        0
    } else {
        sum_withdrawable(s.drop_last()) + s.last().1.withdrawable
    }
}

/// Overwriting one entry moves the sum by the difference of that entry.
pub proof fn lemma_sum_update(s: Seq<(u64, OracleMeta)>, i: int, k: u64, v: OracleMeta)
    requires
        0 <= i < s.len(),
    ensures
        sum_withdrawable(s.update(i, (k, v))) == sum_withdrawable(s) - s[i].1.withdrawable
            + v.withdrawable,
    decreases s.len(),
{
    let t = s.update(i, (k, v));
    if i == s.len() - 1 {
        assert(t.drop_last() =~= s.drop_last());
    } else {
        lemma_sum_update(s.drop_last(), i, k, v);
        assert(t.drop_last() =~= s.drop_last().update(i, (k, v)));
        assert(t.last() == s.last());
    }
}

/// Appending an entry adds its amount to the sum.
pub proof fn lemma_sum_push(s: Seq<(u64, OracleMeta)>, k: u64, v: OracleMeta)
    ensures
        sum_withdrawable(s.push((k, v))) == sum_withdrawable(s) + v.withdrawable,
{
    assert(s.push((k, v)).drop_last() =~= s);
}

/// The effect of settling one payment `p` against the module account: the
/// new free balance, reserved balance, debt and oracle record.
pub open spec fn pay_outcome(
    free: u64,
    reserved: u64,
    debt: u64,
    min_reserve: u64,
    m: OracleMeta,
    p: u64,
) -> (u64, u64, u64, OracleMeta) {
    if p <= free && free - p >= min_reserve {
        (
            (free - p) as u64,
            (reserved + p) as u64,
            debt,
            OracleMeta { withdrawable: sat_add(m.withdrawable, p), ..m },
        )
    } else {
        let nd = sat_add(debt, p);
        (
            free,
            reserved,
            nd,
            OracleMeta { withdrawable: sat_add(m.withdrawable, (nd - debt) as u64), ..m },
        )
    }
}

impl ChainlinkFeed {
    /// The amounts owed to oracles are backed by the reserved balance and,
    /// where that fell short, by recorded debt.
    pub open spec fn ledger_ok(self) -> bool {
        sum_withdrawable(self.oracles.entries@) <= self.fund_reserved + self.debt
    }

    /// Whether the free balance can hand out `payment` and keep the reserve.
    pub open spec fn can_back(self, payment: Balance) -> bool {
        payment <= self.fund_free && self.fund_free - payment >= self.minimum_reserve
    }

    /// Credits one accepted submission: the oracle's withdrawable grows by
    /// the payment (saturating), the payment is reserved when the free
    /// balance allows, and becomes debt otherwise. Returns the new free
    /// balance, reserved balance, debt and oracle record.
    pub open spec fn pay_rel(pre: ChainlinkFeed, post: ChainlinkFeed, oracle: AccountId,
        payment: Balance) -> bool {
        let (nf, nr, nd, nm) = pay_outcome(
            pre.fund_free,
            pre.fund_reserved,
            pre.debt,
            pre.minimum_reserve,
            pre.oracles@[oracle],
            payment,
        );
        &&& post == (ChainlinkFeed {
            fund_free: post.fund_free,
            fund_reserved: post.fund_reserved,
            debt: post.debt,
            oracles: post.oracles,
            ..pre
        })
        &&& post.fund_free == nf
        &&& post.fund_reserved == nr
        &&& post.debt == nd
        &&& post.oracles@ == pre.oracles@.insert(oracle, nm)
    }

    /// Settles one accepted submission with the module account.
    pub(crate) fn pay_oracle(&mut self, oracle: AccountId, payment: Balance)
        requires
            old(self).wf(),
            old(self).oracles@.contains_key(oracle),
        ensures
            final(self).wf(),
            Self::pay_rel(*old(self), *final(self), oracle, payment),
            old(self).ledger_ok() ==> final(self).ledger_ok(),
    {
        let meta = match self.oracles.get(oracle) {
            Some(m) => *m,
            None => {
                // The caller guarantees the record exists, so this arm is
                // unreachable.
                proof {
                    assert(false);
                }
                OracleMeta { withdrawable: 0, admin: 0, pending_admin: None }
            },
        };
        let credit: u64;
        if payment <= self.fund_free && self.fund_free - payment >= self.minimum_reserve {
            self.fund_free = self.fund_free - payment;
            self.fund_reserved = self.fund_reserved + payment;
            credit = payment;
        } else {
            let new_debt = if self.debt > u64::MAX - payment {
                u64::MAX
            } else {
                self.debt + payment
            };
            credit = new_debt - self.debt;
            self.debt = new_debt;
        }
        let new_withdrawable = if meta.withdrawable > u64::MAX - credit {
            u64::MAX
        } else {
            meta.withdrawable + credit
        };
        let ghost pre_entries = self.oracles.entries@;
        let ghost pre_sum = sum_withdrawable(pre_entries);
        self.oracles.insert(oracle, OracleMeta { withdrawable: new_withdrawable, ..meta });
        proof {
            let i = choose|i: int|
                #![trigger pre_entries[i]]
                0 <= i < pre_entries.len() && pre_entries[i].0 == oracle
                    && self.oracles.entries@ == pre_entries.update(
                    i,
                    (oracle, OracleMeta { withdrawable: new_withdrawable, ..meta }),
                );
            crate::store::lemma_entries_map_get(pre_entries, i);
            lemma_sum_update(
                pre_entries,
                i,
                oracle,
                OracleMeta { withdrawable: new_withdrawable, ..meta },
            );
            assert(sum_withdrawable(self.oracles.entries@) <= pre_sum + credit);
        }
    }

    /// What `withdraw_payment` does. The recipient's side of the transfer
    /// belongs to the host's balance module and is not modelled.
    pub open spec fn withdraw_payment_rel(
        pre: ChainlinkFeed,
        post: ChainlinkFeed,
        origin: AccountId,
        oracle: AccountId,
        amount: Balance,
        r: Result<(), Error>,
    ) -> bool {
        let m = pre.oracles@[oracle];
        let unreserve = if amount <= pre.fund_reserved {
            amount
        } else {
            pre.fund_reserved
        };
        let available = (pre.fund_free + unreserve) as u64;
        if pre.oracle_spec(oracle) is None {
            r == Err::<(), Error>(Error::OracleNotFound) && post == pre
        } else if m.admin != origin {
            r == Err::<(), Error>(Error::NotAdmin) && post == pre
        } else if amount > m.withdrawable {
            r == Err::<(), Error>(Error::InsufficientFunds) && post == pre
        } else if amount > available || available - amount < pre.minimum_reserve {
            r == Err::<(), Error>(Error::InsufficientReserve) && post == pre
        } else {
            &&& r == Ok::<(), Error>(())
            &&& post == (ChainlinkFeed {
                fund_free: (available - amount) as u64,
                fund_reserved: (pre.fund_reserved - unreserve) as u64,
                oracles: post.oracles,
                ..pre
            })
            &&& post.oracles@ == pre.oracles@.insert(
                oracle,
                OracleMeta { withdrawable: (m.withdrawable - amount) as u64, ..m },
            )
        }
    }

    /// Pays out part of what an oracle earned; only its admin may, the amount
    /// must be earned, and the module account must be able to pay it while
    /// keeping the minimum reserve.
    pub fn withdraw_payment(
        &mut self,
        origin: AccountId,
        oracle: AccountId,
        recipient: AccountId,
        amount: Balance,
    ) -> (r: Result<(), Error>)
        requires
            old(self).wf(),
        ensures
            final(self).wf(),
            Self::withdraw_payment_rel(*old(self), *final(self), origin, oracle, amount, r),
            old(self).ledger_ok() ==> final(self).ledger_ok(),
    {
        let _ = recipient;
        let meta = match self.oracles.get(oracle) {
            Some(m) => *m,
            None => {
                return Err(Error::OracleNotFound);
            },
        };
        if meta.admin != origin {
            return Err(Error::NotAdmin);
        }
        if amount > meta.withdrawable {
            return Err(Error::InsufficientFunds);
        }
        let unreserve = if amount <= self.fund_reserved {
            amount
        } else {
            self.fund_reserved
        };
        let available = self.fund_free + unreserve;
        if amount > available || available - amount < self.minimum_reserve {
            return Err(Error::InsufficientReserve);
        }
        self.fund_reserved = self.fund_reserved - unreserve;
        self.fund_free = available - amount;
        let ghost pre_entries = self.oracles.entries@;
        self.oracles.insert(
            oracle,
            OracleMeta { withdrawable: meta.withdrawable - amount, ..meta },
        );
        proof {
            let nm = OracleMeta { withdrawable: (meta.withdrawable - amount) as u64, ..meta };
            let i = choose|i: int|
                #![trigger pre_entries[i]]
                0 <= i < pre_entries.len() && pre_entries[i].0 == oracle
                    && self.oracles.entries@ == pre_entries.update(i, (oracle, nm));
            crate::store::lemma_entries_map_get(pre_entries, i);
            lemma_sum_update(pre_entries, i, oracle, nm);
        }
        Ok(())
    }

    /// What `withdraw_funds` does.
    pub open spec fn withdraw_funds_rel(
        pre: ChainlinkFeed,
        post: ChainlinkFeed,
        origin: AccountId,
        amount: Balance,
        r: Result<(), Error>,
    ) -> bool {
        if origin != pre.pallet_admin {
            r == Err::<(), Error>(Error::NotPalletAdmin) && post == pre
        } else if amount > pre.fund_free {
            r == Err::<(), Error>(Error::InsufficientFunds) && post == pre
        } else if pre.fund_free - amount < pre.minimum_reserve {
            r == Err::<(), Error>(Error::InsufficientReserve) && post == pre
        } else {
            r == Ok::<(), Error>(()) && post == (ChainlinkFeed {
                fund_free: (pre.fund_free - amount) as u64,
                ..pre
            })
        }
    }

    /// Pays funds out of the module account; only the pallet admin may, and
    /// the minimum reserve must stay. The recipient's side belongs to the
    /// host's balance module and is not modelled.
    pub fn withdraw_funds(&mut self, origin: AccountId, recipient: AccountId, amount: Balance)
        -> (r: Result<(), Error>)
        requires
            old(self).wf(),
        ensures
            final(self).wf(),
            Self::withdraw_funds_rel(*old(self), *final(self), origin, amount, r),
            old(self).ledger_ok() ==> final(self).ledger_ok(),
    {
        let _ = recipient;
        if origin != self.pallet_admin {
            return Err(Error::NotPalletAdmin);
        }
        if amount > self.fund_free {
            return Err(Error::InsufficientFunds);
        }
        if self.fund_free - amount < self.minimum_reserve {
            return Err(Error::InsufficientReserve);
        }
        self.fund_free = self.fund_free - amount;
        Ok(())
    }

    /// What `reduce_debt` does: settle `min(amount, debt, free balance)` by
    /// reserving it, so it backs the oracles' withdrawable amounts again.
    pub open spec fn reduce_debt_rel(
        pre: ChainlinkFeed,
        post: ChainlinkFeed,
        amount: Balance,
        r: Result<(), Error>,
    ) -> bool {
        let settle = if amount <= pre.debt {
            amount
        } else {
            pre.debt
        };
        let settle = if settle <= pre.fund_free {
            settle
        } else {
            pre.fund_free
        };
        &&& r == Ok::<(), Error>(())
        &&& post == (ChainlinkFeed {
            fund_free: (pre.fund_free - settle) as u64,
            fund_reserved: (pre.fund_reserved + settle) as u64,
            debt: (pre.debt - settle) as u64,
            ..pre
        })
    }

    /// Settles outstanding debt from the module account's free balance; any
    /// signer may trigger it, and an overshoot only settles the debt.
    pub fn reduce_debt(&mut self, origin: AccountId, amount: Balance) -> (r: Result<(), Error>)
        requires
            old(self).wf(),
        ensures
            final(self).wf(),
            Self::reduce_debt_rel(*old(self), *final(self), amount, r),
            old(self).ledger_ok() ==> final(self).ledger_ok(),
    {
        let _ = origin;
        let mut settle = if amount <= self.debt {
            amount
        } else {
            self.debt
        };
        if settle > self.fund_free {
            settle = self.fund_free;
        }
        self.fund_free = self.fund_free - settle;
        self.fund_reserved = self.fund_reserved + settle;
        self.debt = self.debt - settle;
        Ok(())
    }
}

} // verus!
