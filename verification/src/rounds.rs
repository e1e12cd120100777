//! The round state machine: submissions, round opening and closing, timeout
//! handling, requester-driven round starts, and pruning of bounded history.

use vstd::prelude::*;
use crate::median::{is_median_of, median};
use crate::pallet::{ChainlinkFeed, FeedRecord, RoundEntry, rec_wf, entry_wf};
use crate::types::{
    AccountId, BlockNumber, Error, FeedConfig, FeedId, OracleStatus, Requester, Round,
    RoundDetails, RoundId, Value,
};

verus! {

/// A round without an answer can be superseded once `timeout` blocks passed
/// since it started; a timeout of zero never fires.
pub open spec fn timed_out(r: Round, timeout: u64, now: BlockNumber) -> bool {
    timeout > 0 && r.started_at + timeout <= now
}

/// Whether the current reporting round of feed `f` may be left behind for a
/// new one: round zero always may, an answered round may, and an unanswered
/// round may once it timed out. A reporting round that was already pruned
/// had closed with an answer.
pub open spec fn supersedable(pre: ChainlinkFeed, f: int) -> bool {
    let rr = pre.cfg(f).reporting_round;
    ||| rr == 0
    ||| rr < pre.feeds@[f].first_stored_round
    ||| match pre.round_spec(f, rr as int) {
        Some(rnd) => rnd.answer is Some || (match pre.details_spec(f, rr as int) {
            Some(d) => timed_out(rnd, d.timeout, pre.block_number),
            None => false,
        }),
        None => false,
    }
}

/// What opening a new round does to a feed record: the reporting round is
/// bumped, a fresh open round with the feed's current parameters is stored,
/// and a timed-out previous round loses its details.
pub open spec fn open_entry_rel(pre: FeedRecord, post: FeedRecord, now: BlockNumber) -> bool {
    let n = pre.rounds@.len() as int;
    &&& post.config == (FeedConfig {
        reporting_round: (pre.config.reporting_round + 1) as u64,
        ..pre.config
    })
    &&& post.first_stored_round == pre.first_stored_round
    &&& post.rounds@.len() == n + 1
    &&& post.rounds@[n].round == (Round {
        started_at: now,
        answer: None,
        updated_at: None,
        answered_in_round: None,
    })
    &&& match post.rounds@[n].details {
        Some(d) => {
            &&& d.submissions@.len() == 0
            &&& d.min_submissions == pre.config.min_submissions
            &&& d.max_submissions == pre.config.max_submissions
            &&& d.payment == pre.config.payment
            &&& d.timeout == pre.config.timeout
        },
        None => false,
    }
    &&& n > 0 ==> {
        let pe = pre.rounds@[n - 1];
        let cleared = pe.round.answer is None && (match pe.details {
            Some(d) => timed_out(pe.round, d.timeout, now),
            None => false,
        });
        post.rounds@[n - 1] == if cleared {
            RoundEntry { details: None, ..pe }
        } else {
            pe
        }
    }
    &&& forall|i: int| 0 <= i < n - 1 ==> post.rounds@[i] == pre.rounds@[i]
}

/// Opens the next round on a feed record.
fn open_round_entry(rec: &mut FeedRecord, now: BlockNumber)
    requires
        rec_wf(*old(rec), now),
        old(rec).config.reporting_round < u64::MAX,
    ensures
        rec_wf(*final(rec), now),
        open_entry_rel(*old(rec), *final(rec), now),
{
    let n = rec.rounds.len();
    if n > 0 {
        let mut prev = rec.rounds.remove(n - 1);
        let clear = match &prev.details {
            Some(d) => {
                prev.round.answer.is_none() && d.timeout > 0 && (prev.round.started_at as u128
                    + d.timeout as u128) <= now as u128
            },
            None => false,
        };
        if clear {
            prev.details = None;
        }
        rec.rounds.insert(n - 1, prev);
        proof {
            assert(rec.rounds@ =~= old(rec).rounds@.update(n - 1, rec.rounds@[n - 1 as int]));
        }
    }
    let details = RoundDetails {
        submissions: Vec::new(),
        min_submissions: rec.config.min_submissions,
        max_submissions: rec.config.max_submissions,
        payment: rec.config.payment,
        timeout: rec.config.timeout,
    };
    rec.rounds.push(
        RoundEntry {
            round: Round { started_at: now, answer: None, updated_at: None, answered_in_round: None },
            details: Some(details),
        },
    );
    rec.config.reporting_round = rec.config.reporting_round + 1;
    proof {
        assert forall|i: int| 0 <= i < rec.rounds@.len() implies entry_wf(
            #[trigger] rec.rounds@[i],
            rec.first_stored_round + i,
            now,
        ) by {
            if i < rec.rounds@.len() - 1 {
                assert(entry_wf(old(rec).rounds@[i], rec.first_stored_round + i, now));
            }
        }
    }
}

/// The first reason `submit` rejects, if any.
pub open spec fn submit_check(
    pre: ChainlinkFeed,
    origin: AccountId,
    feed: FeedId,
    round: RoundId,
    value: Value,
) -> Option<Error> {
    let f = feed as int;
    let cfg = pre.cfg(f);
    let rr = cfg.reporting_round;
    if !pre.feed_exists(f) {
        Some(Error::FeedNotFound)
    } else if pre.status_spec(feed, origin) is None {
        Some(Error::NotOracle)
    } else {
        let st = pre.status_spec(feed, origin).unwrap();
        if round < st.starting_round {
            Some(Error::InvalidRound)
        } else if match st.ending_round {
            Some(e) => round > e,
            None => false,
        } {
            Some(Error::InvalidRound)
        } else if match st.last_reported_round {
            Some(lr) => round <= lr,
            None => false,
        } {
            Some(Error::InvalidRound)
        } else if round == rr {
            if rr < pre.feeds@[f].first_stored_round {
                Some(Error::InvalidRound)
            } else if pre.round_spec(f, rr as int).unwrap().answer is Some {
                Some(Error::InvalidRound)
            } else {
                value_check(cfg, value)
            }
        } else if rr < u64::MAX && round == rr + 1 {
            if !supersedable(pre, f) {
                Some(Error::InvalidRound)
            } else if match st.last_started_round {
                Some(ls) => round <= ls + cfg.restart_delay,
                None => false,
            } {
                Some(Error::InvalidRound)
            } else {
                value_check(cfg, value)
            }
        } else {
            Some(Error::InvalidRound)
        }
    }
}

/// Value bounds are checked after the round; both bounds are inclusive.
pub open spec fn value_check(cfg: FeedConfig, value: Value) -> Option<Error> {
    if value < cfg.submission_value_min {
        Some(Error::SubmissionBelowMinimum)
    } else if value > cfg.submission_value_max {
        Some(Error::SubmissionAboveMaximum)
    } else {
        None
    }
}

/// What an accepted submission does.
pub open spec fn submit_ok_rel(
    pre: ChainlinkFeed,
    post: ChainlinkFeed,
    origin: AccountId,
    feed: FeedId,
    round: RoundId,
    value: Value,
) -> bool {
    let f = feed as int;
    let cfg = pre.cfg(f);
    let rr = cfg.reporting_round;
    let starting = round != rr;
    let st = pre.status_spec(feed, origin).unwrap();
    let old_subs = if starting {
        Seq::<u64>::empty()
    } else {
        pre.details_spec(f, round as int).unwrap().submissions@
    };
    let subs = old_subs.push(value);
    let payment = if starting {
        cfg.payment
    } else {
        pre.details_spec(f, round as int).unwrap().payment
    };
    let min = if starting {
        cfg.min_submissions
    } else {
        pre.details_spec(f, round as int).unwrap().min_submissions
    };
    let closed = subs.len() >= min;
    let (nf, nr, nd, nm) = crate::ledger::pay_outcome(
        pre.fund_free,
        pre.fund_reserved,
        pre.debt,
        pre.minimum_reserve,
        pre.oracles@[origin],
        payment,
    );
    &&& post == (ChainlinkFeed {
        feeds: post.feeds,
        oracles: post.oracles,
        statuses: post.statuses,
        fund_free: post.fund_free,
        fund_reserved: post.fund_reserved,
        debt: post.debt,
        ..pre
    })
    // The oracle's membership record tracks the submission.
    &&& post.statuses@ == pre.statuses@.insert(
        (feed, origin),
        OracleStatus {
            last_reported_round: Some(round),
            last_started_round: if starting {
                Some(round)
            } else {
                st.last_started_round
            },
            latest_submission: Some(value),
            ..st
        },
    )
    // The oracle is paid for the submission.
    &&& post.fund_free == nf && post.fund_reserved == nr && post.debt == nd
    &&& post.oracles@ == pre.oracles@.insert(origin, nm)
    // Only this feed changes.
    &&& post.feeds@.len() == pre.feeds@.len()
    &&& forall|g: int| 0 <= g < pre.feeds@.len() && g != f ==> post.feeds@[g] == pre.feeds@[g]
    &&& post.feeds@[f].first_stored_round == pre.feeds@[f].first_stored_round
    &&& post.feeds@[f].rounds@.len() == pre.feeds@[f].rounds@.len() + (
        if starting {
            1int
        } else {
            0int
        }
    )
    // The feed configuration advances its round counters only.
    &&& post.cfg(f) == (FeedConfig {
        reporting_round: if starting {
            round
        } else {
            rr
        },
        latest_round: if closed {
            round
        } else {
            cfg.latest_round
        },
        first_valid_round: if closed && cfg.first_valid_round is None {
            Some(round)
        } else {
            cfg.first_valid_round
        },
        ..cfg
    })
    // The submitted-to round holds the new submission and closes at the
    // minimum count with the median as its answer.
    &&& match post.details_spec(f, round as int) {
        Some(d) => {
            &&& d.submissions@ == subs
            &&& d.min_submissions == min
            &&& d.payment == payment
            &&& if starting {
                d.max_submissions == cfg.max_submissions && d.timeout == cfg.timeout
            } else {
                d.max_submissions == pre.details_spec(f, round as int).unwrap().max_submissions
                    && d.timeout == pre.details_spec(f, round as int).unwrap().timeout
            }
        },
        None => false,
    }
    &&& match post.round_spec(f, round as int) {
        Some(rnd) => {
            &&& rnd.started_at == if starting {
                pre.block_number
            } else {
                pre.round_spec(f, round as int).unwrap().started_at
            }
            &&& if closed {
                &&& match rnd.answer {
                    Some(a) => is_median_of(a, subs),
                    None => false,
                }
                &&& rnd.updated_at == Some(pre.block_number)
                &&& rnd.answered_in_round == Some(round)
            } else {
                rnd.answer is None && rnd.updated_at is None && rnd.answered_in_round is None
            }
        },
        None => false,
    }
    // A closed round clears the previous round's details; so does opening
    // over a timed-out round.
    &&& (closed && round >= 1 + pre.feeds@[f].first_stored_round) ==> post.details_spec(
        f,
        round - 1,
    ) is None
    // Every other stored round keeps its record; its details stay unless
    // they were cleared above.
    &&& forall|q: int|
        pre.feeds@[f].first_stored_round <= q
            < pre.feeds@[f].first_stored_round + pre.feeds@[f].rounds@.len() && q != round ==> (
        #[trigger] post.round_spec(f, q) == pre.round_spec(f, q) && (q != round - 1
            ==> post.details_spec(f, q) == pre.details_spec(f, q)))
}

/// What `submit` does.
pub open spec fn submit_rel(
    pre: ChainlinkFeed,
    post: ChainlinkFeed,
    origin: AccountId,
    feed: FeedId,
    round: RoundId,
    value: Value,
    r: Result<(), Error>,
) -> bool {
    match submit_check(pre, origin, feed, round, value) {
        Some(e) => r == Err::<(), Error>(e) && post == pre,
        None => r == Ok::<(), Error>(()) && submit_ok_rel(pre, post, origin, feed, round, value),
    }
}

impl ChainlinkFeed {
    /// An oracle submits a value into an open round, or opens the next round
    /// when the current one can be superseded. At `min_submissions` the round
    /// closes with the median of its submissions as the answer, and every
    /// accepted submission credits the oracle with the round's payment.
    #[verifier::rlimit(100)]
    pub fn submit(&mut self, origin: AccountId, feed: FeedId, round: RoundId, value: Value) -> (r:
        Result<(), Error>)
        requires
            old(self).wf(),
        ensures
            final(self).wf(),
            submit_rel(*old(self), *final(self), origin, feed, round, value, r),
            old(self).ledger_ok() ==> final(self).ledger_ok(),
    {
        if feed >= self.feeds.len() as u64 {
            return Err(Error::FeedNotFound);
        }
        let fid = feed as usize;
        let st = match self.statuses.get(feed, origin) {
            Some(s) => *s,
            None => {
                return Err(Error::NotOracle);
            },
        };
        if round < st.starting_round {
            return Err(Error::InvalidRound);
        }
        let past_ending = match st.ending_round {
            Some(e) => round > e,
            None => false,
        };
        if past_ending {
            return Err(Error::InvalidRound);
        }
        let already_reported = match st.last_reported_round {
            Some(lr) => round <= lr,
            None => false,
        };
        if already_reported {
            return Err(Error::InvalidRound);
        }
        proof {
            assert(rec_wf(self.feeds@[fid as int], self.block_number));
        }
        let rr = self.feeds[fid].config.reporting_round;
        let starting: bool;
        if round == rr {
            if rr < self.feeds[fid].first_stored_round {
                return Err(Error::InvalidRound);
            }
            let nrounds = self.feeds[fid].rounds.len();
            proof {
                let frec = self.feeds@[fid as int];
                assert(rr - frec.first_stored_round < nrounds as u64);
            }
            let idx = (rr - self.feeds[fid].first_stored_round) as usize;
            if self.feeds[fid].rounds[idx].round.answer.is_some() {
                return Err(Error::InvalidRound);
            }
            starting = false;
        } else if rr < u64::MAX && round == rr + 1 {
            if !self.reporting_supersedable(feed) {
                return Err(Error::InvalidRound);
            }
            let too_soon = match st.last_started_round {
                Some(ls) => round as u128 <= ls as u128 + self.feeds[fid].config.restart_delay
                    as u128,
                None => false,
            };
            if too_soon {
                return Err(Error::InvalidRound);
            }
            starting = true;
        } else {
            return Err(Error::InvalidRound);
        }
        if value < self.feeds[fid].config.submission_value_min {
            return Err(Error::SubmissionBelowMinimum);
        }
        if value > self.feeds[fid].config.submission_value_max {
            return Err(Error::SubmissionAboveMaximum);
        }
        // All checks passed: mutate.
        self.statuses.insert(
            feed,
            origin,
            OracleStatus {
                last_reported_round: Some(round),
                last_started_round: if starting {
                    Some(round)
                } else {
                    st.last_started_round
                },
                latest_submission: Some(value),
                ..st
            },
        );
        proof {
            assert(self.wf());
        }
        let mut rec = self.feeds.remove(fid);
        proof {
            assert(rec_wf(rec, self.block_number));
        }
        if starting {
            open_round_entry(&mut rec, self.block_number);
        }
        let ghost rec1 = rec;
        let reclen = rec.rounds.len();
        proof {
            assert(rec.config.reporting_round == round);
            assert(round - rec.first_stored_round == reclen - 1);
        }
        let idx = (round - rec.first_stored_round) as usize;
        let mut entry = rec.rounds.remove(idx);
        let ghost entry0 = entry;
        let mut det = match entry.details {
            Some(d) => d,
            None => {
                // The top stored round always has details, so this arm is
                // unreachable.
                proof {
                    assert(false);
                }
                RoundDetails {
                    submissions: Vec::new(),
                    min_submissions: 1,
                    max_submissions: 1,
                    payment: 0,
                    timeout: 0,
                }
            },
        };
        let ghost det0 = det;
        let payment = det.payment;
        det.submissions.push(value);
        let closed = det.submissions.len() as u64 >= det.min_submissions;
        if closed {
            let answer = median(&det.submissions);
            entry.round.answer = Some(answer);
            entry.round.updated_at = Some(self.block_number);
            entry.round.answered_in_round = Some(round);
            rec.config.latest_round = round;
            if rec.config.first_valid_round.is_none() {
                rec.config.first_valid_round = Some(round);
            }
        }
        entry.details = Some(det);
        rec.rounds.insert(idx, entry);
        proof {
            assert(rec.rounds@ =~= rec1.rounds@.update(idx as int, entry));
        }
        if closed && idx > 0 {
            let ghost before = rec.rounds@;
            let mut prev = rec.rounds.remove(idx - 1);
            prev.details = None;
            rec.rounds.insert(idx - 1, prev);
            proof {
                assert(rec.rounds@ =~= before.update(idx - 1 as int, rec.rounds@[idx - 1 as int]));
            }
        }
        proof {
            // The modified record is still well formed.
            let now = self.block_number;
            assert(entry.round.started_at <= now);
            assert(det0.min_submissions >= 1);
            if closed {
                assert(det.submissions@.len() >= 1);
                assert(entry.round.answer matches Some(a) ==> is_median_of(
                    a,
                    det.submissions@,
                ) && det.submissions@.len() >= 1);
                assert(round >= 1);
            }
            assert(entry_wf(entry, round as int, now));
            assert forall|i: int| 0 <= i < rec.rounds@.len() implies entry_wf(
                #[trigger] rec.rounds@[i],
                rec.first_stored_round + i,
                now,
            ) by {
                if i != idx as int {
                    assert(entry_wf(rec1.rounds@[i], rec1.first_stored_round + i, now));
                }
            }
            assert(rec.rounds@.last() == entry);
            assert(rec_wf(rec, now));
        }
        self.feeds.insert(fid, rec);
        proof {
            assert(self.feeds@ =~= old(self).feeds@.update(fid as int, self.feeds@[fid as int]));
            assert(self.wf());
            assert(self.oracles@.contains_key(origin));
        }
        self.pay_oracle(origin, payment);
        proof {
            let pre = *old(self);
            let post = *self;
            let f = feed as int;
            let cfg = pre.cfg(f);
            assert(submit_check(pre, origin, feed, round, value) is None);
            let old_subs = if starting {
                Seq::<u64>::empty()
            } else {
                pre.details_spec(f, round as int).unwrap().submissions@
            };
            assert(det0.submissions@ == old_subs);
            assert(det.submissions@ == old_subs.push(value));
            assert(payment == if starting {
                cfg.payment
            } else {
                pre.details_spec(f, round as int).unwrap().payment
            });
            assert(post.statuses@ == pre.statuses@.insert(
                (feed, origin),
                OracleStatus {
                    last_reported_round: Some(round),
                    last_started_round: if starting {
                        Some(round)
                    } else {
                        st.last_started_round
                    },
                    latest_submission: Some(value),
                    ..st
                },
            ));
            assert(post.feeds@[f] == rec);
            assert(post.cfg(f) == (FeedConfig {
                reporting_round: if starting {
                    round
                } else {
                    cfg.reporting_round
                },
                latest_round: if closed {
                    round
                } else {
                    cfg.latest_round
                },
                first_valid_round: if closed && cfg.first_valid_round is None {
                    Some(round)
                } else {
                    cfg.first_valid_round
                },
                ..cfg
            }));
            assert(post.details_spec(f, round as int) == Some(det));
            assert(post.round_spec(f, round as int) == Some(entry.round));
            assert((closed && round >= 1 + pre.feeds@[f].first_stored_round)
                ==> post.details_spec(f, round - 1) is None);
            assert forall|q: int|
                pre.feeds@[f].first_stored_round <= q < pre.feeds@[f].first_stored_round
                    + pre.feeds@[f].rounds@.len() && q != round implies (
            #[trigger] post.round_spec(f, q) == pre.round_spec(f, q) && (q != round - 1
                ==> post.details_spec(f, q) == pre.details_spec(f, q))) by {
                let i = q - pre.feeds@[f].first_stored_round;
                assert(rec.rounds@[i] == rec1.rounds@[i]
                    || (closed && i == idx - 1 && rec.rounds@[i] == RoundEntry {
                    details: None,
                    ..rec1.rounds@[i]
                }));
            }
            let (nf, nr, nd, nm) = crate::ledger::pay_outcome(
                pre.fund_free,
                pre.fund_reserved,
                pre.debt,
                pre.minimum_reserve,
                pre.oracles@[origin],
                payment,
            );
            assert(post.fund_free == nf && post.fund_reserved == nr && post.debt == nd);
            assert(post.oracles@ == pre.oracles@.insert(origin, nm));
            assert(post == (ChainlinkFeed {
                feeds: post.feeds,
                oracles: post.oracles,
                statuses: post.statuses,
                fund_free: post.fund_free,
                fund_reserved: post.fund_reserved,
                debt: post.debt,
                ..pre
            }));
            let subs = old_subs.push(value);
            let min = if starting {
                cfg.min_submissions
            } else {
                pre.details_spec(f, round as int).unwrap().min_submissions
            };
            assert(closed == (subs.len() >= min));
            assert(match post.round_spec(f, round as int) {
                Some(rnd) => {
                    &&& rnd.started_at == if starting {
                        pre.block_number
                    } else {
                        pre.round_spec(f, round as int).unwrap().started_at
                    }
                    &&& if closed {
                        &&& match rnd.answer {
                            Some(a) => is_median_of(a, subs),
                            None => false,
                        }
                        &&& rnd.updated_at == Some(pre.block_number)
                        &&& rnd.answered_in_round == Some(round)
                    } else {
                        rnd.answer is None && rnd.updated_at is None && rnd.answered_in_round
                            is None
                    }
                },
                None => false,
            });
            assert(submit_ok_rel(pre, post, origin, feed, round, value));
        }
        Ok(())
    }

    /// Whether the reporting round of `feed` can be superseded right now.
    fn reporting_supersedable(&self, feed: FeedId) -> (r: bool)
        requires
            self.wf(),
            self.feed_exists(feed as int),
        ensures
            r == supersedable(*self, feed as int),
    {
        let nfeeds = self.feeds.len();
        proof {
            assert(feed < nfeeds as u64);
        }
        let fid = feed as usize;
        proof {
            assert(rec_wf(self.feeds@[fid as int], self.block_number));
        }
        let rr = self.feeds[fid].config.reporting_round;
        if rr == 0 {
            return true;
        }
        if rr < self.feeds[fid].first_stored_round {
            return true;
        }
        let nrounds = self.feeds[fid].rounds.len();
        proof {
            let frec = self.feeds@[fid as int];
            assert(rr - frec.first_stored_round < nrounds as u64);
        }
        let idx = (rr - self.feeds[fid].first_stored_round) as usize;
        let entry = &self.feeds[fid].rounds[idx];
        if entry.round.answer.is_some() {
            return true;
        }
        match &entry.details {
            Some(d) => d.timeout > 0 && (entry.round.started_at as u128 + d.timeout as u128)
                <= self.block_number as u128,
            None => false,
        }
    }

    /// The first reason a round request is rejected, if any.
    pub open spec fn request_check(
        pre: ChainlinkFeed,
        feed: FeedId,
        account: AccountId,
        authorize: bool,
    ) -> Option<Error> {
        let f = feed as int;
        let rr = pre.cfg(f).reporting_round;
        if authorize && pre.requester_spec(feed, account) is None {
            Some(Error::NotAuthorizedRequester)
        } else if !pre.feed_exists(f) {
            Some(Error::NotAuthorizedRequester)
        } else if match pre.requester_spec(feed, account) {
            Some(q) => match q.last_started_round {
                Some(ls) => rr < u64::MAX && rr + 1 <= ls + q.delay,
                None => false,
            },
            None => false,
        } {
            Some(Error::CannotRequestRoundYet)
        } else if rr == u64::MAX || !supersedable(pre, f) {
            Some(Error::RoundNotSupersedable)
        } else {
            None
        }
    }

    /// What a successful round request does.
    pub open spec fn request_ok_rel(
        pre: ChainlinkFeed,
        post: ChainlinkFeed,
        feed: FeedId,
        account: AccountId,
    ) -> bool {
        let f = feed as int;
        let new_round = (pre.cfg(f).reporting_round + 1) as u64;
        &&& post == (ChainlinkFeed { feeds: post.feeds, requesters: post.requesters, ..pre })
        &&& post.feeds@.len() == pre.feeds@.len()
        &&& forall|g: int| 0 <= g < pre.feeds@.len() && g != f ==> post.feeds@[g] == pre.feeds@[g]
        &&& open_entry_rel(pre.feeds@[f], post.feeds@[f], pre.block_number)
        &&& post.requesters@ == (match pre.requester_spec(feed, account) {
            Some(q) => pre.requesters@.insert(
                (feed, account),
                Requester { last_started_round: Some(new_round), ..q },
            ),
            None => pre.requesters@,
        })
    }

    /// Opens a new round on behalf of `account`. With `authorize` the account
    /// must be a registered requester; a registered requester is always held
    /// to its delay between started rounds.
    pub fn trigger_new_round(&mut self, feed: FeedId, account: AccountId, authorize: bool) -> (r:
        Result<(), Error>)
        requires
            old(self).wf(),
        ensures
            final(self).wf(),
            match Self::request_check(*old(self), feed, account, authorize) {
                Some(e) => r == Err::<(), Error>(e) && *final(self) == *old(self),
                None => r == Ok::<(), Error>(()) && Self::request_ok_rel(
                    *old(self),
                    *final(self),
                    feed,
                    account,
                ),
            },
            old(self).ledger_ok() ==> final(self).ledger_ok(),
    {
        let entry = match self.requesters.get(feed, account) {
            Some(q) => Some(*q),
            None => None,
        };
        if authorize && entry.is_none() {
            return Err(Error::NotAuthorizedRequester);
        }
        if feed >= self.feeds.len() as u64 {
            return Err(Error::NotAuthorizedRequester);
        }
        let fid = feed as usize;
        let rr = self.feeds[fid].config.reporting_round;
        let too_soon = match entry {
            Some(q) => match q.last_started_round {
                Some(ls) => rr < u64::MAX && (rr as u128 + 1) <= ls as u128 + q.delay as u128,
                None => false,
            },
            None => false,
        };
        if too_soon {
            return Err(Error::CannotRequestRoundYet);
        }
        if rr == u64::MAX || !self.reporting_supersedable(feed) {
            return Err(Error::RoundNotSupersedable);
        }
        let mut rec = self.feeds.remove(fid);
        open_round_entry(&mut rec, self.block_number);
        self.feeds.insert(fid, rec);
        proof {
            assert(self.feeds@ =~= old(self).feeds@.update(fid as int, self.feeds@[fid as int]));
        }
        match entry {
            Some(q) => {
                self.requesters.insert(
                    feed,
                    account,
                    Requester { last_started_round: Some(rr + 1), ..q },
                );
            },
            None => {},
        }
        Ok(())
    }

    /// A registered requester triggers a new round on a feed.
    pub fn request_new_round(&mut self, origin: AccountId, feed: FeedId) -> (r: Result<(), Error>)
        requires
            old(self).wf(),
        ensures
            final(self).wf(),
            match Self::request_check(*old(self), feed, origin, true) {
                Some(e) => r == Err::<(), Error>(e) && *final(self) == *old(self),
                None => r == Ok::<(), Error>(()) && Self::request_ok_rel(
                    *old(self),
                    *final(self),
                    feed,
                    origin,
                ),
            },
            old(self).ledger_ok() ==> final(self).ledger_ok(),
    {
        self.trigger_new_round(feed, origin, true)
    }

    /// The first reason `prune` rejects, if any.
    pub open spec fn prune_check(
        pre: ChainlinkFeed,
        origin: AccountId,
        feed: FeedId,
        first: RoundId,
        last: RoundId,
    ) -> Option<Error> {
        let f = feed as int;
        let cfg = pre.cfg(f);
        if !pre.feed_exists(f) {
            Some(Error::FeedNotFound)
        } else if cfg.owner != origin {
            Some(Error::NotFeedOwner)
        } else if first == 0 {
            Some(Error::CannotPruneRoundZero)
        } else if cfg.first_valid_round is None {
            Some(Error::NoValidRoundYet)
        } else if cfg.latest_round < pre.pruning_window || Self::prune_bound(pre, feed, last)
            < first {
            Some(Error::NothingToPrune)
        } else if first != pre.feeds@[f].first_stored_round {
            Some(Error::PruneContiguously)
        } else {
            None
        }
    }

    /// The exclusive upper end of the pruned range: the caller's bound,
    /// clamped so that `pruning_window` rounds up to the latest answer stay.
    pub open spec fn prune_bound(pre: ChainlinkFeed, feed: FeedId, last: RoundId) -> int {
        let keep = pre.cfg(feed as int).latest_round - pre.pruning_window;
        if last <= keep {
            last as int
        } else {
            keep
        }
    }

    /// What a successful `prune` does: rounds up to but excluding `bound`
    /// disappear, everything else stays.
    pub open spec fn prune_ok_rel(
        pre: ChainlinkFeed,
        post: ChainlinkFeed,
        feed: FeedId,
        bound: int,
    ) -> bool {
        let f = feed as int;
        &&& post == (ChainlinkFeed { feeds: post.feeds, ..pre })
        &&& post.feeds@.len() == pre.feeds@.len()
        &&& forall|g: int| 0 <= g < pre.feeds@.len() && g != f ==> post.feeds@[g] == pre.feeds@[g]
        &&& post.cfg(f) == pre.cfg(f)
        &&& post.feeds@[f].first_stored_round == bound
        &&& forall|q: int|
            bound <= q ==> #[trigger] post.round_spec(f, q) == pre.round_spec(f, q)
                && post.details_spec(f, q) == pre.details_spec(f, q)
        &&& forall|q: int|
            q < bound ==> #[trigger] post.round_spec(f, q) is None && post.details_spec(
                f,
                q,
            ) is None
    }

    /// Deletes the rounds `first ..` up to but excluding `last` of a feed,
    /// clamped so that `pruning_window` rounds up to the latest answer always
    /// stay; only the feed owner may, the range must start at the oldest
    /// stored round, and there must be something to prune.
    pub fn prune(&mut self, origin: AccountId, feed: FeedId, first: RoundId, last: RoundId) -> (r:
        Result<(), Error>)
        requires
            old(self).wf(),
        ensures
            final(self).wf(),
            match Self::prune_check(*old(self), origin, feed, first, last) {
                Some(e) => r == Err::<(), Error>(e) && *final(self) == *old(self),
                None => r == Ok::<(), Error>(()) && Self::prune_ok_rel(
                    *old(self),
                    *final(self),
                    feed,
                    Self::prune_bound(*old(self), feed, last),
                ),
            },
            old(self).ledger_ok() ==> final(self).ledger_ok(),
        {
        if feed >= self.feeds.len() as u64 {
            return Err(Error::FeedNotFound);
        }
        let fid = feed as usize;
        if self.feeds[fid].config.owner != origin {
            return Err(Error::NotFeedOwner);
        }
        if first == 0 {
            return Err(Error::CannotPruneRoundZero);
        }
        if self.feeds[fid].config.first_valid_round.is_none() {
            return Err(Error::NoValidRoundYet);
        }
        let latest = self.feeds[fid].config.latest_round;
        if latest < self.pruning_window {
            return Err(Error::NothingToPrune);
        }
        let keep = latest - self.pruning_window;
        let bound = if last <= keep {
            last
        } else {
            keep
        };
        if bound < first {
            return Err(Error::NothingToPrune);
        }
        if first != self.feeds[fid].first_stored_round {
            return Err(Error::PruneContiguously);
        }
        proof {
            assert(rec_wf(self.feeds@[fid as int], self.block_number));
        }
        let mut rec = self.feeds.remove(fid);
        let reclen = rec.rounds.len();
        // bound <= latest <= reporting, so the drop stays within the store.
        proof {
            assert(bound - rec.first_stored_round <= reclen as u64);
        }
        let ghost pre_rec = rec;
        let drop_count = (bound - rec.first_stored_round) as usize;
        let mut dropped: usize = 0;
        while dropped < drop_count
            invariant
                dropped <= drop_count,
                drop_count <= pre_rec.rounds@.len(),
                rec.config == pre_rec.config,
                rec.first_stored_round == pre_rec.first_stored_round,
                rec.rounds@.len() == pre_rec.rounds@.len() - dropped,
                rec.rounds@ =~= pre_rec.rounds@.skip(dropped as int),
            decreases drop_count - dropped,
        {
            let ghost before = rec.rounds@;
            let _ = rec.rounds.remove(0);
            proof {
                assert(rec.rounds@ =~= before.skip(1));
                assert(rec.rounds@ =~= pre_rec.rounds@.skip(dropped + 1 as int));
            }
            dropped = dropped + 1;
        }
        rec.first_stored_round = bound;
        self.feeds.insert(fid, rec);
        proof {
            assert(self.feeds@ =~= old(self).feeds@.update(fid as int, self.feeds@[fid as int]));
            let nrec = self.feeds@[fid as int];
            assert(nrec.rounds@.len() == pre_rec.rounds@.len() - drop_count);
            assert forall|i: int| 0 <= i < nrec.rounds@.len() implies entry_wf(
                #[trigger] nrec.rounds@[i],
                nrec.first_stored_round + i,
                self.block_number,
            ) by {
                assert(nrec.rounds@[i] == pre_rec.rounds@[i + drop_count]);
                assert(entry_wf(
                    pre_rec.rounds@[i + drop_count],
                    pre_rec.first_stored_round + i + drop_count,
                    self.block_number,
                ));
            }
            if nrec.rounds@.len() > 0 {
                assert(nrec.rounds@.last() == pre_rec.rounds@[pre_rec.rounds@.len() - 1]);
                assert(pre_rec.rounds@.last().details is Some);
            }
            assert(rec_wf(nrec, self.block_number));
        }
        Ok(())
    }
}

} // verus!
