//! The data model: feed configuration, rounds, oracle records, requesters
//! and the error enumeration shared by every operation.

use vstd::prelude::*;

verus! {

/// Accounts are identified by the signer id handed in by the dispatch layer.
pub type AccountId = u64;

/// Balances of the module account and payment amounts.
pub type Balance = u64;

/// Block heights, used for round timestamps and timeout decisions.
pub type BlockNumber = u64;

/// Feed identifiers; allocated densely starting from zero.
pub type FeedId = u64;

/// Round identifiers; round zero is the genesis placeholder and never stored.
pub type RoundId = u64;

/// The numeric values that oracles submit.
pub type Value = u64;

/// Per-feed configuration and round bookkeeping.
#[derive(Clone, PartialEq, Eq, Debug)]
pub struct FeedConfig {
    pub owner: AccountId,
    pub pending_owner: Option<AccountId>,
    /// Amount credited to an oracle for each accepted submission.
    pub payment: Balance,
    /// Number of blocks after which an unanswered round can be superseded.
    pub timeout: BlockNumber,
    /// Inclusive lower bound on submitted values.
    pub submission_value_min: Value,
    /// Inclusive upper bound on submitted values.
    pub submission_value_max: Value,
    /// Number of submissions at which a round closes with an answer.
    pub min_submissions: u64,
    /// Upper bound on submissions per round; never above `oracle_count`.
    pub max_submissions: u64,
    pub decimals: u8,
    pub description: Vec<u8>,
    /// Minimum number of rounds an oracle must wait between rounds it starts.
    pub restart_delay: RoundId,
    /// Highest round that closed with an answer.
    pub latest_round: RoundId,
    /// Highest round that was opened.
    pub reporting_round: RoundId,
    /// Lowest round that closed with an answer, once any did.
    pub first_valid_round: Option<RoundId>,
    /// Number of currently enabled oracles.
    pub oracle_count: u64,
}

/// The public per-round record; kept until pruned.
#[derive(Clone, Copy, PartialEq, Eq, Debug)]
pub struct Round {
    pub started_at: BlockNumber,
    pub answer: Option<Value>,
    pub updated_at: Option<BlockNumber>,
    pub answered_in_round: Option<RoundId>,
}

impl Default for Round {
    /// A round that was started at block zero and has no answer yet.
    fn default() -> (r: Self)
        ensures
            r == (Round {
                started_at: 0,
                answer: None,
                updated_at: None,
                answered_in_round: None,
            }),
    {
        Round { started_at: 0, answer: None, updated_at: None, answered_in_round: None }
    }
}

/// The transient per-round record holding the submissions received so far and
/// the feed parameters cloned when the round was opened.
#[derive(Clone, PartialEq, Eq, Debug)]
pub struct RoundDetails {
    pub submissions: Vec<Value>,
    /// Number of submissions at which the round closes, cloned at opening.
    pub min_submissions: u64,
    /// Upper submission bound cloned at opening.
    pub max_submissions: u64,
    pub payment: Balance,
    pub timeout: BlockNumber,
}

/// Global per-oracle record: earned payments and the admin allowed to
/// withdraw them.
#[derive(Clone, Copy, PartialEq, Eq, Debug)]
pub struct OracleMeta {
    pub withdrawable: Balance,
    pub admin: AccountId,
    pub pending_admin: Option<AccountId>,
}

impl Default for OracleMeta {
    /// An oracle record with nothing earned and account zero as admin.
    fn default() -> (r: Self)
        ensures
            r == (OracleMeta { withdrawable: 0, admin: 0, pending_admin: None }),
    {
        OracleMeta { withdrawable: 0, admin: 0, pending_admin: None }
    }
}

/// Membership record of one oracle on one feed.
#[derive(Clone, Copy, PartialEq, Eq, Debug)]
pub struct OracleStatus {
    /// First round the oracle may report on.
    pub starting_round: RoundId,
    /// Last round the oracle may report on; `None` while enabled.
    pub ending_round: Option<RoundId>,
    pub last_reported_round: Option<RoundId>,
    pub last_started_round: Option<RoundId>,
    pub latest_submission: Option<Value>,
}

impl Default for OracleStatus {
    /// A fresh status able to report from round one on.
    fn default() -> (r: Self)
        ensures
            r == (OracleStatus {
                starting_round: 1,
                ending_round: None,
                last_reported_round: None,
                last_started_round: None,
                latest_submission: None,
            }),
    {
        OracleStatus {
            starting_round: 1,
            ending_round: None,
            last_reported_round: None,
            last_started_round: None,
            latest_submission: None,
        }
    }
}

/// An account allowed to trigger new rounds on a feed, subject to a delay.
#[derive(Clone, Copy, PartialEq, Eq, Debug)]
pub struct Requester {
    pub delay: RoundId,
    pub last_started_round: Option<RoundId>,
}

/// Snapshot of the latest answered round, as handed to feed consumers.
#[derive(Clone, Copy, PartialEq, Eq, Debug)]
pub struct RoundData {
    pub started_at: BlockNumber,
    pub answer: Value,
    pub updated_at: BlockNumber,
    pub answered_in_round: RoundId,
}

impl Default for RoundData {
    /// The placeholder data reported before any round has an answer.
    fn default() -> (r: Self)
        ensures
            r == (RoundData { started_at: 0, answer: 0, updated_at: 0, answered_in_round: 0 }),
    {
        RoundData { started_at: 0, answer: 0, updated_at: 0, answered_in_round: 0 }
    }
}

/// Every way an operation can be rejected; returned before any state change.
#[derive(Clone, Copy, PartialEq, Eq, Debug)]
pub enum Error {
    NotPalletAdmin,
    NotPendingPalletAdmin,
    NotFeedCreator,
    NotFeedOwner,
    NotPendingOwner,
    NotAdmin,
    NotPendingAdmin,
    NotOracle,
    NotAuthorizedRequester,
    FeedNotFound,
    OracleNotFound,
    RequesterNotFound,
    DescriptionTooLong,
    OraclesLimitExceeded,
    FeedLimitReached,
    WrongBounds,
    DelayNotBelowCount,
    MaxExceededTotal,
    NotEnoughOracles,
    OwnerCannotChangeAdmin,
    OracleDisabled,
    AlreadyEnabled,
    InvalidRound,
    RoundNotSupersedable,
    CannotRequestRoundYet,
    SubmissionBelowMinimum,
    SubmissionAboveMaximum,
    InsufficientFunds,
    InsufficientReserve,
    CannotPruneRoundZero,
    NothingToPrune,
    PruneContiguously,
    NoValidRoundYet,
}

/// Two feed configurations agree on every field; spelled out because a
/// fresh copy of the `description` vector is a different `Vec` value with
/// the same view.
pub open spec fn cfg_eq(a: FeedConfig, b: FeedConfig) -> bool {
    &&& a.owner == b.owner
    &&& a.pending_owner == b.pending_owner
    &&& a.payment == b.payment
    &&& a.timeout == b.timeout
    &&& a.submission_value_min == b.submission_value_min
    &&& a.submission_value_max == b.submission_value_max
    &&& a.min_submissions == b.min_submissions
    &&& a.max_submissions == b.max_submissions
    &&& a.decimals == b.decimals
    &&& a.description@ == b.description@
    &&& a.restart_delay == b.restart_delay
    &&& a.latest_round == b.latest_round
    &&& a.reporting_round == b.reporting_round
    &&& a.first_valid_round == b.first_valid_round
    &&& a.oracle_count == b.oracle_count
}

impl FeedConfig {
    /// Field-for-field copy; `Clone` on a type with a `Vec` field carries no
    /// contract, so the copy is spelled out.
    pub fn duplicate(&self) -> (r: Self)
        ensures
            cfg_eq(r, *self),
    {
        FeedConfig {
            owner: self.owner,
            pending_owner: self.pending_owner,
            payment: self.payment,
            timeout: self.timeout,
            submission_value_min: self.submission_value_min,
            submission_value_max: self.submission_value_max,
            min_submissions: self.min_submissions,
            max_submissions: self.max_submissions,
            decimals: self.decimals,
            description: copy_values(&self.description),
            restart_delay: self.restart_delay,
            latest_round: self.latest_round,
            reporting_round: self.reporting_round,
            first_valid_round: self.first_valid_round,
            oracle_count: self.oracle_count,
        }
    }
}

/// Copies a vector of plain values element by element.
pub fn copy_values<T: Copy>(v: &Vec<T>) -> (r: Vec<T>)
    ensures
        r@ == v@,
{
    let mut r: Vec<T> = Vec::new();
    let mut i: usize = 0;
    while i < v.len()
        invariant
            i <= v.len(),
            r@ == v@.subrange(0, i as int),
        decreases v.len() - i,
    {
        r.push(v[i]);
        i = i + 1;
    }
    assert(v@.subrange(0, v@.len() as int) == v@);
    r
}

} // verus!
