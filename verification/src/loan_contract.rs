//! The credit-scored loan ledger: pool balance and loan history
//! bookkeeping, gated by a numeric credit-score threshold.
//!
//! The ledger is held as a plain value; the host owns persistent storage
//! and the clock, passes the state and the current ledger time in, and
//! writes the state back.  The per-user last-loan timestamp is the
//! timestamp of the user's most recently recorded loan.

use vstd::prelude::*;

use crate::loan_types::{Address, LoanConfig, LoanError, LoanRecord, TransferResult};

verus! {

/// The loans of `user`, in the order they were recorded.
pub open spec fn loans_of(history: Seq<LoanRecord>, user: Address) -> Seq<LoanRecord>
    decreases history.len(),
{
    if history.len() == 0 {
        Seq::empty()
    } else {
        let prefix = loans_of(history.drop_last(), user);
        if history.last().recipient == user {
            prefix.push(history.last())
        } else {
            prefix
        }
    }
}

/// The timestamp of the most recently recorded loan of `user`, if any.
pub open spec fn last_loan_timestamp(history: Seq<LoanRecord>, user: Address) -> Option<u64>
    decreases history.len(),
{
    if history.len() == 0 {
        None
    } else if history.last().recipient == user {
        Some(history.last().timestamp)
    } else {
        last_loan_timestamp(history.drop_last(), user)
    }
}

///`now - ts`, saturating at zero as the ledger clock may step backwards.
pub open spec fn elapsed_since(now: u64, ts: u64) -> int {
    if now >= ts {
        now - ts
    } else {
        0
    }
}

/// Whether `user` has a loan recorded within the last 24 hours (86400
/// seconds) of ledger time.
pub open spec fn has_active_loan_spec(history: Seq<LoanRecord>, user: Address, now: u64) -> bool {
    match last_loan_timestamp(history, user) {
        None => false,
        Some(ts) => elapsed_since(now, ts) < 86400,
    }
}

/// Whether a loan request would be granted on the given ledger state.
pub open spec fn eligible_spec(
    config: Option<LoanConfig>,
    pool_balance: i128,
    history: Seq<LoanRecord>,
    user: Address,
    amount: i128,
    credit_score: u32,
    now: u64,
) -> bool {
    &&& config is Some
    &&& credit_score >= config->Some_0.min_credit_score
    &&& !has_active_loan_spec(history, user, now)
    &&& pool_balance >= amount
    &&& amount > 0
}

/// The loan ledger state: configuration, pool balance, and the recorded
/// loans in disbursement order.
pub struct LoanContract {
    config: Option<LoanConfig>,
    pool_balance: i128,
    history: Vec<LoanRecord>,
}

impl LoanContract {
    /// The configuration, if the ledger was initialized.
    pub closed spec fn spec_config(self) -> Option<LoanConfig> {
        self.config
    }

    /// The pool balance.
    pub closed spec fn spec_pool_balance(self) -> i128 {
        self.pool_balance
    }

    /// All recorded loans, in disbursement order.
    pub closed spec fn spec_history(self) -> Seq<LoanRecord> {
        self.history@
    }

    /// A fresh, unconfigured ledger.
    pub fn new() -> (r: Self)
        ensures
            r.spec_config() is None,
            r.spec_pool_balance() == 0,
            r.spec_history() == Seq::<LoanRecord>::empty(),
    {
        LoanContract { config: None, pool_balance: 0, history: Vec::new() }
    }

    /// Configure the ledger with its administrator, token and pool
    /// addresses, and minimum credit score.
    ///
    /// Fails `AlreadyInitialized` if configured, and `InvalidAmount`
    /// unless the minimum score lies in 500..=850; the pool starts empty.
    pub fn initialize(
        &mut self,
        admin: Address,
        token_address: Address,
        pool_address: Address,
        min_credit_score: u32,
    ) -> (r: Result<(), LoanError>)
        ensures
            ({
                if old(self).spec_config() is Some {
                    r == Err::<(), LoanError>(LoanError::AlreadyInitialized) && *final(self)
                        == *old(self)
                } else if min_credit_score < 500 || min_credit_score > 850 {
                    r == Err::<(), LoanError>(LoanError::InvalidAmount) && *final(self) == *old(
                        self,
                    )
                } else {
                    &&& r == Ok::<(), LoanError>(())
                    &&& final(self).spec_config() == Some(
                        (LoanConfig {
                            admin,
                            token_address,
                            pool_address,
                            min_credit_score,
                            initialized: true,
                        }),
                    )
                    &&& final(self).spec_pool_balance() == 0
                    &&& final(self).spec_history() == old(self).spec_history()
                }
            }),
    {
        if self.config.is_some() {
            return Err(LoanError::AlreadyInitialized);
        }
        if min_credit_score < 500 || min_credit_score > 850 {
            return Err(LoanError::InvalidAmount);
        }
        self.config = Some(
            LoanConfig { admin, token_address, pool_address, min_credit_score, initialized: true },
        );
        self.pool_balance = 0;
        Ok(())
    }

    /// The configuration, or `NotInitialized`.
    fn require_initialized(&self) -> (r: Result<LoanConfig, LoanError>)
        ensures
            match r {
                Ok(c) => self.spec_config() == Some(c),
                Err(e) => self.spec_config() is None && e == LoanError::NotInitialized,
            },
    {
        match &self.config {
            Some(c) => Ok(*c),
            None => Err(LoanError::NotInitialized),
        }
    }

    /// Ok exactly when the ledger is configured and `caller` is its
    /// administrator.
    fn require_admin(&self, caller: &Address) -> (r: Result<(), LoanError>)
        ensures
            match r {
                Ok(()) => self.spec_config() matches Some(c) && c.admin == *caller,
                Err(e) => {
                    ||| (self.spec_config() is None && e == LoanError::NotInitialized)
                    ||| (self.spec_config() matches Some(c) && c.admin != *caller && e
                        == LoanError::Unauthorized)
                },
            },
    {
        let config = match self.require_initialized() {
            Ok(c) => c,
            Err(e) => {
                return Err(e);
            },
        };
        if !(config.admin == *caller) {
            return Err(LoanError::Unauthorized);
        }
        Ok(())
    }

    /// Whether `user` has a loan recorded within the last 24 hours.
    fn has_active_loan(&self, user: &Address, now: u64) -> (r: bool)
        ensures
            r == has_active_loan_spec(self.spec_history(), *user, now),
    {
        let mut idx: usize = self.history.len();
        proof {
            assert(self.spec_history().take(idx as int) =~= self.spec_history());
        }
        while idx > 0
            invariant
                idx <= self.spec_history().len(),
                last_loan_timestamp(self.spec_history(), *user) == last_loan_timestamp(
                    self.spec_history().take(idx as int),
                    *user,
                ),
            decreases idx,
        {
            let record = self.history[idx - 1];
            proof {
                assert(self.spec_history().take(idx as int).last() == record);
                assert(self.spec_history().take(idx as int).drop_last() =~= self.spec_history()
                    .take(idx - 1));
            }
            if record.recipient == *user {
                let ts = record.timestamp;
                return if now >= ts {
                    now - ts < 86400
                } else {
                    true
                };
            }
            idx = idx - 1;
        }
        false
    }

    /// Append a loan to the history; its timestamp becomes the
    /// recipient's last-loan timestamp.
    fn record_loan(&mut self, loan: LoanRecord)
        ensures
            final(self).spec_history() == old(self).spec_history().push(loan),
            final(self).spec_config() == old(self).spec_config(),
            final(self).spec_pool_balance() == old(self).spec_pool_balance(),
    {
        self.history.push(loan);
    }

    /// Disburse a loan to `recipient` at ledger time `now`.
    ///
    /// The checks run in order and the first failure is terminal and
    /// leaves the ledger untouched: configured (`NotInitialized`),
    /// positive amount (`InvalidAmount`), score at least the configured
    /// minimum (`InsufficientCreditScore`), no loan to `recipient` within
    /// 24 hours (`DuplicateLoan`), pool at least the amount
    /// (`InsufficientPoolFunds`).  On success the pool shrinks by the
    /// amount and the loan is recorded.
    pub fn transfer_loan(
        &mut self,
        recipient: Address,
        amount: i128,
        credit_score: u32,
        now: u64,
    ) -> (r: Result<TransferResult, LoanError>)
        ensures
            ({
                let s0 = *old(self);
                if s0.spec_config() is None {
                    r == Err::<TransferResult, LoanError>(LoanError::NotInitialized) && *final(self) == s0
                } else if amount <= 0 {
                    r == Err::<TransferResult, LoanError>(LoanError::InvalidAmount) && *final(self)
                        == s0
                } else if credit_score < s0.spec_config()->Some_0.min_credit_score {
                    r == Err::<TransferResult, LoanError>(LoanError::InsufficientCreditScore)
                        && *final(self) == s0
                } else if has_active_loan_spec(s0.spec_history(), recipient, now) {
                    r == Err::<TransferResult, LoanError>(LoanError::DuplicateLoan) && *final(self)
                        == s0
                } else if s0.spec_pool_balance() < amount {
                    r == Err::<TransferResult, LoanError>(LoanError::InsufficientPoolFunds)
                        && *final(self) == s0
                } else {
                    &&& r == Ok::<TransferResult, LoanError>(
                        (TransferResult { success: true, amount, recipient, timestamp: now }),
                    )
                    &&& final(self).spec_config() == s0.spec_config()
                    &&& final(self).spec_pool_balance() == s0.spec_pool_balance() - amount
                    &&& final(self).spec_history() == s0.spec_history().push(
                        (LoanRecord {
                            recipient,
                            amount,
                            credit_score,
                            timestamp: now,
                            transaction_hash: now,
                        }),
                    )
                }
            }),
    {
        let config = match self.require_initialized() {
            Ok(c) => c,
            Err(e) => {
                return Err(e);
            },
        };
        if amount <= 0 {
            return Err(LoanError::InvalidAmount);
        }
        if credit_score < config.min_credit_score {
            return Err(LoanError::InsufficientCreditScore);
        }
        if self.has_active_loan(&recipient, now) {
            return Err(LoanError::DuplicateLoan);
        }
        if self.pool_balance < amount {
            return Err(LoanError::InsufficientPoolFunds);
        }
        self.pool_balance = self.pool_balance - amount;
        let loan = LoanRecord { recipient, amount, credit_score, timestamp: now, transaction_hash: now };
        self.record_loan(loan);
        Ok(TransferResult { success: true, amount, recipient, timestamp: now })
    }

    /// The loans of `user`, in the order they were disbursed.
    pub fn get_loan_history(&self, user: Address) -> (r: Vec<LoanRecord>)
        ensures
            r@ == loans_of(self.spec_history(), user),
    {
        let mut out: Vec<LoanRecord> = Vec::new();
        let mut i: usize = 0;
        proof {
            assert(loans_of(self.spec_history().take(0), user) =~= Seq::<LoanRecord>::empty());
        }
        while i < self.history.len()
            invariant
                i <= self.spec_history().len(),
                out@ == loans_of(self.spec_history().take(i as int), user),
            decreases self.spec_history().len() - i,
        {
            let record = self.history[i];
            proof {
                assert(self.spec_history().take(i + 1).last() == record);
                assert(self.spec_history().take(i + 1).drop_last() =~= self.spec_history().take(
                    i as int,
                ));
            }
            if record.recipient == user {
                out.push(record);
            }
            i = i + 1;
        }
        proof {
            assert(self.spec_history().take(self.spec_history().len() as int) =~= self
                .spec_history());
        }
        out
    }

    /// Add admin funds to the pool and return the new balance.
    ///
    /// Fails `NotInitialized` or `Unauthorized` unless `admin` is the
    /// configured administrator, and `InvalidAmount` unless the amount is
    /// positive; on failure the ledger is untouched.
    pub fn deposit_to_pool(&mut self, admin: Address, amount: i128) -> (r: Result<
        i128,
        LoanError,
    >)
        requires
            (old(self).spec_config() matches Some(c) && c.admin == admin && amount > 0) ==> old(
                self,
            ).spec_pool_balance() + amount <= i128::MAX,
        ensures
            ({
                let s0 = *old(self);
                if s0.spec_config() is None {
                    r == Err::<i128, LoanError>(LoanError::NotInitialized) && *final(self) == s0
                } else if s0.spec_config()->Some_0.admin != admin {
                    r == Err::<i128, LoanError>(LoanError::Unauthorized) && *final(self) == s0
                } else if amount <= 0 {
                    r == Err::<i128, LoanError>(LoanError::InvalidAmount) && *final(self) == s0
                } else {
                    &&& r == Ok::<i128, LoanError>((s0.spec_pool_balance() + amount) as i128)
                    &&& final(self).spec_pool_balance() == s0.spec_pool_balance() + amount
                    &&& final(self).spec_config() == s0.spec_config()
                    &&& final(self).spec_history() == s0.spec_history()
                }
            }),
    {
        match self.require_admin(&admin) {
            Ok(()) => (),
            Err(e) => {
                return Err(e);
            },
        }
        if amount <= 0 {
            return Err(LoanError::InvalidAmount);
        }
        let new_balance = self.pool_balance + amount;
        self.pool_balance = new_balance;
        Ok(new_balance)
    }

    /// The current pool balance.
    pub fn get_pool_balance(&self) -> (r: i128)
        ensures
            r == self.spec_pool_balance(),
    {
        self.pool_balance
    }

    /// Whether a loan of `amount` to `user` with `credit_score` would be
    /// granted at ledger time `now`.
    pub fn check_eligibility(&self, user: Address, amount: i128, credit_score: u32, now: u64) -> (r:
        bool)
        ensures
            r == eligible_spec(
                self.spec_config(),
                self.spec_pool_balance(),
                self.spec_history(),
                user,
                amount,
                credit_score,
                now,
            ),
    {
        let config = match self.require_initialized() {
            Ok(c) => c,
            Err(_) => {
                return false;
            },
        };
        if credit_score < config.min_credit_score {
            return false;
        }
        if self.has_active_loan(&user, now) {
            return false;
        }
        if self.pool_balance < amount {
            return false;
        }
        if amount <= 0 {
            return false;
        }
        true
    }
}

} // verus!
