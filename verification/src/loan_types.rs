//! Data types of the credit-scored loan ledger.

use vstd::prelude::*;

verus! {

/// An on-ledger participant, named by an opaque identifier the host
/// assigns.  Only equality of identifiers matters to the ledger.
#[derive(Clone, Copy, Debug, PartialEq, Eq, Structural)]
pub struct Address {
    /// The host-assigned identifier.
    pub id: u64,
}

/// Record of one loan disbursement.
#[derive(Clone, Copy, Debug, PartialEq, Eq, Structural)]
pub struct LoanRecord {
    /// Who received the loan.
    pub recipient: Address,
    /// Amount in stroops (7 decimal places).
    pub amount: i128,
    /// The recipient's credit score at disbursement time.
    pub credit_score: u32,
    /// Ledger time of the disbursement.
    pub timestamp: u64,
    /// Reference for the disbursement; the ledger timestamp stands in for
    /// a transaction hash.
    pub transaction_hash: u64,
}

/// Result of a successful loan transfer.
#[derive(Clone, Copy, Debug, PartialEq, Eq, Structural)]
pub struct TransferResult {
    /// Always true for a returned result; failures surface as errors.
    pub success: bool,
    /// Amount disbursed.
    pub amount: i128,
    /// Who received the loan.
    pub recipient: Address,
    /// Ledger time of the disbursement.
    pub timestamp: u64,
}

/// Configuration of the loan ledger.
#[derive(Clone, Copy, Debug, PartialEq, Eq, Structural)]
pub struct LoanConfig {
    /// The administrator allowed to fund the pool.
    pub admin: Address,
    /// The token contract the pool is denominated in.
    pub token_address: Address,
    /// The account holding the pool funds.
    pub pool_address: Address,
    /// Minimum credit score required for a loan (500..=850).
    pub min_credit_score: u32,
    /// Set when the ledger has been configured.
    pub initialized: bool,
}

/// Rejection reasons of the loan ledger.
#[derive(Clone, Copy, Debug, PartialEq, Eq, Structural)]
pub enum LoanError {
    /// The ledger has not been configured.
    NotInitialized,
    /// The ledger is already configured.
    AlreadyInitialized,
    /// The credit score is below the configured minimum.
    InsufficientCreditScore,
    /// The pool holds less than the requested amount.
    InsufficientPoolFunds,
    /// The recipient took a loan within the last 24 hours.
    DuplicateLoan,
    /// The caller is not the configured administrator.
    Unauthorized,
    /// A non-positive amount, or a minimum score outside 500..=850.
    InvalidAmount,
}

/// The logical storage slots of the ledger, as the host's key-value store
/// names them.
#[derive(Clone, Copy, Debug)]
pub enum StorageKey {
    /// The `LoanConfig` slot.
    Config,
    /// The per-user loan history.
    LoanHistory(Address),
    /// The pool balance.
    PoolBalance,
    /// The per-user timestamp of the most recent loan.
    LastLoanTimestamp(Address),
}

} // verus!
