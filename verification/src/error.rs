//! Reasons for which an operation on the ledger is rejected.
use vstd::prelude::*;

verus! {

/// Why an operation was rejected. A rejected operation changes nothing.
#[derive(Clone, Copy, Debug, PartialEq, Eq, Structural)]
pub enum AstrolendError {
    /// A fixed-point result cannot be represented.
    MathError,
    /// A deposit or a borrow would take the bank past its configured cap.
    LimitExceeded,
    /// The slot holds the opposite position, or less than the operation takes.
    InvalidPosition,
    /// A price needed for the health check is absent, given twice, stale or
    /// outside its confidence bound.
    StaleOrMissingPrice,
    /// Weighted collateral is below weighted liabilities.
    Unhealthy,
    /// The account is barred from borrowing and withdrawing.
    AccountDisabled,
    /// The account has no slot for the bank and no empty slot.
    BalanceSlotsFull,
    /// No bank with the given key is known.
    BankNotFound,
    /// The bank does not take new borrows.
    BankBorrowsDisabled,
    /// The bank configuration is not well formed.
    InvalidConfig,
    /// The account's collateral still covers part of its liabilities.
    AccountNotBankrupt,
    /// Emissions were already set up for the bank.
    EmissionsAlreadySetup,
    /// Emissions were not set up for the bank, or for another mint.
    EmissionsUpdateError,
    /// Emissions flags other than the two known ones are set.
    InvalidEmissionsFlags,
    /// A new oracle was configured without exactly one observation of it.
    InvalidOracleSetup,
    /// More is taken from a reserve than it holds.
    InsufficientReserve,
    /// The bank would owe its lenders less than its borrowers owe it.
    InsufficientLiquidity,
}

} // verus!
