//! What the operations report to the outside.
use crate::bank::BankConfigOpt;
use crate::pubkey::Pubkey;
use vstd::prelude::*;

verus! {

/// The part of an account event that says who made the call and on which
/// account.
#[derive(Clone, Copy, Debug, PartialEq, Eq, Structural)]
pub struct AccountEventHeader {
    /// Who signed the call.
    pub signer: Option<Pubkey>,
    /// The key under which the account is kept.
    pub astrolend_account: Pubkey,
    pub astrolend_account_authority: Pubkey,
    pub astrolend_group: Pubkey,
}

/// What a borrow reports: the bank, its mint, and the units that left the
/// bank's vault.
#[derive(Clone, Copy, Debug, PartialEq, Eq, Structural)]
pub struct LendingAccountBorrowEvent {
    pub header: AccountEventHeader,
    pub bank: Pubkey,
    pub mint: Pubkey,
    pub amount: u64,
}

/// The part of a group event that says who made the call and on which
/// group.
#[derive(Clone, Copy, Debug, PartialEq, Eq, Structural)]
pub struct GroupEventHeader {
    pub astrolend_group: Pubkey,
    /// Who signed the call.
    pub signer: Option<Pubkey>,
}

/// What a change of a bank's configuration reports.
#[derive(Clone, Copy, Debug, PartialEq, Eq, Structural)]
pub struct LendingPoolBankConfigureEvent {
    pub header: GroupEventHeader,
    pub bank: Pubkey,
    pub mint: Pubkey,
    pub config: BankConfigOpt,
}

} // verus!
