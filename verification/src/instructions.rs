//! The operations of the ledger, each one atomic.
//!
//! An operation names an account, one bank and what to do. It first accrues
//! the bank's interest, then changes the account's slot and the bank's totals
//! together, and, where it takes value out of the account, checks the
//! account's health on the result. If any step is rejected, neither the
//! account nor any bank has changed.
use crate::account::{lemma_first_slot, AstrolendAccount, LendingAccount};
use crate::bank::{banks_wf, find_bank, spec_find_bank, Bank};
use crate::error::AstrolendError;
use crate::events::{AccountEventHeader, LendingAccountBorrowEvent};
use crate::position::BankAccountWrapper;
use crate::price::PriceObservation;
use crate::pubkey::Pubkey;
use crate::risk::{spec_check_health, RiskEngine, RiskRequirementType};
use crate::transfer_fee::{gross_amount, spec_gross_amount};
use vstd::prelude::*;

verus! {

/// What to do with one position of an account.
#[derive(Clone, Copy, Debug, PartialEq, Eq, Structural)]
pub enum Operation {
    /// Put `amount` units in.
    Deposit { amount: u64 },
    /// Take out what it takes for `amount` units to arrive.
    Withdraw { amount: u64, fee_basis_points: Option<u16> },
    /// Take out everything the position holds.
    WithdrawAll,
    /// Borrow what it takes for `amount` units to arrive.
    Borrow { amount: u64, fee_basis_points: Option<u16> },
    /// Pay `amount` units back.
    Repay { amount: u64 },
    /// Pay back everything the position owes.
    RepayAll,
}

/// The state that an operation reads and changes: one account and the banks
/// of its group.
pub struct Ledger {
    pub account: AstrolendAccount,
    pub banks: Seq<Bank>,
}

impl Operation {
    /// Whether the operation takes value out of the account. Such an
    /// operation is closed to a disabled account and must leave the account
    /// healthy.
    pub open spec fn spec_takes_out(&self) -> bool {
        match self {
            Operation::Deposit { .. } => false,
            Operation::Withdraw { .. } => true,
            Operation::WithdrawAll => true,
            Operation::Borrow { .. } => true,
            Operation::Repay { .. } => false,
            Operation::RepayAll => false,
        }
    }

    /// Whether the operation takes a slot into use where the account has none
    /// for the bank.
    pub open spec fn spec_opens_slot(&self) -> bool {
        match self {
            Operation::Deposit { .. } => true,
            Operation::Borrow { .. } => true,
            _ => false,
        }
    }

    /// Whether the operation takes value out of the account.
    pub fn takes_out(&self) -> (r: bool)
        ensures
            r == self.spec_takes_out(),
    {
        match self {
            Operation::Deposit { .. } => false,
            Operation::Withdraw { .. } => true,
            Operation::WithdrawAll => true,
            Operation::Borrow { .. } => true,
            Operation::Repay { .. } => false,
            Operation::RepayAll => false,
        }
    }

    /// Whether the operation takes a slot into use where there is none.
    pub fn opens_slot(&self) -> (r: bool)
        ensures
            r == self.spec_opens_slot(),
    {
        match self {
            Operation::Deposit { .. } => true,
            Operation::Borrow { .. } => true,
            _ => false,
        }
    }

    /// The position after the operation, and the units that move between the
    /// bank's vault and the outside. For a withdrawal and a borrow these are
    /// the units to send so that the requested amount arrives after the
    /// transfer fee; the position is charged for all of them.
    pub open spec fn spec_applied(&self, position: BankAccountWrapper) -> Result<
        (BankAccountWrapper, u64),
        AstrolendError,
    > {
        match self {
            Operation::Deposit { amount } => match position.spec_deposit(*amount) {
                Ok(next) => Ok((next, *amount)),
                Err(e) => Err(e),
            },
            Operation::Withdraw { amount, fee_basis_points } => match spec_gross_amount(
                *fee_basis_points,
                *amount,
            ) {
                None => Err(AstrolendError::MathError),
                Some(gross) => match position.spec_withdraw(gross) {
                    Ok(next) => Ok((next, gross)),
                    Err(e) => Err(e),
                },
            },
            Operation::WithdrawAll => position.spec_withdraw_all(),
            Operation::Borrow { amount, fee_basis_points } => match spec_gross_amount(
                *fee_basis_points,
                *amount,
            ) {
                None => Err(AstrolendError::MathError),
                Some(gross) => match position.spec_borrow(gross) {
                    Ok(next) => Ok((next, gross)),
                    Err(e) => Err(e),
                },
            },
            Operation::Repay { amount } => match position.spec_repay(*amount) {
                Ok(next) => Ok((next, *amount)),
                Err(e) => Err(e),
            },
            Operation::RepayAll => position.spec_repay_all(),
        }
    }

    /// Applied to a well-formed position, an operation leaves it well formed,
    /// moves the same number of shares in the slot and in the bank's total,
    /// and leaves the slot with one kind of shares at most.
    pub proof fn lemma_applied_keeps_order(&self, position: BankAccountWrapper)
        requires
            position.wf(),
            self.spec_opens_slot() ==> position.balance.active,
        ensures
            self.spec_applied(position) matches Ok((next, _)) ==> position.moved_to(next),
    {
        match self {
            Operation::Deposit { amount } => position.lemma_operations_keep_order(*amount),
            Operation::Repay { amount } => position.lemma_operations_keep_order(*amount),
            Operation::Withdraw { amount, fee_basis_points } => {
                if spec_gross_amount(*fee_basis_points, *amount) is Some {
                    position.lemma_operations_keep_order(
                        spec_gross_amount(*fee_basis_points, *amount).unwrap(),
                    );
                }
            },
            Operation::Borrow { amount, fee_basis_points } => {
                if spec_gross_amount(*fee_basis_points, *amount) is Some {
                    position.lemma_operations_keep_order(
                        spec_gross_amount(*fee_basis_points, *amount).unwrap(),
                    );
                }
            },
            _ => position.lemma_operations_keep_order(0),
        }
    }

    /// Applies the operation to a position and returns the units that move.
    /// A rejected operation leaves the position as it was.
    pub fn apply(&self, position: &mut BankAccountWrapper) -> (r: Result<u64, AstrolendError>)
        requires
            old(position).wf(),
            self.spec_opens_slot() ==> old(position).balance.active,
        ensures
            match self.spec_applied(*old(position)) {
                Ok((next, units)) => r == Ok::<u64, AstrolendError>(units) && *final(position)
                    == next,
                Err(e) => r == Err::<u64, AstrolendError>(e) && *final(position) == *old(
                    position,
                ),
            },
            final(position).wf(),
            r is Ok ==> old(position).moved_to(*final(position)),
    {
        proof {
            self.lemma_applied_keeps_order(*position);
        }
        match self {
            Operation::Deposit { amount } => {
                position.deposit(*amount)?;
                Ok(*amount)
            },
            Operation::Withdraw { amount, fee_basis_points } => {
                let gross = match gross_amount(*fee_basis_points, *amount) {
                    Some(v) => v,
                    None => { return Err(AstrolendError::MathError); },
                };
                position.withdraw(gross)?;
                Ok(gross)
            },
            Operation::WithdrawAll => position.withdraw_all(),
            Operation::Borrow { amount, fee_basis_points } => {
                let gross = match gross_amount(*fee_basis_points, *amount) {
                    Some(v) => v,
                    None => { return Err(AstrolendError::MathError); },
                };
                position.borrow(gross)?;
                Ok(gross)
            },
            Operation::Repay { amount } => {
                position.repay(*amount)?;
                Ok(*amount)
            },
            Operation::RepayAll => position.repay_all(),
        }
    }
}

/// The slot of the account that an operation works on, with the slots as
/// they are once it is found: an operation that opens slots takes a free one
/// into use where the bank has none, else `BalanceSlotsFull`; any other
/// operation needs the bank's slot, else `InvalidPosition`.
pub open spec fn spec_slot_for(
    slots: LendingAccount,
    bank_pk: Pubkey,
    operation: Operation,
    now: i64,
) -> Result<(int, LendingAccount), AstrolendError> {
    if operation.spec_opens_slot() {
        match slots.spec_find_or_create(bank_pk, now) {
            Some(found) => Ok(found),
            None => Err(AstrolendError::BalanceSlotsFull),
        }
    } else {
        match slots.spec_find(bank_pk) {
            Some(i) => Ok((i, slots)),
            None => Err(AstrolendError::InvalidPosition),
        }
    }
}

/// The ledger after an operation on the account's position in the bank
/// `bank_pk`, and the units that move; or the reason for which the operation
/// is rejected. The steps, in their order:
///
/// 1. the bank is looked up, else `BankNotFound`;
/// 2. an operation that takes value out is closed to a disabled account,
///    else `AccountDisabled`;
/// 3. the bank's interest is accrued up to `now`, else `MathError`;
/// 4. the account's slot for the bank is found or taken into use;
/// 5. the operation is applied to the slot and the bank together;
/// 6. after an operation that takes value out, the account must pass the
///    initial health check on the result.
pub open spec fn spec_execute(
    before: Ledger,
    bank_pk: Pubkey,
    operation: Operation,
    prices: Seq<PriceObservation>,
    now: i64,
) -> Result<(Ledger, u64), AstrolendError> {
    match spec_find_bank(before.banks, bank_pk, 0) {
        None => Err(AstrolendError::BankNotFound),
        Some(j) => if operation.spec_takes_out() && before.account.disabled {
            Err(AstrolendError::AccountDisabled)
        } else {
            match before.banks[j].spec_accrued(now) {
                None => Err(AstrolendError::MathError),
                Some(bank) => match spec_slot_for(
                    before.account.lending_account,
                    bank_pk,
                    operation,
                    now,
                ) {
                    Err(e) => Err(e),
                    Ok((i, slots)) => match operation.spec_applied(
                        BankAccountWrapper { balance: slots.balances[i], bank },
                    ) {
                        Err(e) => Err(e),
                        Ok((position, units)) => {
                            let after = Ledger {
                                account: AstrolendAccount {
                                    lending_account: LendingAccount {
                                        balances: vstd::array::spec_array_update(
                                            slots.balances,
                                            i,
                                            position.balance,
                                        ),
                                    },
                                    ..before.account
                                },
                                banks: before.banks.update(j, position.bank),
                            };
                            if operation.spec_takes_out() {
                                match spec_check_health(
                                    after.account,
                                    after.banks,
                                    prices,
                                    now,
                                    RiskRequirementType::Initial,
                                ) {
                                    Err(e) => Err(e),
                                    Ok(_) => Ok((after, units)),
                                }
                            } else {
                                Ok((after, units))
                            }
                        },
                    },
                },
            }
        },
    }
}

/// The steps of an operation that goes through: the index of the bank, the
/// index of the slot, and the position that the operation is applied to,
/// which is the slot as found or taken into use together with the bank as
/// accrued. The slots and the position are well formed, every other slot is
/// as it was, and applying the operation moves shares in the slot and in the
/// bank together.
proof fn lemma_execute_steps(
    before: Ledger,
    bank_pk: Pubkey,
    operation: Operation,
    prices: Seq<PriceObservation>,
    now: i64,
) -> (steps: (int, int, BankAccountWrapper))
    requires
        before.account.wf(),
        banks_wf(before.banks),
        spec_execute(before, bank_pk, operation, prices, now) is Ok,
    ensures
        ({
            let (j, i, position) = steps;
            let found = spec_slot_for(before.account.lending_account, bank_pk, operation, now);
            let (k, slots) = found.unwrap();
            &&& spec_find_bank(before.banks, bank_pk, 0) == Some(j)
            &&& 0 <= j < before.banks.len()
            &&& before.banks[j].key == bank_pk
            &&& before.banks[j].spec_accrued(now) == Some(position.bank)
            &&& position.bank.asset_share_value.bits >= before.banks[j].asset_share_value.bits
            &&& position.bank.liability_share_value.bits
                >= before.banks[j].liability_share_value.bits
            &&& position.bank.total_asset_shares == before.banks[j].total_asset_shares
            &&& position.bank.total_liability_shares == before.banks[j].total_liability_shares
            &&& found is Ok
            &&& k == i
            &&& 0 <= i < 16
            &&& slots.wf()
            &&& position.balance == slots.balances[i]
            &&& forall|m: int|
                0 <= m < 16 && m != i ==> #[trigger] slots.balances[m]
                    == before.account.lending_account.balances[m]
            &&& !before.account.lending_account.balances[i].active
                || before.account.lending_account.balances[i].bank_pk == bank_pk
            &&& position.wf()
            &&& operation.spec_applied(position) matches Ok((next, _)) && position.moved_to(next)
        }),
{
    crate::bank::lemma_find_bank(before.banks, bank_pk, 0);
    let j = spec_find_bank(before.banks, bank_pk, 0).unwrap();
    before.banks[j].lemma_accrual_keeps_order(now);
    let bank = before.banks[j].spec_accrued(now).unwrap();
    lemma_first_slot(before.account.lending_account.balances@, Some(bank_pk), 0);
    lemma_first_slot(before.account.lending_account.balances@, None, 0);
    let (i, slots) = spec_slot_for(
        before.account.lending_account,
        bank_pk,
        operation,
        now,
    ).unwrap();
    let position = BankAccountWrapper { balance: slots.balances[i], bank };
    assert(slots.wf());
    operation.lemma_applied_keeps_order(position);
    (j, i, position)
}

/// Whatever the operation, a ledger that was well formed is well formed after
/// it: every slot holds asset shares or liability shares, never both, and no
/// two slots are for one bank. The operation changes one slot and one bank,
/// and nothing else.
pub proof fn lemma_execute_keeps_order(
    before: Ledger,
    bank_pk: Pubkey,
    operation: Operation,
    prices: Seq<PriceObservation>,
    now: i64,
)
    requires
        before.account.wf(),
        banks_wf(before.banks),
    ensures
        spec_execute(before, bank_pk, operation, prices, now) matches Ok((after, _)) ==> {
            &&& after.account.wf()
            &&& banks_wf(after.banks)
            &&& forall|i: int|
                0 <= i < 16 ==> {
                    let slot = #[trigger] after.account.lending_account.balances[i];
                    slot.asset_shares.bits == 0 || slot.liability_shares.bits == 0
                }
            &&& after.account.group == before.account.group
            &&& after.account.authority == before.account.authority
            &&& after.account.disabled == before.account.disabled
            &&& after.banks.len() == before.banks.len()
            &&& forall|k: int|
                0 <= k < before.banks.len() && before.banks[k].key != bank_pk
                    ==> #[trigger] after.banks[k] == before.banks[k]
            &&& forall|i: int|
                0 <= i < 16 && (#[trigger] after.account.lending_account.balances[i])
                    != before.account.lending_account.balances[i] ==> {
                    let was = before.account.lending_account.balances[i];
                    let now_is = after.account.lending_account.balances[i];
                    (!was.active || was.bank_pk == bank_pk) && (!now_is.active
                        || now_is.bank_pk == bank_pk)
                }
        },
{
    if spec_execute(before, bank_pk, operation, prices, now) is Ok {
        let (j, i, position) = lemma_execute_steps(before, bank_pk, operation, prices, now);
        let (after, _) = spec_execute(before, bank_pk, operation, prices, now).unwrap();
        assert(after.account.wf());
    }
}

/// An operation moves shares in the account and in the bank together: the
/// bank's two share totals change by exactly what the account's slot for the
/// bank changes by, and the operation itself changes neither share value,
/// which only the accrual before it raises.
pub proof fn lemma_execute_moves_shares_together(
    before: Ledger,
    bank_pk: Pubkey,
    operation: Operation,
    prices: Seq<PriceObservation>,
    now: i64,
)
    requires
        before.account.wf(),
        banks_wf(before.banks),
    ensures
        spec_execute(before, bank_pk, operation, prices, now) matches Ok((after, _)) ==> {
            let j = spec_find_bank(before.banks, bank_pk, 0).unwrap();
            let accrued = before.banks[j].spec_accrued(now).unwrap();
            let found = spec_slot_for(before.account.lending_account, bank_pk, operation, now);
            let (i, slots) = found.unwrap();
            let was = slots.balances[i];
            let now_is = after.account.lending_account.balances[i];
            &&& 0 <= j < before.banks.len()
            &&& 0 <= i < 16
            &&& after.banks[j].total_asset_shares.bits - before.banks[j].total_asset_shares.bits
                == now_is.asset_shares.bits - was.asset_shares.bits
            &&& after.banks[j].total_liability_shares.bits
                - before.banks[j].total_liability_shares.bits == now_is.liability_shares.bits
                - was.liability_shares.bits
            &&& after.banks[j].asset_share_value == accrued.asset_share_value
            &&& after.banks[j].liability_share_value == accrued.liability_share_value
            &&& accrued.asset_share_value.bits >= before.banks[j].asset_share_value.bits
            &&& accrued.liability_share_value.bits >= before.banks[j].liability_share_value.bits
        },
{
    if spec_execute(before, bank_pk, operation, prices, now) is Ok {
        let (j, i, position) = lemma_execute_steps(before, bank_pk, operation, prices, now);
    }
}

/// Carries out an operation on the account's position in the bank `bank_pk`
/// and returns the units that move between the bank's vault and the outside.
///
/// The operation is atomic: where it is rejected, for whatever reason, the
/// account and every bank are exactly as they were. Where it succeeds the
/// account and the banks stay well formed, so that no slot ever holds asset
/// shares and liability shares at once.
pub fn execute(
    account: &mut AstrolendAccount,
    banks: &mut Vec<Bank>,
    bank_pk: Pubkey,
    operation: Operation,
    prices: &Vec<PriceObservation>,
    now: i64,
) -> (r: Result<u64, AstrolendError>)
    requires
        old(account).wf(),
        banks_wf(old(banks)@),
    ensures
        match spec_execute(
            Ledger { account: *old(account), banks: old(banks)@ },
            bank_pk,
            operation,
            prices@,
            now,
        ) {
            Ok((after, units)) => r == Ok::<u64, AstrolendError>(units) && *final(account)
                == after.account && final(banks)@ == after.banks,
            Err(e) => r == Err::<u64, AstrolendError>(e) && *final(account) == *old(account)
                && final(banks)@ == old(banks)@,
        },
        final(account).wf(),
        banks_wf(final(banks)@),
        final(banks)@.len() == old(banks)@.len(),
{
    let j = match find_bank(banks, bank_pk) {
        Some(j) => j,
        None => { return Err(AstrolendError::BankNotFound); },
    };
    if operation.takes_out() && account.disabled {
        return Err(AstrolendError::AccountDisabled);
    }
    let saved = banks[j];
    let mut bank = saved;
    proof {
        bank.lemma_accrual_keeps_order(now);
        lemma_first_slot(account.lending_account.balances@, Some(bank_pk), 0);
    }
    bank.accrue_interest(now)?;
    let mut slots = account.lending_account;
    let i = if operation.opens_slot() {
        slots.find_or_create(bank_pk, now)?
    } else {
        match slots.find(bank_pk) {
            Some(i) => i,
            None => { return Err(AstrolendError::InvalidPosition); },
        }
    };
    let ghost found = slots;
    let mut position = BankAccountWrapper { balance: slots.balances[i], bank };
    let units = operation.apply(&mut position)?;
    slots.balances[i] = position.balance;
    let candidate = AstrolendAccount {
        group: account.group,
        authority: account.authority,
        lending_account: slots,
        disabled: account.disabled,
    };
    proof {
        let expected = vstd::array::spec_array_update(found.balances, i as int, position.balance);
        assert(slots.balances =~= expected);
        assert(candidate.wf());
    }
    banks[j] = position.bank;
    assert(banks@ =~= old(banks)@.update(j as int, position.bank));
    if operation.takes_out() {
        match RiskEngine::check_account_init_health(&candidate, banks, prices, now) {
            Ok(_) => {},
            Err(e) => {
                banks[j] = saved;
                assert(banks@ =~= old(banks)@);
                return Err(e);
            },
        }
    }
    *account = candidate;
    Ok(units)
}

/// The event of a borrow of `amount` units from the bank at index `j`, made
/// by `signer` on the account kept under `astrolend_account`.
pub open spec fn spec_borrow_event(
    before: Ledger,
    astrolend_account: Pubkey,
    signer: Pubkey,
    j: int,
    amount: u64,
) -> LendingAccountBorrowEvent {
    LendingAccountBorrowEvent {
        header: AccountEventHeader {
            signer: Some(signer),
            astrolend_account,
            astrolend_account_authority: before.account.authority,
            astrolend_group: before.account.group,
        },
        bank: before.banks[j].key,
        mint: before.banks[j].mint,
        amount,
    }
}

/// Borrows from the bank `bank_pk` what it takes for `amount` units to
/// arrive after the transfer fee of the bank's asset, if it has one.
///
/// This is [`execute`] with [`Operation::Borrow`]: interest is accrued, the
/// account's slot for the bank is found or taken into use, the liability is
/// recorded for the amount before the fee, and the account must then pass
/// the initial health check. The event names that amount, the signer and
/// the key under which the account is kept; neither key is read for anything
/// else. Where the borrow is rejected nothing has changed.
pub fn lending_account_borrow(
    account: &mut AstrolendAccount,
    banks: &mut Vec<Bank>,
    astrolend_account: Pubkey,
    signer: Pubkey,
    bank_pk: Pubkey,
    amount: u64,
    fee_basis_points: Option<u16>,
    prices: &Vec<PriceObservation>,
    now: i64,
) -> (r: Result<LendingAccountBorrowEvent, AstrolendError>)
    requires
        old(account).wf(),
        banks_wf(old(banks)@),
    ensures
        match spec_execute(
            Ledger { account: *old(account), banks: old(banks)@ },
            bank_pk,
            Operation::Borrow { amount, fee_basis_points },
            prices@,
            now,
        ) {
            Ok((after, units)) => r == Ok::<LendingAccountBorrowEvent, AstrolendError>(
                spec_borrow_event(
                    Ledger { account: *old(account), banks: old(banks)@ },
                    astrolend_account,
                    signer,
                    spec_find_bank(old(banks)@, bank_pk, 0).unwrap(),
                    units,
                ),
            ) && *final(account) == after.account && final(banks)@ == after.banks,
            Err(e) => r == Err::<LendingAccountBorrowEvent, AstrolendError>(e) && *final(account)
                == *old(account) && final(banks)@ == old(banks)@,
        },
        final(account).wf(),
        banks_wf(final(banks)@),
{
    let j = match find_bank(banks, bank_pk) {
        Some(j) => j,
        None => { return Err(AstrolendError::BankNotFound); },
    };
    let header = AccountEventHeader {
        signer: Some(signer),
        astrolend_account,
        astrolend_account_authority: account.authority,
        astrolend_group: account.group,
    };
    let bank = banks[j].key;
    let mint = banks[j].mint;
    let operation = Operation::Borrow { amount, fee_basis_points };
    let units = execute(account, banks, bank_pk, operation, prices, now)?;
    Ok(LendingAccountBorrowEvent { header, bank, mint, amount: units })
}

} // verus!
