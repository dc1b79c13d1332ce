//! Writing off the debt of an account whose collateral no longer covers it.
//!
//! The account's liability in one bank is removed from the account and from
//! the bank's total. The insurance reserve pays for as much of it as it
//! holds. The rest becomes the bank's uncovered loss, which lenders pay off
//! out of the interest they would otherwise earn: the asset share value is
//! never lowered.
use crate::account::{lemma_first_slot, AstrolendAccount, Balance, LendingAccount};
use crate::bank::{banks_wf, find_bank, spec_find_bank, Bank};
use crate::error::AstrolendError;
use crate::fixed_point::{lemma_product_nonnegative, Rounding, I80F48};
use crate::instructions::Ledger;
use crate::price::PriceObservation;
use crate::pubkey::Pubkey;
use crate::risk::RiskEngine;
use vstd::prelude::*;

verus! {

/// What a write-off did, in units of the bank's asset.
#[derive(Clone, Copy, Debug, PartialEq, Eq, Structural)]
pub struct BankruptcyOutcome {
    /// The debt written off.
    pub bad_debt: I80F48,
    /// The part of it that the insurance reserve paid.
    pub covered_by_insurance: I80F48,
    /// The part of it that is left to the lenders.
    pub socialized_loss: I80F48,
}

/// The bank and the slot after the slot's debt is written off.
///
/// The debt is what the slot's liability shares are worth, rounded up. The
/// insurance reserve pays the smaller of the debt and what it holds, and the
/// rest is added to the bank's uncovered loss. The slot's liability shares
/// are taken from the bank's total and the slot is left owing nothing.
pub open spec fn spec_written_off(bank: Bank, balance: Balance) -> Result<
    (Bank, Balance, BankruptcyOutcome),
    AstrolendError,
> {
    let bad_debt = bank.spec_liability_amount(balance.liability_shares);
    let total = bank.total_liability_shares.spec_sub(balance.liability_shares);
    if balance.liability_shares.bits <= 0 {
        Err(AstrolendError::InvalidPosition)
    } else if bad_debt is None || total is None || total->0.bits < 0 {
        Err(AstrolendError::MathError)
    } else {
        let covered = if bad_debt->0.bits <= bank.insurance_reserve.bits {
            bad_debt->0
        } else {
            bank.insurance_reserve
        };
        let reserve = bank.insurance_reserve.spec_sub(covered);
        let shortfall = bad_debt->0.spec_sub(covered);
        if reserve is None || shortfall is None || bank.socialized_loss.spec_add(shortfall->0)
            is None {
            Err(AstrolendError::MathError)
        } else {
            Ok(
                (
                    Bank {
                        total_liability_shares: total->0,
                        insurance_reserve: reserve->0,
                        socialized_loss: bank.socialized_loss.spec_add(shortfall->0)->0,
                        ..bank
                    },
                    (Balance { liability_shares: I80F48 { bits: 0 }, ..balance }).spec_settled(),
                    BankruptcyOutcome {
                        bad_debt: bad_debt->0,
                        covered_by_insurance: covered,
                        socialized_loss: shortfall->0,
                    },
                ),
            )
        }
    }
}

/// Writes off the debt of a slot. See [`spec_written_off`].
pub fn write_off(bank: &Bank, balance: &Balance) -> (r: Result<
    (Bank, Balance, BankruptcyOutcome),
    AstrolendError,
>)
    ensures
        r == spec_written_off(*bank, *balance),
{
    if balance.liability_shares.bits <= 0 {
        return Err(AstrolendError::InvalidPosition);
    }
    let bad_debt = match bank.get_liability_amount(balance.liability_shares) {
        Some(v) => v,
        None => { return Err(AstrolendError::MathError); },
    };
    let total = match bank.total_liability_shares.checked_sub(balance.liability_shares) {
        Some(v) => v,
        None => { return Err(AstrolendError::MathError); },
    };
    if total.bits < 0 {
        return Err(AstrolendError::MathError);
    }
    let covered = bad_debt.min(bank.insurance_reserve);
    let reserve = match bank.insurance_reserve.checked_sub(covered) {
        Some(v) => v,
        None => { return Err(AstrolendError::MathError); },
    };
    let shortfall = match bad_debt.checked_sub(covered) {
        Some(v) => v,
        None => { return Err(AstrolendError::MathError); },
    };
    let loss = match bank.socialized_loss.checked_add(shortfall) {
        Some(v) => v,
        None => { return Err(AstrolendError::MathError); },
    };
    let mut next = *bank;
    next.total_liability_shares = total;
    next.insurance_reserve = reserve;
    next.socialized_loss = loss;
    let mut slot = *balance;
    slot.liability_shares = I80F48::zero();
    Ok(
        (
            next,
            slot.settled(),
            BankruptcyOutcome {
                bad_debt,
                covered_by_insurance: covered,
                socialized_loss: shortfall,
            },
        ),
    )
}

/// A write-off leaves the slot owing nothing, takes exactly the slot's
/// liability shares from the bank's total, draws on the insurance reserve
/// first and up to what it holds, splits the debt between the reserve and the
/// lenders without rest, changes neither share value, and keeps a bank
/// within its solvency bound that was.
pub proof fn lemma_write_off_is_exact(bank: Bank, balance: Balance)
    requires
        bank.wf(),
        balance.wf(),
    ensures
        spec_written_off(bank, balance) matches Ok((next, slot, outcome)) ==> {
            &&& slot.liability_shares.bits == 0
            &&& slot.asset_shares == balance.asset_shares
            &&& next.total_liability_shares.bits == bank.total_liability_shares.bits
                - balance.liability_shares.bits
            &&& outcome.covered_by_insurance.bits == (if outcome.bad_debt.bits
                <= bank.insurance_reserve.bits {
                outcome.bad_debt.bits
            } else {
                bank.insurance_reserve.bits
            })
            &&& next.insurance_reserve.bits == bank.insurance_reserve.bits
                - outcome.covered_by_insurance.bits
            &&& outcome.covered_by_insurance.bits + outcome.socialized_loss.bits
                == outcome.bad_debt.bits
            &&& next.socialized_loss.bits == bank.socialized_loss.bits
                + outcome.socialized_loss.bits
            &&& next.asset_share_value == bank.asset_share_value
            &&& next.liability_share_value == bank.liability_share_value
            &&& next.total_asset_shares == bank.total_asset_shares
            &&& next.wf()
            &&& slot.wf()
            &&& bank.spec_is_solvent() ==> next.spec_is_solvent()
            &&& !slot.active || (slot.active == balance.active && slot.bank_pk == balance.bank_pk)
        },
{
    lemma_product_nonnegative(
        balance.liability_shares.bits as int,
        bank.liability_share_value.bits as int,
        Rounding::Up,
    );
    if spec_written_off(bank, balance) is Ok {
        let left = bank.total_liability_shares.bits - balance.liability_shares.bits;
        assert(left * bank.liability_share_value.bits <= bank.total_liability_shares.bits
            * bank.liability_share_value.bits) by (nonlinear_arith)
            requires
                left <= bank.total_liability_shares.bits,
                bank.liability_share_value.bits > 0,
        ;
    }
}

/// The ledger after the account's debt in the bank `bank_pk` is written off,
/// and what the write-off did; or the reason for which it is rejected. The
/// steps, in their order:
///
/// 1. the bank is looked up, else `BankNotFound`;
/// 2. the bank's interest is accrued up to `now`, else `MathError`;
/// 3. the account's debt, at the maintenance weights, must strictly exceed
///    its collateral, else `AccountNotBankrupt`, or the error that kept the
///    account from being valued;
/// 4. the account must have a slot for the bank, and owe in it, else
///    `InvalidPosition`;
/// 5. the debt is written off.
pub open spec fn spec_handle_bankruptcy(
    before: Ledger,
    bank_pk: Pubkey,
    prices: Seq<PriceObservation>,
    now: i64,
) -> Result<(Ledger, BankruptcyOutcome), AstrolendError> {
    match spec_find_bank(before.banks, bank_pk, 0) {
        None => Err(AstrolendError::BankNotFound),
        Some(j) => match before.banks[j].spec_accrued(now) {
            None => Err(AstrolendError::MathError),
            Some(bank) => match RiskEngine::spec_check_account_bankrupt(
                before.account,
                before.banks.update(j, bank),
                prices,
                now,
            ) {
                Err(e) => Err(e),
                Ok(_) => match before.account.lending_account.spec_find(bank_pk) {
                    None => Err(AstrolendError::InvalidPosition),
                    Some(i) => match spec_written_off(
                        bank,
                        before.account.lending_account.balances[i],
                    ) {
                        Err(e) => Err(e),
                        Ok((next, slot, outcome)) => Ok(
                            (
                                Ledger {
                                    account: AstrolendAccount {
                                        lending_account: LendingAccount {
                                            balances: vstd::array::spec_array_update(
                                                before.account.lending_account.balances,
                                                i,
                                                slot,
                                            ),
                                        },
                                        ..before.account
                                    },
                                    banks: before.banks.update(j, next),
                                },
                                outcome,
                            ),
                        ),
                    },
                },
            },
        },
    }
}

/// Writes off the account's debt in the bank `bank_pk`.
///
/// Only an account whose debt strictly exceeds its collateral at the
/// maintenance weights can have debt written off. Where the write-off is
/// rejected, the account and every bank are exactly as they were.
pub fn lending_pool_handle_bankruptcy(
    account: &mut AstrolendAccount,
    banks: &mut Vec<Bank>,
    bank_pk: Pubkey,
    prices: &Vec<PriceObservation>,
    now: i64,
) -> (r: Result<BankruptcyOutcome, AstrolendError>)
    requires
        old(account).wf(),
        banks_wf(old(banks)@),
    ensures
        match spec_handle_bankruptcy(
            Ledger { account: *old(account), banks: old(banks)@ },
            bank_pk,
            prices@,
            now,
        ) {
            Ok((after, outcome)) => r == Ok::<BankruptcyOutcome, AstrolendError>(outcome)
                && *final(account) == after.account && final(banks)@ == after.banks,
            Err(e) => r == Err::<BankruptcyOutcome, AstrolendError>(e) && *final(account) == *old(
                account,
            ) && final(banks)@ == old(banks)@,
        },
        final(account).wf(),
        banks_wf(final(banks)@),
{
    let j = match find_bank(banks, bank_pk) {
        Some(j) => j,
        None => { return Err(AstrolendError::BankNotFound); },
    };
    let saved = banks[j];
    let mut bank = saved;
    bank.accrue_interest(now)?;
    banks[j] = bank;
    assert(banks@ =~= old(banks)@.update(j as int, bank));
    match RiskEngine::check_account_bankrupt(account, banks, prices, now) {
        Ok(_) => {},
        Err(e) => {
            banks[j] = saved;
            assert(banks@ =~= old(banks)@);
            return Err(e);
        },
    }
    let found = match account.lending_account.find(bank_pk) {
        Some(i) => match write_off(&bank, &account.lending_account.balances[i]) {
            Ok((next, slot, outcome)) => Ok((i, next, slot, outcome)),
            Err(e) => Err(e),
        },
        None => Err(AstrolendError::InvalidPosition),
    };
    match found {
        Err(e) => {
            banks[j] = saved;
            assert(banks@ =~= old(banks)@);
            Err(e)
        },
        Ok((i, next, slot, outcome)) => {
            proof {
                lemma_first_slot(account.lending_account.balances@, Some(bank_pk), 0);
                lemma_write_off_is_exact(bank, account.lending_account.balances[i as int]);
            }
            banks[j] = next;
            assert(banks@ =~= old(banks)@.update(j as int, next));
            account.lending_account.balances[i] = slot;
            proof {
                let expected = vstd::array::spec_array_update(
                    old(account).lending_account.balances,
                    i as int,
                    slot,
                );
                assert(account.lending_account.balances =~= expected);
            }
            Ok(outcome)
        },
    }
}

} // verus!
