//! The four operations on one position: a balance slot together with its
//! bank.
//!
//! Shares credited to the account are rounded down and shares charged to it
//! are rounded up, so that no sequence of operations takes out more than was
//! put in. An operation that is rejected changes nothing.
//!
//! The operations read the bank's share values as they are. Interest has to
//! be accrued before them: [`crate::instructions::execute`] does so.
use crate::account::Balance;
use crate::bank::{spec_shares_for_amount, Bank};
use crate::error::AstrolendError;
use crate::fixed_point::{
    lemma_quotient_nonnegative, lemma_quotient_product_round_trip,
    lemma_rounded_quotient_monotonic, lemma_rounded_quotient_of_multiple, opt_add, opt_sub,
    product, quotient, Rounding, I80F48, SCALE,
};
use vstd::prelude::*;

verus! {

/// A balance slot and the bank it belongs to, taken out of the ledger to be
/// changed together.
#[derive(Clone, Copy, Debug, PartialEq, Eq, Structural)]
pub struct BankAccountWrapper {
    pub balance: Balance,
    pub bank: Bank,
}

impl BankAccountWrapper {
    /// The slot and the bank are well formed, and a slot in use is the
    /// bank's.
    pub open spec fn wf(&self) -> bool {
        &&& self.balance.wf()
        &&& self.bank.wf()
        &&& self.balance.active ==> self.balance.bank_pk == self.bank.key
    }

    /// Whether the position is well formed.
    pub fn is_valid(&self) -> (r: bool)
        ensures
            r == self.wf(),
    {
        self.balance.is_valid() && self.bank.is_valid() && (!self.balance.active
            || self.balance.bank_pk == self.bank.key)
    }

    /// The position with the given share counts in the slot and share totals
    /// in the bank. A slot left without shares is emptied.
    pub open spec fn spec_with_shares(
        &self,
        asset_shares: I80F48,
        liability_shares: I80F48,
        total_asset_shares: I80F48,
        total_liability_shares: I80F48,
    ) -> BankAccountWrapper {
        BankAccountWrapper {
            balance: (Balance { asset_shares, liability_shares, ..self.balance }).spec_settled(),
            bank: Bank { total_asset_shares, total_liability_shares, ..self.bank },
        }
    }

    /// The position with the given share counts and totals.
    fn with_shares(
        &self,
        asset_shares: I80F48,
        liability_shares: I80F48,
        total_asset_shares: I80F48,
        total_liability_shares: I80F48,
    ) -> (r: BankAccountWrapper)
        ensures
            r == self.spec_with_shares(
                asset_shares,
                liability_shares,
                total_asset_shares,
                total_liability_shares,
            ),
    {
        let mut balance = self.balance;
        balance.asset_shares = asset_shares;
        balance.liability_shares = liability_shares;
        let mut bank = self.bank;
        bank.total_asset_shares = total_asset_shares;
        bank.total_liability_shares = total_liability_shares;
        BankAccountWrapper { balance: balance.settled(), bank }
    }

    /// The position itself, where its bank passes the liquidity check.
    pub open spec fn spec_if_liquid(&self) -> Result<BankAccountWrapper, AstrolendError> {
        match self.bank.spec_check_liquidity() {
            Ok(_) => Ok(*self),
            Err(e) => Err(e),
        }
    }

    /// The position after a deposit of `amount` units.
    ///
    /// A slot that owes anything takes no deposit. The amount is turned into
    /// asset shares at the asset share value, rounded down, and these are
    /// added to the slot and to the bank's total. Unless the bank lets
    /// deposits pass its limit, the total must then be worth no more than
    /// `deposit_limit` units.
    pub open spec fn spec_deposit(&self, amount: u64) -> Result<
        BankAccountWrapper,
        AstrolendError,
    > {
        let shares = spec_shares_for_amount(
            I80F48::spec_from_num(amount),
            self.bank.asset_share_value,
            Rounding::Down,
        );
        let total = opt_add(Some(self.bank.total_asset_shares), shares);
        let held = opt_add(Some(self.balance.asset_shares), shares);
        if self.balance.liability_shares.bits != 0 {
            Err(AstrolendError::InvalidPosition)
        } else if total is None || held is None {
            Err(AstrolendError::MathError)
        } else if !self.bank.config.deposit_limit_override && self.bank.spec_asset_amount(
            total->0,
        ) is None {
            Err(AstrolendError::MathError)
        } else if !self.bank.config.deposit_limit_override && self.bank.spec_asset_amount(
            total->0,
        )->0.bits > I80F48::spec_from_num(self.bank.config.deposit_limit).bits {
            Err(AstrolendError::LimitExceeded)
        } else {
            Ok(
                self.spec_with_shares(
                    held->0,
                    self.balance.liability_shares,
                    total->0,
                    self.bank.total_liability_shares,
                ),
            )
        }
    }

    /// The position after a withdrawal of `amount` units.
    ///
    /// The amount is turned into asset shares at the asset share value,
    /// rounded up. The slot must hold that many; they are taken from the slot
    /// and from the bank's total. What is left in the bank must still cover
    /// what the bank has lent.
    pub open spec fn spec_withdraw(&self, amount: u64) -> Result<
        BankAccountWrapper,
        AstrolendError,
    > {
        let shares = spec_shares_for_amount(
            I80F48::spec_from_num(amount),
            self.bank.asset_share_value,
            Rounding::Up,
        );
        let total = opt_sub(Some(self.bank.total_asset_shares), shares);
        let held = opt_sub(Some(self.balance.asset_shares), shares);
        if shares is None {
            Err(AstrolendError::MathError)
        } else if shares->0.bits > self.balance.asset_shares.bits {
            Err(AstrolendError::InvalidPosition)
        } else if total is None || held is None || total->0.bits < 0 {
            Err(AstrolendError::MathError)
        } else {
            self.spec_with_shares(
                held->0,
                self.balance.liability_shares,
                total->0,
                self.bank.total_liability_shares,
            ).spec_if_liquid()
        }
    }

    /// The position after a borrow of `amount` units.
    ///
    /// A slot that holds asset shares cannot borrow, and a bank that has
    /// borrows disabled lends nothing. The amount is turned into liability
    /// shares at the liability share value, rounded up, and these are added
    /// to the slot and to the bank's total. The total must then be worth no
    /// more than `borrow_limit` units, and no more than what is deposited in
    /// the bank.
    pub open spec fn spec_borrow(&self, amount: u64) -> Result<
        BankAccountWrapper,
        AstrolendError,
    > {
        let shares = spec_shares_for_amount(
            I80F48::spec_from_num(amount),
            self.bank.liability_share_value,
            Rounding::Up,
        );
        let total = opt_add(Some(self.bank.total_liability_shares), shares);
        let owed = opt_add(Some(self.balance.liability_shares), shares);
        if self.balance.asset_shares.bits != 0 {
            Err(AstrolendError::InvalidPosition)
        } else if self.bank.config.borrows_disabled {
            Err(AstrolendError::BankBorrowsDisabled)
        } else if total is None || owed is None || self.bank.spec_liability_amount(total->0)
            is None {
            Err(AstrolendError::MathError)
        } else if self.bank.spec_liability_amount(total->0)->0.bits > I80F48::spec_from_num(
            self.bank.config.borrow_limit,
        ).bits {
            Err(AstrolendError::LimitExceeded)
        } else {
            self.spec_with_shares(
                self.balance.asset_shares,
                owed->0,
                self.bank.total_asset_shares,
                total->0,
            ).spec_if_liquid()
        }
    }

    /// The position after a repayment of `amount` units.
    ///
    /// The amount is turned into liability shares at the liability share
    /// value, rounded down. The slot must owe that many; they are taken from
    /// the slot and from the bank's total.
    pub open spec fn spec_repay(&self, amount: u64) -> Result<BankAccountWrapper, AstrolendError> {
        let shares = spec_shares_for_amount(
            I80F48::spec_from_num(amount),
            self.bank.liability_share_value,
            Rounding::Down,
        );
        let total = opt_sub(Some(self.bank.total_liability_shares), shares);
        let owed = opt_sub(Some(self.balance.liability_shares), shares);
        if shares is None {
            Err(AstrolendError::MathError)
        } else if shares->0.bits > self.balance.liability_shares.bits {
            Err(AstrolendError::InvalidPosition)
        } else if total is None || owed is None || total->0.bits < 0 {
            Err(AstrolendError::MathError)
        } else {
            Ok(
                self.spec_with_shares(
                    self.balance.asset_shares,
                    owed->0,
                    self.bank.total_asset_shares,
                    total->0,
                ),
            )
        }
    }

    /// The position after all its asset shares are withdrawn, and the whole
    /// units paid out: what the shares are worth, rounded down twice. What is
    /// left in the bank must still cover what the bank has lent.
    pub open spec fn spec_withdraw_all(&self) -> Result<(BankAccountWrapper, u64), AstrolendError> {
        let amount = self.bank.spec_asset_amount(self.balance.asset_shares);
        let total = self.bank.total_asset_shares.spec_sub(self.balance.asset_shares);
        if amount is None || amount->0.spec_to_u64(Rounding::Down) is None || total is None
            || total->0.bits < 0 {
            Err(AstrolendError::MathError)
        } else {
            match self.spec_with_shares(
                I80F48 { bits: 0 },
                self.balance.liability_shares,
                total->0,
                self.bank.total_liability_shares,
            ).spec_if_liquid() {
                Ok(next) => Ok((next, amount->0.spec_to_u64(Rounding::Down)->0)),
                Err(e) => Err(e),
            }
        }
    }

    /// The position after all its liability shares are repaid, and the whole
    /// units charged: what the shares are worth, rounded up twice.
    pub open spec fn spec_repay_all(&self) -> Result<(BankAccountWrapper, u64), AstrolendError> {
        let amount = self.bank.spec_liability_amount(self.balance.liability_shares);
        let total = self.bank.total_liability_shares.spec_sub(self.balance.liability_shares);
        if amount is None || amount->0.spec_to_u64(Rounding::Up) is None || total is None
            || total->0.bits < 0 {
            Err(AstrolendError::MathError)
        } else {
            Ok(
                (
                    self.spec_with_shares(
                        self.balance.asset_shares,
                        I80F48 { bits: 0 },
                        self.bank.total_asset_shares,
                        total->0,
                    ),
                    amount->0.spec_to_u64(Rounding::Up)->0,
                ),
            )
        }
    }

    /// Deposits `amount` units. See [`BankAccountWrapper::spec_deposit`].
    pub fn deposit(&mut self, amount: u64) -> (r: Result<(), AstrolendError>)
        requires
            old(self).wf(),
            old(self).balance.active,
        ensures
            match old(self).spec_deposit(amount) {
                Ok(next) => r is Ok && *final(self) == next,
                Err(e) => r == Err::<(), AstrolendError>(e) && *final(self) == *old(self),
            },
            final(self).wf(),
    {
        proof {
            self.lemma_operations_keep_order(amount);
        }
        if self.balance.liability_shares.bits != 0 {
            return Err(AstrolendError::InvalidPosition);
        }
        let shares = match self.bank.get_asset_shares(I80F48::from_num(amount), Rounding::Down) {
            Some(v) => v,
            None => { return Err(AstrolendError::MathError); },
        };
        let total = match self.bank.total_asset_shares.checked_add(shares) {
            Some(v) => v,
            None => { return Err(AstrolendError::MathError); },
        };
        let held = match self.balance.asset_shares.checked_add(shares) {
            Some(v) => v,
            None => { return Err(AstrolendError::MathError); },
        };
        if !self.bank.config.deposit_limit_override {
            let deposited = match self.bank.get_asset_amount(total) {
                Some(v) => v,
                None => { return Err(AstrolendError::MathError); },
            };
            if deposited.bits > I80F48::from_num(self.bank.config.deposit_limit).bits {
                return Err(AstrolendError::LimitExceeded);
            }
        }
        *self = self.with_shares(
            held,
            self.balance.liability_shares,
            total,
            self.bank.total_liability_shares,
        );
        Ok(())
    }

    /// Withdraws `amount` units. See [`BankAccountWrapper::spec_withdraw`].
    pub fn withdraw(&mut self, amount: u64) -> (r: Result<(), AstrolendError>)
        requires
            old(self).wf(),
        ensures
            match old(self).spec_withdraw(amount) {
                Ok(next) => r is Ok && *final(self) == next,
                Err(e) => r == Err::<(), AstrolendError>(e) && *final(self) == *old(self),
            },
            final(self).wf(),
    {
        proof {
            self.lemma_operations_keep_order(amount);
        }
        let shares = match self.bank.get_asset_shares(I80F48::from_num(amount), Rounding::Up) {
            Some(v) => v,
            None => { return Err(AstrolendError::MathError); },
        };
        if shares.bits > self.balance.asset_shares.bits {
            return Err(AstrolendError::InvalidPosition);
        }
        let total = match self.bank.total_asset_shares.checked_sub(shares) {
            Some(v) => v,
            None => { return Err(AstrolendError::MathError); },
        };
        let held = match self.balance.asset_shares.checked_sub(shares) {
            Some(v) => v,
            None => { return Err(AstrolendError::MathError); },
        };
        if total.bits < 0 {
            return Err(AstrolendError::MathError);
        }
        let next = self.with_shares(
            held,
            self.balance.liability_shares,
            total,
            self.bank.total_liability_shares,
        );
        next.bank.check_liquidity()?;
        *self = next;
        Ok(())
    }

    /// Borrows `amount` units. See [`BankAccountWrapper::spec_borrow`].
    pub fn borrow(&mut self, amount: u64) -> (r: Result<(), AstrolendError>)
        requires
            old(self).wf(),
            old(self).balance.active,
        ensures
            match old(self).spec_borrow(amount) {
                Ok(next) => r is Ok && *final(self) == next,
                Err(e) => r == Err::<(), AstrolendError>(e) && *final(self) == *old(self),
            },
            final(self).wf(),
    {
        proof {
            self.lemma_operations_keep_order(amount);
        }
        if self.balance.asset_shares.bits != 0 {
            return Err(AstrolendError::InvalidPosition);
        }
        if self.bank.config.borrows_disabled {
            return Err(AstrolendError::BankBorrowsDisabled);
        }
        let shares = match self.bank.get_liability_shares(I80F48::from_num(amount), Rounding::Up) {
            Some(v) => v,
            None => { return Err(AstrolendError::MathError); },
        };
        let total = match self.bank.total_liability_shares.checked_add(shares) {
            Some(v) => v,
            None => { return Err(AstrolendError::MathError); },
        };
        let owed = match self.balance.liability_shares.checked_add(shares) {
            Some(v) => v,
            None => { return Err(AstrolendError::MathError); },
        };
        let borrowed = match self.bank.get_liability_amount(total) {
            Some(v) => v,
            None => { return Err(AstrolendError::MathError); },
        };
        if borrowed.bits > I80F48::from_num(self.bank.config.borrow_limit).bits {
            return Err(AstrolendError::LimitExceeded);
        }
        let next = self.with_shares(
            self.balance.asset_shares,
            owed,
            self.bank.total_asset_shares,
            total,
        );
        next.bank.check_liquidity()?;
        *self = next;
        Ok(())
    }

    /// Repays `amount` units. See [`BankAccountWrapper::spec_repay`].
    pub fn repay(&mut self, amount: u64) -> (r: Result<(), AstrolendError>)
        requires
            old(self).wf(),
        ensures
            match old(self).spec_repay(amount) {
                Ok(next) => r is Ok && *final(self) == next,
                Err(e) => r == Err::<(), AstrolendError>(e) && *final(self) == *old(self),
            },
            final(self).wf(),
    {
        proof {
            self.lemma_operations_keep_order(amount);
        }
        let shares = match self.bank.get_liability_shares(
            I80F48::from_num(amount),
            Rounding::Down,
        ) {
            Some(v) => v,
            None => { return Err(AstrolendError::MathError); },
        };
        if shares.bits > self.balance.liability_shares.bits {
            return Err(AstrolendError::InvalidPosition);
        }
        let total = match self.bank.total_liability_shares.checked_sub(shares) {
            Some(v) => v,
            None => { return Err(AstrolendError::MathError); },
        };
        let owed = match self.balance.liability_shares.checked_sub(shares) {
            Some(v) => v,
            None => { return Err(AstrolendError::MathError); },
        };
        if total.bits < 0 {
            return Err(AstrolendError::MathError);
        }
        *self = self.with_shares(
            self.balance.asset_shares,
            owed,
            self.bank.total_asset_shares,
            total,
        );
        Ok(())
    }

    /// Withdraws everything the slot holds and returns the whole units paid
    /// out. See [`BankAccountWrapper::spec_withdraw_all`].
    pub fn withdraw_all(&mut self) -> (r: Result<u64, AstrolendError>)
        requires
            old(self).wf(),
        ensures
            match old(self).spec_withdraw_all() {
                Ok((next, units)) => r == Ok::<u64, AstrolendError>(units) && *final(self) == next,
                Err(e) => r == Err::<u64, AstrolendError>(e) && *final(self) == *old(self),
            },
            final(self).wf(),
            r is Ok ==> final(self).balance.asset_shares.bits == 0,
    {
        let amount = match self.bank.get_asset_amount(self.balance.asset_shares) {
            Some(v) => v,
            None => { return Err(AstrolendError::MathError); },
        };
        let units = match amount.to_u64(Rounding::Down) {
            Some(v) => v,
            None => { return Err(AstrolendError::MathError); },
        };
        let total = match self.bank.total_asset_shares.checked_sub(self.balance.asset_shares) {
            Some(v) => v,
            None => { return Err(AstrolendError::MathError); },
        };
        if total.bits < 0 {
            return Err(AstrolendError::MathError);
        }
        let next = self.with_shares(
            I80F48::zero(),
            self.balance.liability_shares,
            total,
            self.bank.total_liability_shares,
        );
        next.bank.check_liquidity()?;
        *self = next;
        Ok(units)
    }

    /// Repays everything the slot owes and returns the whole units charged.
    /// See [`BankAccountWrapper::spec_repay_all`].
    pub fn repay_all(&mut self) -> (r: Result<u64, AstrolendError>)
        requires
            old(self).wf(),
        ensures
            match old(self).spec_repay_all() {
                Ok((next, units)) => r == Ok::<u64, AstrolendError>(units) && *final(self) == next,
                Err(e) => r == Err::<u64, AstrolendError>(e) && *final(self) == *old(self),
            },
            final(self).wf(),
            r is Ok ==> final(self).balance.liability_shares.bits == 0,
    {
        let amount = match self.bank.get_liability_amount(self.balance.liability_shares) {
            Some(v) => v,
            None => { return Err(AstrolendError::MathError); },
        };
        let units = match amount.to_u64(Rounding::Up) {
            Some(v) => v,
            None => { return Err(AstrolendError::MathError); },
        };
        let total = match self.bank.total_liability_shares.checked_sub(
            self.balance.liability_shares,
        ) {
            Some(v) => v,
            None => { return Err(AstrolendError::MathError); },
        };
        if total.bits < 0 {
            return Err(AstrolendError::MathError);
        }
        *self = self.with_shares(
            self.balance.asset_shares,
            I80F48::zero(),
            self.bank.total_asset_shares,
            total,
        );
        Ok(units)
    }

    /// Whether `next` differs from this position only in share counts that
    /// moved together: the slot and the bank's totals changed by the same
    /// number of shares, the slot still holds one kind of shares at most, and
    /// nothing else in the bank changed.
    pub open spec fn moved_to(&self, next: BankAccountWrapper) -> bool {
        &&& next.wf()
        &&& next.bank == (Bank {
            total_asset_shares: next.bank.total_asset_shares,
            total_liability_shares: next.bank.total_liability_shares,
            ..self.bank
        })
        &&& next.bank.total_asset_shares.bits - self.bank.total_asset_shares.bits
            == next.balance.asset_shares.bits - self.balance.asset_shares.bits
        &&& next.bank.total_liability_shares.bits - self.bank.total_liability_shares.bits
            == next.balance.liability_shares.bits - self.balance.liability_shares.bits
        &&& next.balance.asset_shares.bits == 0 || next.balance.liability_shares.bits == 0
        &&& !next.balance.active || (self.balance.active && next.balance.bank_pk
            == self.balance.bank_pk)
    }

    /// Rounding never favors the account. What is deposited into an empty
    /// slot and withdrawn again at the same share value comes out as no more
    /// units than went in; what is borrowed and repaid in full at the same
    /// share value is charged as no fewer units than were borrowed.
    pub proof fn lemma_round_trip_favors_the_bank(&self, amount: u64)
        requires
            self.wf(),
            self.balance.active,
            self.balance.spec_is_empty(),
        ensures
            self.spec_deposit(amount) matches Ok(held) ==> (held.spec_withdraw_all() matches Ok(
                (_, units),
            ) ==> units <= amount),
            self.spec_borrow(amount) matches Ok(owing) ==> (owing.spec_repay_all() matches Ok(
                (_, units),
            ) ==> units >= amount),
    {
        let a = I80F48::spec_from_num(amount).bits as int;
        assert(a == amount * SCALE);
        let asv = self.bank.asset_share_value.bits as int;
        let lsv = self.bank.liability_share_value.bits as int;
        lemma_quotient_product_round_trip(a, asv);
        lemma_quotient_product_round_trip(a, lsv);
        lemma_rounded_quotient_of_multiple(amount as int, SCALE as int, Rounding::Down);
        lemma_rounded_quotient_of_multiple(amount as int, SCALE as int, Rounding::Up);
        if self.spec_deposit(amount) is Ok {
            let held = self.spec_deposit(amount).unwrap();
            let shares = quotient(a, asv, Rounding::Down);
            assert(held.balance.asset_shares.bits == shares);
            assert(held.bank.asset_share_value == self.bank.asset_share_value);
            if held.spec_withdraw_all() is Ok {
                let back = product(shares, asv, Rounding::Down);
                lemma_rounded_quotient_monotonic(back, a, SCALE as int, Rounding::Down);
                assert(held.bank.spec_asset_amount(held.balance.asset_shares).unwrap().bits
                    == back);
            }
        }
        if self.spec_borrow(amount) is Ok {
            let owing = self.spec_borrow(amount).unwrap();
            let shares = quotient(a, lsv, Rounding::Up);
            assert(owing.balance.liability_shares.bits == shares);
            assert(owing.bank.liability_share_value == self.bank.liability_share_value);
            if owing.spec_repay_all() is Ok {
                let owed = product(shares, lsv, Rounding::Up);
                lemma_rounded_quotient_monotonic(a, owed, SCALE as int, Rounding::Up);
                assert(owing.bank.spec_liability_amount(
                    owing.balance.liability_shares,
                ).unwrap().bits == owed);
            }
        }
    }

    /// No operation takes a bank out of its solvency bound: after a
    /// withdrawal or a borrow the bank is within it, and a deposit or a
    /// repayment keeps a bank within it that was.
    pub proof fn lemma_operations_keep_solvent(&self, amount: u64)
        requires
            self.wf(),
        ensures
            self.spec_withdraw(amount) matches Ok(next) ==> next.bank.spec_is_solvent(),
            self.spec_borrow(amount) matches Ok(next) ==> next.bank.spec_is_solvent(),
            self.spec_withdraw_all() matches Ok((next, _)) ==> next.bank.spec_is_solvent(),
            self.bank.spec_is_solvent() ==> (self.spec_deposit(amount) matches Ok(next)
                ==> next.bank.spec_is_solvent()),
            self.bank.spec_is_solvent() ==> (self.spec_repay(amount) matches Ok(next)
                ==> next.bank.spec_is_solvent()),
            self.bank.spec_is_solvent() ==> (self.spec_repay_all() matches Ok((next, _))
                ==> next.bank.spec_is_solvent()),
    {
        let a = I80F48::spec_from_num(amount).bits as int;
        assert(a >= 0) by (nonlinear_arith)
            requires
                a == amount * 0x1_0000_0000_0000,
        ;
        let asv = self.bank.asset_share_value.bits as int;
        let lsv = self.bank.liability_share_value.bits as int;
        let assets = self.bank.total_asset_shares.bits as int;
        let liabilities = self.bank.total_liability_shares.bits as int;
        lemma_quotient_nonnegative(a, asv, Rounding::Down);
        lemma_quotient_nonnegative(a, lsv, Rounding::Down);
        if self.spec_withdraw(amount) is Ok {
            self.spec_withdraw(amount).unwrap().bank.lemma_liquid_is_solvent();
        }
        if self.spec_borrow(amount) is Ok {
            self.spec_borrow(amount).unwrap().bank.lemma_liquid_is_solvent();
        }
        if self.spec_withdraw_all() is Ok {
            let (next, _) = self.spec_withdraw_all().unwrap();
            next.bank.lemma_liquid_is_solvent();
        }
        if self.bank.spec_is_solvent() {
            if self.spec_deposit(amount) is Ok {
                let more = self.spec_deposit(amount).unwrap().bank.total_asset_shares.bits as int;
                assert(more * asv >= assets * asv) by (nonlinear_arith)
                    requires
                        more >= assets,
                        asv > 0,
                ;
            }
            if self.spec_repay(amount) is Ok {
                let less = self.spec_repay(amount).unwrap().bank.total_liability_shares.bits as int;
                assert(less * lsv <= liabilities * lsv) by (nonlinear_arith)
                    requires
                        less <= liabilities,
                        lsv > 0,
                ;
            }
            if self.spec_repay_all() is Ok {
                let (next, _) = self.spec_repay_all().unwrap();
                let less = next.bank.total_liability_shares.bits as int;
                assert(less * lsv <= liabilities * lsv) by (nonlinear_arith)
                    requires
                        less <= liabilities,
                        lsv > 0,
                ;
            }
        }
    }

    /// Every operation keeps the position well formed, moves the same number
    /// of shares in the slot and in the bank's total, and never leaves a slot
    /// with both asset and liability shares.
    pub proof fn lemma_operations_keep_order(&self, amount: u64)
        requires
            self.wf(),
        ensures
            self.balance.active ==> (self.spec_deposit(amount) matches Ok(next)
                ==> self.moved_to(next)),
            self.spec_withdraw(amount) matches Ok(next) ==> self.moved_to(next),
            self.balance.active ==> (self.spec_borrow(amount) matches Ok(next) ==> self.moved_to(
                next,
            )),
            self.spec_repay(amount) matches Ok(next) ==> self.moved_to(next),
            self.spec_withdraw_all() matches Ok((next, _)) ==> self.moved_to(next),
            self.spec_repay_all() matches Ok((next, _)) ==> self.moved_to(next),
    {
        let a = I80F48::spec_from_num(amount).bits as int;
        assert(a >= 0) by (nonlinear_arith)
            requires
                a == amount * 0x1_0000_0000_0000,
        ;
        lemma_quotient_nonnegative(a, self.bank.asset_share_value.bits as int, Rounding::Down);
        lemma_quotient_nonnegative(a, self.bank.asset_share_value.bits as int, Rounding::Up);
        lemma_quotient_nonnegative(a, self.bank.liability_share_value.bits as int, Rounding::Down);
        lemma_quotient_nonnegative(a, self.bank.liability_share_value.bits as int, Rounding::Up);
    }
}

} // verus!
