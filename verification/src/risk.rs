//! The health of an account: what its collateral and its debts are worth,
//! each weighted by its bank.
//!
//! Collateral is counted at the asset weight, at most one, and rounded down;
//! debt is counted at the liability weight, at least one, and rounded up. An
//! account is healthy when its weighted collateral is at least its weighted
//! debt. Every position that holds shares needs its bank and a usable price:
//! where one is missing there is no health at all.
use crate::account::{AstrolendAccount, Balance};
use crate::bank::{banks_wf, find_bank, lemma_find_bank, spec_find_bank, Bank, BankConfig};
use crate::error::AstrolendError;
use crate::fixed_point::{
    lemma_product_monotonic, lemma_product_nonnegative, opt_mul, product, Rounding, I80F48,
};
use crate::price::{price, spec_price, PriceObservation};
use vstd::prelude::*;

verus! {

/// Which weights a health check uses.
#[derive(Clone, Copy, Debug, PartialEq, Eq, Structural)]
pub enum RiskRequirementType {
    /// The weights that gate borrows and withdrawals.
    Initial,
    /// The looser weights below which an account may be liquidated.
    Maintenance,
}

impl RiskRequirementType {
    /// The weight of collateral in a bank.
    pub open spec fn spec_asset_weight(&self, config: BankConfig) -> I80F48 {
        match self {
            RiskRequirementType::Initial => config.asset_weight_init,
            RiskRequirementType::Maintenance => config.asset_weight_maint,
        }
    }

    /// The weight of debt in a bank.
    pub open spec fn spec_liability_weight(&self, config: BankConfig) -> I80F48 {
        match self {
            RiskRequirementType::Initial => config.liability_weight_init,
            RiskRequirementType::Maintenance => config.liability_weight_maint,
        }
    }

    /// The weight of collateral in a bank.
    pub fn asset_weight(&self, config: &BankConfig) -> (r: I80F48)
        ensures
            r == self.spec_asset_weight(*config),
    {
        match self {
            RiskRequirementType::Initial => config.asset_weight_init,
            RiskRequirementType::Maintenance => config.asset_weight_maint,
        }
    }

    /// The weight of debt in a bank.
    pub fn liability_weight(&self, config: &BankConfig) -> (r: I80F48)
        ensures
            r == self.spec_liability_weight(*config),
    {
        match self {
            RiskRequirementType::Initial => config.liability_weight_init,
            RiskRequirementType::Maintenance => config.liability_weight_maint,
        }
    }
}

/// Weighted collateral and weighted debt, in the unit of the prices.
#[derive(Clone, Copy, Debug, PartialEq, Eq, Structural)]
pub struct HealthTotals {
    pub assets: I80F48,
    pub liabilities: I80F48,
}

impl HealthTotals {
    /// Whether collateral covers debt.
    pub open spec fn spec_is_healthy(&self) -> bool {
        self.assets.bits >= self.liabilities.bits
    }

    /// Whether collateral covers debt.
    pub fn is_healthy(&self) -> (r: bool)
        ensures
            r == self.spec_is_healthy(),
    {
        self.assets.bits >= self.liabilities.bits
    }

    /// The sums of two pairs of totals, where they fit.
    pub open spec fn spec_plus(&self, other: HealthTotals) -> Option<HealthTotals> {
        match (self.assets.spec_add(other.assets), self.liabilities.spec_add(other.liabilities)) {
            (Some(assets), Some(liabilities)) => Some(HealthTotals { assets, liabilities }),
            _ => None,
        }
    }
}

/// The weighted value of an amount: `amount * price * weight`, each product
/// rounded.
pub open spec fn spec_weighted_value(
    amount: Option<I80F48>,
    price: I80F48,
    weight: I80F48,
    rounding: Rounding,
) -> Option<I80F48> {
    opt_mul(opt_mul(amount, Some(price), rounding), Some(weight), rounding)
}

/// What one slot adds to the totals.
///
/// A slot that is not in use or holds no shares adds nothing and needs
/// nothing. Any other slot needs its bank, else `BankNotFound`, and a usable
/// price, else `StaleOrMissingPrice`. Its asset shares are worth their amount
/// rounded down, times the price, times the asset weight, rounded down each
/// time; its liability shares likewise, rounded up.
pub open spec fn spec_balance_value(
    balance: Balance,
    banks: Seq<Bank>,
    prices: Seq<PriceObservation>,
    now: i64,
    requirement: RiskRequirementType,
) -> Result<HealthTotals, AstrolendError> {
    if !balance.active || balance.spec_is_empty() {
        Ok(HealthTotals { assets: I80F48 { bits: 0 }, liabilities: I80F48 { bits: 0 } })
    } else {
        match spec_find_bank(banks, balance.bank_pk, 0) {
            None => Err(AstrolendError::BankNotFound),
            Some(j) => match spec_price(prices, banks[j].config, now) {
                None => Err(AstrolendError::StaleOrMissingPrice),
                Some(p) => {
                    let assets = spec_weighted_value(
                        banks[j].spec_asset_amount(balance.asset_shares),
                        p,
                        requirement.spec_asset_weight(banks[j].config),
                        Rounding::Down,
                    );
                    let liabilities = spec_weighted_value(
                        banks[j].spec_liability_amount(balance.liability_shares),
                        p,
                        requirement.spec_liability_weight(banks[j].config),
                        Rounding::Up,
                    );
                    match (assets, liabilities) {
                        (Some(a), Some(l)) => Ok(HealthTotals { assets: a, liabilities: l }),
                        _ => Err(AstrolendError::MathError),
                    }
                },
            },
        }
    }
}

/// The totals of the first `n` slots. The first slot that cannot be valued
/// decides the error; a sum that does not fit is a `MathError`.
pub open spec fn spec_totals(
    balances: Seq<Balance>,
    banks: Seq<Bank>,
    prices: Seq<PriceObservation>,
    now: i64,
    requirement: RiskRequirementType,
    n: int,
) -> Result<HealthTotals, AstrolendError>
    decreases n,
{
    if n <= 0 {
        Ok(HealthTotals { assets: I80F48 { bits: 0 }, liabilities: I80F48 { bits: 0 } })
    } else {
        match spec_totals(balances, banks, prices, now, requirement, n - 1) {
            Err(e) => Err(e),
            Ok(sum) => match spec_balance_value(balances[n - 1], banks, prices, now, requirement) {
                Err(e) => Err(e),
                Ok(value) => match sum.spec_plus(value) {
                    Some(total) => Ok(total),
                    None => Err(AstrolendError::MathError),
                },
            },
        }
    }
}

/// The weighted collateral and debt of an account.
pub open spec fn spec_health(
    account: AstrolendAccount,
    banks: Seq<Bank>,
    prices: Seq<PriceObservation>,
    now: i64,
    requirement: RiskRequirementType,
) -> Result<HealthTotals, AstrolendError> {
    spec_totals(account.lending_account.balances@, banks, prices, now, requirement, 16)
}

/// The outcome of a health check: the error that kept the account from being
/// valued, else `Unhealthy` where collateral does not cover debt.
pub open spec fn spec_check_health(
    account: AstrolendAccount,
    banks: Seq<Bank>,
    prices: Seq<PriceObservation>,
    now: i64,
    requirement: RiskRequirementType,
) -> Result<(), AstrolendError> {
    match spec_health(account, banks, prices, now, requirement) {
        Err(e) => Err(e),
        Ok(totals) => if totals.spec_is_healthy() {
            Ok(())
        } else {
            Err(AstrolendError::Unhealthy)
        },
    }
}

/// What one slot adds to the totals. See [`spec_balance_value`].
pub fn balance_value(
    balance: &Balance,
    banks: &Vec<Bank>,
    prices: &Vec<PriceObservation>,
    now: i64,
    requirement: RiskRequirementType,
) -> (r: Result<HealthTotals, AstrolendError>)
    ensures
        r == spec_balance_value(*balance, banks@, prices@, now, requirement),
{
    if !balance.active || (balance.asset_shares.bits == 0 && balance.liability_shares.bits == 0) {
        return Ok(HealthTotals { assets: I80F48::zero(), liabilities: I80F48::zero() });
    }
    let j = match find_bank(banks, balance.bank_pk) {
        Some(j) => j,
        None => { return Err(AstrolendError::BankNotFound); },
    };
    let bank = &banks[j];
    let p = match price(prices, &bank.config, now) {
        Some(p) => p,
        None => { return Err(AstrolendError::StaleOrMissingPrice); },
    };
    let assets = weighted_value(
        bank.get_asset_amount(balance.asset_shares),
        p,
        requirement.asset_weight(&bank.config),
        Rounding::Down,
    );
    let liabilities = weighted_value(
        bank.get_liability_amount(balance.liability_shares),
        p,
        requirement.liability_weight(&bank.config),
        Rounding::Up,
    );
    match (assets, liabilities) {
        (Some(a), Some(l)) => Ok(HealthTotals { assets: a, liabilities: l }),
        _ => Err(AstrolendError::MathError),
    }
}

/// The weighted value of an amount, or `None` on overflow.
pub fn weighted_value(
    amount: Option<I80F48>,
    price: I80F48,
    weight: I80F48,
    rounding: Rounding,
) -> (r: Option<I80F48>)
    ensures
        r == spec_weighted_value(amount, price, weight, rounding),
{
    let value = amount?.mul_round(price, rounding)?;
    value.mul_round(weight, rounding)
}

/// The checks that gate operations on an account.
pub struct RiskEngine {}

impl RiskEngine {
    /// The weighted collateral and debt of an account.
    pub fn get_account_health_components(
        account: &AstrolendAccount,
        banks: &Vec<Bank>,
        prices: &Vec<PriceObservation>,
        now: i64,
        requirement: RiskRequirementType,
    ) -> (r: Result<HealthTotals, AstrolendError>)
        ensures
            r == spec_health(*account, banks@, prices@, now, requirement),
    {
        let mut sum = HealthTotals { assets: I80F48::zero(), liabilities: I80F48::zero() };
        let mut i: usize = 0;
        while i < 16
            invariant
                i <= 16,
                spec_totals(
                    account.lending_account.balances@,
                    banks@,
                    prices@,
                    now,
                    requirement,
                    i as int,
                ) == Ok::<HealthTotals, AstrolendError>(sum),
            decreases 16 - i,
        {
            let balance = account.lending_account.balances[i];
            proof {
                Self::lemma_totals_stop_at_error(
                    account.lending_account.balances@,
                    banks@,
                    prices@,
                    now,
                    requirement,
                    i as int + 1,
                    16,
                );
            }
            let value = match balance_value(&balance, banks, prices, now, requirement) {
                Ok(v) => v,
                Err(e) => { return Err(e); },
            };
            let assets = match sum.assets.checked_add(value.assets) {
                Some(v) => v,
                None => { return Err(AstrolendError::MathError); },
            };
            let liabilities = match sum.liabilities.checked_add(value.liabilities) {
                Some(v) => v,
                None => { return Err(AstrolendError::MathError); },
            };
            sum = HealthTotals { assets, liabilities };
            i = i + 1;
        }
        Ok(sum)
    }

    /// An error among the first `n` slots is the error of any longer run.
    pub proof fn lemma_totals_stop_at_error(
        balances: Seq<Balance>,
        banks: Seq<Bank>,
        prices: Seq<PriceObservation>,
        now: i64,
        requirement: RiskRequirementType,
        n: int,
        m: int,
    )
        requires
            n <= m,
        ensures
            spec_totals(balances, banks, prices, now, requirement, n) is Err ==> spec_totals(
                balances,
                banks,
                prices,
                now,
                requirement,
                m,
            ) == spec_totals(balances, banks, prices, now, requirement, n),
        decreases m - n,
    {
        if n < m {
            Self::lemma_totals_stop_at_error(balances, banks, prices, now, requirement, n, m - 1);
        }
    }

    /// Checks an account against the given weights: `Ok` where it can be
    /// valued and its weighted collateral is at least its weighted debt.
    pub fn check_account_health(
        account: &AstrolendAccount,
        banks: &Vec<Bank>,
        prices: &Vec<PriceObservation>,
        now: i64,
        requirement: RiskRequirementType,
    ) -> (r: Result<(), AstrolendError>)
        ensures
            r == spec_check_health(*account, banks@, prices@, now, requirement),
    {
        let totals = Self::get_account_health_components(account, banks, prices, now, requirement)?;
        if totals.is_healthy() {
            Ok(())
        } else {
            Err(AstrolendError::Unhealthy)
        }
    }

    /// The check after a borrow or a withdrawal.
    pub fn check_account_init_health(
        account: &AstrolendAccount,
        banks: &Vec<Bank>,
        prices: &Vec<PriceObservation>,
        now: i64,
    ) -> (r: Result<(), AstrolendError>)
        ensures
            r == spec_check_health(
                *account,
                banks@,
                prices@,
                now,
                RiskRequirementType::Initial,
            ),
    {
        Self::check_account_health(account, banks, prices, now, RiskRequirementType::Initial)
    }

    /// What the bankruptcy check returns: the error that kept the account
    /// from being valued, `AccountNotBankrupt` where collateral at the
    /// maintenance weights still covers debt, else `Ok`.
    pub open spec fn spec_check_account_bankrupt(
        account: AstrolendAccount,
        banks: Seq<Bank>,
        prices: Seq<PriceObservation>,
        now: i64,
    ) -> Result<(), AstrolendError> {
        match spec_health(account, banks, prices, now, RiskRequirementType::Maintenance) {
            Err(e) => Err(e),
            Ok(totals) => if totals.spec_is_healthy() {
                Err(AstrolendError::AccountNotBankrupt)
            } else {
                Ok(())
            },
        }
    }

    /// Checks that an account's debt, at the maintenance weights, strictly
    /// exceeds its collateral.
    pub fn check_account_bankrupt(
        account: &AstrolendAccount,
        banks: &Vec<Bank>,
        prices: &Vec<PriceObservation>,
        now: i64,
    ) -> (r: Result<(), AstrolendError>)
        ensures
            r == Self::spec_check_account_bankrupt(*account, banks@, prices@, now),
    {
        let totals = Self::get_account_health_components(
            account,
            banks,
            prices,
            now,
            RiskRequirementType::Maintenance,
        )?;
        if totals.is_healthy() {
            Err(AstrolendError::AccountNotBankrupt)
        } else {
            Ok(())
        }
    }
}

/// At the maintenance weights a slot's collateral counts for no less, and its
/// debt for no more, than at the initial weights.
pub proof fn lemma_balance_value_is_looser(
    balance: Balance,
    banks: Seq<Bank>,
    prices: Seq<PriceObservation>,
    now: i64,
)
    requires
        balance.wf(),
        banks_wf(banks),
    ensures
        ({
            let initial = spec_balance_value(
                balance,
                banks,
                prices,
                now,
                RiskRequirementType::Initial,
            );
            let maintenance = spec_balance_value(
                balance,
                banks,
                prices,
                now,
                RiskRequirementType::Maintenance,
            );
            initial is Ok && maintenance is Ok ==> {
                &&& 0 <= initial->Ok_0.assets.bits <= maintenance->Ok_0.assets.bits
                &&& 0 <= maintenance->Ok_0.liabilities.bits <= initial->Ok_0.liabilities.bits
            }
        }),
{
    if balance.active && !balance.spec_is_empty() {
        lemma_find_bank(banks, balance.bank_pk, 0);
        if spec_find_bank(banks, balance.bank_pk, 0) is Some {
            let bank = banks[spec_find_bank(banks, balance.bank_pk, 0).unwrap()];
            if spec_price(prices, bank.config, now) is Some {
                let p = spec_price(prices, bank.config, now).unwrap().bits as int;
                let assets = product(
                    balance.asset_shares.bits as int,
                    bank.asset_share_value.bits as int,
                    Rounding::Down,
                );
                let liabilities = product(
                    balance.liability_shares.bits as int,
                    bank.liability_share_value.bits as int,
                    Rounding::Up,
                );
                lemma_product_nonnegative(
                    balance.asset_shares.bits as int,
                    bank.asset_share_value.bits as int,
                    Rounding::Down,
                );
                lemma_product_nonnegative(
                    balance.liability_shares.bits as int,
                    bank.liability_share_value.bits as int,
                    Rounding::Up,
                );
                lemma_product_nonnegative(assets, p, Rounding::Down);
                lemma_product_nonnegative(liabilities, p, Rounding::Up);
                let collateral = product(assets, p, Rounding::Down);
                let debt = product(liabilities, p, Rounding::Up);
                lemma_product_nonnegative(
                    collateral,
                    bank.config.asset_weight_init.bits as int,
                    Rounding::Down,
                );
                lemma_product_nonnegative(
                    debt,
                    bank.config.liability_weight_maint.bits as int,
                    Rounding::Up,
                );
                lemma_product_monotonic(
                    bank.config.asset_weight_init.bits as int,
                    bank.config.asset_weight_maint.bits as int,
                    collateral,
                    Rounding::Down,
                );
                lemma_product_monotonic(
                    bank.config.liability_weight_maint.bits as int,
                    bank.config.liability_weight_init.bits as int,
                    debt,
                    Rounding::Up,
                );
            }
        }
    }
}

/// The maintenance check is looser than the initial check: where an account
/// can be valued at both sets of weights, its collateral counts for no less
/// and its debt for no more at the maintenance weights, so that an account
/// that passes the initial check passes the maintenance check.
pub proof fn lemma_maintenance_is_looser(
    account: AstrolendAccount,
    banks: Seq<Bank>,
    prices: Seq<PriceObservation>,
    now: i64,
)
    requires
        account.wf(),
        banks_wf(banks),
    ensures
        ({
            let initial = spec_health(account, banks, prices, now, RiskRequirementType::Initial);
            let maintenance = spec_health(
                account,
                banks,
                prices,
                now,
                RiskRequirementType::Maintenance,
            );
            initial is Ok && maintenance is Ok ==> {
                &&& initial->Ok_0.assets.bits <= maintenance->Ok_0.assets.bits
                &&& maintenance->Ok_0.liabilities.bits <= initial->Ok_0.liabilities.bits
                &&& initial->Ok_0.spec_is_healthy() ==> maintenance->Ok_0.spec_is_healthy()
            }
        }),
{
    lemma_totals_are_looser(account.lending_account.balances@, banks, prices, now, 16);
}

/// The totals of the first `n` slots are looser at the maintenance weights.
proof fn lemma_totals_are_looser(
    balances: Seq<Balance>,
    banks: Seq<Bank>,
    prices: Seq<PriceObservation>,
    now: i64,
    n: int,
)
    requires
        0 <= n <= balances.len(),
        forall|i: int| 0 <= i < balances.len() ==> (#[trigger] balances[i]).wf(),
        banks_wf(banks),
    ensures
        ({
            let initial = spec_totals(
                balances,
                banks,
                prices,
                now,
                RiskRequirementType::Initial,
                n,
            );
            let maintenance = spec_totals(
                balances,
                banks,
                prices,
                now,
                RiskRequirementType::Maintenance,
                n,
            );
            initial is Ok && maintenance is Ok ==> {
                &&& 0 <= initial->Ok_0.assets.bits <= maintenance->Ok_0.assets.bits
                &&& 0 <= maintenance->Ok_0.liabilities.bits <= initial->Ok_0.liabilities.bits
            }
        }),
    decreases n,
{
    if n > 0 {
        lemma_totals_are_looser(balances, banks, prices, now, n - 1);
        lemma_balance_value_is_looser(balances[n - 1], banks, prices, now);
    }
}

} // verus!
