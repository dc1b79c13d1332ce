//! A bank: the pool of one asset, its two share values and share totals, and
//! the conversions between shares and amounts.
//!
//! Lenders hold asset shares and borrowers owe liability shares. A share is
//! worth `share_value` units of the asset. Interest never changes a share
//! count: it raises the two share values.
use crate::error::AstrolendError;
use crate::fixed_point::{
    lemma_floor_quotient_is_greatest, lemma_product_nonnegative,
    lemma_product_quotient_round_trip, lemma_quotient_bounds,
    lemma_quotient_nonnegative, lemma_quotient_product_round_trip, opt_add, opt_sub, product,
    Rounding, I80F48, SCALE,
};
use crate::interest::{
    accrued_value, interest_payment, lemma_accrued_value_grows, lemma_growth_is_ordered,
    lemma_interest_payment_nonnegative, spec_accrued_value, spec_interest_payment,
    InterestRateConfig, InterestRates,
};
use crate::pubkey::Pubkey;
use vstd::prelude::*;

verus! {

/// Which of a bank's positions earn emissions.
#[derive(Clone, Copy, Debug, PartialEq, Eq, Structural)]
pub struct EmissionsFlags {
    pub borrow_active: bool,
    pub lending_active: bool,
}

/// Bit that stands for [`EmissionsFlags::borrow_active`].
pub const EMISSIONS_FLAG_BORROW_ACTIVE: u64 = 1;

/// Bit that stands for [`EmissionsFlags::lending_active`].
pub const EMISSIONS_FLAG_LENDING_ACTIVE: u64 = 2;

impl EmissionsFlags {
    /// The flags that a bit mask stands for, where it sets no other bit.
    pub open spec fn spec_from_bits(bits: u64) -> Option<EmissionsFlags> {
        if bits == 0 {
            Some(EmissionsFlags { borrow_active: false, lending_active: false })
        } else if bits == 1 {
            Some(EmissionsFlags { borrow_active: true, lending_active: false })
        } else if bits == 2 {
            Some(EmissionsFlags { borrow_active: false, lending_active: true })
        } else if bits == 3 {
            Some(EmissionsFlags { borrow_active: true, lending_active: true })
        } else {
            None
        }
    }

    /// The flags that a bit mask stands for, or `None` where it sets a bit
    /// other than the two known ones.
    pub fn from_bits(bits: u64) -> (r: Option<EmissionsFlags>)
        ensures
            r == EmissionsFlags::spec_from_bits(bits),
    {
        if bits > 3 {
            None
        } else {
            Some(
                EmissionsFlags { borrow_active: bits == 1 || bits == 3, lending_active: bits >= 2 },
            )
        }
    }

    /// The bit mask that stands for the flags.
    pub fn to_bits(&self) -> (bits: u64)
        ensures
            EmissionsFlags::spec_from_bits(bits) == Some(*self),
    {
        let low: u64 = if self.borrow_active {
            EMISSIONS_FLAG_BORROW_ACTIVE
        } else {
            0
        };
        let high: u64 = if self.lending_active {
            EMISSIONS_FLAG_LENDING_ACTIVE
        } else {
            0
        };
        low + high
    }
}

/// The configuration of a bank.
#[derive(Clone, Copy, Debug, PartialEq, Eq, Structural)]
pub struct BankConfig {
    /// Weight of collateral in the initial health check, at most one.
    pub asset_weight_init: I80F48,
    /// Weight of collateral in the maintenance health check.
    pub asset_weight_maint: I80F48,
    /// Weight of debt in the initial health check, at least one.
    pub liability_weight_init: I80F48,
    /// Weight of debt in the maintenance health check.
    pub liability_weight_maint: I80F48,
    /// Cap on the total amount deposited, in whole units.
    pub deposit_limit: u64,
    /// Cap on the total amount borrowed, in whole units.
    pub borrow_limit: u64,
    /// Deposits may take the bank past `deposit_limit`.
    pub deposit_limit_override: bool,
    /// The bank takes no new borrows.
    pub borrows_disabled: bool,
    pub interest_rate_config: InterestRateConfig,
    /// The oracle whose observations price the asset.
    pub oracle: Pubkey,
    /// Greatest age, in seconds, at which an observation still counts.
    pub oracle_max_age: u64,
    /// Greatest confidence interval, as a fraction of the price, at which an
    /// observation still counts.
    pub oracle_max_confidence: I80F48,
}

/// A change of configuration: each field that is `Some` replaces the
/// configured value.
#[derive(Clone, Copy, Debug, PartialEq, Eq, Structural)]
pub struct BankConfigOpt {
    pub asset_weight_init: Option<I80F48>,
    pub asset_weight_maint: Option<I80F48>,
    pub liability_weight_init: Option<I80F48>,
    pub liability_weight_maint: Option<I80F48>,
    pub deposit_limit: Option<u64>,
    pub borrow_limit: Option<u64>,
    pub deposit_limit_override: Option<bool>,
    pub borrows_disabled: Option<bool>,
    pub interest_rate_config: Option<InterestRateConfig>,
    pub oracle: Option<Pubkey>,
    pub oracle_max_age: Option<u64>,
    pub oracle_max_confidence: Option<I80F48>,
}

/// `new` where there is one, else `old`.
pub open spec fn or_keep<T>(new: Option<T>, old: T) -> T {
    match new {
        Some(value) => value,
        None => old,
    }
}

impl BankConfig {
    /// Collateral is never counted above its value nor debt below it, the
    /// maintenance check is no stricter than the initial one, and the
    /// interest configuration is well formed.
    pub open spec fn wf(&self) -> bool {
        &&& 0 <= self.asset_weight_init.bits <= self.asset_weight_maint.bits <= SCALE
        &&& SCALE <= self.liability_weight_maint.bits <= self.liability_weight_init.bits
        &&& self.interest_rate_config.wf()
        &&& 0 <= self.oracle_max_confidence.bits
    }

    /// Whether the configuration is well formed.
    pub fn is_valid(&self) -> (r: bool)
        ensures
            r == self.wf(),
    {
        0 <= self.asset_weight_init.bits && self.asset_weight_init.bits
            <= self.asset_weight_maint.bits && self.asset_weight_maint.bits <= SCALE && SCALE
            <= self.liability_weight_maint.bits && self.liability_weight_maint.bits
            <= self.liability_weight_init.bits && self.interest_rate_config.is_valid() && 0
            <= self.oracle_max_confidence.bits
    }

    /// The configuration after a change.
    pub open spec fn spec_updated(&self, change: BankConfigOpt) -> BankConfig {
        BankConfig {
            asset_weight_init: or_keep(change.asset_weight_init, self.asset_weight_init),
            asset_weight_maint: or_keep(change.asset_weight_maint, self.asset_weight_maint),
            liability_weight_init: or_keep(
                change.liability_weight_init,
                self.liability_weight_init,
            ),
            liability_weight_maint: or_keep(
                change.liability_weight_maint,
                self.liability_weight_maint,
            ),
            deposit_limit: or_keep(change.deposit_limit, self.deposit_limit),
            borrow_limit: or_keep(change.borrow_limit, self.borrow_limit),
            deposit_limit_override: or_keep(
                change.deposit_limit_override,
                self.deposit_limit_override,
            ),
            borrows_disabled: or_keep(change.borrows_disabled, self.borrows_disabled),
            interest_rate_config: or_keep(change.interest_rate_config, self.interest_rate_config),
            oracle: or_keep(change.oracle, self.oracle),
            oracle_max_age: or_keep(change.oracle_max_age, self.oracle_max_age),
            oracle_max_confidence: or_keep(
                change.oracle_max_confidence,
                self.oracle_max_confidence,
            ),
        }
    }

    /// The configuration after a change. Nothing is checked here.
    pub fn updated(&self, change: &BankConfigOpt) -> (r: BankConfig)
        ensures
            r == self.spec_updated(*change),
    {
        BankConfig {
            asset_weight_init: match change.asset_weight_init {
                Some(v) => v,
                None => self.asset_weight_init,
            },
            asset_weight_maint: match change.asset_weight_maint {
                Some(v) => v,
                None => self.asset_weight_maint,
            },
            liability_weight_init: match change.liability_weight_init {
                Some(v) => v,
                None => self.liability_weight_init,
            },
            liability_weight_maint: match change.liability_weight_maint {
                Some(v) => v,
                None => self.liability_weight_maint,
            },
            deposit_limit: match change.deposit_limit {
                Some(v) => v,
                None => self.deposit_limit,
            },
            borrow_limit: match change.borrow_limit {
                Some(v) => v,
                None => self.borrow_limit,
            },
            deposit_limit_override: match change.deposit_limit_override {
                Some(v) => v,
                None => self.deposit_limit_override,
            },
            borrows_disabled: match change.borrows_disabled {
                Some(v) => v,
                None => self.borrows_disabled,
            },
            interest_rate_config: match change.interest_rate_config {
                Some(v) => v,
                None => self.interest_rate_config,
            },
            oracle: match change.oracle {
                Some(v) => v,
                None => self.oracle,
            },
            oracle_max_age: match change.oracle_max_age {
                Some(v) => v,
                None => self.oracle_max_age,
            },
            oracle_max_confidence: match change.oracle_max_confidence {
                Some(v) => v,
                None => self.oracle_max_confidence,
            },
        }
    }
}

impl BankConfigOpt {
    /// The change that gives no field, and so changes nothing.
    pub fn none() -> (r: BankConfigOpt)
        ensures
            r == BankConfigOpt::spec_none(),
            forall|config: BankConfig| #[trigger] config.spec_updated(r) == config,
    {
        BankConfigOpt {
            asset_weight_init: None,
            asset_weight_maint: None,
            liability_weight_init: None,
            liability_weight_maint: None,
            deposit_limit: None,
            borrow_limit: None,
            deposit_limit_override: None,
            borrows_disabled: None,
            interest_rate_config: None,
            oracle: None,
            oracle_max_age: None,
            oracle_max_confidence: None,
        }
    }

    /// The change that gives no field.
    pub open spec fn spec_none() -> BankConfigOpt {
        BankConfigOpt {
            asset_weight_init: None,
            asset_weight_maint: None,
            liability_weight_init: None,
            liability_weight_maint: None,
            deposit_limit: None,
            borrow_limit: None,
            deposit_limit_override: None,
            borrows_disabled: None,
            interest_rate_config: None,
            oracle: None,
            oracle_max_age: None,
            oracle_max_confidence: None,
        }
    }
}

/// The amount that `shares` shares are worth at the share value `rate`:
/// `shares * rate`, rounded.
pub open spec fn spec_amount_for_shares(shares: I80F48, rate: I80F48, rounding: Rounding) -> Option<
    I80F48,
> {
    shares.spec_mul(rate, rounding)
}

/// The shares that `amount` is worth at the share value `rate`:
/// `amount / rate`, rounded.
pub open spec fn spec_shares_for_amount(amount: I80F48, rate: I80F48, rounding: Rounding) -> Option<
    I80F48,
> {
    amount.spec_div(rate, rounding)
}

/// The amount that `shares` shares are worth at the share value `rate`, or
/// `None` on overflow.
pub fn amount_for_shares(shares: I80F48, rate: I80F48, rounding: Rounding) -> (r: Option<I80F48>)
    ensures
        r == spec_amount_for_shares(shares, rate, rounding),
{
    shares.mul_round(rate, rounding)
}

/// The shares that `amount` is worth at the share value `rate`, or `None`
/// where the rate is zero or on overflow.
pub fn shares_for_amount(amount: I80F48, rate: I80F48, rounding: Rounding) -> (r: Option<I80F48>)
    ensures
        r == spec_shares_for_amount(amount, rate, rounding),
{
    amount.div_round(rate, rounding)
}

/// Rounding always favors the pool. An amount turned into asset shares and
/// back, rounded down both ways, is never more than it was. An amount turned
/// into liability shares and back, rounded up both ways, is never less. The
/// same holds of shares turned into an amount and back.
pub proof fn lemma_share_amount_round_trip(value: I80F48, rate: I80F48)
    requires
        rate.bits > 0,
    ensures
        ({
            let shares = spec_shares_for_amount(value, rate, Rounding::Down);
            shares is Some ==> {
                let back = spec_amount_for_shares(shares->0, rate, Rounding::Down);
                back is Some ==> back->0.bits <= value.bits
            }
        }),
        ({
            let shares = spec_shares_for_amount(value, rate, Rounding::Up);
            shares is Some ==> {
                let back = spec_amount_for_shares(shares->0, rate, Rounding::Up);
                back is Some ==> back->0.bits >= value.bits
            }
        }),
        ({
            let amount = spec_amount_for_shares(value, rate, Rounding::Down);
            amount is Some ==> {
                let back = spec_shares_for_amount(amount->0, rate, Rounding::Down);
                back is Some ==> back->0.bits <= value.bits
            }
        }),
        ({
            let amount = spec_amount_for_shares(value, rate, Rounding::Up);
            amount is Some ==> {
                let back = spec_shares_for_amount(amount->0, rate, Rounding::Up);
                back is Some ==> back->0.bits >= value.bits
            }
        }),
{
    lemma_quotient_product_round_trip(value.bits as int, rate.bits as int);
    lemma_product_quotient_round_trip(value.bits as int, rate.bits as int);
}

/// The utilization of a bank: what is borrowed over what is deposited,
/// rounded down, and zero where nothing is deposited.
pub open spec fn spec_utilization(assets: I80F48, liabilities: I80F48) -> Option<I80F48> {
    if assets.bits == 0 {
        Some(I80F48 { bits: 0 })
    } else {
        liabilities.spec_div(assets, Rounding::Down)
    }
}

/// The utilization of a bank, or `None` on overflow.
pub fn utilization(assets: I80F48, liabilities: I80F48) -> (r: Option<I80F48>)
    ensures
        r == spec_utilization(assets, liabilities),
{
    if assets.bits == 0 {
        Some(I80F48::zero())
    } else {
        liabilities.div_round(assets, Rounding::Down)
    }
}

/// The pool of one asset.
#[derive(Clone, Copy, Debug, PartialEq, Eq, Structural)]
pub struct Bank {
    /// The identity under which balances refer to the bank.
    pub key: Pubkey,
    pub mint: Pubkey,
    pub group: Pubkey,
    /// Amount that one asset share is worth.
    pub asset_share_value: I80F48,
    /// Amount that one liability share is worth.
    pub liability_share_value: I80F48,
    pub total_asset_shares: I80F48,
    pub total_liability_shares: I80F48,
    /// When interest was last accrued, in seconds.
    pub last_update: i64,
    pub config: BankConfig,
    /// Fees taken from borrowers and not yet collected.
    pub collected_group_fees_outstanding: I80F48,
    /// The insurance reserve, out of which bad debt is covered.
    pub insurance_reserve: I80F48,
    /// Bad debt that the insurance reserve did not cover. While there is
    /// any, what lenders would earn is used to pay it off.
    pub socialized_loss: I80F48,
    pub emissions_flags: EmissionsFlags,
    pub emissions_rate: u64,
    pub emissions_remaining: I80F48,
    pub emissions_mint: Pubkey,
}

impl Bank {
    /// Both share values are positive, no total or reserve is negative, and
    /// the configuration is well formed.
    pub open spec fn wf(&self) -> bool {
        &&& self.config.wf()
        &&& self.asset_share_value.bits > 0
        &&& self.liability_share_value.bits > 0
        &&& self.total_asset_shares.bits >= 0
        &&& self.total_liability_shares.bits >= 0
        &&& self.collected_group_fees_outstanding.bits >= 0
        &&& self.insurance_reserve.bits >= 0
        &&& self.socialized_loss.bits >= 0
        &&& self.emissions_remaining.bits >= 0
    }

    /// Whether the bank is well formed.
    pub fn is_valid(&self) -> (r: bool)
        ensures
            r == self.wf(),
    {
        self.config.is_valid() && self.asset_share_value.bits > 0
            && self.liability_share_value.bits > 0 && self.total_asset_shares.bits >= 0
            && self.total_liability_shares.bits >= 0 && self.collected_group_fees_outstanding.bits
            >= 0 && self.insurance_reserve.bits >= 0 && self.socialized_loss.bits >= 0
            && self.emissions_remaining.bits >= 0
    }

    /// A bank without deposits or borrows, with both share values at one.
    pub open spec fn spec_new(
        key: Pubkey,
        group: Pubkey,
        mint: Pubkey,
        config: BankConfig,
        now: i64,
    ) -> Bank {
        Bank {
            key,
            mint,
            group,
            asset_share_value: I80F48 { bits: SCALE },
            liability_share_value: I80F48 { bits: SCALE },
            total_asset_shares: I80F48 { bits: 0 },
            total_liability_shares: I80F48 { bits: 0 },
            last_update: now,
            config,
            collected_group_fees_outstanding: I80F48 { bits: 0 },
            insurance_reserve: I80F48 { bits: 0 },
            socialized_loss: I80F48 { bits: 0 },
            emissions_flags: EmissionsFlags { borrow_active: false, lending_active: false },
            emissions_rate: 0,
            emissions_remaining: I80F48 { bits: 0 },
            emissions_mint: Pubkey::spec_default(),
        }
    }

    /// A bank without deposits or borrows, with both share values at one, or
    /// `InvalidConfig` where the configuration is not well formed.
    pub fn new(key: Pubkey, group: Pubkey, mint: Pubkey, config: BankConfig, now: i64) -> (r:
        Result<Bank, AstrolendError>)
        ensures
            r == (if config.wf() {
                Ok::<Bank, AstrolendError>(Bank::spec_new(key, group, mint, config, now))
            } else {
                Err(AstrolendError::InvalidConfig)
            }),
            r is Ok ==> r->Ok_0.wf(),
    {
        if !config.is_valid() {
            return Err(AstrolendError::InvalidConfig);
        }
        Ok(
            Bank {
                key,
                mint,
                group,
                asset_share_value: I80F48::one(),
                liability_share_value: I80F48::one(),
                total_asset_shares: I80F48::zero(),
                total_liability_shares: I80F48::zero(),
                last_update: now,
                config,
                collected_group_fees_outstanding: I80F48::zero(),
                insurance_reserve: I80F48::zero(),
                socialized_loss: I80F48::zero(),
                emissions_flags: EmissionsFlags { borrow_active: false, lending_active: false },
                emissions_rate: 0,
                emissions_remaining: I80F48::zero(),
                emissions_mint: Pubkey::default(),
            },
        )
    }

    /// The amount that asset shares are worth, rounded down.
    pub open spec fn spec_asset_amount(&self, shares: I80F48) -> Option<I80F48> {
        spec_amount_for_shares(shares, self.asset_share_value, Rounding::Down)
    }

    /// The amount that liability shares are worth, rounded up.
    pub open spec fn spec_liability_amount(&self, shares: I80F48) -> Option<I80F48> {
        spec_amount_for_shares(shares, self.liability_share_value, Rounding::Up)
    }

    /// The amount that asset shares are worth, rounded down, or `None` on
    /// overflow.
    pub fn get_asset_amount(&self, shares: I80F48) -> (r: Option<I80F48>)
        ensures
            r == self.spec_asset_amount(shares),
    {
        amount_for_shares(shares, self.asset_share_value, Rounding::Down)
    }

    /// The amount that liability shares are worth, rounded up, or `None` on
    /// overflow.
    pub fn get_liability_amount(&self, shares: I80F48) -> (r: Option<I80F48>)
        ensures
            r == self.spec_liability_amount(shares),
    {
        amount_for_shares(shares, self.liability_share_value, Rounding::Up)
    }

    /// The asset shares that an amount is worth, rounded as given, or `None`
    /// on overflow.
    pub fn get_asset_shares(&self, amount: I80F48, rounding: Rounding) -> (r: Option<I80F48>)
        ensures
            r == spec_shares_for_amount(amount, self.asset_share_value, rounding),
    {
        shares_for_amount(amount, self.asset_share_value, rounding)
    }

    /// The liability shares that an amount is worth, rounded as given, or
    /// `None` on overflow.
    pub fn get_liability_shares(&self, amount: I80F48, rounding: Rounding) -> (r: Option<I80F48>)
        ensures
            r == spec_shares_for_amount(amount, self.liability_share_value, rounding),
    {
        shares_for_amount(amount, self.liability_share_value, rounding)
    }

    /// The bank with a changed configuration, where that is well formed.
    pub open spec fn spec_configured(&self, change: BankConfigOpt) -> Option<Bank> {
        let config = self.config.spec_updated(change);
        if config.wf() {
            Some(Bank { config, ..*self })
        } else {
            None
        }
    }

    /// Changes the configuration. A change that would leave it not well
    /// formed is rejected with `InvalidConfig` and changes nothing.
    pub fn configure(&mut self, change: &BankConfigOpt) -> (r: Result<(), AstrolendError>)
        ensures
            match old(self).spec_configured(*change) {
                Some(bank) => r is Ok && *final(self) == bank,
                None => r == Err::<(), AstrolendError>(AstrolendError::InvalidConfig)
                    && *final(self) == *old(self),
            },
            old(self).wf() ==> final(self).wf(),
    {
        let config = self.config.updated(change);
        if !config.is_valid() {
            return Err(AstrolendError::InvalidConfig);
        }
        self.config = config;
        Ok(())
    }
}

impl Bank {
    /// The bank after `seconds` seconds at the given rates, with the
    /// deposited and borrowed amounts as they were before.
    ///
    /// Borrowers owe the borrowing rate, rounded up. The two fees on what is
    /// borrowed go to the outstanding group fees and to the insurance
    /// reserve. Lenders earn the lending rate, rounded down; but while bad
    /// debt is left uncovered the asset share value stands still, and what
    /// lenders would have earned pays the debt off, any rest going to the
    /// insurance reserve.
    pub open spec fn spec_accrued_at(
        &self,
        assets: I80F48,
        liabilities: I80F48,
        rates: InterestRates,
        seconds: u64,
        now: i64,
    ) -> Option<Bank> {
        let liability_share_value = spec_accrued_value(
            self.liability_share_value,
            rates.borrowing_apr,
            seconds,
            Rounding::Up,
        );
        let fees = opt_add(
            Some(self.collected_group_fees_outstanding),
            spec_interest_payment(liabilities, rates.group_fee_apr, seconds),
        );
        let reserve = opt_add(
            Some(self.insurance_reserve),
            spec_interest_payment(liabilities, rates.insurance_fee_apr, seconds),
        );
        if self.socialized_loss.bits > 0 {
            let earned = spec_interest_payment(assets, rates.lending_apr, seconds);
            let absorbed = match earned {
                Some(e) => Some(
                    if e.bits <= self.socialized_loss.bits {
                        e
                    } else {
                        self.socialized_loss
                    },
                ),
                None => None,
            };
            let loss = opt_sub(Some(self.socialized_loss), absorbed);
            let topped = opt_add(reserve, opt_sub(earned, absorbed));
            match (liability_share_value, fees, topped, loss) {
                (Some(l), Some(f), Some(r), Some(d)) => Some(
                    Bank {
                        liability_share_value: l,
                        collected_group_fees_outstanding: f,
                        insurance_reserve: r,
                        socialized_loss: d,
                        last_update: now,
                        ..*self
                    },
                ),
                _ => None,
            }
        } else {
            let asset_share_value = spec_accrued_value(
                self.asset_share_value,
                rates.lending_apr,
                seconds,
                Rounding::Down,
            );
            match (asset_share_value, liability_share_value, fees, reserve) {
                (Some(a), Some(l), Some(f), Some(r)) => Some(
                    Bank {
                        asset_share_value: a,
                        liability_share_value: l,
                        collected_group_fees_outstanding: f,
                        insurance_reserve: r,
                        last_update: now,
                        ..*self
                    },
                ),
                _ => None,
            }
        }
    }

    /// The bank with interest accrued up to `now`, or `None` where a step
    /// overflows.
    ///
    /// At or before the last accrual nothing changes. Otherwise the rates
    /// follow from the utilization before the accrual, and are applied once
    /// to the whole interval.
    pub open spec fn spec_accrued(&self, now: i64) -> Option<Bank> {
        if now <= self.last_update {
            Some(*self)
        } else {
            let seconds = (now - self.last_update) as u64;
            let assets = self.spec_asset_amount(self.total_asset_shares);
            let liabilities = self.spec_liability_amount(self.total_liability_shares);
            if assets is None || liabilities is None {
                None
            } else {
                let ur = spec_utilization(assets->0, liabilities->0);
                if ur is None {
                    None
                } else {
                    let rates = self.config.interest_rate_config.spec_calc_interest_rate(ur->0);
                    if rates is None {
                        None
                    } else {
                        self.spec_accrued_at(assets->0, liabilities->0, rates->0, seconds, now)
                    }
                }
            }
        }
    }

    /// The bank after `seconds` seconds at the given rates, or `None` on
    /// overflow.
    fn accrued_at(
        &self,
        assets: I80F48,
        liabilities: I80F48,
        rates: &InterestRates,
        seconds: u64,
        now: i64,
    ) -> (r: Option<Bank>)
        ensures
            r == self.spec_accrued_at(assets, liabilities, *rates, seconds, now),
    {
        let liability_share_value = accrued_value(
            self.liability_share_value,
            rates.borrowing_apr,
            seconds,
            Rounding::Up,
        )?;
        let group_fee = interest_payment(liabilities, rates.group_fee_apr, seconds)?;
        let fees = self.collected_group_fees_outstanding.checked_add(group_fee)?;
        let premium = interest_payment(liabilities, rates.insurance_fee_apr, seconds)?;
        let reserve = self.insurance_reserve.checked_add(premium)?;
        let mut bank = *self;
        bank.liability_share_value = liability_share_value;
        bank.collected_group_fees_outstanding = fees;
        bank.last_update = now;
        if self.socialized_loss.bits > 0 {
            let earned = interest_payment(assets, rates.lending_apr, seconds)?;
            let absorbed = earned.min(self.socialized_loss);
            let loss = self.socialized_loss.checked_sub(absorbed)?;
            let rest = earned.checked_sub(absorbed)?;
            bank.insurance_reserve = reserve.checked_add(rest)?;
            bank.socialized_loss = loss;
        } else {
            bank.asset_share_value = accrued_value(
                self.asset_share_value,
                rates.lending_apr,
                seconds,
                Rounding::Down,
            )?;
            bank.insurance_reserve = reserve;
        }
        Some(bank)
    }

    /// Accrues interest up to `now`.
    ///
    /// A step that overflows rejects the accrual with `MathError` and
    /// changes nothing. Neither share value ever falls, and a second accrual
    /// at the same time changes nothing.
    pub fn accrue_interest(&mut self, now: i64) -> (r: Result<(), AstrolendError>)
        requires
            old(self).wf(),
        ensures
            match old(self).spec_accrued(now) {
                Some(bank) => r is Ok && *final(self) == bank,
                None => r == Err::<(), AstrolendError>(AstrolendError::MathError)
                    && *final(self) == *old(self),
            },
            final(self).wf(),
            final(self).asset_share_value.bits >= old(self).asset_share_value.bits,
            final(self).liability_share_value.bits >= old(self).liability_share_value.bits,
            final(self).spec_accrued(now) == Some(*final(self)) || r is Err,
    {
        proof {
            self.lemma_accrual_keeps_order(now);
            self.lemma_accrual_idempotent(now);
        }
        if now <= self.last_update {
            return Ok(());
        }
        let seconds: u64 = (now as i128 - self.last_update as i128) as u64;
        let assets = match self.get_asset_amount(self.total_asset_shares) {
            Some(v) => v,
            None => { return Err(AstrolendError::MathError); },
        };
        let liabilities = match self.get_liability_amount(self.total_liability_shares) {
            Some(v) => v,
            None => { return Err(AstrolendError::MathError); },
        };
        let ur = match utilization(assets, liabilities) {
            Some(v) => v,
            None => { return Err(AstrolendError::MathError); },
        };
        let rates = match self.config.interest_rate_config.calc_interest_rate(ur) {
            Some(v) => v,
            None => { return Err(AstrolendError::MathError); },
        };
        match self.accrued_at(assets, liabilities, &rates, seconds, now) {
            Some(bank) => {
                *self = bank;
                Ok(())
            },
            None => Err(AstrolendError::MathError),
        }
    }

    /// Accrual keeps a bank well formed, lets neither share value fall nor
    /// either reserve shrink, and changes no share total, identity or
    /// configuration. While bad debt is left uncovered it pays the debt off
    /// and leaves the asset share value as it is.
    pub proof fn lemma_accrual_keeps_order(&self, now: i64)
        requires
            self.wf(),
        ensures
            self.spec_accrued(now) matches Some(bank) ==> {
                &&& bank.wf()
                &&& bank.asset_share_value.bits >= self.asset_share_value.bits
                &&& bank.liability_share_value.bits >= self.liability_share_value.bits
                &&& bank.last_update >= self.last_update
                &&& bank.total_asset_shares == self.total_asset_shares
                &&& bank.total_liability_shares == self.total_liability_shares
                &&& bank.config == self.config
                &&& bank.key == self.key
                &&& bank.socialized_loss.bits <= self.socialized_loss.bits
                &&& self.socialized_loss.bits > 0 ==> bank.asset_share_value
                    == self.asset_share_value
                &&& bank.collected_group_fees_outstanding.bits
                    >= self.collected_group_fees_outstanding.bits
                &&& bank.insurance_reserve.bits >= self.insurance_reserve.bits
            },
    {
        if now > self.last_update && self.spec_accrued(now) is Some {
            let seconds = (now - self.last_update) as u64;
            let assets = self.spec_asset_amount(self.total_asset_shares)->0;
            let liabilities = self.spec_liability_amount(self.total_liability_shares)->0;
            lemma_product_nonnegative(
                self.total_asset_shares.bits as int,
                self.asset_share_value.bits as int,
                Rounding::Down,
            );
            lemma_product_nonnegative(
                self.total_liability_shares.bits as int,
                self.liability_share_value.bits as int,
                Rounding::Up,
            );
            let ur = spec_utilization(assets, liabilities)->0;
            if assets.bits != 0 {
                lemma_quotient_nonnegative(
                    liabilities.bits as int,
                    assets.bits as int,
                    Rounding::Down,
                );
            }
            let irc = self.config.interest_rate_config;
            irc.lemma_rates_nonnegative(ur);
            let rates = irc.spec_calc_interest_rate(ur)->0;
            lemma_accrued_value_grows(
                self.liability_share_value,
                rates.borrowing_apr,
                seconds,
                Rounding::Up,
            );
            lemma_interest_payment_nonnegative(liabilities, rates.group_fee_apr, seconds);
            lemma_interest_payment_nonnegative(liabilities, rates.insurance_fee_apr, seconds);
            if self.socialized_loss.bits > 0 {
                lemma_interest_payment_nonnegative(assets, rates.lending_apr, seconds);
            } else {
                lemma_accrued_value_grows(
                    self.asset_share_value,
                    rates.lending_apr,
                    seconds,
                    Rounding::Down,
                );
            }
        }
    }

    /// While a bank lends no more than is deposited in it, accrual credits
    /// lenders at no higher a rate than it charges borrowers: the asset share
    /// value grows by no greater a factor than the liability share value,
    /// `new_asset_value / asset_value <= new_liability_value /
    /// liability_value`, stated without division. What lies between goes to
    /// the group fees and the insurance reserve.
    pub proof fn lemma_accrual_credits_no_more_than_it_charges(&self, now: i64)
        requires
            self.wf(),
            self.spec_check_liquidity() is Ok,
        ensures
            self.spec_accrued(now) matches Some(bank) ==> bank.asset_share_value.bits
                * self.liability_share_value.bits <= bank.liability_share_value.bits
                * self.asset_share_value.bits,
    {
        let asv = self.asset_share_value.bits as int;
        let lsv = self.liability_share_value.bits as int;
        if self.spec_accrued(now) is Some {
            let bank = self.spec_accrued(now).unwrap();
            self.lemma_accrual_keeps_order(now);
            if now > self.last_update && self.socialized_loss.bits <= 0 {
                let seconds = (now - self.last_update) as u64;
                let assets = self.spec_asset_amount(self.total_asset_shares)->0;
                let liabilities = self.spec_liability_amount(self.total_liability_shares)->0;
                lemma_product_nonnegative(
                    self.total_liability_shares.bits as int,
                    lsv,
                    Rounding::Up,
                );
                let ur = spec_utilization(assets, liabilities)->0;
                if assets.bits != 0 {
                    lemma_quotient_nonnegative(
                        liabilities.bits as int,
                        assets.bits as int,
                        Rounding::Down,
                    );
                    lemma_floor_quotient_is_greatest(
                        liabilities.bits * SCALE,
                        assets.bits as int,
                        SCALE + 1,
                    );
                    assert(liabilities.bits * SCALE < (SCALE + 1) * assets.bits)
                        by (nonlinear_arith)
                        requires
                            0 <= liabilities.bits <= assets.bits,
                            assets.bits > 0,
                    ;
                }
                let irc = self.config.interest_rate_config;
                irc.lemma_rates_nonnegative(ur);
                irc.lemma_lending_rate_is_at_most_borrowing_rate(ur);
                let rates = irc.spec_calc_interest_rate(ur)->0;
                lemma_growth_is_ordered(
                    self.asset_share_value,
                    self.liability_share_value,
                    rates.lending_apr,
                    rates.borrowing_apr,
                    seconds,
                );
            } else {
                assert(bank.asset_share_value.bits == asv);
                assert(asv * lsv <= bank.liability_share_value.bits * asv) by (nonlinear_arith)
                    requires
                        lsv <= bank.liability_share_value.bits,
                        asv > 0,
                ;
            }
        }
    }

    /// Accruing twice up to the same time changes nothing the second time.
    pub proof fn lemma_accrual_idempotent(&self, now: i64)
        ensures
            self.spec_accrued(now) matches Some(bank) ==> bank.spec_accrued(now) == Some(bank),
    {
    }
}

/// The bank after one accrual for each of the given times, in their order.
/// An accrual that is rejected leaves the bank as it was.
pub open spec fn spec_accrued_all(bank: Bank, times: Seq<i64>) -> Bank
    decreases times.len(),
{
    if times.len() == 0 {
        bank
    } else {
        let next = match bank.spec_accrued(times[0]) {
            Some(b) => b,
            None => bank,
        };
        spec_accrued_all(next, times.drop_first())
    }
}

/// Over any sequence of accruals, whatever their times, the two share values
/// never fall and the bank stays well formed.
pub proof fn lemma_share_values_never_fall(bank: Bank, times: Seq<i64>)
    requires
        bank.wf(),
    ensures
        spec_accrued_all(bank, times).wf(),
        spec_accrued_all(bank, times).asset_share_value.bits >= bank.asset_share_value.bits,
        spec_accrued_all(bank, times).liability_share_value.bits
            >= bank.liability_share_value.bits,
    decreases times.len(),
{
    if times.len() > 0 {
        bank.lemma_accrual_keeps_order(times[0]);
        let next = match bank.spec_accrued(times[0]) {
            Some(b) => b,
            None => bank,
        };
        lemma_share_values_never_fall(next, times.drop_first());
    }
}

/// The first bank at or after `from` that has the given key.
pub open spec fn spec_find_bank(banks: Seq<Bank>, key: Pubkey, from: int) -> Option<int>
    decreases banks.len() - from,
{
    if from < 0 || from >= banks.len() {
        None
    } else if banks[from].key == key {
        Some(from)
    } else {
        spec_find_bank(banks, key, from + 1)
    }
}

/// What the first bank with a key is: it has the key, and it lies in the
/// list.
pub proof fn lemma_find_bank(banks: Seq<Bank>, key: Pubkey, from: int)
    requires
        0 <= from,
    ensures
        spec_find_bank(banks, key, from) matches Some(i) ==> from <= i < banks.len()
            && banks[i].key == key,
    decreases banks.len() - from,
{
    if from < banks.len() && banks[from].key != key {
        lemma_find_bank(banks, key, from + 1);
    }
}

/// The index of the first bank with the given key, if there is one.
pub fn find_bank(banks: &Vec<Bank>, key: Pubkey) -> (r: Option<usize>)
    ensures
        match spec_find_bank(banks@, key, 0) {
            Some(i) => r == Some(i as usize) && 0 <= i < banks.len() && banks[i].key == key,
            None => r is None,
        },
{
    let mut i: usize = 0;
    while i < banks.len()
        invariant
            i <= banks.len(),
            spec_find_bank(banks@, key, 0) == spec_find_bank(banks@, key, i as int),
        decreases banks.len() - i,
    {
        if banks[i].key == key {
            return Some(i);
        }
        i = i + 1;
    }
    None
}

/// Every bank of the list is well formed.
pub open spec fn banks_wf(banks: Seq<Bank>) -> bool {
    forall|i: int| 0 <= i < banks.len() ==> (#[trigger] banks[i]).wf()
}

/// Whether every bank of the list is well formed.
pub fn banks_are_valid(banks: &Vec<Bank>) -> (r: bool)
    ensures
        r == banks_wf(banks@),
{
    let mut i: usize = 0;
    while i < banks.len()
        invariant
            i <= banks.len(),
            forall|k: int| 0 <= k < i ==> (#[trigger] banks[k]).wf(),
        decreases banks.len() - i,
    {
        if !banks[i].is_valid() {
            return false;
        }
        i = i + 1;
    }
    true
}

impl Bank {
    /// The bank after `amount` units are taken from a reserve that holds
    /// `reserve`, and what is left of the reserve.
    pub open spec fn spec_taken(reserve: I80F48, amount: u64) -> Option<I80F48> {
        if I80F48::spec_from_num(amount).bits <= reserve.bits {
            Some(I80F48 { bits: (reserve.bits - I80F48::spec_from_num(amount).bits) as i128 })
        } else {
            None
        }
    }

    /// Takes `amount` units out of the outstanding group fees. More than is
    /// outstanding is rejected with `InsufficientReserve`.
    pub fn withdraw_fees(&mut self, amount: u64) -> (r: Result<(), AstrolendError>)
        requires
            old(self).wf(),
        ensures
            match Bank::spec_taken(old(self).collected_group_fees_outstanding, amount) {
                Some(left) => r is Ok && *final(self) == (Bank {
                    collected_group_fees_outstanding: left,
                    ..*old(self)
                }),
                None => r == Err::<(), AstrolendError>(AstrolendError::InsufficientReserve)
                    && *final(self) == *old(self),
            },
            final(self).wf(),
    {
        let taken = I80F48::from_num(amount);
        if taken.bits > self.collected_group_fees_outstanding.bits {
            return Err(AstrolendError::InsufficientReserve);
        }
        self.collected_group_fees_outstanding = I80F48 {
            bits: self.collected_group_fees_outstanding.bits - taken.bits,
        };
        Ok(())
    }

    /// Accrues interest up to `now` and takes the whole units of the
    /// outstanding group fees out of them, leaving the fraction of a unit
    /// behind. Returns the units taken, which are the units to move from the
    /// liquidity vault to the fee vault. An accrual that overflows, or units
    /// that do not fit in 64 bits, reject the call with `MathError` and
    /// change nothing.
    pub fn collect_fees(&mut self, now: i64) -> (r: Result<u64, AstrolendError>)
        requires
            old(self).wf(),
        ensures
            match old(self).spec_accrued(now) {
                None => r == Err::<u64, AstrolendError>(AstrolendError::MathError)
                    && *final(self) == *old(self),
                Some(bank) => match bank.collected_group_fees_outstanding.spec_to_u64(
                    Rounding::Down,
                ) {
                    None => r == Err::<u64, AstrolendError>(AstrolendError::MathError)
                        && *final(self) == *old(self),
                    Some(units) => r == Ok::<u64, AstrolendError>(units) && *final(self) == (Bank {
                        collected_group_fees_outstanding: I80F48 {
                            bits: (bank.collected_group_fees_outstanding.bits - units
                                * SCALE) as i128,
                        },
                        ..bank
                    }),
                },
            },
            final(self).wf(),
            r matches Ok(units) ==> 0 <= final(self).collected_group_fees_outstanding.bits
                < SCALE,
    {
        let mut bank = *self;
        bank.accrue_interest(now)?;
        let units = match bank.collected_group_fees_outstanding.to_u64(Rounding::Down) {
            Some(v) => v,
            None => { return Err(AstrolendError::MathError); },
        };
        proof {
            lemma_quotient_bounds(bank.collected_group_fees_outstanding.bits as int, SCALE as int);
        }
        bank.collected_group_fees_outstanding = I80F48 {
            bits: bank.collected_group_fees_outstanding.bits - (units as i128) * SCALE,
        };
        *self = bank;
        Ok(units)
    }

    /// Takes `amount` units out of the insurance reserve. More than it holds
    /// is rejected with `InsufficientReserve`.
    pub fn withdraw_insurance(&mut self, amount: u64) -> (r: Result<(), AstrolendError>)
        requires
            old(self).wf(),
        ensures
            match Bank::spec_taken(old(self).insurance_reserve, amount) {
                Some(left) => r is Ok && *final(self) == (Bank {
                    insurance_reserve: left,
                    ..*old(self)
                }),
                None => r == Err::<(), AstrolendError>(AstrolendError::InsufficientReserve)
                    && *final(self) == *old(self),
            },
            final(self).wf(),
    {
        let taken = I80F48::from_num(amount);
        if taken.bits > self.insurance_reserve.bits {
            return Err(AstrolendError::InsufficientReserve);
        }
        self.insurance_reserve = I80F48 { bits: self.insurance_reserve.bits - taken.bits };
        Ok(())
    }
}

impl Bank {
    /// The solvency bound of the pool: all asset shares are worth at least
    /// what all liability shares are worth, with nothing rounded.
    pub open spec fn spec_is_solvent(&self) -> bool {
        self.total_asset_shares.bits * self.asset_share_value.bits
            >= self.total_liability_shares.bits * self.liability_share_value.bits
    }

    /// The outcome of the liquidity check: `MathError` where an amount does
    /// not fit, `InsufficientLiquidity` where what is deposited, rounded down,
    /// is less than what is borrowed, rounded up.
    pub open spec fn spec_check_liquidity(&self) -> Result<(), AstrolendError> {
        let assets = self.spec_asset_amount(self.total_asset_shares);
        let liabilities = self.spec_liability_amount(self.total_liability_shares);
        if assets is None || liabilities is None {
            Err(AstrolendError::MathError)
        } else if assets->0.bits < liabilities->0.bits {
            Err(AstrolendError::InsufficientLiquidity)
        } else {
            Ok(())
        }
    }

    /// A bank that passes the liquidity check is within the solvency bound.
    pub proof fn lemma_liquid_is_solvent(&self)
        ensures
            self.spec_check_liquidity() is Ok ==> self.spec_is_solvent(),
    {
        lemma_quotient_bounds(
            self.total_asset_shares.bits * self.asset_share_value.bits,
            SCALE as int,
        );
        lemma_quotient_bounds(
            self.total_liability_shares.bits * self.liability_share_value.bits,
            SCALE as int,
        );
        let assets = product(
            self.total_asset_shares.bits as int,
            self.asset_share_value.bits as int,
            Rounding::Down,
        );
        let liabilities = product(
            self.total_liability_shares.bits as int,
            self.liability_share_value.bits as int,
            Rounding::Up,
        );
        if assets >= liabilities {
            vstd::arithmetic::mul::lemma_mul_inequality(liabilities, assets, SCALE as int);
        }
    }

    /// Checks that the bank does not lend more than is deposited in it. A
    /// bank that passes is within the solvency bound.
    pub fn check_liquidity(&self) -> (r: Result<(), AstrolendError>)
        ensures
            r == self.spec_check_liquidity(),
            r is Ok ==> self.spec_is_solvent(),
    {
        proof {
            self.lemma_liquid_is_solvent();
        }
        let assets = match self.get_asset_amount(self.total_asset_shares) {
            Some(v) => v,
            None => { return Err(AstrolendError::MathError); },
        };
        let liabilities = match self.get_liability_amount(self.total_liability_shares) {
            Some(v) => v,
            None => { return Err(AstrolendError::MathError); },
        };
        if assets.bits < liabilities.bits {
            return Err(AstrolendError::InsufficientLiquidity);
        }
        Ok(())
    }
}

} // verus!
