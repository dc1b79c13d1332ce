//! From a bank's utilization to yearly rates, and from yearly rates to the
//! growth of a value over a number of seconds.
//!
//! Interest is applied once for the whole elapsed interval:
//! `new = old * (1 + apr * seconds / SECONDS_PER_YEAR)`. What lenders earn is
//! rounded down and what borrowers owe is rounded up.
use crate::fixed_point::{
    lemma_product_by_one, lemma_product_nonnegative, lemma_quotient_bounds,
    lemma_quotient_monotonic, lemma_quotient_nonnegative, lemma_product_monotonic,
    lemma_rounded_quotient_of_multiple,
    opt_add, opt_div, opt_mul, product, quotient, Rounding, I80F48, SCALE,
};
use vstd::prelude::*;

verus! {

/// Seconds in a year of 365 days.
pub const SECONDS_PER_YEAR: u64 = 31_536_000;

/// The interest-rate curve of a bank and the fees taken from borrowers.
///
/// The base rate rises linearly from zero to `plateau_interest_rate` while
/// utilization rises to `optimal_utilization_rate`, and from there linearly
/// to `max_interest_rate` at full utilization.
#[derive(Clone, Copy, Debug, PartialEq, Eq, Structural)]
pub struct InterestRateConfig {
    pub optimal_utilization_rate: I80F48,
    pub plateau_interest_rate: I80F48,
    pub max_interest_rate: I80F48,
    /// Yearly rate paid by borrowers into the insurance reserve.
    pub insurance_fee_fixed_apr: I80F48,
    /// Share of the base rate paid by borrowers into the insurance reserve.
    pub insurance_ir_fee: I80F48,
    /// Yearly rate paid by borrowers as group fee.
    pub protocol_fixed_fee_apr: I80F48,
    /// Share of the base rate paid by borrowers as group fee.
    pub protocol_ir_fee: I80F48,
}

/// The yearly rates of a bank at one utilization.
#[derive(Clone, Copy, Debug, PartialEq, Eq, Structural)]
pub struct InterestRates {
    /// Earned by lenders.
    pub lending_apr: I80F48,
    /// Owed by borrowers.
    pub borrowing_apr: I80F48,
    /// Part of what borrowers owe that goes to the group.
    pub group_fee_apr: I80F48,
    /// Part of what borrowers owe that goes to the insurance reserve.
    pub insurance_fee_apr: I80F48,
}

impl InterestRates {
    /// No rate is negative.
    pub open spec fn nonnegative(&self) -> bool {
        &&& self.lending_apr.bits >= 0
        &&& self.borrowing_apr.bits >= 0
        &&& self.group_fee_apr.bits >= 0
        &&& self.insurance_fee_apr.bits >= 0
    }
}

impl InterestRateConfig {
    /// The knot lies strictly between no and full utilization, the curve does
    /// not fall, and no fee is negative.
    pub open spec fn wf(&self) -> bool {
        &&& 0 < self.optimal_utilization_rate.bits < SCALE
        &&& 0 <= self.plateau_interest_rate.bits <= self.max_interest_rate.bits
        &&& 0 <= self.insurance_fee_fixed_apr.bits
        &&& 0 <= self.insurance_ir_fee.bits
        &&& 0 <= self.protocol_fixed_fee_apr.bits
        &&& 0 <= self.protocol_ir_fee.bits
    }

    /// Whether the configuration is well formed.
    pub fn is_valid(&self) -> (r: bool)
        ensures
            r == self.wf(),
    {
        0 < self.optimal_utilization_rate.bits && self.optimal_utilization_rate.bits < SCALE && 0
            <= self.plateau_interest_rate.bits && self.plateau_interest_rate.bits
            <= self.max_interest_rate.bits && 0 <= self.insurance_fee_fixed_apr.bits && 0
            <= self.insurance_ir_fee.bits && 0 <= self.protocol_fixed_fee_apr.bits && 0
            <= self.protocol_ir_fee.bits
    }

    /// The base rate at utilization `ur`: below the knot
    /// `ur / optimal * plateau`, above it
    /// `(ur - optimal) / (1 - optimal) * (max - plateau) + plateau`,
    /// each step rounded down.
    pub open spec fn spec_interest_rate_curve(&self, ur: I80F48) -> Option<I80F48> {
        if ur.bits <= self.optimal_utilization_rate.bits {
            opt_mul(
                ur.spec_div(self.optimal_utilization_rate, Rounding::Down),
                Some(self.plateau_interest_rate),
                Rounding::Down,
            )
        } else {
            let over = ur.spec_sub(self.optimal_utilization_rate);
            let span = (I80F48 { bits: SCALE }).spec_sub(self.optimal_utilization_rate);
            let rise = self.max_interest_rate.spec_sub(self.plateau_interest_rate);
            opt_add(
                opt_mul(opt_div(over, span, Rounding::Down), rise, Rounding::Down),
                Some(self.plateau_interest_rate),
            )
        }
    }

    /// The base rate at utilization `ur`, or `None` on overflow.
    pub fn interest_rate_curve(&self, ur: I80F48) -> (r: Option<I80F48>)
        ensures
            r == self.spec_interest_rate_curve(ur),
    {
        if ur.bits <= self.optimal_utilization_rate.bits {
            let part = ur.div_round(self.optimal_utilization_rate, Rounding::Down)?;
            part.mul_round(self.plateau_interest_rate, Rounding::Down)
        } else {
            let over = ur.checked_sub(self.optimal_utilization_rate)?;
            let span = I80F48::one().checked_sub(self.optimal_utilization_rate)?;
            let rise = self.max_interest_rate.checked_sub(self.plateau_interest_rate)?;
            let part = over.div_round(span, Rounding::Down)?;
            let scaled = part.mul_round(rise, Rounding::Down)?;
            scaled.checked_add(self.plateau_interest_rate)
        }
    }

    /// The four yearly rates at utilization `ur`.
    ///
    /// Lenders earn `base * ur`, rounded down. Borrowers owe
    /// `base * (1 + insurance_ir_fee + protocol_ir_fee)`, rounded up, plus
    /// the two fixed fees. Each fee is `base * ir_fee`, rounded down, plus
    /// its fixed part.
    pub open spec fn spec_calc_interest_rate(&self, ur: I80F48) -> Option<InterestRates> {
        let base = self.spec_interest_rate_curve(ur);
        let rate_fee = self.protocol_ir_fee.spec_add(self.insurance_ir_fee);
        let fixed_fee = self.protocol_fixed_fee_apr.spec_add(self.insurance_fee_fixed_apr);
        let lending = opt_mul(base, Some(ur), Rounding::Down);
        let borrowing = opt_add(
            opt_mul(base, opt_add(Some(I80F48 { bits: SCALE }), rate_fee), Rounding::Up),
            fixed_fee,
        );
        let group = opt_add(
            opt_mul(base, Some(self.protocol_ir_fee), Rounding::Down),
            Some(self.protocol_fixed_fee_apr),
        );
        let insurance = opt_add(
            opt_mul(base, Some(self.insurance_ir_fee), Rounding::Down),
            Some(self.insurance_fee_fixed_apr),
        );
        match (lending, borrowing, group, insurance) {
            (Some(l), Some(b), Some(g), Some(i)) => Some(
                InterestRates {
                    lending_apr: l,
                    borrowing_apr: b,
                    group_fee_apr: g,
                    insurance_fee_apr: i,
                },
            ),
            _ => None,
        }
    }

    /// The four yearly rates at utilization `ur`, or `None` on overflow.
    pub fn calc_interest_rate(&self, ur: I80F48) -> (r: Option<InterestRates>)
        ensures
            r == self.spec_calc_interest_rate(ur),
    {
        let base = self.interest_rate_curve(ur)?;
        let rate_fee = self.protocol_ir_fee.checked_add(self.insurance_ir_fee)?;
        let fixed_fee = self.protocol_fixed_fee_apr.checked_add(self.insurance_fee_fixed_apr)?;
        let lending_apr = base.mul_round(ur, Rounding::Down)?;
        let gross = I80F48::one().checked_add(rate_fee)?;
        let borrowing_apr = base.mul_round(gross, Rounding::Up)?.checked_add(fixed_fee)?;
        let group_fee_apr = base.mul_round(self.protocol_ir_fee, Rounding::Down)?.checked_add(
            self.protocol_fixed_fee_apr,
        )?;
        let insurance_fee_apr = base.mul_round(self.insurance_ir_fee, Rounding::Down)?.checked_add(
            self.insurance_fee_fixed_apr,
        )?;
        Some(InterestRates { lending_apr, borrowing_apr, group_fee_apr, insurance_fee_apr })
    }

    /// At a utilization that is not negative, the base rate is not negative.
    pub proof fn lemma_curve_nonnegative(&self, ur: I80F48)
        requires
            self.wf(),
            ur.bits >= 0,
            self.spec_interest_rate_curve(ur) is Some,
        ensures
            self.spec_interest_rate_curve(ur)->0.bits >= 0,
    {
        let opt = self.optimal_utilization_rate.bits as int;
        if ur.bits <= opt {
            lemma_quotient_nonnegative(ur.bits as int, opt, Rounding::Down);
            lemma_product_nonnegative(
                quotient(ur.bits as int, opt, Rounding::Down),
                self.plateau_interest_rate.bits as int,
                Rounding::Down,
            );
        } else {
            let over = ur.bits - opt;
            let span = SCALE - opt;
            let rise = self.max_interest_rate.bits - self.plateau_interest_rate.bits;
            lemma_quotient_nonnegative(over, span, Rounding::Down);
            lemma_product_nonnegative(quotient(over, span, Rounding::Down), rise, Rounding::Down);
        }
    }

    /// The base rate does not fall when utilization rises.
    pub proof fn lemma_curve_monotonic(&self, ur1: I80F48, ur2: I80F48)
        requires
            self.wf(),
            0 <= ur1.bits <= ur2.bits,
            self.spec_interest_rate_curve(ur1) is Some,
            self.spec_interest_rate_curve(ur2) is Some,
        ensures
            self.spec_interest_rate_curve(ur1)->0.bits <= self.spec_interest_rate_curve(
                ur2,
            )->0.bits,
    {
        let opt = self.optimal_utilization_rate.bits as int;
        let plateau = self.plateau_interest_rate.bits as int;
        let span = SCALE - opt;
        let rise = self.max_interest_rate.bits - plateau;
        let low = |ur: int| product(quotient(ur, opt, Rounding::Down), plateau, Rounding::Down);
        let high = |ur: int|
            product(quotient(ur - opt, span, Rounding::Down), rise, Rounding::Down) + plateau;
        if ur2.bits <= opt {
            lemma_quotient_monotonic(ur1.bits as int, ur2.bits as int, opt, Rounding::Down);
            lemma_quotient_nonnegative(ur1.bits as int, opt, Rounding::Down);
            lemma_product_monotonic(
                quotient(ur1.bits as int, opt, Rounding::Down),
                quotient(ur2.bits as int, opt, Rounding::Down),
                plateau,
                Rounding::Down,
            );
            assert(low(ur1.bits as int) <= low(ur2.bits as int));
        } else if ur1.bits > opt {
            lemma_quotient_monotonic(ur1.bits - opt, ur2.bits - opt, span, Rounding::Down);
            lemma_product_monotonic(
                quotient(ur1.bits - opt, span, Rounding::Down),
                quotient(ur2.bits - opt, span, Rounding::Down),
                rise,
                Rounding::Down,
            );
            assert(high(ur1.bits as int) <= high(ur2.bits as int));
        } else {
            // Below the knot the rate is at most the plateau, above it at least.
            lemma_quotient_monotonic(ur1.bits as int, opt, opt, Rounding::Down);
            lemma_quotient_nonnegative(ur1.bits as int, opt, Rounding::Down);
            assert(quotient(opt, opt, Rounding::Down) == SCALE) by {
                vstd::arithmetic::mul::lemma_mul_is_commutative(opt, SCALE as int);
                lemma_rounded_quotient_of_multiple(SCALE as int, opt, Rounding::Down);
            }
            lemma_product_by_one(
                plateau,
                quotient(ur1.bits as int, opt, Rounding::Down),
                Rounding::Down,
            );
            lemma_product_monotonic(
                quotient(ur1.bits as int, opt, Rounding::Down),
                SCALE as int,
                plateau,
                Rounding::Down,
            );
            assert(low(ur1.bits as int) <= plateau);
            lemma_quotient_nonnegative(ur2.bits - opt, span, Rounding::Down);
            lemma_product_nonnegative(
                quotient(ur2.bits - opt, span, Rounding::Down),
                rise,
                Rounding::Down,
            );
            assert(high(ur2.bits as int) >= plateau);
        }
    }

    /// While no more is borrowed than is deposited, lenders earn no higher a
    /// rate than borrowers owe: the fees are what lies between.
    pub proof fn lemma_lending_rate_is_at_most_borrowing_rate(&self, ur: I80F48)
        requires
            self.wf(),
            0 <= ur.bits <= SCALE,
            self.spec_calc_interest_rate(ur) is Some,
        ensures
            self.spec_calc_interest_rate(ur)->0.lending_apr.bits <= self.spec_calc_interest_rate(
                ur,
            )->0.borrowing_apr.bits,
    {
        self.lemma_curve_nonnegative(ur);
        let base = self.spec_interest_rate_curve(ur)->0.bits as int;
        let rate_fee = self.protocol_ir_fee.bits + self.insurance_ir_fee.bits;
        lemma_product_by_one(base, ur.bits as int, Rounding::Down);
        lemma_product_by_one(base, SCALE + rate_fee, Rounding::Up);
    }

    /// At a utilization that is not negative, no rate is negative.
    pub proof fn lemma_rates_nonnegative(&self, ur: I80F48)
        requires
            self.wf(),
            ur.bits >= 0,
            self.spec_calc_interest_rate(ur) is Some,
        ensures
            self.spec_calc_interest_rate(ur)->0.nonnegative(),
    {
        self.lemma_curve_nonnegative(ur);
        let base = self.spec_interest_rate_curve(ur)->0.bits as int;
        let rate_fee = self.protocol_ir_fee.bits + self.insurance_ir_fee.bits;
        lemma_product_nonnegative(base, ur.bits as int, Rounding::Down);
        lemma_product_nonnegative(base, SCALE + rate_fee, Rounding::Up);
        lemma_product_nonnegative(base, self.protocol_ir_fee.bits as int, Rounding::Down);
        lemma_product_nonnegative(base, self.insurance_ir_fee.bits as int, Rounding::Down);
    }
}

/// The rate for `seconds` seconds at the yearly rate `apr`:
/// `apr * seconds / SECONDS_PER_YEAR`, rounded.
pub open spec fn spec_period_rate(apr: I80F48, seconds: u64, rounding: Rounding) -> Option<
    I80F48,
> {
    opt_div(
        apr.spec_mul(I80F48::spec_from_num(seconds), Rounding::Down),
        Some(I80F48::spec_from_num(SECONDS_PER_YEAR)),
        rounding,
    )
}

/// The rate for `seconds` seconds at the yearly rate `apr`, or `None` on
/// overflow.
pub fn period_rate(apr: I80F48, seconds: u64, rounding: Rounding) -> (r: Option<I80F48>)
    ensures
        r == spec_period_rate(apr, seconds, rounding),
{
    let scaled = apr.mul_round(I80F48::from_num(seconds), Rounding::Down)?;
    scaled.div_round(I80F48::from_num(SECONDS_PER_YEAR), rounding)
}

/// `value` after `seconds` seconds at the yearly rate `apr`:
/// `value * (1 + apr * seconds / SECONDS_PER_YEAR)`, each step rounded.
pub open spec fn spec_accrued_value(
    value: I80F48,
    apr: I80F48,
    seconds: u64,
    rounding: Rounding,
) -> Option<I80F48> {
    opt_mul(
        Some(value),
        opt_add(Some(I80F48 { bits: SCALE }), spec_period_rate(apr, seconds, rounding)),
        rounding,
    )
}

/// `value` after `seconds` seconds at the yearly rate `apr`, or `None` on
/// overflow.
pub fn accrued_value(value: I80F48, apr: I80F48, seconds: u64, rounding: Rounding) -> (r: Option<
    I80F48,
>)
    ensures
        r == spec_accrued_value(value, apr, seconds, rounding),
{
    let rate = period_rate(apr, seconds, rounding)?;
    let factor = I80F48::one().checked_add(rate)?;
    value.mul_round(factor, rounding)
}

/// The interest on `principal` for `seconds` seconds at the yearly rate
/// `apr`: `principal * apr * seconds / SECONDS_PER_YEAR`, each step rounded
/// down.
pub open spec fn spec_interest_payment(principal: I80F48, apr: I80F48, seconds: u64) -> Option<
    I80F48,
> {
    opt_div(
        opt_mul(
            principal.spec_mul(apr, Rounding::Down),
            Some(I80F48::spec_from_num(seconds)),
            Rounding::Down,
        ),
        Some(I80F48::spec_from_num(SECONDS_PER_YEAR)),
        Rounding::Down,
    )
}

/// The interest on `principal` for `seconds` seconds at the yearly rate
/// `apr`, or `None` on overflow.
pub fn interest_payment(principal: I80F48, apr: I80F48, seconds: u64) -> (r: Option<I80F48>)
    ensures
        r == spec_interest_payment(principal, apr, seconds),
{
    let yearly = principal.mul_round(apr, Rounding::Down)?;
    let scaled = yearly.mul_round(I80F48::from_num(seconds), Rounding::Down)?;
    scaled.div_round(I80F48::from_num(SECONDS_PER_YEAR), Rounding::Down)
}

/// At a rate that is not negative, the rate for a period is not negative.
pub proof fn lemma_period_rate_nonnegative(apr: I80F48, seconds: u64, rounding: Rounding)
    requires
        apr.bits >= 0,
        spec_period_rate(apr, seconds, rounding) is Some,
    ensures
        spec_period_rate(apr, seconds, rounding)->0.bits >= 0,
{
    let whole = I80F48::spec_from_num(seconds).bits as int;
    let year = I80F48::spec_from_num(SECONDS_PER_YEAR).bits as int;
    assert(whole >= 0 && year > 0) by (nonlinear_arith)
        requires
            whole == seconds * 0x1_0000_0000_0000,
            year == 31_536_000 * 0x1_0000_0000_0000,
    ;
    lemma_product_nonnegative(apr.bits as int, whole, Rounding::Down);
    lemma_quotient_nonnegative(product(apr.bits as int, whole, Rounding::Down), year, rounding);
}

/// At a rate that is not negative, a value that is not negative does not
/// shrink.
pub proof fn lemma_accrued_value_grows(
    value: I80F48,
    apr: I80F48,
    seconds: u64,
    rounding: Rounding,
)
    requires
        value.bits >= 0,
        apr.bits >= 0,
        spec_accrued_value(value, apr, seconds, rounding) is Some,
    ensures
        spec_accrued_value(value, apr, seconds, rounding)->0.bits >= value.bits,
{
    lemma_period_rate_nonnegative(apr, seconds, rounding);
    let rate = spec_period_rate(apr, seconds, rounding)->0.bits as int;
    lemma_product_by_one(value.bits as int, SCALE + rate, rounding);
}

/// The rate for a period, rounded down, at a lower yearly rate is at most the
/// rate for the same period, rounded up, at a higher yearly rate.
pub proof fn lemma_period_rate_is_ordered(low: I80F48, high: I80F48, seconds: u64)
    requires
        0 <= low.bits <= high.bits,
        spec_period_rate(low, seconds, Rounding::Down) is Some,
        spec_period_rate(high, seconds, Rounding::Up) is Some,
    ensures
        0 <= spec_period_rate(low, seconds, Rounding::Down)->0.bits <= spec_period_rate(
            high,
            seconds,
            Rounding::Up,
        )->0.bits,
{
    let whole = I80F48::spec_from_num(seconds).bits as int;
    let year = I80F48::spec_from_num(SECONDS_PER_YEAR).bits as int;
    assert(whole >= 0 && year > 0) by (nonlinear_arith)
        requires
            whole == seconds * 0x1_0000_0000_0000,
            year == 31_536_000 * 0x1_0000_0000_0000,
    ;
    let scaled_low = product(low.bits as int, whole, Rounding::Down);
    let scaled_high = product(high.bits as int, whole, Rounding::Down);
    lemma_product_nonnegative(low.bits as int, whole, Rounding::Down);
    lemma_product_monotonic(low.bits as int, high.bits as int, whole, Rounding::Down);
    lemma_quotient_nonnegative(scaled_low, year, Rounding::Down);
    lemma_quotient_monotonic(scaled_low, scaled_high, year, Rounding::Down);
    lemma_quotient_nonnegative(scaled_high, year, Rounding::Down);
}

/// A value that grows at a lower yearly rate, rounded down, grows by no
/// greater a factor than a value that grows at a higher yearly rate, rounded
/// up: `grown_low / low_value <= grown_high / high_value`, stated without
/// division.
pub proof fn lemma_growth_is_ordered(
    low_value: I80F48,
    high_value: I80F48,
    low: I80F48,
    high: I80F48,
    seconds: u64,
)
    requires
        low_value.bits >= 0,
        high_value.bits >= 0,
        0 <= low.bits <= high.bits,
        spec_accrued_value(low_value, low, seconds, Rounding::Down) is Some,
        spec_accrued_value(high_value, high, seconds, Rounding::Up) is Some,
    ensures
        spec_accrued_value(low_value, low, seconds, Rounding::Down)->0.bits * high_value.bits
            <= spec_accrued_value(high_value, high, seconds, Rounding::Up)->0.bits
            * low_value.bits,
{
    lemma_period_rate_is_ordered(low, high, seconds);
    let s = SCALE as int;
    let a = low_value.bits as int;
    let l = high_value.bits as int;
    let pl = spec_period_rate(low, seconds, Rounding::Down)->0.bits as int;
    let pb = spec_period_rate(high, seconds, Rounding::Up)->0.bits as int;
    let grown_a = spec_accrued_value(low_value, low, seconds, Rounding::Down)->0.bits as int;
    let grown_l = spec_accrued_value(high_value, high, seconds, Rounding::Up)->0.bits as int;
    lemma_quotient_bounds(a * (s + pl), s);
    lemma_quotient_bounds(l * (s + pb), s);
    // grown_a * s <= a * (s + pl) and l * (s + pb) <= grown_l * s
    assert(grown_a * l * s <= grown_l * a * s) by (nonlinear_arith)
        requires
            grown_a * s <= a * (s + pl),
            l * (s + pb) <= grown_l * s,
            0 <= pl <= pb,
            a >= 0,
            l >= 0,
            s > 0,
    {
        assert(grown_a * s * l <= a * (s + pl) * l);
        assert(a * (s + pl) * l <= a * (s + pb) * l);
        assert(a * (l * (s + pb)) <= a * (grown_l * s));
    }
    assert(grown_a * l <= grown_l * a) by (nonlinear_arith)
        requires
            grown_a * l * s <= grown_l * a * s,
            s > 0,
    ;
}

/// Interest on a principal that is not negative, at a rate that is not
/// negative, is not negative.
pub proof fn lemma_interest_payment_nonnegative(principal: I80F48, apr: I80F48, seconds: u64)
    requires
        principal.bits >= 0,
        apr.bits >= 0,
        spec_interest_payment(principal, apr, seconds) is Some,
    ensures
        spec_interest_payment(principal, apr, seconds)->0.bits >= 0,
{
    let whole = I80F48::spec_from_num(seconds).bits as int;
    let year = I80F48::spec_from_num(SECONDS_PER_YEAR).bits as int;
    assert(whole >= 0 && year > 0) by (nonlinear_arith)
        requires
            whole == seconds * 0x1_0000_0000_0000,
            year == 31_536_000 * 0x1_0000_0000_0000,
    ;
    let yearly = product(principal.bits as int, apr.bits as int, Rounding::Down);
    lemma_product_nonnegative(principal.bits as int, apr.bits as int, Rounding::Down);
    lemma_product_nonnegative(yearly, whole, Rounding::Down);
    lemma_quotient_nonnegative(product(yearly, whole, Rounding::Down), year, Rounding::Down);
}

} // verus!
