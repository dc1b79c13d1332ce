//! The amount to send so that a given amount arrives, for an asset whose
//! transfers are charged a fee.
//!
//! A transfer of `gross` units is charged `gross * basis_points / 10000`
//! units, rounded down, and the rest arrives. For `amount` units to arrive,
//! the amount and the fee are sent: the fee is reckoned on the amount before
//! the fee, `amount * 10000 / (10000 - basis_points)`, rounded up.
use crate::fixed_point::{
    ceil_quotient, lemma_ceil_is_floor_plus_remainder, lemma_floor_quotient_is_greatest,
    lemma_quotient_bounds, lemma_rounded_quotient_monotonic, Rounding,
};
use vstd::prelude::*;

verus! {

/// The fee rate that takes everything, in hundredths of a percent.
pub const MAX_FEE_BASIS_POINTS: u16 = 10_000;

/// The fee charged on a transfer of `gross` units, rounded down.
pub open spec fn spec_fee(gross: int, basis_points: int) -> int {
    (gross * basis_points) / 10000
}

/// What arrives of a transfer of `gross` units.
pub open spec fn spec_net_amount(gross: int, basis_points: int) -> int {
    gross - spec_fee(gross, basis_points)
}

/// The amount of which `amount` is left after the fee,
/// `amount * 10000 / (10000 - basis_points)`, rounded up, for a fee that does
/// not take everything.
pub open spec fn spec_amount_before_fee(basis_points: u16, amount: u64) -> int
    recommends
        basis_points < 10000,
{
    ceil_quotient(amount * 10000, 10000 - basis_points)
}

/// The units to send for `amount` units to arrive: the amount plus the fee on
/// the amount before the fee. Nothing is sent for nothing. There is no such
/// amount where the fee takes everything, or where it does not fit in 64
/// bits.
pub open spec fn spec_pre_fee_amount(basis_points: u16, amount: u64) -> Option<u64> {
    if amount == 0 {
        Some(0)
    } else if basis_points >= 10000 {
        None
    } else {
        let gross = amount + spec_fee(
            spec_amount_before_fee(basis_points, amount),
            basis_points as int,
        );
        if gross <= u64::MAX {
            Some(gross as u64)
        } else {
            None
        }
    }
}

/// Of the units sent, at least `amount` arrive. What is sent is the amount
/// before the fee, rounded up, or one unit less; it is never less than
/// `amount`, and it is `amount` itself where nothing is charged.
pub proof fn lemma_pre_fee_amount_is_enough(basis_points: u16, amount: u64)
    requires
        basis_points < 10000,
    ensures
        ({
            let before = spec_amount_before_fee(basis_points, amount);
            let gross = amount + spec_fee(before, basis_points as int);
            &&& spec_net_amount(gross, basis_points as int) >= amount
            &&& amount <= gross
            &&& before - 1 <= gross <= before
            &&& basis_points == 0 ==> gross == amount
        }),
{
    let b = basis_points as int;
    let n = amount as int;
    let d = 10000 - b;
    let before = spec_amount_before_fee(basis_points, amount);
    let fee = spec_fee(before, b);
    let gross = n + fee;
    lemma_quotient_bounds(n * 10000, d);
    // (before - 1) * d < n * 10000 <= before * d
    assert(before >= 0) by {
        lemma_floor_quotient_is_greatest(n * 10000, d, 0);
        assert(n * 10000 >= 0);
        if before < 0 {
            assert(before * d < 0) by (nonlinear_arith)
                requires
                    before < 0,
                    d > 0,
            ;
        }
    }
    assert(fee >= 0) by {
        lemma_floor_quotient_is_greatest(before * b, 10000, 0);
        assert(before * b >= 0) by (nonlinear_arith)
            requires
                before >= 0,
                b >= 0,
        ;
    }
    // The fee on the amount before the fee is at most what lies between it
    // and the amount, and less than one unit short of that.
    assert(fee <= before - n) by {
        lemma_floor_quotient_is_greatest(before * b, 10000, before - n + 1);
        assert(before * b < (before - n + 1) * 10000) by (nonlinear_arith)
            requires
                n * 10000 <= before * d,
                d == 10000 - b,
        ;
    }
    assert(before - 1 - n <= fee) by {
        lemma_floor_quotient_is_greatest(before * b, 10000, before - 1 - n);
        assert((before - 1 - n) * 10000 <= before * b) by (nonlinear_arith)
            requires
                (before - 1) * d < n * 10000,
                d == 10000 - b,
                0 < d <= 10000,
        ;
    }
    // The fee on what is sent is no more than the fee that was added.
    assert(spec_fee(gross, b) <= fee) by {
        assert(gross * b <= before * b) by (nonlinear_arith)
            requires
                gross <= before,
                b >= 0,
        ;
        lemma_rounded_quotient_monotonic(gross * b, before * b, 10000, Rounding::Down);
    }
    if basis_points == 0 {
        assert(before * 0 == 0);
    }
}

/// Where the fee takes everything, nothing arrives of whatever is sent.
pub proof fn lemma_full_fee_lets_nothing_arrive(basis_points: u16, gross: u64)
    requires
        basis_points >= 10000,
    ensures
        spec_net_amount(gross as int, basis_points as int) <= 0,
{
    lemma_floor_quotient_is_greatest(gross * basis_points, 10000, gross as int);
    assert(gross * 10000 <= gross * basis_points) by (nonlinear_arith)
        requires
            gross >= 0,
            basis_points >= 10000,
    ;
}

/// The units to send so that `amount` units arrive after the transfer fee:
/// the amount plus the fee. `None` where the fee takes everything or the
/// units do not fit in 64 bits.
pub fn calculate_pre_fee_spl_deposit_amount(basis_points: u16, amount: u64) -> (r: Option<u64>)
    ensures
        r == spec_pre_fee_amount(basis_points, amount),
        r matches Some(gross) ==> gross >= amount && spec_net_amount(
            gross as int,
            basis_points as int,
        ) >= amount,
{
    if amount == 0 {
        assert(spec_net_amount(0, basis_points as int) == 0) by {
            assert(0 * basis_points == 0);
        }
        return Some(0);
    }
    if basis_points >= MAX_FEE_BASIS_POINTS {
        return None;
    }
    let rate: u128 = basis_points as u128;
    let kept: u128 = (MAX_FEE_BASIS_POINTS - basis_points) as u128;
    let numerator: u128 = amount as u128 * 10000;
    let down: u128 = numerator / kept;
    let rest: u128 = numerator % kept;
    proof {
        lemma_pre_fee_amount_is_enough(basis_points, amount);
        lemma_ceil_is_floor_plus_remainder(numerator as int, kept as int);
        lemma_quotient_bounds(numerator as int, kept as int);
        assert(down <= numerator) by (nonlinear_arith)
            requires
                down * kept <= numerator,
                kept >= 1,
                down >= 0,
        ;
    }
    let before: u128 = if rest != 0 {
        down + 1
    } else {
        down
    };
    assert(before * rate <= 0x1_0000_0000_0000_0000 * 10000 * 10000) by (nonlinear_arith)
        requires
            0 <= before <= 0x1_0000_0000_0000_0000 * 10000,
            0 <= rate <= 10000,
    ;
    let fee: u128 = before * rate / 10000;
    let gross: u128 = amount as u128 + fee;
    if gross <= u64::MAX as u128 {
        Some(gross as u64)
    } else {
        None
    }
}

/// The amount to send for `amount` to arrive: `amount` itself where transfers
/// of the asset are not charged.
pub open spec fn spec_gross_amount(fee_basis_points: Option<u16>, amount: u64) -> Option<u64> {
    match fee_basis_points {
        Some(basis_points) => spec_pre_fee_amount(basis_points, amount),
        None => Some(amount),
    }
}

/// The amount to send for `amount` to arrive, or `None` where there is none
/// that fits in 64 bits.
pub fn gross_amount(fee_basis_points: Option<u16>, amount: u64) -> (r: Option<u64>)
    ensures
        r == spec_gross_amount(fee_basis_points, amount),
        r matches Some(gross) ==> gross >= amount,
{
    match fee_basis_points {
        Some(basis_points) => calculate_pre_fee_spl_deposit_amount(basis_points, amount),
        None => Some(amount),
    }
}

} // verus!
