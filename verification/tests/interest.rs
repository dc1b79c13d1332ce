use astrolend::fixed_point::{Rounding, I80F48, SCALE};
use astrolend::interest::{
    accrued_value, interest_payment, period_rate, InterestRateConfig, InterestRates,
    SECONDS_PER_YEAR,
};

fn frac(numerator: i128, denominator: i128) -> I80F48 {
    I80F48::from_bits(numerator * SCALE / denominator)
}

fn curve_without_fees() -> InterestRateConfig {
    InterestRateConfig {
        optimal_utilization_rate: frac(1, 2),
        plateau_interest_rate: frac(1, 4),
        max_interest_rate: frac(1, 1),
        insurance_fee_fixed_apr: I80F48::zero(),
        insurance_ir_fee: I80F48::zero(),
        protocol_fixed_fee_apr: I80F48::zero(),
        protocol_ir_fee: I80F48::zero(),
    }
}

fn curve_with_fees() -> InterestRateConfig {
    InterestRateConfig {
        insurance_fee_fixed_apr: frac(1, 16),
        insurance_ir_fee: frac(1, 4),
        protocol_fixed_fee_apr: frac(1, 8),
        protocol_ir_fee: frac(1, 4),
        ..curve_without_fees()
    }
}

#[test]
fn curve_is_linear_up_to_the_knot() {
    let c = curve_without_fees();
    assert_eq!(c.interest_rate_curve(I80F48::zero()), Some(I80F48::zero()));
    assert_eq!(c.interest_rate_curve(frac(1, 4)), Some(frac(1, 8)));
    assert_eq!(c.interest_rate_curve(frac(1, 2)), Some(frac(1, 4)));
}

#[test]
fn curve_is_steeper_above_the_knot() {
    let c = curve_without_fees();
    assert_eq!(c.interest_rate_curve(frac(3, 4)), Some(frac(5, 8)));
    assert_eq!(c.interest_rate_curve(frac(1, 1)), Some(frac(1, 1)));
    assert_eq!(c.interest_rate_curve(frac(3, 2)), Some(frac(7, 4)));
}

#[test]
fn curve_never_falls_as_utilization_rises() {
    let c = curve_without_fees();
    let mut last = I80F48::zero();
    for step in 0..=64 {
        let rate = c.interest_rate_curve(frac(step, 32)).unwrap();
        assert!(rate.to_bits() >= last.to_bits());
        last = rate;
    }
}

#[test]
fn curve_fails_on_overflow() {
    let c = curve_without_fees();
    assert_eq!(c.interest_rate_curve(I80F48::from_bits(i128::MAX)), None);
}

#[test]
fn rates_without_fees() {
    let c = curve_without_fees();
    assert_eq!(
        c.calc_interest_rate(frac(1, 2)),
        Some(InterestRates {
            lending_apr: frac(1, 8),
            borrowing_apr: frac(1, 4),
            group_fee_apr: I80F48::zero(),
            insurance_fee_apr: I80F48::zero(),
        })
    );
}

#[test]
fn rates_with_fees() {
    let c = curve_with_fees();
    assert_eq!(
        c.calc_interest_rate(frac(1, 1)),
        Some(InterestRates {
            lending_apr: frac(1, 1),
            borrowing_apr: frac(27, 16),
            group_fee_apr: frac(3, 8),
            insurance_fee_apr: frac(5, 16),
        })
    );
}

#[test]
fn rates_at_no_utilization_are_the_fixed_fees() {
    let c = curve_with_fees();
    assert_eq!(
        c.calc_interest_rate(I80F48::zero()),
        Some(InterestRates {
            lending_apr: I80F48::zero(),
            borrowing_apr: frac(3, 16),
            group_fee_apr: frac(1, 8),
            insurance_fee_apr: frac(1, 16),
        })
    );
}

#[test]
fn borrowing_rate_is_rounded_up_and_lending_rate_down() {
    let c = InterestRateConfig {
        protocol_ir_fee: I80F48::from_bits(1),
        plateau_interest_rate: I80F48::from_bits(1),
        max_interest_rate: I80F48::from_bits(1),
        ..curve_without_fees()
    };
    // base is one unit; times (1 + one unit) it is one unit and a bit
    let rates = c.calc_interest_rate(frac(1, 2)).unwrap();
    assert_eq!(rates.borrowing_apr, I80F48::from_bits(2));
    assert_eq!(rates.lending_apr, I80F48::from_bits(0));
    assert_eq!(rates.group_fee_apr, I80F48::from_bits(0));
}

#[test]
fn interest_config_validity() {
    assert!(curve_without_fees().is_valid());
    assert!(curve_with_fees().is_valid());
    assert!(!InterestRateConfig { optimal_utilization_rate: I80F48::zero(), ..curve_without_fees() }
        .is_valid());
    assert!(!InterestRateConfig { optimal_utilization_rate: I80F48::one(), ..curve_without_fees() }
        .is_valid());
    assert!(!InterestRateConfig { max_interest_rate: frac(1, 8), ..curve_without_fees() }
        .is_valid());
    assert!(!InterestRateConfig { protocol_ir_fee: I80F48::from_bits(-1), ..curve_without_fees() }
        .is_valid());
    assert!(!InterestRateConfig {
        insurance_fee_fixed_apr: I80F48::from_bits(-1),
        ..curve_without_fees()
    }
    .is_valid());
}

#[test]
fn period_rate_is_the_share_of_the_year() {
    let one = I80F48::one();
    assert_eq!(period_rate(one, SECONDS_PER_YEAR, Rounding::Down), Some(one));
    assert_eq!(period_rate(one, SECONDS_PER_YEAR / 2, Rounding::Up), Some(frac(1, 2)));
    assert_eq!(period_rate(one, 0, Rounding::Up), Some(I80F48::zero()));
    assert_eq!(period_rate(one, 1, Rounding::Down), Some(I80F48::from_bits(8_925_512)));
    assert_eq!(period_rate(one, 1, Rounding::Up), Some(I80F48::from_bits(8_925_513)));
}

#[test]
fn accrued_value_applies_the_rate_once() {
    let two = I80F48::from_num(2);
    assert_eq!(
        accrued_value(two, I80F48::one(), SECONDS_PER_YEAR, Rounding::Down),
        Some(I80F48::from_num(4))
    );
    // two years at 100% is 1 + 2, not (1 + 1)^2
    assert_eq!(
        accrued_value(two, I80F48::one(), 2 * SECONDS_PER_YEAR, Rounding::Down),
        Some(I80F48::from_num(6))
    );
    assert_eq!(accrued_value(two, I80F48::one(), 0, Rounding::Up), Some(two));
    assert_eq!(
        accrued_value(I80F48::one(), I80F48::one(), 1, Rounding::Down),
        Some(I80F48::from_bits(SCALE + 8_925_512))
    );
    assert_eq!(
        accrued_value(I80F48::one(), I80F48::one(), 1, Rounding::Up),
        Some(I80F48::from_bits(SCALE + 8_925_513))
    );
}

#[test]
fn accrued_value_fails_on_overflow() {
    let max = I80F48::from_bits(i128::MAX);
    assert_eq!(accrued_value(max, I80F48::one(), SECONDS_PER_YEAR, Rounding::Down), None);
    assert_eq!(accrued_value(I80F48::one(), max, SECONDS_PER_YEAR, Rounding::Down), None);
}

#[test]
fn interest_payment_is_principal_times_rate_times_time() {
    assert_eq!(
        interest_payment(I80F48::from_num(1000), frac(1, 2), SECONDS_PER_YEAR),
        Some(I80F48::from_num(500))
    );
    assert_eq!(
        interest_payment(I80F48::from_num(1000), frac(1, 2), SECONDS_PER_YEAR / 2),
        Some(I80F48::from_num(250))
    );
    assert_eq!(
        interest_payment(I80F48::from_num(1000), frac(1, 2), 0),
        Some(I80F48::zero())
    );
    assert_eq!(
        interest_payment(I80F48::from_bits(i128::MAX), I80F48::from_num(2), 1),
        None
    );
}
