use astrolend::fixed_point::{Rounding, I80F48, SCALE};

const THIRD_DOWN: i128 = 93_824_992_236_885;

#[test]
fn from_num_scales_by_two_to_the_48() {
    assert_eq!(I80F48::from_num(0).to_bits(), 0);
    assert_eq!(I80F48::from_num(1).to_bits(), 281_474_976_710_656);
    assert_eq!(I80F48::from_num(1), I80F48::one());
    assert_eq!(I80F48::from_num(u64::MAX).to_bits(), (u64::MAX as i128) << 48);
}

#[test]
fn checked_add_and_sub_fail_on_overflow() {
    let max = I80F48::from_bits(i128::MAX);
    let min = I80F48::from_bits(i128::MIN);
    let ulp = I80F48::from_bits(1);
    assert_eq!(max.checked_add(ulp), None);
    assert_eq!(min.checked_sub(ulp), None);
    assert_eq!(max.checked_sub(ulp), Some(I80F48::from_bits(i128::MAX - 1)));
    assert_eq!(
        I80F48::from_num(2).checked_add(I80F48::from_num(3)),
        Some(I80F48::from_num(5))
    );
    assert_eq!(
        I80F48::from_num(2).checked_sub(I80F48::from_num(3)),
        Some(I80F48::from_bits(-SCALE))
    );
}

#[test]
fn checked_mul_is_exact_on_binary_fractions() {
    let a = I80F48::from_bits(SCALE + SCALE / 2);
    let b = I80F48::from_bits(2 * SCALE + SCALE / 2);
    assert_eq!(a.checked_mul(b), Some(I80F48::from_bits(3 * SCALE + 3 * SCALE / 4)));
}

#[test]
fn checked_mul_rounds_down_also_below_zero() {
    let half = I80F48::from_bits(SCALE / 2);
    assert_eq!(I80F48::from_bits(1).checked_mul(half), Some(I80F48::from_bits(0)));
    assert_eq!(I80F48::from_bits(-1).checked_mul(half), Some(I80F48::from_bits(-1)));
    assert_eq!(I80F48::from_bits(3).checked_mul(half), Some(I80F48::from_bits(1)));
    assert_eq!(I80F48::from_bits(-3).checked_mul(half), Some(I80F48::from_bits(-2)));
}

#[test]
fn checked_mul_fails_on_overflow() {
    let max = I80F48::from_bits(i128::MAX);
    assert_eq!(max.checked_mul(I80F48::one()), Some(max));
    assert_eq!(max.checked_mul(I80F48::from_num(2)), None);
    assert_eq!(I80F48::from_bits(i128::MIN).checked_mul(I80F48::from_bits(-SCALE)), None);
}

#[test]
fn checked_div_rounds_towards_zero() {
    let one = I80F48::one();
    let three = I80F48::from_num(3);
    let minus_one = I80F48::from_bits(-SCALE);
    assert_eq!(one.checked_div(three), Some(I80F48::from_bits(THIRD_DOWN)));
    assert_eq!(minus_one.checked_div(three), Some(I80F48::from_bits(-THIRD_DOWN)));
    assert_eq!(
        one.checked_div(I80F48::from_bits(-3 * SCALE)),
        Some(I80F48::from_bits(-THIRD_DOWN))
    );
    assert_eq!(
        minus_one.checked_div(I80F48::from_bits(-3 * SCALE)),
        Some(I80F48::from_bits(THIRD_DOWN))
    );
    assert_eq!(I80F48::from_num(6).checked_div(three), Some(I80F48::from_num(2)));
}

#[test]
fn checked_div_fails_on_zero_and_on_overflow() {
    let max = I80F48::from_bits(i128::MAX);
    assert_eq!(I80F48::one().checked_div(I80F48::zero()), None);
    assert_eq!(max.checked_div(I80F48::one()), Some(max));
    assert_eq!(max.checked_div(I80F48::from_bits(SCALE / 2)), None);
}

#[test]
fn mul_round_up_adds_one_unit_to_an_inexact_product() {
    let half = I80F48::from_bits(SCALE / 2);
    let ulp = I80F48::from_bits(1);
    assert_eq!(ulp.mul_round(half, Rounding::Down), Some(I80F48::from_bits(0)));
    assert_eq!(ulp.mul_round(half, Rounding::Up), Some(I80F48::from_bits(1)));
    assert_eq!(I80F48::from_bits(-1).mul_round(half, Rounding::Down), Some(I80F48::from_bits(-1)));
    assert_eq!(I80F48::from_bits(-1).mul_round(half, Rounding::Up), Some(I80F48::from_bits(0)));
    assert_eq!(
        I80F48::from_num(3).mul_round(I80F48::from_num(7), Rounding::Up),
        Some(I80F48::from_num(21))
    );
    assert_eq!(
        I80F48::from_num(3).mul_round(I80F48::from_num(7), Rounding::Down),
        Some(I80F48::from_num(21))
    );
}

#[test]
fn mul_round_up_fails_where_the_next_unit_does_not_fit() {
    let max = I80F48::from_bits(i128::MAX);
    let just_above_one = I80F48::from_bits(SCALE + 1);
    let three_halves_units = I80F48::from_bits(SCALE / 2);
    assert_eq!(max.mul_round(just_above_one, Rounding::Up), None);
    assert_eq!(
        I80F48::from_bits(3).mul_round(three_halves_units, Rounding::Up),
        Some(I80F48::from_bits(2))
    );
}

#[test]
fn div_round_rounds_in_the_given_direction() {
    let one = I80F48::one();
    let three = I80F48::from_num(3);
    let minus_one = I80F48::from_bits(-SCALE);
    let minus_three = I80F48::from_bits(-3 * SCALE);
    assert_eq!(one.div_round(three, Rounding::Down), Some(I80F48::from_bits(THIRD_DOWN)));
    assert_eq!(one.div_round(three, Rounding::Up), Some(I80F48::from_bits(THIRD_DOWN + 1)));
    assert_eq!(
        minus_one.div_round(three, Rounding::Down),
        Some(I80F48::from_bits(-THIRD_DOWN - 1))
    );
    assert_eq!(minus_one.div_round(three, Rounding::Up), Some(I80F48::from_bits(-THIRD_DOWN)));
    assert_eq!(
        one.div_round(minus_three, Rounding::Down),
        Some(I80F48::from_bits(-THIRD_DOWN - 1))
    );
    assert_eq!(one.div_round(minus_three, Rounding::Up), Some(I80F48::from_bits(-THIRD_DOWN)));
    assert_eq!(
        minus_one.div_round(minus_three, Rounding::Down),
        Some(I80F48::from_bits(THIRD_DOWN))
    );
    assert_eq!(
        minus_one.div_round(minus_three, Rounding::Up),
        Some(I80F48::from_bits(THIRD_DOWN + 1))
    );
}

#[test]
fn div_round_is_exact_where_the_division_is() {
    let six = I80F48::from_num(6);
    let three = I80F48::from_num(3);
    assert_eq!(six.div_round(three, Rounding::Down), Some(I80F48::from_num(2)));
    assert_eq!(six.div_round(three, Rounding::Up), Some(I80F48::from_num(2)));
    assert_eq!(
        I80F48::from_bits(-6 * SCALE).div_round(three, Rounding::Up),
        Some(I80F48::from_bits(-2 * SCALE))
    );
    assert_eq!(
        I80F48::from_bits(-6 * SCALE).div_round(three, Rounding::Down),
        Some(I80F48::from_bits(-2 * SCALE))
    );
    assert_eq!(I80F48::zero().div_round(three, Rounding::Up), Some(I80F48::zero()));
}

#[test]
fn div_round_fails_on_zero_and_on_overflow() {
    let max = I80F48::from_bits(i128::MAX);
    assert_eq!(I80F48::one().div_round(I80F48::zero(), Rounding::Down), None);
    assert_eq!(I80F48::one().div_round(I80F48::zero(), Rounding::Up), None);
    assert_eq!(max.div_round(I80F48::from_bits(SCALE / 2), Rounding::Down), None);
    assert_eq!(max.div_round(I80F48::from_bits(SCALE + 1), Rounding::Up).is_some(), true);
}

#[test]
fn to_u64_rounds_to_whole_units() {
    let two_and_a_bit = I80F48::from_bits(2 * SCALE + 1);
    assert_eq!(two_and_a_bit.to_u64(Rounding::Down), Some(2));
    assert_eq!(two_and_a_bit.to_u64(Rounding::Up), Some(3));
    assert_eq!(I80F48::from_num(7).to_u64(Rounding::Down), Some(7));
    assert_eq!(I80F48::from_num(7).to_u64(Rounding::Up), Some(7));
    assert_eq!(I80F48::from_num(u64::MAX).to_u64(Rounding::Up), Some(u64::MAX));
    assert_eq!(I80F48::from_bits(((u64::MAX as i128) << 48) + 1).to_u64(Rounding::Up), None);
    assert_eq!(
        I80F48::from_bits(((u64::MAX as i128) << 48) + 1).to_u64(Rounding::Down),
        Some(u64::MAX)
    );
}

#[test]
fn to_u64_rejects_negative_numbers() {
    assert_eq!(I80F48::from_bits(-1).to_u64(Rounding::Down), None);
    assert_eq!(I80F48::from_bits(-1).to_u64(Rounding::Up), Some(0));
    assert_eq!(I80F48::from_bits(-SCALE).to_u64(Rounding::Up), None);
    assert_eq!(I80F48::from_bits(-SCALE + 1).to_u64(Rounding::Up), Some(0));
}

#[test]
fn products_and_quotients_agree_with_the_fixed_crate() {
    let samples: [i128; 9] = [
        0,
        1,
        -1,
        SCALE,
        -SCALE,
        3 * SCALE + 12_345,
        -7 * SCALE - 99,
        (1i128 << 100) + 17,
        -(1i128 << 90) - 5,
    ];
    for a in samples {
        for b in samples {
            let x = fixed::types::I80F48::from_bits(a);
            let y = fixed::types::I80F48::from_bits(b);
            let ours = I80F48::from_bits(a).checked_mul(I80F48::from_bits(b));
            assert_eq!(ours.map(|v| v.to_bits()), x.checked_mul(y).map(|v| v.to_bits()));
            let ours = I80F48::from_bits(a).checked_div(I80F48::from_bits(b));
            assert_eq!(ours.map(|v| v.to_bits()), x.checked_div(y).map(|v| v.to_bits()));
            let ours = I80F48::from_bits(a).checked_add(I80F48::from_bits(b));
            assert_eq!(ours.map(|v| v.to_bits()), x.checked_add(y).map(|v| v.to_bits()));
            let ours = I80F48::from_bits(a).checked_sub(I80F48::from_bits(b));
            assert_eq!(ours.map(|v| v.to_bits()), x.checked_sub(y).map(|v| v.to_bits()));
        }
    }
}

#[test]
fn from_num_agrees_with_the_fixed_crate() {
    for n in [0u64, 1, 1000, u64::MAX] {
        assert_eq!(I80F48::from_num(n).to_bits(), fixed::types::I80F48::from_num(n).to_bits());
    }
}

#[test]
fn min_picks_the_smaller() {
    let a = I80F48::from_num(2);
    let b = I80F48::from_num(3);
    assert_eq!(a.min(b), a);
    assert_eq!(b.min(a), a);
    assert!(I80F48::zero().is_zero());
    assert!(!a.is_zero());
}
