use astrolend::transfer_fee::{calculate_pre_fee_spl_deposit_amount, gross_amount};

fn arrives(gross: u64, basis_points: u16) -> u64 {
    gross - ((gross as u128 * basis_points as u128) / 10_000) as u64
}

fn before_fee(amount: u64, basis_points: u16) -> u64 {
    let kept = 10_000 - basis_points as u128;
    ((amount as u128 * 10_000 + kept - 1) / kept) as u64
}

#[test]
fn one_percent_fee_on_one_hundred_units_needs_one_hundred_and_one() {
    assert_eq!(calculate_pre_fee_spl_deposit_amount(100, 100), Some(101));
    assert!(arrives(101, 100) >= 100);
}

#[test]
fn one_percent_fee_on_ninety_nine_units_needs_one_hundred() {
    // 99 is exactly what is left of 100 after one percent
    assert_eq!(calculate_pre_fee_spl_deposit_amount(100, 99), Some(100));
    assert_eq!(arrives(100, 100), 99);
}

#[test]
fn no_fee_needs_the_amount_itself() {
    assert_eq!(calculate_pre_fee_spl_deposit_amount(0, 0), Some(0));
    assert_eq!(calculate_pre_fee_spl_deposit_amount(0, 1), Some(1));
    assert_eq!(calculate_pre_fee_spl_deposit_amount(0, 12_345), Some(12_345));
    assert_eq!(calculate_pre_fee_spl_deposit_amount(0, u64::MAX), Some(u64::MAX));
}

#[test]
fn nothing_needs_nothing_whatever_the_fee() {
    assert_eq!(calculate_pre_fee_spl_deposit_amount(100, 0), Some(0));
    assert_eq!(calculate_pre_fee_spl_deposit_amount(10_000, 0), Some(0));
    assert_eq!(calculate_pre_fee_spl_deposit_amount(u16::MAX, 0), Some(0));
}

#[test]
fn a_fee_that_takes_everything_lets_nothing_arrive() {
    assert_eq!(calculate_pre_fee_spl_deposit_amount(10_000, 1), None);
    assert_eq!(calculate_pre_fee_spl_deposit_amount(10_001, 1), None);
    assert_eq!(calculate_pre_fee_spl_deposit_amount(u16::MAX, 1_000), None);
}

#[test]
fn half_is_taken_so_twice_is_sent() {
    assert_eq!(calculate_pre_fee_spl_deposit_amount(5_000, 100), Some(200));
    assert_eq!(arrives(200, 5_000), 100);
    assert_eq!(calculate_pre_fee_spl_deposit_amount(5_000, 1), Some(2));
    assert_eq!(calculate_pre_fee_spl_deposit_amount(5_000, 2), Some(4));
}

#[test]
fn the_fee_is_reckoned_on_the_amount_before_the_fee() {
    // before the fee: 1000 / 0.97 = 1030.9.., rounded up 1031; the fee on it is 30
    assert_eq!(calculate_pre_fee_spl_deposit_amount(300, 1_000), Some(1_030));
    assert_eq!(arrives(1_030, 300), 1_000);
    // before the fee: 250 / 0.99 = 252.5.., rounded up 253; the fee on it is 2
    assert_eq!(calculate_pre_fee_spl_deposit_amount(100, 250), Some(252));
    // before the fee: 1 / 0.0001 = 10000; the fee on it is 9999
    assert_eq!(calculate_pre_fee_spl_deposit_amount(9_999, 1), Some(10_000));
}

#[test]
fn an_amount_to_send_that_does_not_fit_is_none() {
    assert_eq!(calculate_pre_fee_spl_deposit_amount(5_000, u64::MAX), None);
    assert_eq!(calculate_pre_fee_spl_deposit_amount(1, u64::MAX), None);
    assert_eq!(calculate_pre_fee_spl_deposit_amount(5_000, u64::MAX / 2 + 1), None);
    assert_eq!(calculate_pre_fee_spl_deposit_amount(5_000, u64::MAX / 2), Some(u64::MAX - 1));
}

#[test]
fn of_the_amount_sent_the_amount_asked_for_arrives() {
    for basis_points in [0u16, 1, 7, 100, 250, 3_333, 5_000, 9_000, 9_999] {
        for amount in 1u64..400 {
            let gross = calculate_pre_fee_spl_deposit_amount(basis_points, amount).unwrap();
            let before = before_fee(amount, basis_points);
            assert!(arrives(gross, basis_points) >= amount);
            assert!(gross >= amount);
            assert!(gross == before || gross + 1 == before);
            assert_eq!(gross, amount + ((before as u128 * basis_points as u128) / 10_000) as u64);
        }
    }
}

#[test]
fn gross_amount_without_a_fee_is_the_amount() {
    assert_eq!(gross_amount(None, 100), Some(100));
    assert_eq!(gross_amount(None, u64::MAX), Some(u64::MAX));
    assert_eq!(gross_amount(Some(100), 100), Some(101));
    assert_eq!(gross_amount(Some(100), 99), Some(100));
    assert_eq!(gross_amount(Some(10_000), 100), None);
    assert_eq!(gross_amount(Some(0), 100), Some(100));
}
