use astrolend::bank::{
    amount_for_shares, banks_are_valid, find_bank, shares_for_amount, utilization, Bank,
    BankConfig, BankConfigOpt, EmissionsFlags,
};
use astrolend::error::AstrolendError;
use astrolend::fixed_point::{Rounding, I80F48, SCALE};
use astrolend::interest::{InterestRateConfig, SECONDS_PER_YEAR};
use astrolend::pubkey::Pubkey;

fn part(numerator: i128, denominator: i128) -> I80F48 {
    I80F48::from_bits(numerator * SCALE / denominator)
}

fn plain_curve() -> InterestRateConfig {
    InterestRateConfig {
        optimal_utilization_rate: part(1, 2),
        plateau_interest_rate: part(1, 4),
        max_interest_rate: part(1, 1),
        insurance_fee_fixed_apr: I80F48::zero(),
        insurance_ir_fee: I80F48::zero(),
        protocol_fixed_fee_apr: I80F48::zero(),
        protocol_ir_fee: I80F48::zero(),
    }
}

fn plain_config() -> BankConfig {
    BankConfig {
        asset_weight_init: part(1, 2),
        asset_weight_maint: part(3, 4),
        liability_weight_init: part(5, 4),
        liability_weight_maint: part(9, 8),
        deposit_limit: 1_000_000,
        borrow_limit: 1_000_000,
        deposit_limit_override: false,
        borrows_disabled: false,
        interest_rate_config: plain_curve(),
        oracle: Pubkey::new(7, 1),
        oracle_max_age: 60,
        oracle_max_confidence: part(1, 16),
    }
}

fn fresh_bank() -> Bank {
    Bank::new(Pubkey::new(1, 1), Pubkey::new(9, 9), Pubkey::new(2, 1), plain_config(), 1_000)
        .unwrap()
}

fn fully_lent_bank() -> Bank {
    Bank {
        total_asset_shares: I80F48::from_num(1_000),
        total_liability_shares: I80F48::from_num(1_000),
        ..fresh_bank()
    }
}

#[test]
fn new_bank_starts_at_one_with_nothing_in_it() {
    let bank = fresh_bank();
    assert_eq!(bank.asset_share_value, I80F48::one());
    assert_eq!(bank.liability_share_value, I80F48::one());
    assert_eq!(bank.total_asset_shares, I80F48::zero());
    assert_eq!(bank.total_liability_shares, I80F48::zero());
    assert_eq!(bank.last_update, 1_000);
    assert_eq!(bank.key, Pubkey::new(1, 1));
    assert_eq!(bank.group, Pubkey::new(9, 9));
    assert_eq!(bank.mint, Pubkey::new(2, 1));
    assert_eq!(bank.emissions_mint, Pubkey::default());
    assert_eq!(bank.insurance_reserve, I80F48::zero());
    assert_eq!(bank.socialized_loss, I80F48::zero());
    assert!(bank.is_valid());
}

#[test]
fn new_bank_rejects_a_bad_configuration() {
    let config = BankConfig { asset_weight_init: part(3, 2), ..plain_config() };
    assert_eq!(
        Bank::new(Pubkey::new(1, 1), Pubkey::new(9, 9), Pubkey::new(2, 1), config, 0),
        Err(AstrolendError::InvalidConfig)
    );
}

#[test]
fn config_validity() {
    assert!(plain_config().is_valid());
    assert!(!BankConfig { asset_weight_init: part(7, 8), ..plain_config() }.is_valid());
    assert!(!BankConfig { asset_weight_maint: part(9, 8), ..plain_config() }.is_valid());
    assert!(!BankConfig { liability_weight_maint: part(7, 8), ..plain_config() }.is_valid());
    assert!(!BankConfig { liability_weight_init: part(1, 1), ..plain_config() }.is_valid());
    assert!(!BankConfig { asset_weight_init: I80F48::from_bits(-1), ..plain_config() }.is_valid());
    assert!(!BankConfig { oracle_max_confidence: I80F48::from_bits(-1), ..plain_config() }
        .is_valid());
    let bad_curve = InterestRateConfig { max_interest_rate: I80F48::zero(), ..plain_curve() };
    assert!(!BankConfig { interest_rate_config: bad_curve, ..plain_config() }.is_valid());
}

#[test]
fn bank_validity() {
    assert!(fully_lent_bank().is_valid());
    assert!(!Bank { asset_share_value: I80F48::zero(), ..fresh_bank() }.is_valid());
    assert!(!Bank { liability_share_value: I80F48::zero(), ..fresh_bank() }.is_valid());
    assert!(!Bank { total_asset_shares: I80F48::from_bits(-1), ..fresh_bank() }.is_valid());
    assert!(!Bank { total_liability_shares: I80F48::from_bits(-1), ..fresh_bank() }.is_valid());
    assert!(!Bank { insurance_reserve: I80F48::from_bits(-1), ..fresh_bank() }.is_valid());
    assert!(!Bank { socialized_loss: I80F48::from_bits(-1), ..fresh_bank() }.is_valid());
    assert!(!Bank { collected_group_fees_outstanding: I80F48::from_bits(-1), ..fresh_bank() }
        .is_valid());
    assert!(!Bank { emissions_remaining: I80F48::from_bits(-1), ..fresh_bank() }.is_valid());
    assert!(banks_are_valid(&vec![fresh_bank(), fully_lent_bank()]));
    assert!(!banks_are_valid(&vec![
        fresh_bank(),
        Bank { asset_share_value: I80F48::zero(), ..fresh_bank() }
    ]));
    assert!(banks_are_valid(&vec![]));
}

#[test]
fn conversions_round_as_asked() {
    let three = I80F48::from_num(3);
    let ten = I80F48::from_num(10);
    assert_eq!(
        shares_for_amount(ten, three, Rounding::Down),
        Some(I80F48::from_bits(938_249_922_368_853))
    );
    assert_eq!(
        shares_for_amount(ten, three, Rounding::Up),
        Some(I80F48::from_bits(938_249_922_368_854))
    );
    assert_eq!(
        amount_for_shares(I80F48::from_bits(938_249_922_368_853), three, Rounding::Down),
        Some(I80F48::from_bits(10 * SCALE - 1))
    );
    assert_eq!(
        amount_for_shares(I80F48::from_bits(938_249_922_368_854), three, Rounding::Up),
        Some(I80F48::from_bits(10 * SCALE + 2))
    );
    assert_eq!(shares_for_amount(ten, I80F48::zero(), Rounding::Down), None);
    assert_eq!(amount_for_shares(ten, I80F48::from_num(2), Rounding::Up), Some(I80F48::from_num(20)));
}

#[test]
fn round_trip_never_favors_the_account() {
    let rates = [
        I80F48::one(),
        I80F48::from_num(3),
        part(7, 5),
        I80F48::from_bits(SCALE + 1),
        I80F48::from_bits(12_345),
        I80F48::from_bits(1),
    ];
    for rate in rates {
        for amount in [0u64, 1, 2, 3, 10, 999, 1_000_000_007] {
            let a = I80F48::from_num(amount);
            if let Some(shares) = shares_for_amount(a, rate, Rounding::Down) {
                if let Some(back) = amount_for_shares(shares, rate, Rounding::Down) {
                    assert!(back.to_bits() <= a.to_bits());
                }
            }
            if let Some(shares) = shares_for_amount(a, rate, Rounding::Up) {
                if let Some(back) = amount_for_shares(shares, rate, Rounding::Up) {
                    assert!(back.to_bits() >= a.to_bits());
                }
            }
        }
    }
}

#[test]
fn bank_amounts_round_assets_down_and_liabilities_up() {
    let bank = Bank {
        asset_share_value: I80F48::from_bits(SCALE + 1),
        liability_share_value: I80F48::from_bits(SCALE + 1),
        ..fresh_bank()
    };
    let shares = I80F48::from_bits(SCALE / 2);
    assert_eq!(bank.get_asset_amount(shares), Some(I80F48::from_bits(SCALE / 2)));
    assert_eq!(bank.get_liability_amount(shares), Some(I80F48::from_bits(SCALE / 2 + 1)));
    assert_eq!(
        bank.get_asset_shares(I80F48::from_num(1), Rounding::Down),
        Some(I80F48::from_bits(SCALE - 1))
    );
    assert_eq!(
        bank.get_liability_shares(I80F48::from_num(1), Rounding::Up),
        Some(I80F48::from_bits(SCALE))
    );
}

#[test]
fn utilization_is_borrowed_over_deposited() {
    assert_eq!(utilization(I80F48::zero(), I80F48::from_num(5)), Some(I80F48::zero()));
    assert_eq!(utilization(I80F48::from_num(4), I80F48::from_num(1)), Some(part(1, 4)));
    assert_eq!(
        utilization(I80F48::from_num(3), I80F48::from_num(1)),
        Some(I80F48::from_bits(93_824_992_236_885))
    );
    assert_eq!(utilization(I80F48::from_bits(1), I80F48::from_bits(i128::MAX)), None);
}

#[test]
fn accrual_doubles_both_share_values_after_a_year_at_full_utilization() {
    let mut bank = fully_lent_bank();
    assert_eq!(bank.accrue_interest(1_000 + SECONDS_PER_YEAR as i64), Ok(()));
    assert_eq!(bank.asset_share_value, I80F48::from_num(2));
    assert_eq!(bank.liability_share_value, I80F48::from_num(2));
    assert_eq!(bank.last_update, 1_000 + SECONDS_PER_YEAR as i64);
    assert_eq!(bank.total_asset_shares, I80F48::from_num(1_000));
    assert_eq!(bank.total_liability_shares, I80F48::from_num(1_000));
    assert_eq!(bank.collected_group_fees_outstanding, I80F48::zero());
    assert_eq!(bank.insurance_reserve, I80F48::zero());
}

#[test]
fn accrual_uses_the_utilization_before_it() {
    let mut bank = Bank { total_liability_shares: I80F48::from_num(500), ..fully_lent_bank() };
    // utilization 1/2: base 1/4, lenders earn 1/8, borrowers owe 1/4
    assert_eq!(bank.accrue_interest(1_000 + SECONDS_PER_YEAR as i64), Ok(()));
    assert_eq!(bank.asset_share_value, part(9, 8));
    assert_eq!(bank.liability_share_value, part(5, 4));
}

#[test]
fn accrual_diverts_fees_to_the_group_and_to_the_insurance_reserve() {
    let curve = InterestRateConfig {
        insurance_fee_fixed_apr: part(1, 16),
        insurance_ir_fee: part(1, 4),
        protocol_fixed_fee_apr: part(1, 8),
        protocol_ir_fee: part(1, 4),
        ..plain_curve()
    };
    let mut bank = Bank {
        config: BankConfig { interest_rate_config: curve, ..plain_config() },
        collected_group_fees_outstanding: I80F48::from_num(5),
        insurance_reserve: I80F48::from_num(7),
        ..fully_lent_bank()
    };
    assert_eq!(bank.accrue_interest(1_000 + SECONDS_PER_YEAR as i64), Ok(()));
    assert_eq!(bank.asset_share_value, I80F48::from_num(2));
    assert_eq!(bank.liability_share_value, part(43, 16));
    assert_eq!(bank.collected_group_fees_outstanding, I80F48::from_num(380));
    assert_eq!(bank.insurance_reserve, part(639, 2));
}

#[test]
fn accrual_twice_at_the_same_time_changes_nothing_the_second_time() {
    let mut bank = fully_lent_bank();
    assert_eq!(bank.accrue_interest(5_000), Ok(()));
    let once = bank;
    assert_eq!(bank.accrue_interest(5_000), Ok(()));
    assert_eq!(bank, once);
    assert!(once.asset_share_value.to_bits() > SCALE);
}

#[test]
fn accrual_at_an_earlier_time_changes_nothing() {
    let mut bank = fully_lent_bank();
    let before = bank;
    assert_eq!(bank.accrue_interest(999), Ok(()));
    assert_eq!(bank, before);
    assert_eq!(bank.accrue_interest(1_000), Ok(()));
    assert_eq!(bank, before);
    assert_eq!(bank.accrue_interest(i64::MIN), Ok(()));
    assert_eq!(bank, before);
}

#[test]
fn accrual_over_the_widest_interval_does_not_panic() {
    let mut bank = Bank { last_update: i64::MIN, ..fully_lent_bank() };
    let before = bank;
    let result = bank.accrue_interest(i64::MAX);
    if result.is_err() {
        assert_eq!(result, Err(AstrolendError::MathError));
        assert_eq!(bank, before);
    } else {
        assert!(bank.asset_share_value.to_bits() >= before.asset_share_value.to_bits());
    }
}

#[test]
fn accrual_never_lowers_a_share_value() {
    let mut bank = Bank { total_liability_shares: I80F48::from_num(777), ..fully_lent_bank() };
    let mut now = 1_000;
    for step in [0i64, 1, 1, 59, 3_600, 0, 86_400, 31_536_000, 7] {
        now += step;
        let before = bank;
        assert_eq!(bank.accrue_interest(now), Ok(()));
        assert!(bank.asset_share_value.to_bits() >= before.asset_share_value.to_bits());
        assert!(bank.liability_share_value.to_bits() >= before.liability_share_value.to_bits());
        assert!(bank.is_valid());
    }
    assert!(bank.asset_share_value.to_bits() > SCALE);
    assert!(bank.liability_share_value.to_bits() > bank.asset_share_value.to_bits());
}

#[test]
fn accrual_without_deposits_moves_only_the_clock() {
    let mut bank = fresh_bank();
    assert_eq!(bank.accrue_interest(2_000), Ok(()));
    assert_eq!(bank, Bank { last_update: 2_000, ..fresh_bank() });
}

#[test]
fn accrual_that_overflows_changes_nothing() {
    let mut bank = Bank {
        asset_share_value: I80F48::from_bits(i128::MAX),
        ..fully_lent_bank()
    };
    let before = bank;
    assert_eq!(bank.accrue_interest(2_000), Err(AstrolendError::MathError));
    assert_eq!(bank, before);
}

#[test]
fn accrual_pays_off_uncovered_loss_before_lenders_earn() {
    let mut bank = Bank { socialized_loss: I80F48::from_num(300), ..fully_lent_bank() };
    assert_eq!(bank.accrue_interest(1_000 + SECONDS_PER_YEAR as i64), Ok(()));
    // lenders would have earned 1000: 300 pay the loss off, 700 go to the reserve
    assert_eq!(bank.asset_share_value, I80F48::one());
    assert_eq!(bank.liability_share_value, I80F48::from_num(2));
    assert_eq!(bank.socialized_loss, I80F48::zero());
    assert_eq!(bank.insurance_reserve, I80F48::from_num(700));
}

#[test]
fn accrual_pays_off_what_it_can_of_a_larger_loss() {
    let mut bank = Bank { socialized_loss: I80F48::from_num(1_300), ..fully_lent_bank() };
    assert_eq!(bank.accrue_interest(1_000 + SECONDS_PER_YEAR as i64), Ok(()));
    assert_eq!(bank.asset_share_value, I80F48::one());
    assert_eq!(bank.socialized_loss, I80F48::from_num(300));
    assert_eq!(bank.insurance_reserve, I80F48::zero());
    // the next year pays off the rest and lenders earn again in the year after
    assert_eq!(bank.accrue_interest(1_000 + 2 * SECONDS_PER_YEAR as i64), Ok(()));
    assert_eq!(bank.socialized_loss, I80F48::zero());
    assert_eq!(bank.asset_share_value, I80F48::one());
    assert_eq!(bank.accrue_interest(1_000 + 3 * SECONDS_PER_YEAR as i64), Ok(()));
    assert!(bank.asset_share_value.to_bits() > SCALE);
}

#[test]
fn configure_replaces_what_is_given() {
    let mut bank = fresh_bank();
    let change = BankConfigOpt {
        deposit_limit: Some(5),
        borrows_disabled: Some(true),
        asset_weight_init: Some(part(1, 4)),
        ..BankConfigOpt::none()
    };
    assert_eq!(bank.configure(&change), Ok(()));
    assert_eq!(
        bank.config,
        BankConfig {
            deposit_limit: 5,
            borrows_disabled: true,
            asset_weight_init: part(1, 4),
            ..plain_config()
        }
    );
    assert_eq!(Bank { config: plain_config(), ..bank }, fresh_bank());
}

#[test]
fn configure_with_nothing_changes_nothing() {
    let mut bank = fresh_bank();
    assert_eq!(bank.configure(&BankConfigOpt::none()), Ok(()));
    assert_eq!(bank, fresh_bank());
}

#[test]
fn configure_rejects_what_would_not_be_well_formed() {
    let mut bank = fresh_bank();
    let change = BankConfigOpt { asset_weight_init: Some(part(7, 8)), ..BankConfigOpt::none() };
    assert_eq!(bank.configure(&change), Err(AstrolendError::InvalidConfig));
    assert_eq!(bank, fresh_bank());
    let both = BankConfigOpt {
        asset_weight_init: Some(part(7, 8)),
        asset_weight_maint: Some(part(1, 1)),
        ..BankConfigOpt::none()
    };
    assert_eq!(bank.configure(&both), Ok(()));
}

#[test]
fn updated_config_takes_every_field() {
    let other_curve = InterestRateConfig { max_interest_rate: I80F48::from_num(3), ..plain_curve() };
    let change = BankConfigOpt {
        asset_weight_init: Some(part(1, 8)),
        asset_weight_maint: Some(part(1, 4)),
        liability_weight_init: Some(part(2, 1)),
        liability_weight_maint: Some(part(3, 2)),
        deposit_limit: Some(1),
        borrow_limit: Some(2),
        deposit_limit_override: Some(true),
        borrows_disabled: Some(true),
        interest_rate_config: Some(other_curve),
        oracle: Some(Pubkey::new(8, 8)),
        oracle_max_age: Some(3),
        oracle_max_confidence: Some(part(1, 2)),
    };
    assert_eq!(
        plain_config().updated(&change),
        BankConfig {
            asset_weight_init: part(1, 8),
            asset_weight_maint: part(1, 4),
            liability_weight_init: part(2, 1),
            liability_weight_maint: part(3, 2),
            deposit_limit: 1,
            borrow_limit: 2,
            deposit_limit_override: true,
            borrows_disabled: true,
            interest_rate_config: other_curve,
            oracle: Pubkey::new(8, 8),
            oracle_max_age: 3,
            oracle_max_confidence: part(1, 2),
        }
    );
}

#[test]
fn find_bank_returns_the_first_with_the_key() {
    let a = fresh_bank();
    let b = Bank { key: Pubkey::new(1, 2), ..fresh_bank() };
    let c = Bank { key: Pubkey::new(1, 2), mint: Pubkey::new(5, 5), ..fresh_bank() };
    let banks = vec![a, b, c];
    assert_eq!(find_bank(&banks, Pubkey::new(1, 1)), Some(0));
    assert_eq!(find_bank(&banks, Pubkey::new(1, 2)), Some(1));
    assert_eq!(find_bank(&banks, Pubkey::new(1, 3)), None);
    assert_eq!(find_bank(&vec![], Pubkey::new(1, 1)), None);
}

#[test]
fn reserves_can_be_drawn_down_to_nothing_and_no_further() {
    let mut bank = Bank {
        collected_group_fees_outstanding: part(21, 2),
        insurance_reserve: I80F48::from_num(4),
        ..fresh_bank()
    };
    assert_eq!(bank.withdraw_fees(11), Err(AstrolendError::InsufficientReserve));
    assert_eq!(bank.withdraw_fees(10), Ok(()));
    assert_eq!(bank.collected_group_fees_outstanding, part(1, 2));
    assert_eq!(bank.withdraw_insurance(5), Err(AstrolendError::InsufficientReserve));
    assert_eq!(bank.withdraw_insurance(4), Ok(()));
    assert_eq!(bank.insurance_reserve, I80F48::zero());
    assert_eq!(bank.withdraw_insurance(0), Ok(()));
    assert_eq!(bank.withdraw_insurance(1), Err(AstrolendError::InsufficientReserve));
}

#[test]
fn emissions_flags_and_their_bits() {
    assert_eq!(
        EmissionsFlags::from_bits(0),
        Some(EmissionsFlags { borrow_active: false, lending_active: false })
    );
    assert_eq!(
        EmissionsFlags::from_bits(1),
        Some(EmissionsFlags { borrow_active: true, lending_active: false })
    );
    assert_eq!(
        EmissionsFlags::from_bits(2),
        Some(EmissionsFlags { borrow_active: false, lending_active: true })
    );
    assert_eq!(
        EmissionsFlags::from_bits(3),
        Some(EmissionsFlags { borrow_active: true, lending_active: true })
    );
    assert_eq!(EmissionsFlags::from_bits(4), None);
    assert_eq!(EmissionsFlags::from_bits(u64::MAX), None);
    for bits in 0u64..4 {
        assert_eq!(EmissionsFlags::from_bits(bits).unwrap().to_bits(), bits);
    }
}

#[test]
fn collect_fees_takes_the_whole_units_and_leaves_the_fraction() {
    let mut bank = Bank { collected_group_fees_outstanding: part(21, 2), ..fresh_bank() };
    assert_eq!(bank.collect_fees(1_000), Ok(10));
    assert_eq!(
        bank,
        Bank { collected_group_fees_outstanding: part(1, 2), ..fresh_bank() }
    );
    assert_eq!(bank.collect_fees(1_000), Ok(0));
    assert_eq!(bank.collected_group_fees_outstanding, part(1, 2));
}

#[test]
fn collect_fees_accrues_interest_first() {
    let curve = InterestRateConfig { protocol_fixed_fee_apr: part(1, 8), ..plain_curve() };
    let mut bank = Bank {
        config: BankConfig { interest_rate_config: curve, ..plain_config() },
        collected_group_fees_outstanding: part(1, 2),
        ..fully_lent_bank()
    };
    let later = 1_000 + SECONDS_PER_YEAR as i64;
    // a year of 1/8 on 1000 units borrowed adds 125 to the half unit
    assert_eq!(bank.collect_fees(later), Ok(125));
    assert_eq!(bank.collected_group_fees_outstanding, part(1, 2));
    assert_eq!(bank.last_update, later);
    assert_eq!(bank.asset_share_value, I80F48::from_num(2));
    assert_eq!(bank.liability_share_value, part(17, 8));
}

#[test]
fn collect_fees_that_cannot_accrue_or_do_not_fit_change_nothing() {
    let mut bank = Bank { asset_share_value: I80F48::from_bits(i128::MAX), ..fully_lent_bank() };
    let before = bank;
    assert_eq!(bank.collect_fees(2_000), Err(AstrolendError::MathError));
    assert_eq!(bank, before);
    let mut full = Bank {
        collected_group_fees_outstanding: I80F48::from_bits(i128::MAX),
        ..fresh_bank()
    };
    let before = full;
    assert_eq!(full.collect_fees(2_000), Err(AstrolendError::MathError));
    assert_eq!(full, before);
}

#[test]
fn accrual_credits_lenders_at_no_higher_a_rate_than_it_charges_borrowers() {
    let curve = InterestRateConfig {
        insurance_ir_fee: part(1, 16),
        protocol_fixed_fee_apr: part(1, 64),
        ..plain_curve()
    };
    for lent in [0u64, 1, 250, 500, 999, 1_000] {
        let mut bank = Bank {
            config: BankConfig { interest_rate_config: curve, ..plain_config() },
            total_liability_shares: I80F48::from_num(lent),
            asset_share_value: part(7, 5),
            liability_share_value: part(7, 5),
            ..fully_lent_bank()
        };
        assert_eq!(bank.check_liquidity(), Ok(()));
        let before = bank;
        assert_eq!(bank.accrue_interest(1_000 + 12_345), Ok(()));
        assert!(
            bank.asset_share_value.to_bits() * before.liability_share_value.to_bits()
                <= bank.liability_share_value.to_bits() * before.asset_share_value.to_bits()
        );
    }
}
