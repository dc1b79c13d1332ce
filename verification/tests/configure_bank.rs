use astrolend::bank::{Bank, BankConfig, BankConfigOpt, EmissionsFlags};
use astrolend::configure_bank::{
    lending_pool_configure_bank, lending_pool_setup_emissions,
    lending_pool_update_emissions_parameters,
};
use astrolend::error::AstrolendError;
use astrolend::fixed_point::{I80F48, SCALE};
use astrolend::events::{GroupEventHeader, LendingPoolBankConfigureEvent};
use astrolend::interest::InterestRateConfig;
use astrolend::price::PriceObservation;
use astrolend::pubkey::Pubkey;

fn of(numerator: i128, denominator: i128) -> I80F48 {
    I80F48::from_bits(numerator * SCALE / denominator)
}

fn the_bank() -> Bank {
    let config = BankConfig {
        asset_weight_init: of(1, 2),
        asset_weight_maint: of(3, 4),
        liability_weight_init: of(5, 4),
        liability_weight_maint: of(9, 8),
        deposit_limit: 1_000_000,
        borrow_limit: 1_000_000,
        deposit_limit_override: false,
        borrows_disabled: false,
        interest_rate_config: InterestRateConfig {
            optimal_utilization_rate: of(1, 2),
            plateau_interest_rate: of(1, 4),
            max_interest_rate: of(1, 1),
            insurance_fee_fixed_apr: I80F48::zero(),
            insurance_ir_fee: I80F48::zero(),
            protocol_fixed_fee_apr: I80F48::zero(),
            protocol_ir_fee: I80F48::zero(),
        },
        oracle: Pubkey::new(7, 1),
        oracle_max_age: 60,
        oracle_max_confidence: of(1, 16),
    };
    Bank::new(Pubkey::new(1, 1), Pubkey::new(9, 9), Pubkey::new(2, 1), config, 0).unwrap()
}

fn admin() -> Pubkey {
    Pubkey::new(6, 6)
}

fn observed(oracle: Pubkey) -> PriceObservation {
    PriceObservation {
        oracle,
        price: I80F48::one(),
        confidence: I80F48::zero(),
        published_at: 0,
    }
}

fn emitting_bank() -> Bank {
    let mut bank = the_bank();
    assert_eq!(lending_pool_setup_emissions(&mut bank, Pubkey::new(4, 4), 3, 10, 500, None), Ok(500));
    bank
}

#[test]
fn configure_bank_changes_the_configuration_and_reports_it() {
    let mut bank = the_bank();
    let change = BankConfigOpt { borrow_limit: Some(77), ..BankConfigOpt::none() };
    assert_eq!(
        lending_pool_configure_bank(&mut bank, admin(), change, &vec![]),
        Ok(LendingPoolBankConfigureEvent {
            header: GroupEventHeader {
                astrolend_group: Pubkey::new(9, 9),
                signer: Some(Pubkey::new(6, 6)),
            },
            bank: Pubkey::new(1, 1),
            mint: Pubkey::new(2, 1),
            config: change,
        })
    );
    assert_eq!(bank.config.borrow_limit, 77);
    assert_eq!(
        bank,
        Bank { config: BankConfig { borrow_limit: 77, ..the_bank().config }, ..the_bank() }
    );
}

#[test]
fn configure_bank_rejects_a_configuration_that_is_not_well_formed() {
    let mut bank = the_bank();
    let change = BankConfigOpt { liability_weight_init: Some(of(1, 1)), ..BankConfigOpt::none() };
    assert_eq!(
        lending_pool_configure_bank(&mut bank, admin(), change, &vec![]),
        Err(AstrolendError::InvalidConfig)
    );
    assert_eq!(bank, the_bank());
}

#[test]
fn configure_bank_with_a_new_oracle_needs_its_observation() {
    let new_oracle = Pubkey::new(7, 2);
    let change = BankConfigOpt { oracle: Some(new_oracle), ..BankConfigOpt::none() };
    let mut bank = the_bank();
    assert_eq!(
        lending_pool_configure_bank(&mut bank, admin(), change, &vec![]),
        Err(AstrolendError::InvalidOracleSetup)
    );
    assert_eq!(
        lending_pool_configure_bank(&mut bank, admin(), change, &vec![observed(Pubkey::new(7, 1))]),
        Err(AstrolendError::InvalidOracleSetup)
    );
    assert_eq!(
        lending_pool_configure_bank(
            &mut bank,
            admin(),
            change,
            &vec![observed(new_oracle), observed(new_oracle)]
        ),
        Err(AstrolendError::InvalidOracleSetup)
    );
    assert_eq!(bank, the_bank());
    assert!(lending_pool_configure_bank(&mut bank, admin(), change, &vec![observed(new_oracle)]).is_ok());
    assert_eq!(bank.config.oracle, new_oracle);
}

#[test]
fn configure_bank_without_a_new_oracle_needs_no_observation() {
    let mut bank = the_bank();
    let change = BankConfigOpt { oracle_max_age: Some(5), ..BankConfigOpt::none() };
    assert!(lending_pool_configure_bank(&mut bank, admin(), change, &vec![observed(Pubkey::new(8, 8))])
        .is_ok());
    assert_eq!(bank.config.oracle_max_age, 5);
    assert_eq!(bank.config.oracle, Pubkey::new(7, 1));
}

#[test]
fn configure_bank_reports_a_bad_configuration_before_a_bad_oracle() {
    let mut bank = the_bank();
    let change = BankConfigOpt {
        oracle: Some(Pubkey::new(7, 2)),
        asset_weight_init: Some(of(2, 1)),
        ..BankConfigOpt::none()
    };
    assert_eq!(
        lending_pool_configure_bank(&mut bank, admin(), change, &vec![]),
        Err(AstrolendError::InvalidConfig)
    );
}

#[test]
fn setup_emissions_sets_mint_flags_rate_and_remaining() {
    let mut bank = the_bank();
    assert_eq!(lending_pool_setup_emissions(&mut bank, Pubkey::new(4, 4), 2, 10, 500, None), Ok(500));
    assert_eq!(
        bank,
        Bank {
            emissions_mint: Pubkey::new(4, 4),
            emissions_flags: EmissionsFlags { borrow_active: false, lending_active: true },
            emissions_rate: 10,
            emissions_remaining: I80F48::from_num(500),
            ..the_bank()
        }
    );
}

#[test]
fn setup_emissions_sends_the_amount_before_the_transfer_fee() {
    let mut bank = the_bank();
    assert_eq!(
        lending_pool_setup_emissions(&mut bank, Pubkey::new(4, 4), 1, 10, 100, Some(100)),
        Ok(101)
    );
    assert_eq!(bank.emissions_remaining, I80F48::from_num(100));
}

#[test]
fn setup_emissions_can_be_done_once() {
    let mut bank = emitting_bank();
    let before = bank;
    assert_eq!(
        lending_pool_setup_emissions(&mut bank, Pubkey::new(5, 5), 1, 1, 1, None),
        Err(AstrolendError::EmissionsAlreadySetup)
    );
    assert_eq!(bank, before);
}

#[test]
fn setup_emissions_rejects_unknown_flags_and_impossible_fees() {
    let mut bank = the_bank();
    assert_eq!(
        lending_pool_setup_emissions(&mut bank, Pubkey::new(4, 4), 4, 10, 500, None),
        Err(AstrolendError::InvalidEmissionsFlags)
    );
    assert_eq!(
        lending_pool_setup_emissions(&mut bank, Pubkey::new(4, 4), 1, 10, 500, Some(10_000)),
        Err(AstrolendError::MathError)
    );
    assert_eq!(bank, the_bank());
}

#[test]
fn update_emissions_changes_what_is_given() {
    let mut bank = emitting_bank();
    assert_eq!(
        lending_pool_update_emissions_parameters(&mut bank, Pubkey::new(4, 4), None, None, None, None),
        Ok(None)
    );
    assert_eq!(bank, emitting_bank());
    assert_eq!(
        lending_pool_update_emissions_parameters(
            &mut bank,
            Pubkey::new(4, 4),
            Some(1),
            Some(20),
            Some(250),
            Some(100)
        ),
        Ok(Some(252))
    );
    assert_eq!(
        bank,
        Bank {
            emissions_flags: EmissionsFlags { borrow_active: true, lending_active: false },
            emissions_rate: 20,
            emissions_remaining: I80F48::from_num(750),
            ..emitting_bank()
        }
    );
}

#[test]
fn update_emissions_needs_emissions_set_up_for_the_mint() {
    let mut bank = the_bank();
    assert_eq!(
        lending_pool_update_emissions_parameters(
            &mut bank,
            Pubkey::default(),
            None,
            Some(1),
            None,
            None
        ),
        Err(AstrolendError::EmissionsUpdateError)
    );
    assert_eq!(bank, the_bank());
    let mut bank = emitting_bank();
    assert_eq!(
        lending_pool_update_emissions_parameters(
            &mut bank,
            Pubkey::new(5, 5),
            None,
            Some(1),
            None,
            None
        ),
        Err(AstrolendError::EmissionsUpdateError)
    );
    assert_eq!(bank, emitting_bank());
}

#[test]
fn update_emissions_rejects_as_a_whole() {
    let mut bank = emitting_bank();
    assert_eq!(
        lending_pool_update_emissions_parameters(
            &mut bank,
            Pubkey::new(4, 4),
            Some(8),
            Some(1),
            Some(1),
            None
        ),
        Err(AstrolendError::InvalidEmissionsFlags)
    );
    assert_eq!(
        lending_pool_update_emissions_parameters(
            &mut bank,
            Pubkey::new(4, 4),
            Some(1),
            Some(1),
            Some(1),
            Some(10_000)
        ),
        Err(AstrolendError::MathError)
    );
    bank.emissions_remaining = I80F48::from_bits(i128::MAX);
    let before = bank;
    assert_eq!(
        lending_pool_update_emissions_parameters(
            &mut bank,
            Pubkey::new(4, 4),
            Some(1),
            Some(1),
            Some(1),
            None
        ),
        Err(AstrolendError::MathError)
    );
    assert_eq!(bank, before);
}
