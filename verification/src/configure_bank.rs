//! The operations of a group's administrator on one bank: changing its
//! configuration, and setting up and changing its emissions.
use crate::bank::{Bank, BankConfigOpt, EmissionsFlags};
use crate::error::AstrolendError;
use crate::fixed_point::I80F48;
use crate::events::{GroupEventHeader, LendingPoolBankConfigureEvent};
use crate::price::PriceObservation;
use crate::pubkey::Pubkey;
use crate::transfer_fee::{gross_amount, spec_gross_amount};
use vstd::prelude::*;

verus! {

/// Whether the observations handed in with a new oracle are exactly one, of
/// that oracle.
pub open spec fn spec_oracle_setup_is_valid(
    oracle: Pubkey,
    observations: Seq<PriceObservation>,
) -> bool {
    observations.len() == 1 && observations[0].oracle == oracle
}

/// The bank after a change of configuration made by `signer`, and the event
/// that reports it.
///
/// The change must leave the configuration well formed, else `InvalidConfig`.
/// A change of oracle must come with exactly one observation, of the new
/// oracle, else `InvalidOracleSetup`.
pub open spec fn spec_configure_bank(
    bank: Bank,
    signer: Pubkey,
    bank_config: BankConfigOpt,
    observations: Seq<PriceObservation>,
) -> Result<(Bank, LendingPoolBankConfigureEvent), AstrolendError> {
    match bank.spec_configured(bank_config) {
        None => Err(AstrolendError::InvalidConfig),
        Some(next) => if bank_config.oracle is Some && !spec_oracle_setup_is_valid(
            next.config.oracle,
            observations,
        ) {
            Err(AstrolendError::InvalidOracleSetup)
        } else {
            Ok(
                (
                    next,
                    LendingPoolBankConfigureEvent {
                        header: GroupEventHeader {
                            astrolend_group: bank.group,
                            signer: Some(signer),
                        },
                        bank: bank.key,
                        mint: bank.mint,
                        config: bank_config,
                    },
                ),
            )
        },
    }
}

/// Changes the configuration of a bank. The signer is named in the event and
/// read for nothing else. A change that is rejected changes nothing.
pub fn lending_pool_configure_bank(
    bank: &mut Bank,
    signer: Pubkey,
    bank_config: BankConfigOpt,
    observations: &Vec<PriceObservation>,
) -> (r: Result<LendingPoolBankConfigureEvent, AstrolendError>)
    ensures
        match spec_configure_bank(*old(bank), signer, bank_config, observations@) {
            Ok((next, event)) => r == Ok::<LendingPoolBankConfigureEvent, AstrolendError>(event)
                && *final(bank) == next,
            Err(e) => r == Err::<LendingPoolBankConfigureEvent, AstrolendError>(e) && *final(bank)
                == *old(bank),
        },
        old(bank).wf() ==> final(bank).wf(),
{
    let mut next = *bank;
    next.configure(&bank_config)?;
    if bank_config.oracle.is_some() {
        if observations.len() != 1 || observations[0].oracle != next.config.oracle {
            return Err(AstrolendError::InvalidOracleSetup);
        }
    }
    *bank = next;
    Ok(
        LendingPoolBankConfigureEvent {
            header: GroupEventHeader { astrolend_group: bank.group, signer: Some(signer) },
            bank: bank.key,
            mint: bank.mint,
            config: bank_config,
        },
    )
}

/// The bank after its emissions are set up, and the units to send to the
/// emissions vault so that `total_emissions` arrive.
///
/// Emissions can be set up once, else `EmissionsAlreadySetup`. The flags may
/// set the two known bits only, else `InvalidEmissionsFlags`.
pub open spec fn spec_setup_emissions(
    bank: Bank,
    emissions_mint: Pubkey,
    emissions_flags: u64,
    emissions_rate: u64,
    total_emissions: u64,
    fee_basis_points: Option<u16>,
) -> Result<(Bank, u64), AstrolendError> {
    if bank.emissions_mint != Pubkey::spec_default() {
        Err(AstrolendError::EmissionsAlreadySetup)
    } else {
        match EmissionsFlags::spec_from_bits(emissions_flags) {
            None => Err(AstrolendError::InvalidEmissionsFlags),
            Some(flags) => match spec_gross_amount(fee_basis_points, total_emissions) {
                None => Err(AstrolendError::MathError),
                Some(gross) => Ok(
                    (
                        Bank {
                            emissions_mint,
                            emissions_flags: flags,
                            emissions_rate,
                            emissions_remaining: I80F48::spec_from_num(total_emissions),
                            ..bank
                        },
                        gross,
                    ),
                ),
            },
        }
    }
}

/// Sets up the emissions of a bank and returns the units to send to the
/// emissions vault. A setup that is rejected changes nothing.
pub fn lending_pool_setup_emissions(
    bank: &mut Bank,
    emissions_mint: Pubkey,
    emissions_flags: u64,
    emissions_rate: u64,
    total_emissions: u64,
    fee_basis_points: Option<u16>,
) -> (r: Result<u64, AstrolendError>)
    ensures
        match spec_setup_emissions(
            *old(bank),
            emissions_mint,
            emissions_flags,
            emissions_rate,
            total_emissions,
            fee_basis_points,
        ) {
            Ok((next, gross)) => r == Ok::<u64, AstrolendError>(gross) && *final(bank) == next,
            Err(e) => r == Err::<u64, AstrolendError>(e) && *final(bank) == *old(bank),
        },
        old(bank).wf() ==> final(bank).wf(),
{
    if !bank.emissions_mint.is_default() {
        return Err(AstrolendError::EmissionsAlreadySetup);
    }
    let flags = match EmissionsFlags::from_bits(emissions_flags) {
        Some(flags) => flags,
        None => { return Err(AstrolendError::InvalidEmissionsFlags); },
    };
    let gross = match gross_amount(fee_basis_points, total_emissions) {
        Some(gross) => gross,
        None => { return Err(AstrolendError::MathError); },
    };
    bank.emissions_mint = emissions_mint;
    bank.emissions_flags = flags;
    bank.emissions_rate = emissions_rate;
    bank.emissions_remaining = I80F48::from_num(total_emissions);
    Ok(gross)
}

/// The bank after a change of its emissions, and the units to send to the
/// emissions vault so that the additional emissions arrive, if there are any.
///
/// Emissions must have been set up, for the mint given, else
/// `EmissionsUpdateError`. Flags, rate and additional emissions change only
/// where they are given.
pub open spec fn spec_update_emissions_parameters(
    bank: Bank,
    emissions_mint: Pubkey,
    emissions_flags: Option<u64>,
    emissions_rate: Option<u64>,
    additional_emissions: Option<u64>,
    fee_basis_points: Option<u16>,
) -> Result<(Bank, Option<u64>), AstrolendError> {
    let flags = match emissions_flags {
        Some(bits) => EmissionsFlags::spec_from_bits(bits),
        None => Some(bank.emissions_flags),
    };
    let rate = match emissions_rate {
        Some(rate) => rate,
        None => bank.emissions_rate,
    };
    let remaining = match additional_emissions {
        Some(more) => bank.emissions_remaining.spec_add(I80F48::spec_from_num(more)),
        None => Some(bank.emissions_remaining),
    };
    let gross = match additional_emissions {
        Some(more) => match spec_gross_amount(fee_basis_points, more) {
            Some(gross) => Some(Some(gross)),
            None => None,
        },
        None => Some(None),
    };
    if bank.emissions_mint == Pubkey::spec_default() || bank.emissions_mint != emissions_mint {
        Err(AstrolendError::EmissionsUpdateError)
    } else if flags is None {
        Err(AstrolendError::InvalidEmissionsFlags)
    } else if remaining is None || gross is None {
        Err(AstrolendError::MathError)
    } else {
        Ok(
            (
                Bank {
                    emissions_flags: flags->0,
                    emissions_rate: rate,
                    emissions_remaining: remaining->0,
                    ..bank
                },
                gross->0,
            ),
        )
    }
}

/// Changes the emissions of a bank and returns the units to send to the
/// emissions vault, if any. A change that is rejected changes nothing.
pub fn lending_pool_update_emissions_parameters(
    bank: &mut Bank,
    emissions_mint: Pubkey,
    emissions_flags: Option<u64>,
    emissions_rate: Option<u64>,
    additional_emissions: Option<u64>,
    fee_basis_points: Option<u16>,
) -> (r: Result<Option<u64>, AstrolendError>)
    ensures
        match spec_update_emissions_parameters(
            *old(bank),
            emissions_mint,
            emissions_flags,
            emissions_rate,
            additional_emissions,
            fee_basis_points,
        ) {
            Ok((next, gross)) => r == Ok::<Option<u64>, AstrolendError>(gross) && *final(bank)
                == next,
            Err(e) => r == Err::<Option<u64>, AstrolendError>(e) && *final(bank) == *old(bank),
        },
        old(bank).wf() ==> final(bank).wf(),
{
    if bank.emissions_mint.is_default() || bank.emissions_mint != emissions_mint {
        return Err(AstrolendError::EmissionsUpdateError);
    }
    let mut next = *bank;
    if let Some(bits) = emissions_flags {
        next.emissions_flags = match EmissionsFlags::from_bits(bits) {
            Some(flags) => flags,
            None => { return Err(AstrolendError::InvalidEmissionsFlags); },
        };
    }
    if let Some(rate) = emissions_rate {
        next.emissions_rate = rate;
    }
    let mut gross: Option<u64> = None;
    if let Some(more) = additional_emissions {
        next.emissions_remaining = match bank.emissions_remaining.checked_add(
            I80F48::from_num(more),
        ) {
            Some(v) => v,
            None => { return Err(AstrolendError::MathError); },
        };
        gross = match gross_amount(fee_basis_points, more) {
            Some(v) => Some(v),
            None => { return Err(AstrolendError::MathError); },
        };
    }
    *bank = next;
    Ok(gross)
}

} // verus!
