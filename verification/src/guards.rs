//! Checks on instruction data and accounts that fail with a program error.

use crate::account::{system_program_address, system_program_id, AccountState};
use crate::error::{ProgramError, Result};
use crate::pubkey::{keys_equal, Pubkey};
use vstd::prelude::*;

verus! {

/// Offset of the account-type byte that token-2022 appends to extended
/// accounts.
pub const TOKEN_2022_ACCOUNT_DISCRIMINATOR_OFFSET: usize = 165;

/// Account-type byte of a token-2022 token account.
pub const TOKEN_2022_TOKEN_ACCOUNT_DISCRIMINATOR: u8 = 2;

/// Fails with `MissingRequiredSignature` unless the account signed.
pub fn check_signer(sender: &AccountState) -> (r: Result<()>)
    ensures
        r == if sender.is_signer {
            Ok(())
        } else {
            Err(ProgramError::MissingRequiredSignature)
        },
{
    if !sender.is_signer {
        return Err(ProgramError::MissingRequiredSignature);
    }
    Ok(())
}

/// Fails with `InvalidAccountOwner` unless `program_id` owns the account.
pub fn check_account_owner(account: &AccountState, program_id: &Pubkey) -> (r: Result<()>)
    ensures
        r == if account.owner@ == program_id@ {
            Ok(())
        } else {
            Err(ProgramError::InvalidAccountOwner)
        },
{
    if !keys_equal(&account.owner, program_id) {
        return Err(ProgramError::InvalidAccountOwner);
    }
    Ok(())
}

/// Fails with `InvalidAccountData` unless the account holds exactly `len`
/// bytes of data.
pub fn check_account_data_len(account: &AccountState, len: usize) -> (r: Result<()>)
    ensures
        r == if account.data@.len() == len {
            Ok(())
        } else {
            Err(ProgramError::InvalidAccountData)
        },
{
    if account.data.len() != len {
        return Err(ProgramError::InvalidAccountData);
    }
    Ok(())
}

/// Whether data of a token-2022 account has the expected size: exactly `len`
/// bytes, or an extended account that carries the token-account type byte.
pub open spec fn token_2022_len_ok(data: Seq<u8>, len: int) -> bool {
    ||| data.len() == len
    ||| (data.len() > TOKEN_2022_ACCOUNT_DISCRIMINATOR_OFFSET
        && data[TOKEN_2022_ACCOUNT_DISCRIMINATOR_OFFSET as int]
        == TOKEN_2022_TOKEN_ACCOUNT_DISCRIMINATOR)
}

/// Fails with `InvalidAccountData` unless the data is `len` bytes long or is
/// an extended token-2022 token account.
pub fn check_token_2022_data_len(account: &AccountState, len: usize) -> (r: Result<()>)
    ensures
        r == if token_2022_len_ok(account.data@, len as int) {
            Ok(())
        } else {
            Err(ProgramError::InvalidAccountData)
        },
{
    let data = &account.data;
    if data.len() != len {
        if data.len() <= TOKEN_2022_ACCOUNT_DISCRIMINATOR_OFFSET {
            return Err(ProgramError::InvalidAccountData);
        }
        if data[TOKEN_2022_ACCOUNT_DISCRIMINATOR_OFFSET] != TOKEN_2022_TOKEN_ACCOUNT_DISCRIMINATOR {
            return Err(ProgramError::InvalidAccountData);
        }
    }
    Ok(())
}

/// Fails with `IncorrectProgramId` unless the account is the system program.
pub fn check_system_program(system_program: &AccountState) -> (r: Result<()>)
    ensures
        r == if system_program.key@ == system_program_address() {
            Ok(())
        } else {
            Err(ProgramError::IncorrectProgramId)
        },
{
    let id = system_program_id();
    if !keys_equal(&system_program.key, &id) {
        return Err(ProgramError::IncorrectProgramId);
    }
    Ok(())
}

/// Fails with `InvalidInstructionData` when `data` is shorter than `end_index`.
pub fn check_ix_data_len(data: &[u8], end_index: usize) -> (r: Result<()>)
    ensures
        r == if data@.len() < end_index {
            Err(ProgramError::InvalidInstructionData)
        } else {
            Ok(())
        },
{
    if data.len() < end_index {
        return Err(ProgramError::InvalidInstructionData);
    }
    Ok(())
}

/// Fails with `InvalidSeeds` unless the account sits at the derived address
/// `pda`.
pub fn check_derived_pda(pda: &Pubkey, account: &AccountState) -> (r: Result<()>)
    ensures
        r == if pda@ == account.key@ {
            Ok(())
        } else {
            Err(ProgramError::InvalidSeeds)
        },
{
    if !keys_equal(pda, &account.key) {
        return Err(ProgramError::InvalidSeeds);
    }
    Ok(())
}

} // verus!
