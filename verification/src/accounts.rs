//! Kinds of accounts an instruction expects, each with the check that an
//! account passed in its place must pass, and the closing of a program
//! account.

use crate::account::{
    mint_len, system_program_address, system_program_id, token_account_len, token_program_address,
    token_program_id, AccountState,
};
use crate::codec::{num_at, to_u64};
use crate::error::{ProgramError, Result};
use crate::guards::{
    check_account_data_len, check_account_owner, check_derived_pda, check_signer,
    check_system_program, check_token_2022_data_len, token_2022_len_ok,
};
use crate::pubkey::{keys_equal, Pubkey, TOKEN_2022_PROGRAM_ID};
use vstd::prelude::*;

verus! {

/// Size of a token mint's data.
pub const MINT_LEN: usize = 82;

/// Size of a token account's data.
pub const TOKEN_ACCOUNT_LEN: usize = 165;

/// Data byte that marks a closed program account.
pub const CLOSED_ACCOUNT_DISCRIMINATOR: u8 = 0xFF;

/// Outcome of checking that `account` is owned by `owner` and holds exactly
/// `len` bytes.
pub open spec fn owned_with_len(account: &AccountState, owner: Seq<u8>, len: int) -> Result<()> {
    if account.owner@ != owner {
        Err(ProgramError::InvalidAccountOwner)
    } else if account.data@.len() != len {
        Err(ProgramError::InvalidAccountData)
    } else {
        Ok(())
    }
}

/// Outcome of checking that `account` is a token-2022 account of base size
/// `len`.
pub open spec fn owned_by_token_2022(account: &AccountState, len: int) -> Result<()> {
    if account.owner@ != TOKEN_2022_PROGRAM_ID@ {
        Err(ProgramError::InvalidAccountOwner)
    } else if !token_2022_len_ok(account.data@, len) {
        Err(ProgramError::InvalidAccountData)
    } else {
        Ok(())
    }
}

/// Outcome of checking that `account` belongs to either token program with
/// base size `len`.
pub open spec fn owned_by_token_interface(account: &AccountState, len: int) -> Result<()> {
    if account.owner@ == TOKEN_2022_PROGRAM_ID@ {
        if token_2022_len_ok(account.data@, len) {
            Ok(())
        } else {
            Err(ProgramError::InvalidAccountData)
        }
    } else if account.owner@ == token_program_address() {
        if account.data@.len() == len {
            Ok(())
        } else {
            Err(ProgramError::InvalidAccountData)
        }
    } else {
        Err(ProgramError::InvalidAccountOwner)
    }
}

/// An account that must have signed the transaction.
pub struct SignerAccount;

impl SignerAccount {
    pub fn check(account: &AccountState) -> (r: Result<()>)
        ensures
            r == if account.is_signer {
                Ok(())
            } else {
                Err(ProgramError::MissingRequiredSignature)
            },
    {
        check_signer(account)
    }
}

/// An account owned by the system program.
pub struct SystemAccount;

impl SystemAccount {
    pub fn check(account: &AccountState) -> (r: Result<()>)
        ensures
            r == if account.owner@ == system_program_address() {
                Ok(())
            } else {
                Err(ProgramError::InvalidAccountOwner)
            },
    {
        let id = system_program_id();
        check_account_owner(account, &id)
    }
}

/// The system program itself.
pub struct SystemProgram;

impl SystemProgram {
    pub fn check(account: &AccountState) -> (r: Result<()>)
        ensures
            r == if account.key@ == system_program_address() {
                Ok(())
            } else {
                Err(ProgramError::IncorrectProgramId)
            },
    {
        check_system_program(account)
    }
}

/// A mint of the token program.
pub struct MintAccount;

impl MintAccount {
    pub fn check(account: &AccountState) -> (r: Result<()>)
        ensures
            r == owned_with_len(account, token_program_address(), MINT_LEN as int),
    {
        let id = token_program_id();
        check_account_owner(account, &id)?;
        let len = mint_len();
        check_account_data_len(account, len)
    }

    /// Whether the account must be created and initialized: exactly when it
    /// does not pass the check of a token-program mint; one that passes is
    /// left as it is.
    pub fn init_if_needed(account: &AccountState) -> (r: bool)
        ensures
            r == (owned_with_len(account, token_program_address(), MINT_LEN as int) is Err),
    {
        match Self::check(account) {
            Ok(()) => false,
            Err(_) => true,
        }
    }
}

/// A token account of the token program.
pub struct TokenAccount;

impl TokenAccount {
    pub fn check(account: &AccountState) -> (r: Result<()>)
        ensures
            r == owned_with_len(account, token_program_address(), TOKEN_ACCOUNT_LEN as int),
    {
        let id = token_program_id();
        check_account_owner(account, &id)?;
        let len = token_account_len();
        check_account_data_len(account, len)
    }

    /// Whether the account must be created and initialized: exactly when it
    /// does not pass the check of a token-program token account; one that passes is
    /// left as it is.
    pub fn init_if_needed(account: &AccountState) -> (r: bool)
        ensures
            r == (owned_with_len(account, token_program_address(), TOKEN_ACCOUNT_LEN as int) is Err),
    {
        match Self::check(account) {
            Ok(()) => false,
            Err(_) => true,
        }
    }
}

/// A mint of the token-2022 program.
pub struct Mint2022Account;

impl Mint2022Account {
    pub fn check(account: &AccountState) -> (r: Result<()>)
        ensures
            r == owned_by_token_2022(account, MINT_LEN as int),
    {
        check_account_owner(account, &TOKEN_2022_PROGRAM_ID)?;
        let len = mint_len();
        check_token_2022_data_len(account, len)
    }

    /// Whether the account must be created and initialized: exactly when it
    /// does not pass the check of a token-2022 mint; one that passes is
    /// left as it is.
    pub fn init_if_needed(account: &AccountState) -> (r: bool)
        ensures
            r == (owned_by_token_2022(account, MINT_LEN as int) is Err),
    {
        match Self::check(account) {
            Ok(()) => false,
            Err(_) => true,
        }
    }
}

/// A token account of the token-2022 program.
pub struct TokenAccount2022Account;

impl TokenAccount2022Account {
    pub fn check(account: &AccountState) -> (r: Result<()>)
        ensures
            r == owned_by_token_2022(account, TOKEN_ACCOUNT_LEN as int),
    {
        check_account_owner(account, &TOKEN_2022_PROGRAM_ID)?;
        let len = token_account_len();
        check_token_2022_data_len(account, len)
    }

    /// Whether the account must be created and initialized: exactly when it
    /// does not pass the check of a token-2022 token account; one that passes is
    /// left as it is.
    pub fn init_if_needed(account: &AccountState) -> (r: bool)
        ensures
            r == (owned_by_token_2022(account, TOKEN_ACCOUNT_LEN as int) is Err),
    {
        match Self::check(account) {
            Ok(()) => false,
            Err(_) => true,
        }
    }
}

/// A mint of either token program.
pub struct MintInterface;

impl MintInterface {
    pub fn check(account: &AccountState) -> (r: Result<()>)
        ensures
            r == owned_by_token_interface(account, MINT_LEN as int),
    {
        let len = mint_len();
        if keys_equal(&account.owner, &TOKEN_2022_PROGRAM_ID) {
            return check_token_2022_data_len(account, len);
        }
        let id = token_program_id();
        if keys_equal(&account.owner, &id) {
            return check_account_data_len(account, len);
        }
        Err(ProgramError::InvalidAccountOwner)
    }
}

/// A token account of either token program.
pub struct TokenAccountInterface;

impl TokenAccountInterface {
    pub fn check(account: &AccountState) -> (r: Result<()>)
        ensures
            r == owned_by_token_interface(account, TOKEN_ACCOUNT_LEN as int),
    {
        let len = token_account_len();
        if keys_equal(&account.owner, &TOKEN_2022_PROGRAM_ID) {
            return check_token_2022_data_len(account, len);
        }
        let id = token_program_id();
        if keys_equal(&account.owner, &id) {
            return check_account_data_len(account, len);
        }
        Err(ProgramError::InvalidAccountOwner)
    }
}

/// The associated token account of an owner for a mint.
pub struct AssociatedTokenAccount;

impl AssociatedTokenAccount {
    /// Outcome of checking a token account that must sit at `derived`.
    pub open spec fn spec_check(account: &AccountState, derived: Seq<u8>) -> Result<()> {
        match owned_with_len(account, token_program_address(), TOKEN_ACCOUNT_LEN as int) {
            Err(e) => Err(e),
            Ok(_) => if derived == account.key@ {
                Ok(())
            } else {
                Err(ProgramError::InvalidSeeds)
            },
        }
    }

    /// Checks a token account that must sit at `derived`, the address derived
    /// from the seeds (owner, token program, mint) under the associated token
    /// program.
    pub fn check(account: &AccountState, derived: &Pubkey) -> (r: Result<()>)
        ensures
            r == Self::spec_check(account, derived@),
    {
        TokenAccount::check(account)?;
        check_derived_pda(derived, account)
    }

    /// Whether the account must be created and initialized: exactly when it
    /// does not pass the check of the associated token account at `derived`; one that passes is
    /// left as it is.
    pub fn init_if_needed(account: &AccountState, derived: &Pubkey) -> (r: bool)
        ensures
            r == (Self::spec_check(account, derived@) is Err),
    {
        match Self::check(account, derived) {
            Ok(()) => false,
            Err(_) => true,
        }
    }
}

/// Outcome of checking a program account: owner, data size, and, where the
/// account has seeds, the address derived from them.
pub open spec fn program_account_check(
    account: &AccountState,
    program_id: Seq<u8>,
    len: int,
    derived: Option<Seq<u8>>,
) -> Result<()> {
    match owned_with_len(account, program_id, len) {
        Err(e) => Err(e),
        Ok(_) => match derived {
            Some(pda) => if pda == account.key@ {
                Ok(())
            } else {
                Err(ProgramError::InvalidSeeds)
            },
            None => Ok(()),
        },
    }
}

/// Balances and data of an account after it has been closed into
/// `destination`.
pub open spec fn closed_pair(
    account: AccountState,
    destination: AccountState,
    account_after: AccountState,
    destination_after: AccountState,
) -> bool {
    &&& account_after.key == account.key
    &&& account_after.owner@ == Seq::new(32, |i: int| 0u8)
    &&& account_after.lamports == 0
    &&& account_after.data@.len() == 0
    &&& account_after.is_signer == account.is_signer
    &&& account_after.is_writable == account.is_writable
    &&& account_after.executable == account.executable
    &&& destination_after.key == destination.key
    &&& destination_after.owner == destination.owner
    &&& destination_after.lamports == destination.lamports + account.lamports
    &&& destination_after.data@ == destination.data@
    &&& destination_after.is_signer == destination.is_signer
    &&& destination_after.is_writable == destination.is_writable
    &&& destination_after.executable == destination.executable
}

/// An account owned by this program.
pub struct ProgramAccount;

impl ProgramAccount {
    /// Checks the owner and data size of a program account and, when it has
    /// seeds, that it sits at `derived`, the address derived from them.
    pub fn check(
        account: &AccountState,
        program_id: &Pubkey,
        program_account_len: u64,
        derived: Option<&Pubkey>,
    ) -> (r: Result<()>)
        ensures
            r == program_account_check(
                account,
                program_id@,
                program_account_len as int,
                match derived {
                    Some(p) => Some(p@),
                    None => None,
                },
            ),
    {
        check_account_owner(account, program_id)?;
        if account.data.len() as u64 != program_account_len {
            return Err(ProgramError::InvalidAccountData);
        }
        match derived {
            Some(pda) => check_derived_pda(pda, account),
            None => Ok(()),
        }
    }

    /// Closes `account` into `destination`: marks its data as closed, moves
    /// its lamports over, and empties it.
    pub fn close(account: &mut AccountState, destination: &mut AccountState) -> (r: Result<()>)
        requires
            old(account).data@.len() > 0,
            old(account).lamports + old(destination).lamports <= u64::MAX,
        ensures
            r is Ok,
            closed_pair(*old(account), *old(destination), *final(account), *final(destination)),
    {
        Self::mark_account_as_closed(account)?;
        Self::transfer_all_lamports(account, destination)?;
        Self::finalize_closure(account)
    }

    fn mark_account_as_closed(account: &mut AccountState) -> (r: Result<()>)
        requires
            old(account).data@.len() > 0,
        ensures
            r is Ok,
            final(account).data@ == old(account).data@.update(0, CLOSED_ACCOUNT_DISCRIMINATOR),
            final(account).key == old(account).key,
            final(account).owner == old(account).owner,
            final(account).lamports == old(account).lamports,
            final(account).is_signer == old(account).is_signer,
            final(account).is_writable == old(account).is_writable,
            final(account).executable == old(account).executable,
    {
        account.data.set(0, CLOSED_ACCOUNT_DISCRIMINATOR);
        Ok(())
    }

    fn transfer_all_lamports(source: &AccountState, destination: &mut AccountState) -> (r: Result<()>)
        requires
            source.lamports + old(destination).lamports <= u64::MAX,
        ensures
            r is Ok,
            final(destination).lamports == old(destination).lamports + source.lamports,
            final(destination).key == old(destination).key,
            final(destination).owner == old(destination).owner,
            final(destination).data@ == old(destination).data@,
            final(destination).is_signer == old(destination).is_signer,
            final(destination).is_writable == old(destination).is_writable,
            final(destination).executable == old(destination).executable,
    {
        destination.lamports = destination.lamports + source.lamports;
        Ok(())
    }

    fn finalize_closure(account: &mut AccountState) -> (r: Result<()>)
        requires
            old(account).data@.len() > 0,
        ensures
            r is Ok,
            final(account).data@.len() == 0,
            final(account).lamports == 0,
            final(account).owner@ == Seq::new(32, |i: int| 0u8),
            final(account).key == old(account).key,
            final(account).is_signer == old(account).is_signer,
            final(account).is_writable == old(account).is_writable,
            final(account).executable == old(account).executable,
    {
        account.data.truncate(1);
        account.data.clear();
        account.lamports = 0;
        account.owner = [0u8; 32];
        assert(account.owner@ =~= Seq::new(32, |i: int| 0u8));
        Ok(())
    }
}

/// Token balance of an associated token account: the little-endian `u64` at
/// byte 64 of its data (after the mint and owner addresses).
pub fn get_ata_balance(ata: &AccountState) -> (r: Result<u64>)
    requires
        ata.data@.len() >= 72,
    ensures
        r == Ok::<u64, ProgramError>(num_at(ata.data@, 64, 8) as u64),
{
    let (amount, _) = to_u64(ata.data.as_slice(), 64)?;
    Ok(amount)
}

/// Decimals of a mint: byte 44 of its data (after the optional mint
/// authority and the supply).
pub fn get_token_decimals(mint: &AccountState) -> (r: Result<u8>)
    requires
        mint.data@.len() > 44,
    ensures
        r == Ok::<u8, ProgramError>(mint.data@[44]),
{
    Ok(mint.data[44])
}

} // verus!
