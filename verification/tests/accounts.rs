use registry::account::AccountState;
use registry::accounts::{
    get_ata_balance, get_token_decimals, AssociatedTokenAccount, Mint2022Account, MintAccount,
    MintInterface, ProgramAccount, SignerAccount, SystemAccount, SystemProgram, TokenAccount,
    TokenAccount2022Account, TokenAccountInterface,
};
use registry::error::ProgramError;
use registry::guards::{
    check_account_data_len, check_account_owner, check_derived_pda, check_ix_data_len,
    check_signer, check_system_program, check_token_2022_data_len,
};
use registry::pubkey::{are_mints_sorted, keys_equal, sort_mints, TOKEN_2022_PROGRAM_ID};
use registry::state::{ACCOUNT_REGISTRATION_FEE_ASSET, MAINNET_ADMIN};

fn token_program() -> [u8; 32] {
    pinocchio_pubkey::from_str("TokenkegQfeZyiNwAJbNbGKPFXCWuBvf9Ss623VQ5DA")
}

fn account(key: u8, owner: [u8; 32], len: usize) -> AccountState {
    AccountState {
        key: [key; 32],
        owner,
        lamports: 1_000,
        data: vec![0u8; len],
        is_signer: false,
        is_writable: true,
        executable: false,
    }
}

#[test]
fn addresses_match_their_base58_text() {
    assert_eq!(
        TOKEN_2022_PROGRAM_ID,
        pinocchio_pubkey::from_str("TokenzQdBNbLqP5VEhdkAS6EPFLC1PHnBqCXEpPxuEb")
    );
    assert_eq!(
        MAINNET_ADMIN,
        pinocchio_pubkey::from_str("AH9JvTDAiQy2zAuFfzteNyUrW5DYoTsTLoeNjXrxTTSt")
    );
    assert_eq!(
        ACCOUNT_REGISTRATION_FEE_ASSET,
        pinocchio_pubkey::from_str("EPjFWdd5AufqSSqeM2qN1xzybapC8G4wEGGkZwyTDt1v")
    );
    assert_eq!(token_program(), pinocchio_token::ID);
}

#[test]
fn keys_compare_byte_by_byte() {
    let a = [1u8; 32];
    let mut b = [1u8; 32];
    assert!(keys_equal(&a, &b));
    b[31] = 2;
    assert!(!keys_equal(&a, &b));
    assert!(are_mints_sorted(&a, &b));
    assert!(!are_mints_sorted(&b, &a));
    assert!(are_mints_sorted(&a, &a));
    assert_eq!(sort_mints(&b, &a), (a, b));
    assert_eq!(sort_mints(&a, &b), (a, b));
    let mut c = [0u8; 32];
    c[0] = 2;
    assert!(are_mints_sorted(&b, &c));
}

#[test]
fn basic_guards() {
    let mut acc = account(5, [7u8; 32], 10);
    assert_eq!(check_signer(&acc), Err(ProgramError::MissingRequiredSignature));
    acc.is_signer = true;
    assert_eq!(check_signer(&acc), Ok(()));
    assert_eq!(check_account_owner(&acc, &[7u8; 32]), Ok(()));
    assert_eq!(check_account_owner(&acc, &[8u8; 32]), Err(ProgramError::InvalidAccountOwner));
    assert_eq!(check_account_data_len(&acc, 10), Ok(()));
    assert_eq!(check_account_data_len(&acc, 11), Err(ProgramError::InvalidAccountData));
    assert_eq!(check_derived_pda(&[5u8; 32], &acc), Ok(()));
    assert_eq!(check_derived_pda(&[6u8; 32], &acc), Err(ProgramError::InvalidSeeds));
    assert_eq!(check_ix_data_len(&[1, 2], 2), Ok(()));
    assert_eq!(check_ix_data_len(&[1, 2], 3), Err(ProgramError::InvalidInstructionData));
}

#[test]
fn token_2022_accounts_may_be_extended() {
    let mut acc = account(1, TOKEN_2022_PROGRAM_ID, 165);
    assert_eq!(check_token_2022_data_len(&acc, 165), Ok(()));
    acc.data = vec![0u8; 170];
    assert_eq!(check_token_2022_data_len(&acc, 165), Err(ProgramError::InvalidAccountData));
    acc.data[165] = 2;
    assert_eq!(check_token_2022_data_len(&acc, 165), Ok(()));
    acc.data = vec![2u8; 100];
    assert_eq!(check_token_2022_data_len(&acc, 82), Err(ProgramError::InvalidAccountData));
}

#[test]
fn system_program_and_accounts() {
    let system = account(0, [0u8; 32], 0);
    assert_eq!(check_system_program(&system), Ok(()));
    assert_eq!(SystemProgram::check(&system), Ok(()));
    let other = account(3, [0u8; 32], 0);
    assert_eq!(SystemProgram::check(&other), Err(ProgramError::IncorrectProgramId));
    assert_eq!(SystemAccount::check(&other), Ok(()));
    let owned = account(3, [4u8; 32], 0);
    assert_eq!(SystemAccount::check(&owned), Err(ProgramError::InvalidAccountOwner));
    let mut signer = account(9, [0u8; 32], 0);
    assert_eq!(SignerAccount::check(&signer), Err(ProgramError::MissingRequiredSignature));
    signer.is_signer = true;
    assert_eq!(SignerAccount::check(&signer), Ok(()));
}

#[test]
fn mints_and_token_accounts_have_fixed_sizes() {
    let mint = account(1, token_program(), 82);
    assert_eq!(MintAccount::check(&mint), Ok(()));
    assert_eq!(MintInterface::check(&mint), Ok(()));
    let short_mint = account(1, token_program(), 81);
    assert_eq!(MintAccount::check(&short_mint), Err(ProgramError::InvalidAccountData));
    let foreign_mint = account(1, [9u8; 32], 82);
    assert_eq!(MintAccount::check(&foreign_mint), Err(ProgramError::InvalidAccountOwner));
    assert_eq!(MintInterface::check(&foreign_mint), Err(ProgramError::InvalidAccountOwner));
    let token = account(2, token_program(), 165);
    assert_eq!(TokenAccount::check(&token), Ok(()));
    assert_eq!(TokenAccountInterface::check(&token), Ok(()));
    assert_eq!(TokenAccount::check(&mint), Err(ProgramError::InvalidAccountData));
    let mint_2022 = account(1, TOKEN_2022_PROGRAM_ID, 82);
    assert_eq!(Mint2022Account::check(&mint_2022), Ok(()));
    assert_eq!(MintInterface::check(&mint_2022), Ok(()));
    assert_eq!(Mint2022Account::check(&mint), Err(ProgramError::InvalidAccountOwner));
    let mut token_2022 = account(2, TOKEN_2022_PROGRAM_ID, 200);
    assert_eq!(
        TokenAccount2022Account::check(&token_2022),
        Err(ProgramError::InvalidAccountData)
    );
    token_2022.data[165] = 2;
    assert_eq!(TokenAccount2022Account::check(&token_2022), Ok(()));
    assert_eq!(TokenAccountInterface::check(&token_2022), Ok(()));
}

#[test]
fn associated_token_account_must_sit_at_its_address() {
    let ata = account(4, token_program(), 165);
    assert_eq!(AssociatedTokenAccount::check(&ata, &[4u8; 32]), Ok(()));
    assert_eq!(AssociatedTokenAccount::check(&ata, &[5u8; 32]), Err(ProgramError::InvalidSeeds));
    let not_token = account(4, [1u8; 32], 165);
    assert_eq!(
        AssociatedTokenAccount::check(&not_token, &[4u8; 32]),
        Err(ProgramError::InvalidAccountOwner)
    );
}

#[test]
fn program_account_checks_owner_size_and_address() {
    let program = [7u8; 32];
    let acc = account(3, program, 85);
    assert_eq!(ProgramAccount::check(&acc, &program, 85, Some(&[3u8; 32])), Ok(()));
    assert_eq!(ProgramAccount::check(&acc, &program, 85, None), Ok(()));
    assert_eq!(
        ProgramAccount::check(&acc, &[6u8; 32], 85, None),
        Err(ProgramError::InvalidAccountOwner)
    );
    assert_eq!(
        ProgramAccount::check(&acc, &program, 72, None),
        Err(ProgramError::InvalidAccountData)
    );
    assert_eq!(
        ProgramAccount::check(&acc, &program, 85, Some(&[4u8; 32])),
        Err(ProgramError::InvalidSeeds)
    );
}

#[test]
fn closing_moves_all_lamports_and_empties_the_account() {
    let mut closed = account(3, [7u8; 32], 10);
    closed.lamports = 500;
    let mut destination = account(4, [0u8; 32], 0);
    destination.lamports = 20;
    assert_eq!(ProgramAccount::close(&mut closed, &mut destination), Ok(()));
    assert_eq!(destination.lamports, 520);
    assert_eq!(closed.lamports, 0);
    assert!(closed.data.is_empty());
    assert_eq!(closed.owner, [0u8; 32]);
    assert_eq!(closed.key, [3u8; 32]);
}

#[test]
fn token_account_fields() {
    let mut ata = account(4, token_program(), 165);
    ata.data[64..72].copy_from_slice(&1_000_000u64.to_le_bytes());
    assert_eq!(get_ata_balance(&ata), Ok(1_000_000));
    let mut mint = account(1, token_program(), 82);
    mint.data[44] = 6;
    assert_eq!(get_token_decimals(&mint), Ok(6));
}

#[test]
fn init_if_needed_creates_only_what_fails_its_check() {
    assert!(!MintAccount::init_if_needed(&account(1, token_program(), 82)));
    assert!(MintAccount::init_if_needed(&account(1, [0u8; 32], 0)));
    assert!(!TokenAccount::init_if_needed(&account(1, token_program(), 165)));
    assert!(TokenAccount::init_if_needed(&account(1, token_program(), 82)));
    assert!(Mint2022Account::init_if_needed(&account(1, [0u8; 32], 0)));
    assert!(TokenAccount2022Account::init_if_needed(&account(1, token_program(), 165)));
    assert!(!AssociatedTokenAccount::init_if_needed(&account(4, token_program(), 165), &[4u8; 32]));
    assert!(AssociatedTokenAccount::init_if_needed(&account(4, token_program(), 165), &[5u8; 32]));
}
