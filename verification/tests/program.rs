use registry::account::AccountState;
use registry::error::{AnyError, AuthError, CustomError, ProgramError};
use registry::instructions::{update_config, withdraw_revenue};
use registry::program::{
    check_account_count, close_account, route_instruction, update_config, withdraw_revenue,
    WithdrawAddresses,
};
use registry::state::{
    AssetItem, Bump, Config, Discriminator, Range, RotationState, UserId,
};
use registry::types::{BitField, Uint32, Uint64};

const PROGRAM: [u8; 32] = [7u8; 32];

fn account(key: u8, owner: [u8; 32], data: Vec<u8>) -> AccountState {
    AccountState {
        key: [key; 32],
        owner,
        lamports: 1_000,
        data,
        is_signer: false,
        is_writable: true,
        executable: false,
    }
}

fn token_program() -> [u8; 32] {
    pinocchio_token::ID
}

fn config_with_admin(admin: u8) -> Config {
    Config {
        admin: [admin; 32],
        is_paused: BitField::from(false),
        rotation_timeout: Uint32::from(86_400u32),
        registration_fee: AssetItem { amount: Uint64::from(10u64), asset: [9u8; 32] },
        data_size_range: Range { min: Uint32::from(100u32), max: Uint32::from(4096u32) },
    }
}

fn update_accounts() -> Vec<AccountState> {
    let mut sender = account(1, [0u8; 32], vec![]);
    sender.is_signer = true;
    let config = account(2, PROGRAM, config_with_admin(1).to_bytes());
    let mut rotation = RotationState::default();
    rotation.owner = [1u8; 32];
    let rotation = account(3, PROGRAM, rotation.to_bytes());
    vec![sender, config, rotation]
}

fn run_update(accounts: &[AccountState], ix: &update_config::InstructionData) -> Result<registry::program::UpdateConfigOutcome, ProgramError> {
    update_config(&PROGRAM, accounts, &ix.to_bytes(), &[2u8; 32], &[3u8; 32], Ok(1_750_000_000))
}

#[test]
fn routing_reads_the_first_byte() {
    assert_eq!(route_instruction(&[]), Err(ProgramError::InvalidInstructionData));
    assert_eq!(route_instruction(&[1, 9, 9]), Ok(Discriminator::UpdateConfig));
    assert_eq!(route_instruction(&[5]), Ok(Discriminator::CloseAccount));
    assert_eq!(route_instruction(&[11]), Err(ProgramError::InvalidInstructionData));
}

#[test]
fn account_lists_must_have_the_exact_length() {
    let accounts = update_accounts();
    assert_eq!(check_account_count(&accounts, 3), Ok(()));
    assert_eq!(check_account_count(&accounts, 4), Err(ProgramError::NotEnoughAccountKeys));
    assert_eq!(check_account_count(&accounts[..2], 3), Err(ProgramError::NotEnoughAccountKeys));
}

#[test]
fn update_config_applies_flagged_settings() {
    let accounts = update_accounts();
    let mut ix = update_config::InstructionData::default();
    ix.set_is_paused(Some(true));
    ix.set_registration_fee_amount(Some(Uint64::from(25u64)));
    let outcome = run_update(&accounts, &ix).unwrap();
    assert!(outcome.rotation_state.is_none());
    assert!(outcome.config.is_paused());
    assert_eq!(outcome.config.registration_fee.amount.get(), 25);
    // unflagged settings and the fee asset are kept
    assert_eq!(outcome.config.rotation_timeout.get(), 86_400);
    assert_eq!(outcome.config.registration_fee.asset, [9u8; 32]);
    assert_eq!(outcome.config.admin, [1u8; 32]);
    assert_eq!(outcome.config.data_size_range.max.get(), 4096);
}

#[test]
fn update_config_proposes_a_new_admin_with_the_old_timeout() {
    let accounts = update_accounts();
    let mut ix = update_config::InstructionData::default();
    ix.set_admin(Some([5u8; 32]));
    ix.set_rotation_timeout(Some(Uint32::from(10u32)));
    let outcome = run_update(&accounts, &ix).unwrap();
    let rotation = outcome.rotation_state.unwrap();
    assert_eq!(rotation.new_owner, [5u8; 32]);
    assert_eq!(rotation.owner, [1u8; 32]);
    assert_eq!(rotation.expiration_date(), 1_750_000_000 + 86_400);
    assert_eq!(outcome.config.rotation_timeout.get(), 10);
    assert_eq!(outcome.config.admin, [1u8; 32]);
}

#[test]
fn update_config_refusals() {
    let accounts = update_accounts();
    let ix = update_config::InstructionData::default();
    // wrong data size
    assert_eq!(
        update_config(&PROGRAM, &accounts, &[0u8; 52], &[2u8; 32], &[3u8; 32], Ok(0)),
        Err(ProgramError::InvalidAccountData)
    );
    // wrong account count
    assert_eq!(run_update(&accounts[..2], &ix), Err(ProgramError::NotEnoughAccountKeys));
    // sender did not sign
    let mut unsigned = update_accounts();
    unsigned[0].is_signer = false;
    assert_eq!(run_update(&unsigned, &ix), Err(ProgramError::MissingRequiredSignature));
    // configuration not owned by the program
    let mut foreign = update_accounts();
    foreign[1].owner = [8u8; 32];
    assert_eq!(run_update(&foreign, &ix), Err(ProgramError::InvalidAccountOwner));
    // rotation state at the wrong address
    assert_eq!(
        update_config(&PROGRAM, &accounts, &ix.to_bytes(), &[2u8; 32], &[4u8; 32], Ok(0)),
        Err(ProgramError::InvalidSeeds)
    );
    // sender is not the admin
    let mut intruder = update_accounts();
    intruder[1].data = config_with_admin(6).to_bytes();
    assert_eq!(
        run_update(&intruder, &ix),
        Err(ProgramError::Custom(AnyError::Auth(AuthError::Unauthorized).index()))
    );
    assert_eq!(run_update(&intruder, &ix), Err(ProgramError::Custom(1000)));
    // the admin proposing itself
    let mut useless = update_config::InstructionData::default();
    useless.set_admin(Some([1u8; 32]));
    assert_eq!(run_update(&accounts, &useless), Err(ProgramError::Custom(1002)));
    // the clock could not be read
    let mut rotate = update_config::InstructionData::default();
    rotate.set_admin(Some([5u8; 32]));
    assert_eq!(
        update_config(
            &PROGRAM,
            &accounts,
            &rotate.to_bytes(),
            &[2u8; 32],
            &[3u8; 32],
            Err(ProgramError::UnsupportedSysvar)
        ),
        Err(ProgramError::UnsupportedSysvar)
    );
}

fn withdraw_accounts(balance: u64) -> (Vec<AccountState>, WithdrawAddresses) {
    let system = account(0, [0u8; 32], vec![]);
    let token = account(20, [0u8; 32], vec![]);
    let ata_program = account(21, [0u8; 32], vec![]);
    let mut sender = account(1, [0u8; 32], vec![]);
    sender.is_signer = true;
    let recipient = account(22, [0u8; 32], vec![]);
    let bump = account(23, PROGRAM, Bump { config: 254, user_counter: 0, rotation_state: 0 }.to_bytes());
    let config = account(2, PROGRAM, config_with_admin(1).to_bytes());
    let mut mint_data = vec![0u8; 82];
    mint_data[44] = 6;
    let mint = account(9, token_program(), mint_data);
    let recipient_ata = account(24, token_program(), vec![0u8; 165]);
    let mut app_data = vec![0u8; 165];
    app_data[64..72].copy_from_slice(&balance.to_le_bytes());
    let app_ata = account(25, token_program(), app_data);
    let addresses = WithdrawAddresses {
        bump: [23u8; 32],
        config: [2u8; 32],
        recipient_ata: [24u8; 32],
        app_ata: [25u8; 32],
    };
    (
        vec![system, token, ata_program, sender, recipient, bump, config, mint, recipient_ata, app_ata],
        addresses,
    )
}

#[test]
fn withdraw_takes_the_whole_balance_by_default() {
    let (accounts, addresses) = withdraw_accounts(500);
    let ix = withdraw_revenue::InstructionData::default();
    let plan = withdraw_revenue(&PROGRAM, &accounts, &ix.to_bytes(), &addresses).unwrap();
    assert_eq!(plan.amount, 500);
    assert_eq!(plan.decimals, 6);
    assert_eq!(plan.config_bump, 254);
    let mut partial = withdraw_revenue::InstructionData::default();
    partial.set_amount(Some(Uint64::from(200u64)));
    let plan = withdraw_revenue(&PROGRAM, &accounts, &partial.to_bytes(), &addresses).unwrap();
    assert_eq!(plan.amount, 200);
}

#[test]
fn withdraw_refusals() {
    let (accounts, addresses) = withdraw_accounts(500);
    let mut ix = withdraw_revenue::InstructionData::default();
    ix.set_amount(Some(Uint64::from(501u64)));
    assert_eq!(
        withdraw_revenue(&PROGRAM, &accounts, &ix.to_bytes(), &addresses),
        Err(ProgramError::Custom(AnyError::Custom(CustomError::ExceededAvailableAssetAmount).index()))
    );
    ix.set_amount(Some(Uint64::from(0u64)));
    assert_eq!(
        withdraw_revenue(&PROGRAM, &accounts, &ix.to_bytes(), &addresses),
        Err(ProgramError::Custom(2))
    );
    let (empty, addresses_empty) = withdraw_accounts(0);
    assert_eq!(
        withdraw_revenue(&PROGRAM, &empty, &withdraw_revenue::InstructionData::default().to_bytes(), &addresses_empty),
        Err(ProgramError::Custom(2))
    );
    let (mut wrong_mint, a2) = withdraw_accounts(500);
    wrong_mint[7].key = [10u8; 32];
    assert_eq!(
        withdraw_revenue(&PROGRAM, &wrong_mint, &withdraw_revenue::InstructionData::default().to_bytes(), &a2),
        Err(ProgramError::Custom(1))
    );
    let (mut not_admin, a3) = withdraw_accounts(500);
    not_admin[3].key = [11u8; 32];
    assert_eq!(
        withdraw_revenue(&PROGRAM, &not_admin, &withdraw_revenue::InstructionData::default().to_bytes(), &a3),
        Err(ProgramError::Custom(1000))
    );
    let (mut bad_system, a4) = withdraw_accounts(500);
    bad_system[0].key = [12u8; 32];
    assert_eq!(
        withdraw_revenue(&PROGRAM, &bad_system, &withdraw_revenue::InstructionData::default().to_bytes(), &a4),
        Err(ProgramError::IncorrectProgramId)
    );
    let (accounts5, mut a5) = withdraw_accounts(500);
    a5.recipient_ata = [30u8; 32];
    assert_eq!(
        withdraw_revenue(&PROGRAM, &accounts5, &withdraw_revenue::InstructionData::default().to_bytes(), &a5),
        Err(ProgramError::InvalidSeeds)
    );
    assert_eq!(
        withdraw_revenue(&PROGRAM, &accounts5[..9], &withdraw_revenue::InstructionData::default().to_bytes(), &a5),
        Err(ProgramError::NotEnoughAccountKeys)
    );
    assert_eq!(
        withdraw_revenue(&PROGRAM, &accounts5, &[0u8; 8], &a5),
        Err(ProgramError::InvalidAccountData)
    );
}

fn close_accounts(open: bool) -> Vec<AccountState> {
    let system = account(0, [0u8; 32], vec![]);
    let mut sender = account(1, [0u8; 32], vec![]);
    sender.is_signer = true;
    sender.lamports = 10;
    let mut user_id = UserId::default();
    user_id.set_is_open(open);
    user_id.set_is_activated(true);
    user_id.id = Uint32::from(42u32);
    let user_id_account = account(2, PROGRAM, user_id.to_bytes());
    let mut user_account = account(3, PROGRAM, vec![1u8; 4108]);
    user_account.lamports = 300;
    let mut rotation = account(4, PROGRAM, vec![1u8; 72]);
    rotation.lamports = 40;
    vec![system, sender, user_id_account, user_account, rotation]
}

#[test]
fn closing_a_user_account() {
    let out = close_account(&PROGRAM, close_accounts(true), &[2u8; 32]).unwrap();
    assert_eq!(out.len(), 5);
    assert_eq!(out[1].lamports, 10 + 300 + 40);
    assert_eq!(out[3].lamports, 0);
    assert!(out[3].data.is_empty());
    assert_eq!(out[4].lamports, 0);
    assert_eq!(out[4].owner, [0u8; 32]);
    let user_id = UserId::from_bytes(&out[2].data).unwrap();
    assert!(!user_id.is_open());
    assert!(user_id.is_activated());
    assert_eq!(user_id.id.get(), 42);
    let total_before: u64 = close_accounts(true).iter().map(|a| a.lamports).sum();
    let total_after: u64 = out.iter().map(|a| a.lamports).sum();
    assert_eq!(total_before, total_after);
}

#[test]
fn closing_refusals() {
    assert_eq!(
        close_account(&PROGRAM, close_accounts(false), &[2u8; 32]).err(),
        Some(ProgramError::Custom(11))
    );
    assert_eq!(
        close_account(&PROGRAM, close_accounts(true), &[9u8; 32]).err(),
        Some(ProgramError::InvalidSeeds)
    );
    let mut short = close_accounts(true);
    short.pop();
    assert_eq!(close_account(&PROGRAM, short, &[2u8; 32]).err(), Some(ProgramError::NotEnoughAccountKeys));
    let mut unsigned = close_accounts(true);
    unsigned[1].is_signer = false;
    assert_eq!(
        close_account(&PROGRAM, unsigned, &[2u8; 32]).err(),
        Some(ProgramError::MissingRequiredSignature)
    );
}
