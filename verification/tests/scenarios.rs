// The registry's own scenarios, run on the account states that the registry
// is in after its initialisation (and, for a withdrawal, after one user paid
// the registration fee).

use registry::account::AccountState;
use registry::error::{AnyError, AuthError, CustomError, ProgramError};
use registry::instructions::{update_config as update_ix, withdraw_revenue as withdraw_ix};
use registry::program::{close_account, update_config, withdraw_revenue, WithdrawAddresses};
use registry::state::{
    AssetItem, Bump, Config, Range, RotationState, UserId, ACCOUNT_DATA_SIZE_MAX,
    ACCOUNT_DATA_SIZE_MIN, ACCOUNT_REGISTRATION_FEE_AMOUNT, CLOCK_TIME_MIN, ROTATION_TIMEOUT,
};
use registry::types::{BitField, Uint32, Uint64};

const PROGRAM: [u8; 32] = [7u8; 32];
const ADMIN: [u8; 32] = [1u8; 32];
const ALICE: [u8; 32] = [2u8; 32];
const BOB: [u8; 32] = [3u8; 32];
const USDC: [u8; 32] = [0x50u8; 32];
const PYTH: [u8; 32] = [0x51u8; 32];

const CONFIG: [u8; 32] = [0x20u8; 32];
const ADMIN_ROTATION: [u8; 32] = [0x21u8; 32];
const BUMP: [u8; 32] = [0x22u8; 32];

fn auth(e: AuthError) -> ProgramError {
    ProgramError::Custom(AnyError::Auth(e).index())
}

fn custom(e: CustomError) -> ProgramError {
    ProgramError::Custom(AnyError::Custom(e).index())
}

fn account(key: [u8; 32], owner: [u8; 32], data: Vec<u8>) -> AccountState {
    AccountState {
        key,
        owner,
        lamports: 1_000_000,
        data,
        is_signer: false,
        is_writable: true,
        executable: false,
    }
}

fn signer(key: [u8; 32]) -> AccountState {
    let mut a = account(key, [0u8; 32], vec![]);
    a.is_signer = true;
    a
}

/// The configuration as the initialisation leaves it.
fn initial_config() -> Config {
    Config {
        admin: ADMIN,
        is_paused: BitField::default(),
        rotation_timeout: Uint32::from(ROTATION_TIMEOUT),
        registration_fee: AssetItem {
            amount: Uint64::from(ACCOUNT_REGISTRATION_FEE_AMOUNT),
            asset: USDC,
        },
        data_size_range: Range {
            min: Uint32::from(ACCOUNT_DATA_SIZE_MIN),
            max: Uint32::from(ACCOUNT_DATA_SIZE_MAX),
        },
    }
}

fn update_accounts(sender: [u8; 32], config: &Config) -> Vec<AccountState> {
    let mut rotation = RotationState::default();
    rotation.owner = ADMIN;
    rotation.new_owner = ADMIN;
    rotation.set_expiration_date(CLOCK_TIME_MIN);
    vec![
        signer(sender),
        account(CONFIG, PROGRAM, config.to_bytes()),
        account(ADMIN_ROTATION, PROGRAM, rotation.to_bytes()),
    ]
}

fn run_update(
    sender: [u8; 32],
    config: &Config,
    ix: &update_ix::InstructionData,
) -> Result<registry::program::UpdateConfigOutcome, ProgramError> {
    update_config(
        &PROGRAM,
        &update_accounts(sender, config),
        &ix.to_bytes(),
        &CONFIG,
        &ADMIN_ROTATION,
        Ok(CLOCK_TIME_MIN),
    )
}

#[test]
fn update_config_default() {
    let mut ix = update_ix::InstructionData::default();
    ix.set_data_size_range(Some(Range {
        min: Uint32::from(2 * ACCOUNT_DATA_SIZE_MIN),
        max: Uint32::from(ACCOUNT_DATA_SIZE_MAX),
    }));
    let outcome = run_update(ADMIN, &initial_config(), &ix).unwrap();
    assert_eq!(
        outcome.config,
        Config {
            admin: ADMIN,
            is_paused: BitField::from(false),
            rotation_timeout: Uint32::from(ROTATION_TIMEOUT),
            registration_fee: AssetItem {
                amount: Uint64::from(ACCOUNT_REGISTRATION_FEE_AMOUNT),
                asset: USDC,
            },
            data_size_range: Range {
                min: Uint32::from(2 * ACCOUNT_DATA_SIZE_MIN),
                max: Uint32::from(ACCOUNT_DATA_SIZE_MAX),
            },
        }
    );
    assert!(outcome.rotation_state.is_none());
}

#[test]
fn transfer_admin() {
    let config = initial_config();

    // only admin can rotate admin
    let mut to_alice = update_ix::InstructionData::default();
    to_alice.set_admin(Some(ALICE));
    assert_eq!(run_update(ALICE, &config, &to_alice), Err(auth(AuthError::Unauthorized)));

    // the admin can't be new admin
    let mut to_admin = update_ix::InstructionData::default();
    to_admin.set_admin(Some(ADMIN));
    assert_eq!(run_update(ADMIN, &config, &to_admin), Err(auth(AuthError::UselessRotation)));

    // the admin proposes Alice, who has until the timeout to confirm
    let outcome = run_update(ADMIN, &config, &to_alice).unwrap();
    assert_eq!(outcome.config, config);
    let rotation = outcome.rotation_state.unwrap();
    assert_eq!(rotation.owner, ADMIN);
    assert_eq!(rotation.new_owner, ALICE);
    assert_eq!(rotation.expiration_date(), CLOCK_TIME_MIN + ROTATION_TIMEOUT as u64);
}

/// The accounts of a withdrawal by `sender` to `recipient` of the fees in
/// `mint`, with the registry holding `revenue` of it.
fn withdraw_accounts(
    sender: [u8; 32],
    recipient: [u8; 32],
    mint: [u8; 32],
    revenue: u64,
) -> (Vec<AccountState>, WithdrawAddresses) {
    let token_program = pinocchio_token::ID;
    let recipient_ata = [recipient[0] + 0x60; 32];
    let app_ata = [mint[0] + 0x10; 32];
    let mut mint_data = vec![0u8; 82];
    mint_data[44] = 6;
    let mut app_ata_data = vec![0u8; 165];
    app_ata_data[64..72].copy_from_slice(&revenue.to_le_bytes());
    let accounts = vec![
        account([0u8; 32], [0u8; 32], vec![]),
        account(token_program, [0u8; 32], vec![]),
        account([0x30u8; 32], [0u8; 32], vec![]),
        signer(sender),
        account(recipient, [0u8; 32], vec![]),
        account(BUMP, PROGRAM, Bump { config: 255, user_counter: 254, rotation_state: 253 }.to_bytes()),
        account(CONFIG, PROGRAM, initial_config().to_bytes()),
        account(mint, token_program, mint_data),
        account(recipient_ata, token_program, vec![0u8; 165]),
        account(app_ata, token_program, app_ata_data),
    ];
    let addresses = WithdrawAddresses { bump: BUMP, config: CONFIG, recipient_ata, app_ata };
    (accounts, addresses)
}

fn run_withdraw(
    sender: [u8; 32],
    amount: Option<u64>,
    recipient: Option<[u8; 32]>,
    mint: Option<[u8; 32]>,
    revenue: u64,
) -> Result<registry::program::WithdrawPlan, ProgramError> {
    let (accounts, addresses) =
        withdraw_accounts(sender, recipient.unwrap_or(sender), mint.unwrap_or(USDC), revenue);
    let mut ix = withdraw_ix::InstructionData::default();
    ix.set_amount(amount.map(Uint64::from));
    withdraw_revenue(&PROGRAM, &accounts, &ix.to_bytes(), &addresses)
}

#[test]
fn withdraw_revenue_default() {
    let plan = run_withdraw(ADMIN, None, None, None, ACCOUNT_REGISTRATION_FEE_AMOUNT).unwrap();
    assert_eq!(plan.amount, ACCOUNT_REGISTRATION_FEE_AMOUNT);
    assert_eq!(plan.config_bump, 255);
}

#[test]
fn withdraw_revenue_by_amount_to_recipient() {
    let revenue = ACCOUNT_REGISTRATION_FEE_AMOUNT;
    let plan = run_withdraw(ADMIN, Some(revenue / 2), Some(BOB), Some(USDC), revenue).unwrap();
    assert_eq!(plan.amount, ACCOUNT_REGISTRATION_FEE_AMOUNT / 2);
    // the tokens go from the registry's account to Bob's
    let (_, addresses) = withdraw_accounts(ADMIN, BOB, USDC, revenue);
    assert_eq!(plan.destination, addresses.recipient_ata);
    assert_eq!(plan.source, addresses.app_ata);
    assert_eq!(plan.mint, USDC);
}

#[test]
fn withdraw_revenue_guards() {
    let revenue = ACCOUNT_REGISTRATION_FEE_AMOUNT;
    // only admin can withdraw
    assert_eq!(run_withdraw(ALICE, None, None, None, revenue), Err(auth(AuthError::Unauthorized)));
    // lower amount limit
    assert_eq!(run_withdraw(ADMIN, Some(0), None, None, revenue), Err(custom(CustomError::ZeroAmount)));
    // higher amount limit
    assert_eq!(
        run_withdraw(ADMIN, Some(ACCOUNT_REGISTRATION_FEE_AMOUNT + 1), None, None, revenue),
        Err(custom(CustomError::ExceededAvailableAssetAmount))
    );
    // the fee asset only
    assert_eq!(
        run_withdraw(ADMIN, None, None, Some(PYTH), 0),
        Err(custom(CustomError::WrongAssetType))
    );
}

/// The accounts of closing `owner`'s user account, sent by `sender`, with
/// `user_id` at `owner`'s registration address.
fn close_accounts(sender: [u8; 32], user_id: AccountState) -> Vec<AccountState> {
    vec![
        account([0u8; 32], [0u8; 32], vec![]),
        signer(sender),
        user_id,
        account([0x40u8; 32], PROGRAM, vec![1u8; 4108]),
        account([0x41u8; 32], PROGRAM, vec![1u8; 72]),
    ]
}

fn user_id_address(user: [u8; 32]) -> [u8; 32] {
    [user[0] + 0x70; 32]
}

#[test]
fn close_account_guards() {
    // account must be created first
    let missing = account(user_id_address(ALICE), [0u8; 32], vec![]);
    assert!(close_account(&PROGRAM, close_accounts(ALICE, missing), &user_id_address(ALICE)).is_err());

    // close account of other user
    let alice_id = || {
        let mut created = UserId::default();
        created.set_is_open(true);
        created.id = Uint32::from(1u32);
        account(user_id_address(ALICE), PROGRAM, created.to_bytes())
    };
    assert!(close_account(&PROGRAM, close_accounts(BOB, alice_id()), &user_id_address(BOB)).is_err());

    // close account twice
    let mut closed =
        close_account(&PROGRAM, close_accounts(ALICE, alice_id()), &user_id_address(ALICE)).unwrap();
    let closed_id = closed.swap_remove(2);
    let again = close_account(&PROGRAM, close_accounts(ALICE, closed_id), &user_id_address(ALICE));
    assert_eq!(again.err(), Some(custom(CustomError::AccountIsNotOpened)));
}
