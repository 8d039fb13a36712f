//! The decisions of the registry's instructions: which instruction the data
//! selects, which accounts pass, which request is refused with which error,
//! and what the accepted ones write.

use crate::account::AccountState;
use crate::account::{system_program_address, token_program_address};
use crate::accounts::{
    get_ata_balance, get_token_decimals, owned_with_len, program_account_check,
    AssociatedTokenAccount, MintAccount, ProgramAccount, SignerAccount, SystemProgram, MINT_LEN,
    TOKEN_ACCOUNT_LEN,
};
use crate::codec::num_at;
use crate::le::{lemma_le_value_bound, lemma_pow256_widths};
use crate::bits::flag_of;
use crate::error::{AnyError, AuthError, CustomError, ProgramError, Result};
use crate::instructions::InstructionSerialize;
use crate::instructions::withdraw_revenue::{
    data_of as withdraw_data_of, lemma_data_of as lemma_withdraw_data_of,
    InstructionData as WithdrawRevenueData,
};
use crate::instructions::update_config::{
    data_of as update_config_data_of, lemma_data_of as lemma_update_config_data_of,
    InstructionData as UpdateConfigData,
};
use crate::pubkey::{keys_equal, Pubkey};
use crate::bits::with_flag;
use crate::state::{
    bump_of, config_of, lemma_bump_of, lemma_config_of, lemma_rotation_state_of,
    lemma_user_id_of, rotation_state_of, user_id_of, AssetItem, Bump, Config, Discriminator,
    RotationState, UserId,
};
use crate::types::{BitField, Uint32, Uint64};
use vstd::prelude::*;

verus! {

/// The program error that reports an access-control error.
pub open spec fn auth_err(e: AuthError) -> ProgramError {
    ProgramError::Custom(AnyError::Auth(e).spec_index())
}

/// The instruction selected by the first byte of instruction data; the rest
/// of the data belongs to the instruction.
pub fn route_instruction(instruction_data: &[u8]) -> (r: Result<Discriminator>)
    ensures
        instruction_data@.len() == 0 ==> r == Err::<Discriminator, ProgramError>(
            ProgramError::InvalidInstructionData,
        ),
        instruction_data@.len() > 0 && instruction_data@[0] > 10 ==> r == Err::<
            Discriminator,
            ProgramError,
        >(ProgramError::InvalidInstructionData),
        r matches Ok(d) ==> instruction_data@.len() > 0 && d.spec_byte() == instruction_data@[0],
        r matches Ok(d) ==> d == Discriminator::declared()[instruction_data@[0] as int],
        instruction_data@.len() > 0 && instruction_data@[0] <= 10 ==> r is Ok,
{
    proof {
        crate::state::lemma_discriminator_declared_order();
    }
    if instruction_data.len() == 0 {
        return Err(ProgramError::InvalidInstructionData);
    }
    match Discriminator::from_u8(instruction_data[0]) {
        Some(d) => Ok(d),
        None => Err(ProgramError::InvalidInstructionData),
    }
}

/// Fails with `NotEnoughAccountKeys` unless exactly `count` accounts were
/// passed.
pub fn check_account_count(accounts: &[AccountState], count: usize) -> (r: Result<()>)
    ensures
        r == if accounts@.len() == count {
            Ok(())
        } else {
            Err(ProgramError::NotEnoughAccountKeys)
        },
{
    if accounts.len() != count {
        return Err(ProgramError::NotEnoughAccountKeys);
    }
    Ok(())
}

/// What an accepted configuration update writes.
#[derive(Debug, Clone, Copy, PartialEq, Eq)]
pub struct UpdateConfigOutcome {
    /// The new configuration.
    pub config: Config,
    /// The new admin rotation state, when a new admin was proposed.
    pub rotation_state: Option<RotationState>,
}

/// The configuration with the settings present in `ix` applied; the admin
/// and the fee asset are never changed here.
pub open spec fn configured(config: Config, ix: UpdateConfigData) -> Config {
    let f = ix.flags.raw();
    Config {
        admin: config.admin,
        is_paused: if flag_of(f, 0) {
            BitField::spec_from_raw(if flag_of(f, 1) { 1u8 } else { 0u8 })
        } else {
            config.is_paused
        },
        rotation_timeout: if flag_of(f, 3) {
            ix.rotation_timeout
        } else {
            config.rotation_timeout
        },
        registration_fee: AssetItem {
            amount: if flag_of(f, 4) {
                ix.registration_fee_amount
            } else {
                config.registration_fee.amount
            },
            asset: config.registration_fee.asset,
        },
        data_size_range: if flag_of(f, 5) {
            ix.data_size_range
        } else {
            config.data_size_range
        },
    }
}

/// The rotation state after `new_owner` is proposed, to accept by
/// `expiration`.
pub open spec fn proposed(state: RotationState, new_owner: Pubkey, expiration: int) -> RotationState {
    RotationState {
        owner: state.owner,
        new_owner: new_owner,
        expiration_date: Uint64::spec_from_value(expiration as u64),
    }
}

/// Outcome of the configuration update, in the order the checks are made:
/// the data's size, the number of accounts, the sender's signature, the two
/// program accounts, the sender being the admin, and, when a new admin is
/// proposed, that it is not the sender and that the clock could be read.
pub open spec fn update_config_outcome(
    program_id: Seq<u8>,
    accounts: Seq<AccountState>,
    data: Seq<u8>,
    config_address: Seq<u8>,
    rotation_address: Seq<u8>,
    clock: Result<u64>,
) -> Result<UpdateConfigOutcome> {
    if data.len() != UpdateConfigData::LEN {
        Err(ProgramError::InvalidAccountData)
    } else if accounts.len() != 3 {
        Err(ProgramError::NotEnoughAccountKeys)
    } else if !accounts[0].is_signer {
        Err(ProgramError::MissingRequiredSignature)
    } else if program_account_check(
        &accounts[1],
        program_id,
        Config::LEN as int,
        Some(config_address),
    ) is Err {
        Err(
            program_account_check(
                &accounts[1],
                program_id,
                Config::LEN as int,
                Some(config_address),
            )->Err_0,
        )
    } else if program_account_check(
        &accounts[2],
        program_id,
        RotationState::LEN as int,
        Some(rotation_address),
    ) is Err {
        Err(
            program_account_check(
                &accounts[2],
                program_id,
                RotationState::LEN as int,
                Some(rotation_address),
            )->Err_0,
        )
    } else {
        let ix = update_config_data_of(data);
        let sender = accounts[0].key@;
        let config = config_of(accounts[1].data@);
        if sender != config.admin@ {
            Err(auth_err(AuthError::Unauthorized))
        } else if !flag_of(ix.flags.raw(), 2) {
            Ok(UpdateConfigOutcome { config: configured(config, ix), rotation_state: None })
        } else if ix.admin@ == sender {
            Err(auth_err(AuthError::UselessRotation))
        } else {
            match clock {
                Err(e) => Err(e),
                Ok(now) => Ok(
                    UpdateConfigOutcome {
                        config: configured(config, ix),
                        rotation_state: Some(
                            proposed(
                                rotation_state_of(accounts[2].data@),
                                ix.admin,
                                now + config.rotation_timeout.value(),
                            ),
                        ),
                    },
                ),
            }
        }
    }
}

/// Whether the configuration update gets as far as proposing a new admin,
/// the step that adds the rotation timeout to the clock's time: every check
/// passes, the admin flag is set, and the proposed admin is not the sender.
pub open spec fn update_config_proposes(
    program_id: Seq<u8>,
    accounts: Seq<AccountState>,
    data: Seq<u8>,
    config_address: Seq<u8>,
    rotation_address: Seq<u8>,
) -> bool {
    &&& data.len() == UpdateConfigData::LEN
    &&& accounts.len() == 3
    &&& accounts[0].is_signer
    &&& program_account_check(&accounts[1], program_id, Config::LEN as int, Some(config_address)) is Ok
    &&& program_account_check(&accounts[2], program_id, RotationState::LEN as int, Some(rotation_address)) is Ok
    &&& accounts[0].key@ == config_of(accounts[1].data@).admin@
    &&& flag_of(update_config_data_of(data).flags.raw(), 2)
    &&& update_config_data_of(data).admin@ != accounts[0].key@
}

/// Updates the configuration. Accounts: the sender, the configuration and
/// the admin rotation state. `config_address` and `rotation_address` are
/// the addresses derived under `program_id` from the configuration's and
/// the admin rotation state's seeds; `clock` is the current unix time, or
/// the error reading it gave.
pub fn update_config(
    program_id: &Pubkey,
    accounts: &[AccountState],
    instruction_data: &[u8],
    config_address: &Pubkey,
    rotation_address: &Pubkey,
    clock: Result<u64>,
) -> (r: Result<UpdateConfigOutcome>)
    requires
        update_config_proposes(
            program_id@,
            accounts@,
            instruction_data@,
            config_address@,
            rotation_address@,
        ) ==> (clock matches Ok(now) ==> now + config_of(accounts@[1].data@).rotation_timeout.value()
            <= u64::MAX),
    ensures
        r == update_config_outcome(
            program_id@,
            accounts@,
            instruction_data@,
            config_address@,
            rotation_address@,
            clock,
        ),
{
    let ix = UpdateConfigData::from_bytes(instruction_data)?;
    proof {
        lemma_update_config_data_of(ix);
    }
    check_account_count(accounts, 3)?;
    let sender = &accounts[0];
    let config_account = &accounts[1];
    let rotation_account = &accounts[2];
    SignerAccount::check(sender)?;
    ProgramAccount::check(config_account, program_id, Config::LEN as u64, Some(config_address))?;
    ProgramAccount::check(
        rotation_account,
        program_id,
        RotationState::LEN as u64,
        Some(rotation_address),
    )?;
    let mut config = Config::from_bytes(config_account.data.as_slice())?;
    proof {
        lemma_config_of(config);
    }
    let ghost old_config = config;
    if !keys_equal(&sender.key, &config.admin) {
        return Err(ProgramError::from(AnyError::Auth(AuthError::Unauthorized)));
    }
    let mut rotation_state: Option<RotationState> = None;
    if let Some(admin) = ix.get_admin() {
        if keys_equal(&admin, &sender.key) {
            return Err(ProgramError::from(AnyError::Auth(AuthError::UselessRotation)));
        }
        let mut state = RotationState::from_bytes(rotation_account.data.as_slice())?;
        proof {
            lemma_rotation_state_of(state);
        }
        let now = match clock {
            Ok(t) => t,
            Err(e) => return Err(e),
        };
        state.new_owner = admin;
        state.expiration_date.set(now + config.rotation_timeout.get() as u64);
        proof {
            Uint64::lemma_from_value((now + old_config.rotation_timeout.value()) as u64);
            state.expiration_date.lemma_bytes_injective(
                Uint64::spec_from_value((now + old_config.rotation_timeout.value()) as u64),
            );
        }
        rotation_state = Some(state);
    }
    if let Some(x) = ix.get_is_paused() {
        config.is_paused = BitField::from(x);
    }
    if let Some(x) = ix.get_rotation_timeout() {
        config.rotation_timeout = x;
    }
    if let Some(x) = ix.get_registration_fee_amount() {
        config.registration_fee.amount = x;
    }
    if let Some(x) = ix.get_data_size_range() {
        config.data_size_range = x;
    }
    Ok(UpdateConfigOutcome { config, rotation_state })
}

/// The program error that reports one of the registry's own errors.
pub open spec fn registry_err(e: CustomError) -> ProgramError {
    ProgramError::Custom(AnyError::Custom(e).spec_index())
}

/// The transfer an accepted withdrawal makes: `amount` tokens of the fee
/// mint `mint`, with `decimals`, from the registry's token account `source`
/// to the recipient's token account `destination`, signed for the
/// configuration account with bump `config_bump`.
#[derive(Debug, Clone, Copy, PartialEq, Eq)]
pub struct WithdrawPlan {
    pub amount: u64,
    pub decimals: u8,
    pub config_bump: u8,
    pub mint: Pubkey,
    pub source: Pubkey,
    pub destination: Pubkey,
}

/// Addresses derived for a withdrawal: the bump and configuration accounts
/// from their seeds under the program, and the associated token accounts of
/// the recipient and of the configuration account for the fee mint.
#[derive(Debug, Clone, Copy, PartialEq, Eq)]
pub struct WithdrawAddresses {
    pub bump: Pubkey,
    pub config: Pubkey,
    pub recipient_ata: Pubkey,
    pub app_ata: Pubkey,
}

/// Outcome of checking an associated token account that must sit at
/// `derived`.
pub open spec fn ata_check(account: AccountState, derived: Seq<u8>) -> Result<()> {
    match owned_with_len(&account, token_program_address(), TOKEN_ACCOUNT_LEN as int) {
        Err(e) => Err(e),
        Ok(_) => if derived == account.key@ {
            Ok(())
        } else {
            Err(ProgramError::InvalidSeeds)
        },
    }
}

/// The checks a withdrawal makes on its accounts, in order; the first that
/// fails gives the error. Accounts: system program, token program,
/// associated token program, sender, recipient, bump, configuration, fee
/// mint, recipient's token account, registry's token account.
pub open spec fn withdraw_account_checks(
    program_id: Seq<u8>,
    accounts: Seq<AccountState>,
    addresses: WithdrawAddresses,
) -> Result<()> {
    if accounts[0].key@ != system_program_address() {
        Err(ProgramError::IncorrectProgramId)
    } else if !accounts[3].is_signer {
        Err(ProgramError::MissingRequiredSignature)
    } else if program_account_check(&accounts[5], program_id, Bump::LEN as int, Some(addresses.bump@)) is Err {
        program_account_check(&accounts[5], program_id, Bump::LEN as int, Some(addresses.bump@))
    } else if program_account_check(&accounts[6], program_id, Config::LEN as int, Some(addresses.config@)) is Err {
        program_account_check(&accounts[6], program_id, Config::LEN as int, Some(addresses.config@))
    } else if owned_with_len(&accounts[7], token_program_address(), MINT_LEN as int) is Err {
        owned_with_len(&accounts[7], token_program_address(), MINT_LEN as int)
    } else if ata_check(accounts[8], addresses.recipient_ata@) is Err {
        ata_check(accounts[8], addresses.recipient_ata@)
    } else {
        ata_check(accounts[9], addresses.app_ata@)
    }
}

/// Outcome of a withdrawal: after the data and account checks, the sender
/// must be the admin, the mint must be the fee asset, and the amount (the
/// requested one, or else the registry's whole balance) must be positive
/// and covered by the balance.
pub open spec fn withdraw_revenue_outcome(
    program_id: Seq<u8>,
    accounts: Seq<AccountState>,
    data: Seq<u8>,
    addresses: WithdrawAddresses,
) -> Result<WithdrawPlan> {
    if data.len() != WithdrawRevenueData::LEN {
        Err(ProgramError::InvalidAccountData)
    } else if accounts.len() != 10 {
        Err(ProgramError::NotEnoughAccountKeys)
    } else if withdraw_account_checks(program_id, accounts, addresses) is Err {
        Err(withdraw_account_checks(program_id, accounts, addresses)->Err_0)
    } else {
        let ix = withdraw_data_of(data);
        let balance = num_at(accounts[9].data@, 64, 8);
        let amount = if flag_of(ix.flags.raw(), 0) {
            ix.amount.value()
        } else {
            balance
        };
        let config = config_of(accounts[6].data@);
        if accounts[3].key@ != config.admin@ {
            Err(auth_err(AuthError::Unauthorized))
        } else if accounts[7].key@ != config.registration_fee.asset@ {
            Err(registry_err(CustomError::WrongAssetType))
        } else if amount == 0 {
            Err(registry_err(CustomError::ZeroAmount))
        } else if amount > balance {
            Err(registry_err(CustomError::ExceededAvailableAssetAmount))
        } else {
            Ok(
                WithdrawPlan {
                    amount: amount as u64,
                    decimals: accounts[7].data@[44],
                    config_bump: bump_of(accounts[5].data@).config,
                    mint: accounts[7].key,
                    source: accounts[9].key,
                    destination: accounts[8].key,
                },
            )
        }
    }
}

/// Decides a withdrawal of collected fees; the transfer it plans is made by
/// the caller.
pub fn withdraw_revenue(
    program_id: &Pubkey,
    accounts: &[AccountState],
    instruction_data: &[u8],
    addresses: &WithdrawAddresses,
) -> (r: Result<WithdrawPlan>)
    ensures
        r == withdraw_revenue_outcome(program_id@, accounts@, instruction_data@, *addresses),
{
    let ix = WithdrawRevenueData::from_bytes(instruction_data)?;
    proof {
        lemma_withdraw_data_of(ix);
    }
    check_account_count(accounts, 10)?;
    let sender = &accounts[3];
    let bump_account = &accounts[5];
    let config_account = &accounts[6];
    let revenue_mint = &accounts[7];
    let revenue_app_ata = &accounts[9];
    SystemProgram::check(&accounts[0])?;
    SignerAccount::check(sender)?;
    ProgramAccount::check(bump_account, program_id, Bump::LEN as u64, Some(&addresses.bump))?;
    ProgramAccount::check(config_account, program_id, Config::LEN as u64, Some(&addresses.config))?;
    MintAccount::check(revenue_mint)?;
    AssociatedTokenAccount::check(&accounts[8], &addresses.recipient_ata)?;
    AssociatedTokenAccount::check(revenue_app_ata, &addresses.app_ata)?;
    let app_balance = get_ata_balance(revenue_app_ata)?;
    proof {
        lemma_le_value_bound(revenue_app_ata.data@.subrange(64, 72));
        lemma_le_value_bound(ix.amount.bytes());
        Uint64::lemma_bytes_len(ix.amount);
        lemma_pow256_widths();
    }
    let amount = match ix.get_amount() {
        Some(x) => x.get(),
        None => app_balance,
    };
    let bump = Bump::from_bytes(bump_account.data.as_slice())?;
    let config = Config::from_bytes(config_account.data.as_slice())?;
    proof {
        lemma_bump_of(bump);
        lemma_config_of(config);
    }
    if !keys_equal(&sender.key, &config.admin) {
        return Err(ProgramError::from(AnyError::Auth(AuthError::Unauthorized)));
    }
    if !keys_equal(&revenue_mint.key, &config.registration_fee.asset) {
        return Err(ProgramError::from(AnyError::Custom(CustomError::WrongAssetType)));
    }
    if amount == 0 {
        return Err(ProgramError::from(AnyError::Custom(CustomError::ZeroAmount)));
    }
    if amount > app_balance {
        return Err(ProgramError::from(AnyError::Custom(CustomError::ExceededAvailableAssetAmount)));
    }
    let decimals = get_token_decimals(revenue_mint)?;
    Ok(
        WithdrawPlan {
            amount,
            decimals,
            config_bump: bump.config,
            mint: revenue_mint.key,
            source: revenue_app_ata.key,
            destination: accounts[8].key,
        },
    )
}

/// Whether `b` is `a` unchanged.
pub open spec fn same_account(a: AccountState, b: AccountState) -> bool {
    &&& b.key == a.key
    &&& b.owner == a.owner
    &&& b.lamports == a.lamports
    &&& b.data@ == a.data@
    &&& b.is_signer == a.is_signer
    &&& b.is_writable == a.is_writable
    &&& b.executable == a.executable
}

/// Whether `b` is `a` closed: no owner, no lamports, no data.
pub open spec fn closed_account(a: AccountState, b: AccountState) -> bool {
    &&& b.key == a.key
    &&& b.owner@ == Seq::new(32, |i: int| 0u8)
    &&& b.lamports == 0
    &&& b.data@.len() == 0
    &&& b.is_signer == a.is_signer
    &&& b.is_writable == a.is_writable
    &&& b.executable == a.executable
}

/// The checks that closing a user account makes before it writes anything,
/// in order; on success, the user's registration. Accounts: system program,
/// sender, the sender's registration, the user account, the user's rotation
/// state.
pub open spec fn close_account_checks(
    program_id: Seq<u8>,
    accounts: Seq<AccountState>,
    user_id_address: Seq<u8>,
) -> Result<UserId> {
    if accounts.len() != 5 {
        Err(ProgramError::NotEnoughAccountKeys)
    } else if accounts[0].key@ != system_program_address() {
        Err(ProgramError::IncorrectProgramId)
    } else if !accounts[1].is_signer {
        Err(ProgramError::MissingRequiredSignature)
    } else if program_account_check(&accounts[2], program_id, UserId::LEN as int, Some(user_id_address)) is Err {
        Err(
            program_account_check(&accounts[2], program_id, UserId::LEN as int, Some(user_id_address))->Err_0,
        )
    } else if !flag_of(user_id_of(accounts[2].data@).flags.raw(), 0) {
        Err(registry_err(CustomError::AccountIsNotOpened))
    } else {
        Ok(user_id_of(accounts[2].data@))
    }
}

/// The registration with its account marked as not open.
pub open spec fn closed_user_id(u: UserId) -> UserId {
    UserId { flags: BitField::spec_from_raw(with_flag(u.flags.raw(), 0, false)), ..u }
}

/// Makes the checks of closing a user account (see `close_account_checks`)
/// and gives the sender's registration.
pub fn check_close_account(
    program_id: &Pubkey,
    accounts: &[AccountState],
    user_id_address: &Pubkey,
) -> (r: Result<UserId>)
    ensures
        r == close_account_checks(program_id@, accounts@, user_id_address@),
{
    check_account_count(accounts, 5)?;
    SystemProgram::check(&accounts[0])?;
    SignerAccount::check(&accounts[1])?;
    ProgramAccount::check(&accounts[2], program_id, UserId::LEN as u64, Some(user_id_address))?;
    let user_id = UserId::from_bytes(accounts[2].data.as_slice())?;
    proof {
        lemma_user_id_of(user_id);
    }
    if !user_id.get_is_open_flag() {
        return Err(ProgramError::from(AnyError::Custom(CustomError::AccountIsNotOpened)));
    }
    Ok(user_id)
}

/// Closes the sender's user account: the registration is kept but marked as
/// not open, and the user account and the user's rotation state are closed
/// into the sender, who receives their lamports. `user_id_address` is the
/// address derived under `program_id` from the registration's seeds and the
/// sender's address. Gives back the accounts in the order they came.
pub fn close_account(
    program_id: &Pubkey,
    accounts: Vec<AccountState>,
    user_id_address: &Pubkey,
) -> (r: Result<Vec<AccountState>>)
    requires
        close_account_checks(program_id@, accounts@, user_id_address@) is Ok ==> {
            &&& accounts@[3].data@.len() > 0
            &&& accounts@[4].data@.len() > 0
            &&& accounts@[1].lamports + accounts@[3].lamports + accounts@[4].lamports <= u64::MAX
        },
    ensures
        match close_account_checks(program_id@, accounts@, user_id_address@) {
            Err(e) => r == Err::<Vec<AccountState>, ProgramError>(e),
            Ok(u) => r matches Ok(out) && {
                &&& out@.len() == 5
                &&& same_account(accounts@[0], out@[0])
                &&& out@[1].lamports == accounts@[1].lamports + accounts@[3].lamports
                    + accounts@[4].lamports
                &&& same_account(AccountState { lamports: out@[1].lamports, ..accounts@[1] }, out@[1])
                &&& same_account(AccountState { data: out@[2].data, ..accounts@[2] }, out@[2])
                &&& out@[2].data@ == closed_user_id(u).bytes()
                &&& closed_account(accounts@[3], out@[3])
                &&& closed_account(accounts@[4], out@[4])
            },
        },
{
    let ghost input = accounts@;
    let mut user_id = check_close_account(program_id, accounts.as_slice(), user_id_address)?;
    let mut accounts = accounts;
    let mut user_rotation_state = accounts.pop().unwrap();
    let mut user_account = accounts.pop().unwrap();
    let mut user_id_account = accounts.pop().unwrap();
    let mut sender = accounts.pop().unwrap();
    let system_program = accounts.pop().unwrap();
    assert(system_program == input[0]);
    assert(sender == input[1]);
    assert(user_id_account == input[2]);
    assert(user_account == input[3]);
    assert(user_rotation_state == input[4]);
    user_id.set_is_open_flag(false);
    proof {
        BitField::lemma_from_raw_raw(user_id.flags);
        assert(user_id == closed_user_id(user_id_of(input[2].data@)));
    }
    user_id_account.data = user_id.to_bytes();
    ProgramAccount::close(&mut user_account, &mut sender)?;
    ProgramAccount::close(&mut user_rotation_state, &mut sender)?;
    let mut out: Vec<AccountState> = Vec::new();
    out.push(system_program);
    out.push(sender);
    out.push(user_id_account);
    out.push(user_account);
    out.push(user_rotation_state);
    assert(same_account(input[0], out@[0]));
    assert(same_account(AccountState { lamports: out@[1].lamports, ..input[1] }, out@[1]));
    assert(same_account(AccountState { data: out@[2].data, ..input[2] }, out@[2]));
    Ok(out)
}

/// Only the admin, signing, can change the configuration; an update never
/// changes the admin or the fee asset, sets every setting whose flag is set
/// to the value the instruction carries (both bounds of the data size range,
/// the pause state asked for), leaves every setting whose flag is clear as it
/// was, and proposes a new admin (never the sender, to accept
/// within the timeout that was in force) exactly when the admin flag is set.
pub proof fn lemma_update_config_laws(
    program_id: Seq<u8>,
    accounts: Seq<AccountState>,
    data: Seq<u8>,
    config_address: Seq<u8>,
    rotation_address: Seq<u8>,
    clock: Result<u64>,
)
    requires
        update_config_outcome(
            program_id,
            accounts,
            data,
            config_address,
            rotation_address,
            clock,
        ) is Ok,
    ensures
        ({
            let o = update_config_outcome(
                program_id,
                accounts,
                data,
                config_address,
                rotation_address,
                clock,
            )->Ok_0;
            let old_config = config_of(accounts[1].data@);
            let ix = update_config_data_of(data);
            let f = ix.flags.raw();
            &&& accounts.len() == 3
            &&& accounts[0].is_signer
            &&& accounts[0].key@ == old_config.admin@
            &&& o.config.admin == old_config.admin
            &&& o.config.registration_fee.asset == old_config.registration_fee.asset
            &&& !flag_of(f, 0) ==> o.config.is_paused == old_config.is_paused
            &&& !flag_of(f, 3) ==> o.config.rotation_timeout == old_config.rotation_timeout
            &&& !flag_of(f, 4) ==> o.config.registration_fee == old_config.registration_fee
            &&& !flag_of(f, 5) ==> o.config.data_size_range == old_config.data_size_range
            &&& flag_of(f, 0) ==> flag_of(o.config.is_paused.raw(), 0) == flag_of(f, 1)
            &&& flag_of(f, 3) ==> o.config.rotation_timeout == ix.rotation_timeout
            &&& flag_of(f, 4) ==> o.config.registration_fee.amount == ix.registration_fee_amount
            &&& flag_of(f, 5) ==> o.config.data_size_range.min == ix.data_size_range.min
                && o.config.data_size_range.max == ix.data_size_range.max
            &&& (o.rotation_state is Some <==> flag_of(f, 2))
            &&& o.rotation_state matches Some(rs) ==> {
                &&& rs.new_owner == ix.admin
                &&& rs.new_owner@ != accounts[0].key@
                &&& rs.owner == rotation_state_of(accounts[2].data@).owner
                &&& clock is Ok
                &&& rs.expiration_date == Uint64::spec_from_value(
                    (clock->Ok_0 + old_config.rotation_timeout.value()) as u64,
                )
            }
        }),
{
    let o = update_config_outcome(program_id, accounts, data, config_address, rotation_address, clock)->Ok_0;
    let f = update_config_data_of(data).flags.raw();
    assert(o.config == configured(config_of(accounts[1].data@), update_config_data_of(data)));
    assert(flag_of(1u8, 0) && !flag_of(0u8, 0)) by (bit_vector);
    let p: u8 = if flag_of(f, 1) { 1u8 } else { 0u8 };
    BitField::lemma_raw_from_raw(p);
    assert(flag_of(f, 0) ==> o.config.is_paused.raw() == p);
}

/// A withdrawal is made only by the admin, only in the fee asset, and moves
/// a positive amount no larger than the registry's balance, from the
/// registry's token account of the fee asset to the recipient's; without a
/// requested amount it moves the whole balance.
pub proof fn lemma_withdraw_revenue_laws(
    program_id: Seq<u8>,
    accounts: Seq<AccountState>,
    data: Seq<u8>,
    addresses: WithdrawAddresses,
)
    requires
        withdraw_revenue_outcome(program_id, accounts, data, addresses) is Ok,
    ensures
        ({
            let plan = withdraw_revenue_outcome(program_id, accounts, data, addresses)->Ok_0;
            let config = config_of(accounts[6].data@);
            let balance = num_at(accounts[9].data@, 64, 8);
            &&& accounts.len() == 10
            &&& accounts[3].is_signer
            &&& accounts[3].key@ == config.admin@
            &&& accounts[7].key@ == config.registration_fee.asset@
            &&& 0 < plan.amount <= balance
            &&& !flag_of(withdraw_data_of(data).flags.raw(), 0) ==> plan.amount == balance
            &&& plan.mint@ == config.registration_fee.asset@
            &&& plan.source@ == addresses.app_ata@
            &&& plan.destination@ == addresses.recipient_ata@
        }),
{
    lemma_le_value_bound(accounts[9].data@.subrange(64, 72));
    lemma_le_value_bound(withdraw_data_of(data).amount.bytes());
    Uint64::lemma_bytes_len(withdraw_data_of(data).amount);
    lemma_pow256_widths();
}

/// Closing a user account conserves lamports (the sender gets what the
/// closed accounts held), needs the registration to be open, and leaves it
/// not open with everything else in it as it was: every other flag bit, the
/// id, the account bump and the rotation state bump.
pub proof fn lemma_close_account_laws(
    program_id: Seq<u8>,
    accounts: Seq<AccountState>,
    user_id_address: Seq<u8>,
    out: Seq<AccountState>,
)
    requires
        close_account_checks(program_id, accounts, user_id_address) is Ok,
        out.len() == 5,
        same_account(accounts[0], out[0]),
        out[1].lamports == accounts[1].lamports + accounts[3].lamports + accounts[4].lamports,
        out[2].lamports == accounts[2].lamports,
        out[2].data@ == closed_user_id(
            close_account_checks(program_id, accounts, user_id_address)->Ok_0,
        ).bytes(),
        closed_account(accounts[3], out[3]),
        closed_account(accounts[4], out[4]),
    ensures
        out[0].lamports + out[1].lamports + out[2].lamports + out[3].lamports + out[4].lamports
            == accounts[0].lamports + accounts[1].lamports + accounts[2].lamports
            + accounts[3].lamports + accounts[4].lamports,
        flag_of(user_id_of(accounts[2].data@).flags.raw(), 0),
        !flag_of(user_id_of(out[2].data@).flags.raw(), 0),
        flag_of(user_id_of(out[2].data@).flags.raw(), 1) == flag_of(
            user_id_of(accounts[2].data@).flags.raw(),
            1,
        ),
        user_id_of(out[2].data@).id == user_id_of(accounts[2].data@).id,
        user_id_of(out[2].data@).account_bump == user_id_of(accounts[2].data@).account_bump,
        user_id_of(out[2].data@).rotation_state_bump == user_id_of(accounts[2].data@).rotation_state_bump,
        forall|b: u8|
            1 <= b < 8 ==> #[trigger] flag_of(user_id_of(out[2].data@).flags.raw(), b) == flag_of(
                user_id_of(accounts[2].data@).flags.raw(),
                b,
            ),
{
    let u = user_id_of(accounts[2].data@);
    lemma_user_id_of(closed_user_id(u));
    crate::bits::lemma_flag_write_read(u.flags.raw(), 0, 1, false);
    BitField::lemma_raw_from_raw(with_flag(u.flags.raw(), 0, false));
    assert forall|b: u8| 1 <= b < 8 implies #[trigger] flag_of(user_id_of(out[2].data@).flags.raw(), b)
        == flag_of(u.flags.raw(), b) by {
        crate::bits::lemma_flag_write_read(u.flags.raw(), 0, b, false);
    }
}

/// The program's instructions as listed for its interface description.
#[derive(Debug, Clone, Copy, PartialEq, Eq, Structural)]
pub enum MyProjectInstruction {
    Init,
}

/// What a client encodes for a configuration update is what the program
/// reads: the first byte routes to the update, and the rest is exactly the
/// data's layout, which reads back as the same data.
pub proof fn lemma_update_config_encoding(ix: UpdateConfigData)
    ensures
        ix.serialized().len() == UpdateConfigData::LEN + 1,
        ix.serialized()[0] == Discriminator::UpdateConfig.spec_byte(),
        ix.serialized().drop_first() == ix.bytes(),
        update_config_data_of(ix.serialized().drop_first()) == ix,
{
    Uint32::lemma_bytes_len(ix.rotation_timeout);
    Uint64::lemma_bytes_len(ix.registration_fee_amount);
    Uint32::lemma_bytes_len(ix.data_size_range.min);
    Uint32::lemma_bytes_len(ix.data_size_range.max);
    assert(ix.serialized().drop_first() =~= ix.bytes());
    lemma_update_config_data_of(ix);
}

/// What a client encodes for a withdrawal is what the program reads.
pub proof fn lemma_withdraw_revenue_encoding(ix: WithdrawRevenueData)
    ensures
        ix.serialized().len() == WithdrawRevenueData::LEN + 1,
        ix.serialized()[0] == Discriminator::WithdrawRevenue.spec_byte(),
        ix.serialized().drop_first() == ix.bytes(),
        withdraw_data_of(ix.serialized().drop_first()) == ix,
{
    Uint64::lemma_bytes_len(ix.amount);
    assert(ix.serialized().drop_first() =~= ix.bytes());
    lemma_withdraw_data_of(ix);
}

} // verus!
