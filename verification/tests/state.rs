use registry::error::ProgramError;
use registry::fixed_str::String4096;
use registry::instructions::{
    close_account, confirm_admin_rotation, init, reopen_account, update_config, withdraw_revenue,
    write_data, InstructionSerialize,
};
use registry::layout::{get_space, DataLen, Space};
use registry::state::{
    AssetItem, Bump, Config, Discriminator, Range, RotationState, UserAccount, UserCounter,
    UserId, ACCOUNT_DATA_SIZE_MAX, ROTATION_TIMEOUT, SECONDS_PER_DAY, SECONDS_PER_YEAR,
};
use registry::types::{BitField, Uint32, Uint64};

#[test]
fn discriminators_number_the_instructions() {
    assert_eq!(Discriminator::Init.to_u8(), 0);
    assert_eq!(Discriminator::WithdrawRevenue.to_u8(), 3);
    assert_eq!(Discriminator::ConfirmAccountRotation.to_u8(), 10);
    for b in 0..=10u8 {
        assert_eq!(Discriminator::from_u8(b).unwrap().to_u8(), b);
    }
    assert_eq!(Discriminator::from_u8(11), None);
    assert_eq!(Discriminator::from_u8(255), None);
}

#[test]
fn time_constants() {
    assert_eq!(SECONDS_PER_DAY, 24 * 3_600);
    assert_eq!(SECONDS_PER_YEAR, 365 * SECONDS_PER_DAY);
    assert_eq!(ROTATION_TIMEOUT, SECONDS_PER_DAY);
    assert_eq!(ACCOUNT_DATA_SIZE_MAX, 4096);
}

fn sample_config() -> Config {
    Config {
        admin: [3u8; 32],
        is_paused: BitField::from(true),
        rotation_timeout: Uint32::from(86_400u32),
        registration_fee: AssetItem { amount: Uint64::from(10_000_000u64), asset: [4u8; 32] },
        data_size_range: Range { min: Uint32::from(100u32), max: Uint32::from(4096u32) },
    }
}

#[test]
fn config_layout_round_trips() {
    let c = sample_config();
    let bytes = c.to_bytes();
    assert_eq!(bytes.len(), Config::LEN);
    assert_eq!(&bytes[..32], &[3u8; 32]);
    assert_eq!(bytes[32], 1);
    assert_eq!(&bytes[33..37], &86_400u32.to_le_bytes());
    assert_eq!(&bytes[37..45], &10_000_000u64.to_le_bytes());
    assert_eq!(&bytes[45..77], &[4u8; 32]);
    assert_eq!(&bytes[77..81], &100u32.to_le_bytes());
    assert_eq!(&bytes[81..85], &4096u32.to_le_bytes());
    assert_eq!(Config::from_bytes(&bytes), Ok(c));
    assert_eq!(Config::from_bytes(&bytes[..84]), Err(ProgramError::InvalidAccountData));
    assert!(c.is_paused());
    assert_eq!(c.rotation_timeout(), 86_400);
    let mut d = c;
    d.set_is_paused(false);
    d.set_rotation_timeout(60);
    assert!(!d.is_paused());
    assert_eq!(d.rotation_timeout(), 60);
    assert_eq!(Config::default().to_bytes(), vec![0u8; 85]);
}

#[test]
fn small_account_layouts_round_trip() {
    let b = Bump { config: 1, user_counter: 2, rotation_state: 3 };
    assert_eq!(b.to_bytes(), vec![1, 2, 3]);
    assert_eq!(Bump::from_bytes(&[1, 2, 3]), Ok(b));
    assert_eq!(Bump::from_bytes(&[1, 2]), Err(ProgramError::InvalidAccountData));
    let u = UserCounter { last_user_id: Uint32::from(7u32) };
    assert_eq!(UserCounter::from_bytes(&u.to_bytes()), Ok(u));
    let mut r = RotationState::default();
    r.owner = [1u8; 32];
    r.new_owner = [2u8; 32];
    r.set_expiration_date(1_750_000_000);
    assert_eq!(r.expiration_date(), 1_750_000_000);
    assert_eq!(RotationState::from_bytes(&r.to_bytes()), Ok(r));
    assert_eq!(r.to_bytes().len(), 72);
}

#[test]
fn user_id_flags_are_independent() {
    let mut u = UserId::default();
    assert!(!u.is_open() && !u.is_activated());
    u.set_is_open(true);
    assert!(u.get_is_open_flag());
    assert!(!u.get_is_activated_flag());
    u.set_is_activated_flag(true);
    u.set_is_open_flag(false);
    assert!(!u.is_open());
    assert!(u.is_activated());
    assert_eq!(u.flags.get_raw(), 0b10);
    u.id = Uint32::from(42u32);
    u.account_bump = 254;
    let bytes = u.to_bytes();
    assert_eq!(bytes, vec![0b10, 42, 0, 0, 0, 254, 0]);
    assert_eq!(UserId::from_bytes(&bytes), Ok(u));
}

#[test]
fn user_account_layout() {
    let mut a = UserAccount::default();
    a.data[0] = 9;
    a.nonce = Uint64::from(5u64);
    a.set_max_size(1_000);
    assert_eq!(a.max_size(), 1_000);
    let bytes = a.to_bytes();
    assert_eq!(bytes.len(), 4108);
    assert_eq!(bytes[0], 9);
    assert_eq!(&bytes[4104..], &1_000u32.to_le_bytes());
    assert_eq!(UserAccount::from_bytes(&bytes), Ok(a));
    assert_eq!(UserAccount::get_space(10), 4108);
}

#[test]
fn spaces_of_the_layouts() {
    assert_eq!(<Bump as Space>::get_space(), 3);
    assert_eq!(<Config as Space>::get_space(), 85);
    assert_eq!(<UserCounter as Space>::get_space(), 4);
    assert_eq!(<RotationState as Space>::get_space(), 72);
    assert_eq!(<UserId as Space>::get_space(), 7);
    assert_eq!(get_space::<UserAccount>(), 4108);
    assert_eq!(<Config as DataLen>::data_len(), 85);
    assert_eq!(get_space::<update_config::InstructionData>(), 53);
}

#[test]
fn update_config_flags_follow_the_optional_list() {
    let mut ix = update_config::InstructionData::default();
    assert_eq!(ix.get_is_paused(), None);
    ix.set_is_paused(Some(true));
    assert_eq!(ix.flags.get_raw(), 0b11);
    assert_eq!(ix.get_is_paused(), Some(true));
    ix.set_is_paused(Some(false));
    assert_eq!(ix.get_is_paused(), Some(false));
    ix.set_admin(Some([8u8; 32]));
    assert_eq!(ix.flags.get_raw(), 0b101);
    assert_eq!(ix.get_admin(), Some([8u8; 32]));
    ix.set_rotation_timeout(Some(Uint32::from(5u32)));
    ix.set_registration_fee_amount(Some(Uint64::from(6u64)));
    ix.set_data_size_range(Some(Range { min: Uint32::from(1u32), max: Uint32::from(2u32) }));
    assert_eq!(ix.flags.get_raw(), 0b11_1101);
    ix.set_admin(None);
    assert_eq!(ix.get_admin(), None);
    assert_eq!(ix.admin, [8u8; 32]);
    let bytes = ix.to_bytes();
    assert_eq!(bytes.len(), 53);
    assert_eq!(update_config::InstructionData::from_bytes(&bytes), Ok(ix));
    let sent = ix.serialize().unwrap();
    assert_eq!(sent[0], 1);
    assert_eq!(&sent[1..], &bytes[..]);
}

#[test]
fn init_flags_have_both_names() {
    let mut ix = init::InstructionData::default();
    ix.set_is_account_registration_fee(true);
    assert!(ix.is_account_registration_fee());
    assert_eq!(ix.get_account_registration_fee(), Some(AssetItem::default()));
    assert_eq!(ix.get_rotation_timeout(), None);
    ix.set_rotation_timeout(Some(Uint32::from(9u32)));
    assert!(ix.is_rotation_timeout());
    ix.set_is_account_data_size_range(true);
    assert!(ix.is_account_data_size_range());
    assert_eq!(ix.flags.get_raw(), 0b111);
    assert_eq!(ix.serialize().unwrap()[0], 0);
    assert_eq!(ix.to_bytes().len(), init::InstructionData::LEN);
}

#[test]
fn withdraw_amount_is_optional() {
    let mut ix = withdraw_revenue::InstructionData::default();
    assert_eq!(ix.get_amount(), None);
    ix.set_amount(Some(Uint64::from(77u64)));
    assert!(ix.is_amount());
    assert_eq!(ix.amount(), 77);
    ix.set_is_amount(false);
    assert_eq!(ix.get_amount(), None);
    assert_eq!(ix.amount(), 77);
    assert_eq!(ix.serialize().unwrap(), vec![3, 0, 77, 0, 0, 0, 0, 0, 0, 0]);
}

#[test]
fn other_instruction_data() {
    let mut ix = reopen_account::InstructionData::default();
    ix.set_max_data_size(512);
    assert_eq!(ix.max_data_size(), 512);
    assert_eq!(ix.serialize().unwrap(), vec![6, 0, 2, 0, 0]);
    let w = write_data::InstructionData {
        data: String4096::new("secret"),
        nonce: Uint64::from(1u64),
    };
    let bytes = w.serialize().unwrap();
    assert_eq!(bytes.len(), 1 + 4096 + 8);
    assert_eq!(bytes[0], 8);
    assert_eq!(write_data::InstructionData::from_bytes(&bytes[1..]), Ok(w));
    assert_eq!(
        confirm_admin_rotation::InstructionData::default().serialize().unwrap(),
        vec![2]
    );
    assert_eq!(close_account::InstructionData::from_bytes(&[]), Ok(close_account::InstructionData {}));
    assert_eq!(
        close_account::InstructionData::from_bytes(&[0]),
        Err(ProgramError::InvalidAccountData)
    );
}
