//! The registry's accounts: instruction numbering, constants, and the fixed
//! byte layouts of its program accounts (fields in declaration order, no
//! padding).

use crate::bits::{flag_of, with_flag};
use crate::codec::{ZeroCopyDeserialize, ZeroCopySerialize};
use crate::error::{ProgramError, Result};
use crate::layout::{
    append_bytes, append_pubkey, append_uint32, append_uint64, read_bit_field, read_pubkey,
    read_uint32, read_uint64, read_array_4096, write_prefix, DataLen, Space,
};
use crate::pubkey::Pubkey;
use crate::types::{BitField, Uint32, Uint64};
use vstd::prelude::*;

verus! {

broadcast use {
    vstd::array::group_array_axioms,
    Uint32::lemma_bytes_len,
    Uint64::lemma_bytes_len,
    BitField::lemma_raw_from_raw,
};

/// The registry's instructions, numbered by the first byte of the
/// instruction data.
#[derive(Debug, Clone, Copy, PartialEq, Eq, Structural)]
pub enum Discriminator {
    Init,
    UpdateConfig,
    ConfirmAdminRotation,
    WithdrawRevenue,
    CreateAccount,
    CloseAccount,
    ReopenAccount,
    ActivateAccount,
    WriteData,
    RequestAccountRotation,
    ConfirmAccountRotation,
}

impl Discriminator {
    /// The byte that selects the instruction.
    pub open spec fn spec_byte(self) -> u8 {
        match self {
            Discriminator::Init => 0,
            Discriminator::UpdateConfig => 1,
            Discriminator::ConfirmAdminRotation => 2,
            Discriminator::WithdrawRevenue => 3,
            Discriminator::CreateAccount => 4,
            Discriminator::CloseAccount => 5,
            Discriminator::ReopenAccount => 6,
            Discriminator::ActivateAccount => 7,
            Discriminator::WriteData => 8,
            Discriminator::RequestAccountRotation => 9,
            Discriminator::ConfirmAccountRotation => 10,
        }
    }

    /// The byte that selects the instruction.
    pub fn to_u8(self) -> (r: u8)
        ensures
            r == self.spec_byte(),
    {
        match self {
            Discriminator::Init => 0,
            Discriminator::UpdateConfig => 1,
            Discriminator::ConfirmAdminRotation => 2,
            Discriminator::WithdrawRevenue => 3,
            Discriminator::CreateAccount => 4,
            Discriminator::CloseAccount => 5,
            Discriminator::ReopenAccount => 6,
            Discriminator::ActivateAccount => 7,
            Discriminator::WriteData => 8,
            Discriminator::RequestAccountRotation => 9,
            Discriminator::ConfirmAccountRotation => 10,
        }
    }

    /// The instruction selected by byte `x`, if any.
    pub fn from_u8(x: u8) -> (r: Option<Self>)
        ensures
            r matches Some(d) ==> d.spec_byte() == x,
            r is None <==> x > 10,
    {
        match x {
            0 => Some(Discriminator::Init),
            1 => Some(Discriminator::UpdateConfig),
            2 => Some(Discriminator::ConfirmAdminRotation),
            3 => Some(Discriminator::WithdrawRevenue),
            4 => Some(Discriminator::CreateAccount),
            5 => Some(Discriminator::CloseAccount),
            6 => Some(Discriminator::ReopenAccount),
            7 => Some(Discriminator::ActivateAccount),
            8 => Some(Discriminator::WriteData),
            9 => Some(Discriminator::RequestAccountRotation),
            10 => Some(Discriminator::ConfirmAccountRotation),
            _ => None,
        }
    }
}

impl Discriminator {
    /// The instructions in the order the enum declares them.
    pub open spec fn declared() -> Seq<Discriminator> {
        seq![
            Discriminator::Init,
            Discriminator::UpdateConfig,
            Discriminator::ConfirmAdminRotation,
            Discriminator::WithdrawRevenue,
            Discriminator::CreateAccount,
            Discriminator::CloseAccount,
            Discriminator::ReopenAccount,
            Discriminator::ActivateAccount,
            Discriminator::WriteData,
            Discriminator::RequestAccountRotation,
            Discriminator::ConfirmAccountRotation,
        ]
    }
}

/// An instruction's byte is its position in the declared order (the enum is
/// `repr(u8)` with implicit discriminants): the `k`-th declared instruction
/// has byte `k`, and every instruction sits at the position of its byte.
pub proof fn lemma_discriminator_declared_order()
    ensures
        Discriminator::declared().len() == 11,
        forall|k: int| 0 <= k < 11 ==> #[trigger] Discriminator::declared()[k].spec_byte() == k,
        forall|d: Discriminator| Discriminator::declared()[#[trigger] d.spec_byte() as int] == d,
{
    assert forall|d: Discriminator| Discriminator::declared()[#[trigger] d.spec_byte() as int] == d by {
        match d {
            Discriminator::Init => {},
            Discriminator::UpdateConfig => {},
            Discriminator::ConfirmAdminRotation => {},
            Discriminator::WithdrawRevenue => {},
            Discriminator::CreateAccount => {},
            Discriminator::CloseAccount => {},
            Discriminator::ReopenAccount => {},
            Discriminator::ActivateAccount => {},
            Discriminator::WriteData => {},
            Discriminator::RequestAccountRotation => {},
            Discriminator::ConfirmAccountRotation => {},
        }
    }
}

/// Byte and instruction correspond one to one.
pub proof fn lemma_discriminator_byte_injective(a: Discriminator, b: Discriminator)
    ensures
        a.spec_byte() == b.spec_byte() ==> a == b,
{
}

pub const SEED_BUMP: &'static str = "bump";
pub const SEED_CONFIG: &'static str = "config";
pub const SEED_USER_COUNTER: &'static str = "user_counter";
pub const SEED_ADMIN_ROTATION_STATE: &'static str = "admin_rotation_state";
pub const SEED_USER_ID: &'static str = "user_id";
pub const SEED_USER_ACCOUNT: &'static str = "user_account";
pub const SEED_USER_ROTATION_STATE: &'static str = "user_rotation_state";

pub const SECONDS_PER_DAY: u32 = 86_400;
pub const SECONDS_PER_YEAR: u32 = 31_536_000;
pub const CLOCK_TIME_MIN: u64 = 1_750_000_000;

/// The admin the registry starts with on mainnet
/// (`AH9JvTDAiQy2zAuFfzteNyUrW5DYoTsTLoeNjXrxTTSt`).
pub const MAINNET_ADMIN: Pubkey = [
    137, 219, 222, 203, 92, 13, 147, 244, 164, 60, 8, 154, 207, 60, 255, 154,
    120, 218, 129, 67, 196, 117, 58, 198, 40, 237, 83, 245, 10, 251, 81, 37,
];

pub const ROTATION_TIMEOUT: u32 = 86_400;
pub const ACCOUNT_REGISTRATION_FEE_AMOUNT: u64 = 10_000_000;

/// The asset registration fees are paid in: mainnet USDC
/// (`EPjFWdd5AufqSSqeM2qN1xzybapC8G4wEGGkZwyTDt1v`).
pub const ACCOUNT_REGISTRATION_FEE_ASSET: Pubkey = [
    198, 250, 122, 243, 190, 219, 173, 58, 61, 101, 243, 106, 171, 201, 116, 49,
    177, 187, 228, 194, 210, 246, 224, 228, 124, 166, 2, 3, 69, 47, 93, 97,
];

pub const ACCOUNT_DATA_SIZE_MIN: u32 = 100;

/// Account data reallocation is limited to 10240 bytes in inner
/// instructions; user data stays within 4096.
pub const ACCOUNT_DATA_SIZE_MAX: u32 = 4096;

/// Bump seeds of the registry's singleton accounts.
#[derive(Debug, Clone, Copy, PartialEq, Eq, Structural)]
pub struct Bump {
    pub config: u8,
    pub user_counter: u8,
    pub rotation_state: u8,
}

impl Bump {
    pub const LEN: usize = 3;

    /// The account bytes.
    pub open spec fn bytes(self) -> Seq<u8> {
        seq![self.config, self.user_counter, self.rotation_state]
    }

    pub fn to_bytes(&self) -> (r: Vec<u8>)
        ensures
            r@ == self.bytes(),
    {
        let mut out: Vec<u8> = Vec::new();
        out.push(self.config);
        out.push(self.user_counter);
        out.push(self.rotation_state);
        assert(out@ =~= self.bytes());
        out
    }

    /// Reads the account from exactly `Self::LEN` bytes.
    pub fn from_bytes(data: &[u8]) -> (r: Result<Self>)
        ensures
            r is Ok <==> data@.len() == Self::LEN,
            r is Err ==> r == Err::<Self, ProgramError>(ProgramError::InvalidAccountData),
            r matches Ok(v) ==> v.bytes() == data@,
    {
        if data.len() != Self::LEN {
            return Err(ProgramError::InvalidAccountData);
        }
        let v = Bump { config: data[0], user_counter: data[1], rotation_state: data[2] };
        assert(v.bytes() =~= data@);
        Ok(v)
    }

    /// Bytes the account occupies.
    pub fn get_space() -> (r: usize)
        ensures
            r == Self::LEN,
    {
        Self::LEN
    }
}

impl DataLen for Bump {
    open spec fn spec_data_len() -> nat {
        3
    }

    fn data_len() -> (r: usize) {
        Self::LEN
    }
}

/// The layout of a bump account is one to one with its value.
pub proof fn lemma_bump_bytes_injective(a: Bump, b: Bump)
    requires
        a.bytes() == b.bytes(),
    ensures
        a == b,
{
    assert(a.bytes()[0] == b.bytes()[0]);
    assert(a.bytes()[1] == b.bytes()[1]);
    assert(a.bytes()[2] == b.bytes()[2]);
}

/// A closed range of sizes.
#[derive(Debug, Clone, Copy, PartialEq, Eq)]
pub struct Range {
    pub min: Uint32,
    pub max: Uint32,
}

impl Range {
    pub const LEN: usize = 8;

    /// The layout bytes: `min`, then `max`.
    pub open spec fn bytes(self) -> Seq<u8> {
        self.min.bytes() + self.max.bytes()
    }

    pub fn append_to(&self, out: &mut Vec<u8>)
        ensures
            final(out)@ == old(out)@ + self.bytes(),
    {
        append_uint32(out, &self.min);
        append_uint32(out, &self.max);
        assert(final(out)@ =~= old(out)@ + self.bytes());
    }

    /// Reads the range at `data[off..off + Self::LEN]`.
    pub fn read_at(data: &[u8], off: usize) -> (r: Self)
        requires
            off + Self::LEN <= data.len(),
        ensures
            r.bytes() == data@.subrange(off as int, off + Self::LEN),
    {
        let min = read_uint32(data, off);
        let max = read_uint32(data, off + 4);
        let r = Range { min, max };
        assert(r.bytes() =~= data@.subrange(off as int, off + Self::LEN));
        r
    }
}

impl Default for Range {
    fn default() -> (r: Self)
        ensures
            r.bytes() == Seq::new(8, |i: int| 0u8),
    {
        let r = Range { min: Uint32::default(), max: Uint32::default() };
        assert(r.bytes() =~= Seq::new(8, |i: int| 0u8));
        r
    }
}

/// The layout of a range is one to one with its value.
pub proof fn lemma_range_bytes_injective(a: Range, b: Range)
    requires
        a.bytes() == b.bytes(),
    ensures
        a == b,
{
    assert(a.min.bytes() =~= a.bytes().subrange(0, 4));
    assert(b.min.bytes() =~= b.bytes().subrange(0, 4));
    assert(a.max.bytes() =~= a.bytes().subrange(4, 8));
    assert(b.max.bytes() =~= b.bytes().subrange(4, 8));
    a.min.lemma_bytes_injective(b.min);
    a.max.lemma_bytes_injective(b.max);
}

/// An amount of an asset.
#[derive(Debug, Clone, Copy, PartialEq, Eq)]
pub struct AssetItem {
    pub amount: Uint64,
    pub asset: Pubkey,
}

impl AssetItem {
    pub const LEN: usize = 40;

    /// The layout bytes: `amount`, then `asset`.
    pub open spec fn bytes(self) -> Seq<u8> {
        self.amount.bytes() + self.asset@
    }

    pub fn append_to(&self, out: &mut Vec<u8>)
        ensures
            final(out)@ == old(out)@ + self.bytes(),
    {
        append_uint64(out, &self.amount);
        append_pubkey(out, &self.asset);
        assert(final(out)@ =~= old(out)@ + self.bytes());
    }

    /// Reads the item at `data[off..off + Self::LEN]`.
    pub fn read_at(data: &[u8], off: usize) -> (r: Self)
        requires
            off + Self::LEN <= data.len(),
        ensures
            r.bytes() == data@.subrange(off as int, off + Self::LEN),
    {
        let amount = read_uint64(data, off);
        let asset = read_pubkey(data, off + 8);
        let r = AssetItem { amount, asset };
        assert(r.bytes() =~= data@.subrange(off as int, off + Self::LEN));
        r
    }
}

impl Default for AssetItem {
    fn default() -> (r: Self)
        ensures
            r.bytes() == Seq::new(40, |i: int| 0u8),
    {
        let r = AssetItem { amount: Uint64::default(), asset: [0u8; 32] };
        assert(r.bytes() =~= Seq::new(40, |i: int| 0u8));
        r
    }
}

/// The layout of an asset item is one to one with its value.
pub proof fn lemma_asset_item_bytes_injective(a: AssetItem, b: AssetItem)
    requires
        a.bytes() == b.bytes(),
    ensures
        a == b,
{
    assert(a.amount.bytes() =~= a.bytes().subrange(0, 8));
    assert(b.amount.bytes() =~= b.bytes().subrange(0, 8));
    assert(a.asset@ =~= a.bytes().subrange(8, 40));
    assert(b.asset@ =~= b.bytes().subrange(8, 40));
    a.amount.lemma_bytes_injective(b.amount);
    assert(a.asset =~= b.asset);
}

/// The registry's configuration.
#[derive(Debug, Clone, Copy, PartialEq, Eq)]
pub struct Config {
    /// Can update the configuration and run privileged instructions.
    pub admin: Pubkey,
    pub is_paused: BitField,
    pub rotation_timeout: Uint32,
    pub registration_fee: AssetItem,
    pub data_size_range: Range,
}

impl Config {
    pub const LEN: usize = 85;

    const PAUSE_BIT: u8 = 0;

    /// The layout bytes, fields in declaration order.
    pub open spec fn bytes(self) -> Seq<u8> {
        self.admin@ + seq![self.is_paused.raw()] + self.rotation_timeout.bytes()
            + self.registration_fee.bytes() + self.data_size_range.bytes()
    }

    pub fn to_bytes(&self) -> (r: Vec<u8>)
        ensures
            r@ == self.bytes(),
    {
        let mut out: Vec<u8> = Vec::new();
        append_pubkey(&mut out, &self.admin);
        out.push(self.is_paused.get_raw());
        append_uint32(&mut out, &self.rotation_timeout);
        self.registration_fee.append_to(&mut out);
        self.data_size_range.append_to(&mut out);
        assert(out@ =~= self.bytes());
        out
    }

    /// Reads the account from exactly `Self::LEN` bytes.
    pub fn from_bytes(data: &[u8]) -> (r: Result<Self>)
        ensures
            r is Ok <==> data@.len() == Self::LEN,
            r is Err ==> r == Err::<Self, ProgramError>(ProgramError::InvalidAccountData),
            r matches Ok(v) ==> v.bytes() == data@,
    {
        if data.len() != Self::LEN {
            return Err(ProgramError::InvalidAccountData);
        }
        let admin = read_pubkey(data, 0);
        let is_paused = read_bit_field(data, 32);
        let rotation_timeout = read_uint32(data, 33);
        let registration_fee = AssetItem::read_at(data, 37);
        let data_size_range = Range::read_at(data, 77);
        let v = Config { admin, is_paused, rotation_timeout, registration_fee, data_size_range };
        assert(v.bytes() =~= data@);
        Ok(v)
    }

    /// Bytes the account occupies.
    pub fn get_space() -> (r: usize)
        ensures
            r == Self::LEN,
    {
        Self::LEN
    }

    /// Whether the registry is paused.
    pub fn is_paused(&self) -> (r: bool)
        ensures
            r == flag_of(self.is_paused.raw(), 0),
    {
        self.is_paused.get_flag(Self::PAUSE_BIT)
    }

    /// Pauses or resumes the registry.
    pub fn set_is_paused(&mut self, is_paused: bool)
        ensures
            final(self).is_paused.raw() == with_flag(old(self).is_paused.raw(), 0, is_paused),
            final(self).admin == old(self).admin,
            final(self).rotation_timeout == old(self).rotation_timeout,
            final(self).registration_fee == old(self).registration_fee,
            final(self).data_size_range == old(self).data_size_range,
    {
        self.is_paused.set_flag(Self::PAUSE_BIT, is_paused);
    }

    /// Seconds a proposed admin has to accept the role.
    pub fn rotation_timeout(&self) -> (r: u32)
        ensures
            r == self.rotation_timeout.value(),
    {
        self.rotation_timeout.get()
    }

    pub fn set_rotation_timeout(&mut self, rotation_timeout: u32)
        ensures
            final(self).rotation_timeout.value() == rotation_timeout,
            final(self).admin == old(self).admin,
            final(self).is_paused == old(self).is_paused,
            final(self).registration_fee == old(self).registration_fee,
            final(self).data_size_range == old(self).data_size_range,
    {
        self.rotation_timeout.set(rotation_timeout);
    }
}

impl DataLen for Config {
    open spec fn spec_data_len() -> nat {
        85
    }

    fn data_len() -> (r: usize) {
        Self::LEN
    }
}

impl Default for Config {
    fn default() -> (r: Self)
        ensures
            r.bytes() == Seq::new(85, |i: int| 0u8),
    {
        let r = Config {
            admin: [0u8; 32],
            is_paused: BitField::default(),
            rotation_timeout: Uint32::default(),
            registration_fee: AssetItem::default(),
            data_size_range: Range::default(),
        };
        assert(r.bytes() =~= Seq::new(85, |i: int| 0u8));
        r
    }
}

/// The layout of the configuration is one to one with its value.
pub proof fn lemma_config_bytes_injective(a: Config, b: Config)
    requires
        a.bytes() == b.bytes(),
    ensures
        a == b,
{
    assert(a.admin@ =~= a.bytes().subrange(0, 32));
    assert(b.admin@ =~= b.bytes().subrange(0, 32));
    assert(a.admin =~= b.admin);
    assert(a.is_paused.raw() == a.bytes()[32]);
    assert(b.is_paused.raw() == b.bytes()[32]);
    BitField::lemma_from_raw_raw(a.is_paused);
    BitField::lemma_from_raw_raw(b.is_paused);
    assert(a.rotation_timeout.bytes() =~= a.bytes().subrange(33, 37));
    assert(b.rotation_timeout.bytes() =~= b.bytes().subrange(33, 37));
    a.rotation_timeout.lemma_bytes_injective(b.rotation_timeout);
    assert(a.registration_fee.bytes() =~= a.bytes().subrange(37, 77));
    assert(b.registration_fee.bytes() =~= b.bytes().subrange(37, 77));
    lemma_asset_item_bytes_injective(a.registration_fee, b.registration_fee);
    assert(a.data_size_range.bytes() =~= a.bytes().subrange(77, 85));
    assert(b.data_size_range.bytes() =~= b.bytes().subrange(77, 85));
    lemma_range_bytes_injective(a.data_size_range, b.data_size_range);
}

/// Counter of registered users, for indexing.
#[derive(Debug, Clone, Copy, PartialEq, Eq)]
pub struct UserCounter {
    pub last_user_id: Uint32,
}

impl UserCounter {
    pub const LEN: usize = 4;

    pub open spec fn bytes(self) -> Seq<u8> {
        self.last_user_id.bytes()
    }

    pub fn to_bytes(&self) -> (r: Vec<u8>)
        ensures
            r@ == self.bytes(),
    {
        let mut out: Vec<u8> = Vec::new();
        append_uint32(&mut out, &self.last_user_id);
        assert(out@ =~= self.bytes());
        out
    }

    /// Reads the account from exactly `Self::LEN` bytes.
    pub fn from_bytes(data: &[u8]) -> (r: Result<Self>)
        ensures
            r is Ok <==> data@.len() == Self::LEN,
            r is Err ==> r == Err::<Self, ProgramError>(ProgramError::InvalidAccountData),
            r matches Ok(v) ==> v.bytes() == data@,
    {
        if data.len() != Self::LEN {
            return Err(ProgramError::InvalidAccountData);
        }
        let v = UserCounter { last_user_id: read_uint32(data, 0) };
        assert(v.bytes() =~= data@);
        Ok(v)
    }

    /// Bytes the account occupies.
    pub fn get_space() -> (r: usize)
        ensures
            r == Self::LEN,
    {
        Self::LEN
    }
}

impl DataLen for UserCounter {
    open spec fn spec_data_len() -> nat {
        4
    }

    fn data_len() -> (r: usize) {
        Self::LEN
    }
}

impl Default for UserCounter {
    fn default() -> (r: Self)
        ensures
            r.bytes() == Seq::new(4, |i: int| 0u8),
    {
        UserCounter { last_user_id: Uint32::default() }
    }
}

/// The layout of the user counter is one to one with its value.
pub proof fn lemma_user_counter_bytes_injective(a: UserCounter, b: UserCounter)
    requires
        a.bytes() == b.bytes(),
    ensures
        a == b,
{
    a.last_user_id.lemma_bytes_injective(b.last_user_id);
}

/// A two-step transfer of ownership: the current owner names a new owner,
/// who must accept before the expiration date. Used for the admin and for
/// user accounts.
#[derive(Debug, Clone, Copy, PartialEq, Eq)]
pub struct RotationState {
    pub owner: Pubkey,
    pub new_owner: Pubkey,
    pub expiration_date: Uint64,
}

impl RotationState {
    pub const LEN: usize = 72;

    pub open spec fn bytes(self) -> Seq<u8> {
        self.owner@ + self.new_owner@ + self.expiration_date.bytes()
    }

    pub fn to_bytes(&self) -> (r: Vec<u8>)
        ensures
            r@ == self.bytes(),
    {
        let mut out: Vec<u8> = Vec::new();
        append_pubkey(&mut out, &self.owner);
        append_pubkey(&mut out, &self.new_owner);
        append_uint64(&mut out, &self.expiration_date);
        assert(out@ =~= self.bytes());
        out
    }

    /// Reads the account from exactly `Self::LEN` bytes.
    pub fn from_bytes(data: &[u8]) -> (r: Result<Self>)
        ensures
            r is Ok <==> data@.len() == Self::LEN,
            r is Err ==> r == Err::<Self, ProgramError>(ProgramError::InvalidAccountData),
            r matches Ok(v) ==> v.bytes() == data@,
    {
        if data.len() != Self::LEN {
            return Err(ProgramError::InvalidAccountData);
        }
        let v = RotationState {
            owner: read_pubkey(data, 0),
            new_owner: read_pubkey(data, 32),
            expiration_date: read_uint64(data, 64),
        };
        assert(v.bytes() =~= data@);
        Ok(v)
    }

    /// Bytes the account occupies.
    pub fn get_space() -> (r: usize)
        ensures
            r == Self::LEN,
    {
        Self::LEN
    }

    /// Unix time after which the new owner can no longer accept.
    pub fn expiration_date(&self) -> (r: u64)
        ensures
            r == self.expiration_date.value(),
    {
        self.expiration_date.get()
    }

    pub fn set_expiration_date(&mut self, expiration_date: u64)
        ensures
            final(self).expiration_date.value() == expiration_date,
            final(self).owner == old(self).owner,
            final(self).new_owner == old(self).new_owner,
    {
        self.expiration_date.set(expiration_date);
    }
}

impl DataLen for RotationState {
    open spec fn spec_data_len() -> nat {
        72
    }

    fn data_len() -> (r: usize) {
        Self::LEN
    }
}

impl Default for RotationState {
    fn default() -> (r: Self)
        ensures
            r.bytes() == Seq::new(72, |i: int| 0u8),
    {
        let r = RotationState {
            owner: [0u8; 32],
            new_owner: [0u8; 32],
            expiration_date: Uint64::default(),
        };
        assert(r.bytes() =~= Seq::new(72, |i: int| 0u8));
        r
    }
}

/// The layout of a rotation state is one to one with its value.
pub proof fn lemma_rotation_state_bytes_injective(a: RotationState, b: RotationState)
    requires
        a.bytes() == b.bytes(),
    ensures
        a == b,
{
    assert(a.owner@ =~= a.bytes().subrange(0, 32));
    assert(b.owner@ =~= b.bytes().subrange(0, 32));
    assert(a.new_owner@ =~= a.bytes().subrange(32, 64));
    assert(b.new_owner@ =~= b.bytes().subrange(32, 64));
    assert(a.expiration_date.bytes() =~= a.bytes().subrange(64, 72));
    assert(b.expiration_date.bytes() =~= b.bytes().subrange(64, 72));
    assert(a.owner =~= b.owner);
    assert(a.new_owner =~= b.new_owner);
    a.expiration_date.lemma_bytes_injective(b.expiration_date);
}

/// The registration of a user, found by the user's address.
#[derive(Debug, Clone, Copy, PartialEq, Eq)]
pub struct UserId {
    /// Bit 0: the account is open; bit 1: it is activated.
    pub flags: BitField,
    pub id: Uint32,
    pub account_bump: u8,
    pub rotation_state_bump: u8,
}

impl UserId {
    pub const LEN: usize = 7;

    const IS_OPEN: u8 = 0;
    const IS_ACTIVATED: u8 = 1;

    pub open spec fn bytes(self) -> Seq<u8> {
        seq![self.flags.raw()] + self.id.bytes() + seq![self.account_bump, self.rotation_state_bump]
    }

    pub fn to_bytes(&self) -> (r: Vec<u8>)
        ensures
            r@ == self.bytes(),
    {
        let mut out: Vec<u8> = Vec::new();
        out.push(self.flags.get_raw());
        append_uint32(&mut out, &self.id);
        out.push(self.account_bump);
        out.push(self.rotation_state_bump);
        assert(out@ =~= self.bytes());
        out
    }

    /// Reads the account from exactly `Self::LEN` bytes.
    pub fn from_bytes(data: &[u8]) -> (r: Result<Self>)
        ensures
            r is Ok <==> data@.len() == Self::LEN,
            r is Err ==> r == Err::<Self, ProgramError>(ProgramError::InvalidAccountData),
            r matches Ok(v) ==> v.bytes() == data@,
    {
        if data.len() != Self::LEN {
            return Err(ProgramError::InvalidAccountData);
        }
        let v = UserId {
            flags: read_bit_field(data, 0),
            id: read_uint32(data, 1),
            account_bump: data[5],
            rotation_state_bump: data[6],
        };
        assert(v.bytes() =~= data@);
        Ok(v)
    }

    /// Bytes the account occupies.
    pub fn get_space() -> (r: usize)
        ensures
            r == Self::LEN,
    {
        Self::LEN
    }

    /// Whether the user's account is open.
    pub fn get_is_open_flag(&self) -> (r: bool)
        ensures
            r == flag_of(self.flags.raw(), 0),
    {
        self.flags.get_flag(Self::IS_OPEN)
    }

    pub fn set_is_open_flag(&mut self, x: bool)
        ensures
            final(self).flags.raw() == with_flag(old(self).flags.raw(), 0, x),
            final(self).id == old(self).id,
            final(self).account_bump == old(self).account_bump,
            final(self).rotation_state_bump == old(self).rotation_state_bump,
    {
        self.flags.set_flag(Self::IS_OPEN, x);
    }

    /// Whether the user's account is activated (its fee was paid).
    pub fn get_is_activated_flag(&self) -> (r: bool)
        ensures
            r == flag_of(self.flags.raw(), 1),
    {
        self.flags.get_flag(Self::IS_ACTIVATED)
    }

    pub fn set_is_activated_flag(&mut self, x: bool)
        ensures
            final(self).flags.raw() == with_flag(old(self).flags.raw(), 1, x),
            final(self).id == old(self).id,
            final(self).account_bump == old(self).account_bump,
            final(self).rotation_state_bump == old(self).rotation_state_bump,
    {
        self.flags.set_flag(Self::IS_ACTIVATED, x);
    }

    /// Whether the user's account is open.
    pub fn is_open(&self) -> (r: bool)
        ensures
            r == flag_of(self.flags.raw(), 0),
    {
        self.get_is_open_flag()
    }

    pub fn set_is_open(&mut self, flag: bool)
        ensures
            final(self).flags.raw() == with_flag(old(self).flags.raw(), 0, flag),
            final(self).id == old(self).id,
            final(self).account_bump == old(self).account_bump,
            final(self).rotation_state_bump == old(self).rotation_state_bump,
    {
        self.set_is_open_flag(flag);
    }

    /// Whether the user's account is activated (its fee was paid).
    pub fn is_activated(&self) -> (r: bool)
        ensures
            r == flag_of(self.flags.raw(), 1),
    {
        self.get_is_activated_flag()
    }

    pub fn set_is_activated(&mut self, flag: bool)
        ensures
            final(self).flags.raw() == with_flag(old(self).flags.raw(), 1, flag),
            final(self).id == old(self).id,
            final(self).account_bump == old(self).account_bump,
            final(self).rotation_state_bump == old(self).rotation_state_bump,
    {
        self.set_is_activated_flag(flag);
    }
}

impl DataLen for UserId {
    open spec fn spec_data_len() -> nat {
        7
    }

    fn data_len() -> (r: usize) {
        Self::LEN
    }
}

impl Default for UserId {
    fn default() -> (r: Self)
        ensures
            r.bytes() == Seq::new(7, |i: int| 0u8),
    {
        let r = UserId {
            flags: BitField::default(),
            id: Uint32::default(),
            account_bump: 0,
            rotation_state_bump: 0,
        };
        assert(r.bytes() =~= Seq::new(7, |i: int| 0u8));
        r
    }
}

/// The layout of a user registration is one to one with its value.
pub proof fn lemma_user_id_bytes_injective(a: UserId, b: UserId)
    requires
        a.bytes() == b.bytes(),
    ensures
        a == b,
{
    assert(a.flags.raw() == a.bytes()[0]);
    assert(b.flags.raw() == b.bytes()[0]);
    BitField::lemma_from_raw_raw(a.flags);
    BitField::lemma_from_raw_raw(b.flags);
    assert(a.id.bytes() =~= a.bytes().subrange(1, 5));
    assert(b.id.bytes() =~= b.bytes().subrange(1, 5));
    a.id.lemma_bytes_injective(b.id);
    assert(a.account_bump == a.bytes()[5]);
    assert(b.account_bump == b.bytes()[5]);
    assert(a.rotation_state_bump == a.bytes()[6]);
    assert(b.rotation_state_bump == b.bytes()[6]);
}

/// Opening and activating are independent flags: setting one leaves the
/// other as it was, and reading a flag gives what was last written to it.
pub proof fn lemma_user_id_flags_independent(u: UserId, open: bool, activated: bool)
    ensures
        flag_of(with_flag(u.flags.raw(), 0, open), 0) == open,
        flag_of(with_flag(u.flags.raw(), 0, open), 1) == flag_of(u.flags.raw(), 1),
        flag_of(with_flag(u.flags.raw(), 1, activated), 1) == activated,
        flag_of(with_flag(u.flags.raw(), 1, activated), 0) == flag_of(u.flags.raw(), 0),
{
    crate::bits::lemma_flag_write_read(u.flags.raw(), 0, 1, open);
    crate::bits::lemma_flag_write_read(u.flags.raw(), 1, 0, activated);
}

/// A user's storage, found by the user's id.
#[derive(Debug, Clone, Copy, PartialEq, Eq)]
pub struct UserAccount {
    /// Encrypted user data.
    pub data: [u8; 4096],
    /// Encryption nonce.
    pub nonce: Uint64,
    /// Allocated storage capacity.
    pub max_size: Uint32,
}

impl UserAccount {
    pub const LEN: usize = 4108;

    pub open spec fn bytes(self) -> Seq<u8> {
        self.data@ + self.nonce.bytes() + self.max_size.bytes()
    }

    pub fn to_bytes(&self) -> (r: Vec<u8>)
        ensures
            r@ == self.bytes(),
    {
        let mut out: Vec<u8> = Vec::new();
        append_bytes(&mut out, self.data.as_slice());
        append_uint64(&mut out, &self.nonce);
        append_uint32(&mut out, &self.max_size);
        assert(out@ =~= self.bytes());
        out
    }

    /// Reads the account from exactly `Self::LEN` bytes.
    pub fn from_bytes(data: &[u8]) -> (r: Result<Self>)
        ensures
            r is Ok <==> data@.len() == Self::LEN,
            r is Err ==> r == Err::<Self, ProgramError>(ProgramError::InvalidAccountData),
            r matches Ok(v) ==> v.bytes() == data@,
    {
        if data.len() != Self::LEN {
            return Err(ProgramError::InvalidAccountData);
        }
        let v = UserAccount {
            data: read_array_4096(data, 0),
            nonce: read_uint64(data, 4096),
            max_size: read_uint32(data, 4104),
        };
        assert(v.bytes() =~= data@);
        Ok(v)
    }

    /// Bytes the account occupies; the layout has a fixed size, whatever
    /// capacity is asked for.
    pub fn get_space(_max_size: u32) -> (r: usize)
        ensures
            r == Self::LEN,
    {
        Self::LEN
    }

    /// The allocated storage capacity.
    pub fn max_size(&self) -> (r: u32)
        ensures
            r == self.max_size.value(),
    {
        self.max_size.get()
    }

    pub fn set_max_size(&mut self, max_size: u32)
        ensures
            final(self).max_size.value() == max_size,
            final(self).data == old(self).data,
            final(self).nonce == old(self).nonce,
    {
        self.max_size.set(max_size);
    }
}

impl DataLen for UserAccount {
    open spec fn spec_data_len() -> nat {
        4108
    }

    fn data_len() -> (r: usize) {
        Self::LEN
    }
}

impl Default for UserAccount {
    fn default() -> (r: Self)
        ensures
            r.bytes() == Seq::new(4108, |i: int| 0u8),
    {
        let r = UserAccount {
            data: [0u8; 4096],
            nonce: Uint64::default(),
            max_size: Uint32::default(),
        };
        assert(r.bytes() =~= Seq::new(4108, |i: int| 0u8));
        r
    }
}

/// The layout of a user account is one to one with its value.
pub proof fn lemma_user_account_bytes_injective(a: UserAccount, b: UserAccount)
    requires
        a.bytes() == b.bytes(),
    ensures
        a == b,
{
    assert(a.data@ =~= a.bytes().subrange(0, 4096));
    assert(b.data@ =~= b.bytes().subrange(0, 4096));
    assert(a.data =~= b.data);
    assert(a.nonce.bytes() =~= a.bytes().subrange(4096, 4104));
    assert(b.nonce.bytes() =~= b.bytes().subrange(4096, 4104));
    a.nonce.lemma_bytes_injective(b.nonce);
    assert(a.max_size.bytes() =~= a.bytes().subrange(4104, 4108));
    assert(b.max_size.bytes() =~= b.bytes().subrange(4104, 4108));
    a.max_size.lemma_bytes_injective(b.max_size);
}

/// The configuration whose layout is `b`.
pub open spec fn config_of(b: Seq<u8>) -> Config {
    choose|c: Config| c.bytes() == b
}

/// Reading back the layout of a configuration gives the configuration.
pub proof fn lemma_config_of(c: Config)
    ensures
        config_of(c.bytes()) == c,
{
    lemma_config_bytes_injective(config_of(c.bytes()), c);
}

/// The rotation state whose layout is `b`.
pub open spec fn rotation_state_of(b: Seq<u8>) -> RotationState {
    choose|c: RotationState| c.bytes() == b
}

/// Reading back the layout of a rotation state gives the rotation state.
pub proof fn lemma_rotation_state_of(c: RotationState)
    ensures
        rotation_state_of(c.bytes()) == c,
{
    lemma_rotation_state_bytes_injective(rotation_state_of(c.bytes()), c);
}

/// The bump account whose layout is `b`.
pub open spec fn bump_of(b: Seq<u8>) -> Bump {
    choose|c: Bump| c.bytes() == b
}

/// Reading back the layout of a bump account gives the bump account.
pub proof fn lemma_bump_of(c: Bump)
    ensures
        bump_of(c.bytes()) == c,
{
    lemma_bump_bytes_injective(bump_of(c.bytes()), c);
}

/// The user registration whose layout is `b`.
pub open spec fn user_id_of(b: Seq<u8>) -> UserId {
    choose|c: UserId| c.bytes() == b
}

/// Reading back the layout of a user registration gives the registration.
pub proof fn lemma_user_id_of(c: UserId)
    ensures
        user_id_of(c.bytes()) == c,
{
    lemma_user_id_bytes_injective(user_id_of(c.bytes()), c);
}

impl Space for Bump {
    fn get_space() -> (r: usize)
        ensures
            r == 3,
    {
        Self::LEN
    }
}

impl Space for Config {
    fn get_space() -> (r: usize)
        ensures
            r == 85,
    {
        Self::LEN
    }
}

impl Space for UserCounter {
    fn get_space() -> (r: usize)
        ensures
            r == 4,
    {
        Self::LEN
    }
}

impl Space for RotationState {
    fn get_space() -> (r: usize)
        ensures
            r == 72,
    {
        Self::LEN
    }
}

impl Space for UserId {
    fn get_space() -> (r: usize)
        ensures
            r == 7,
    {
        Self::LEN
    }
}

/// The range whose layout is `b`.
pub open spec fn range_of(b: Seq<u8>) -> Range {
    choose|c: Range| c.bytes() == b
}

impl ZeroCopySerialize for Range {
    open spec fn spec_bytes(&self) -> Seq<u8> {
        self.bytes()
    }

    fn serialize_into(&self, data: &mut [u8]) -> (r: Result<()>) {
        let mut out: Vec<u8> = Vec::new();
        self.append_to(&mut out);
        write_prefix(data, out.as_slice())
    }
}

impl ZeroCopyDeserialize for Range {
    open spec fn deserialize_requires(data: Seq<u8>, start: usize) -> bool {
        true
    }

    open spec fn spec_deserialize_from(data: Seq<u8>, start: usize) -> Result<(Self, usize)> {
        if start + 8 <= data.len() {
            Ok((range_of(data.subrange(start as int, start + 8)), (start + 8) as usize))
        } else {
            Err(ProgramError::InvalidInstructionData)
        }
    }

    fn deserialize_from(data: &[u8], start_index: usize) -> (r: Result<(Self, usize)>) {
        if start_index > data.len() || data.len() - start_index < 8 {
            return Err(ProgramError::InvalidInstructionData);
        }
        let v = Self::read_at(data, start_index);
        proof {
            lemma_range_bytes_injective(range_of(v.bytes()), v);
        }
        Ok((v, start_index + 8))
    }
}

/// The asset_item whose layout is `b`.
pub open spec fn asset_item_of(b: Seq<u8>) -> AssetItem {
    choose|c: AssetItem| c.bytes() == b
}

impl ZeroCopySerialize for AssetItem {
    open spec fn spec_bytes(&self) -> Seq<u8> {
        self.bytes()
    }

    fn serialize_into(&self, data: &mut [u8]) -> (r: Result<()>) {
        let mut out: Vec<u8> = Vec::new();
        self.append_to(&mut out);
        write_prefix(data, out.as_slice())
    }
}

impl ZeroCopyDeserialize for AssetItem {
    open spec fn deserialize_requires(data: Seq<u8>, start: usize) -> bool {
        true
    }

    open spec fn spec_deserialize_from(data: Seq<u8>, start: usize) -> Result<(Self, usize)> {
        if start + 40 <= data.len() {
            Ok((asset_item_of(data.subrange(start as int, start + 40)), (start + 40) as usize))
        } else {
            Err(ProgramError::InvalidInstructionData)
        }
    }

    fn deserialize_from(data: &[u8], start_index: usize) -> (r: Result<(Self, usize)>) {
        if start_index > data.len() || data.len() - start_index < 40 {
            return Err(ProgramError::InvalidInstructionData);
        }
        let v = Self::read_at(data, start_index);
        proof {
            lemma_asset_item_bytes_injective(asset_item_of(v.bytes()), v);
        }
        Ok((v, start_index + 40))
    }
}

} // verus!
