//! Data of the instruction that initializes the registry: settings whose flag
//! is clear keep their defaults.

use crate::error::{ProgramError, Result};
use crate::instructions::InstructionSerialize;
use crate::state::Discriminator;
use crate::layout::{DataLen, append_bytes, append_uint32, read_bit_field, read_uint32};
use crate::types::{BitField, Uint32};
use crate::state::{AssetItem, Range, lemma_range_bytes_injective, lemma_asset_item_bytes_injective};
use crate::bits::{flag_of, with_flag};
use crate::types::Uint64;
use vstd::prelude::*;

verus! {

broadcast use {
    vstd::array::group_array_axioms,
    Uint32::lemma_bytes_len,
    Uint64::lemma_bytes_len,
    BitField::lemma_raw_from_raw,
};

#[derive(Debug, Clone, Copy, PartialEq, Eq)]
pub struct InstructionData {
    /// Which settings are present.
    pub flags: BitField,
    pub rotation_timeout: Uint32,
    pub account_registration_fee: AssetItem,
    pub account_data_size_range: Range,
}

impl InstructionData {
    pub const LEN: usize = 53;
    const ROTATION_TIMEOUT: u8 = 0;
    const ACCOUNT_REGISTRATION_FEE: u8 = 1;
    const ACCOUNT_DATA_SIZE_RANGE: u8 = 2;

    /// The layout bytes, fields in declaration order.
    pub open spec fn bytes(self) -> Seq<u8> {
        seq![self.flags.raw()] + self.rotation_timeout.bytes() + self.account_registration_fee.bytes() + self.account_data_size_range.bytes()
    }

    pub fn to_bytes(&self) -> (r: Vec<u8>)
        ensures
            r@ == self.bytes(),
    {
        let mut out: Vec<u8> = Vec::new();
        out.push(self.flags.get_raw());
        append_uint32(&mut out, &self.rotation_timeout);
        self.account_registration_fee.append_to(&mut out);
        self.account_data_size_range.append_to(&mut out);
        assert(out@ =~= self.bytes());
        out
    }

    /// Reads the data from exactly `Self::LEN` bytes.
    pub fn from_bytes(data: &[u8]) -> (r: Result<Self>)
        ensures
            r is Ok <==> data@.len() == Self::LEN,
            r is Err ==> r == Err::<Self, ProgramError>(ProgramError::InvalidAccountData),
            r matches Ok(v) ==> v.bytes() == data@,
    {
        if data.len() != Self::LEN {
            return Err(ProgramError::InvalidAccountData);
        }
        let v = InstructionData {
            flags: read_bit_field(data, 0),
            rotation_timeout: read_uint32(data, 1),
            account_registration_fee: AssetItem::read_at(data, 5),
            account_data_size_range: Range::read_at(data, 45),
        };
        assert(v.bytes() =~= data@);
        Ok(v)
    }

    /// Whether the `rotation_timeout` flag is set.
    fn get_rotation_timeout_flag(&self) -> (r: bool)
        ensures
            r == flag_of(self.flags.raw(), 0),
    {
        self.flags.get_flag(Self::ROTATION_TIMEOUT)
    }

    /// Sets the `rotation_timeout` flag.
    fn set_rotation_timeout_flag(&mut self, x: bool)
        ensures
            final(self).flags.raw() == with_flag(old(self).flags.raw(), 0, x),
            final(self).rotation_timeout == old(self).rotation_timeout,
            final(self).account_registration_fee == old(self).account_registration_fee,
            final(self).account_data_size_range == old(self).account_data_size_range,
    {
        self.flags.set_flag(Self::ROTATION_TIMEOUT, x);
    }

    /// The `rotation_timeout` value if its flag is set.
    pub fn get_rotation_timeout(&self) -> (r: Option<Uint32>)
        ensures
            r == if flag_of(self.flags.raw(), 0) {
                Some(self.rotation_timeout)
            } else {
                None
            },
    {
        if self.get_rotation_timeout_flag() {
            Some(self.rotation_timeout)
        } else {
            None
        }
    }

    /// Stores `rotation_timeout` and sets its flag, or clears the flag.
    pub fn set_rotation_timeout(&mut self, x: Option<Uint32>)
        ensures
            final(self).flags.raw() == with_flag(old(self).flags.raw(), 0, x is Some),
            final(self).rotation_timeout == match x {
                Some(v) => v,
                None => old(self).rotation_timeout,
            },
            final(self).account_registration_fee == old(self).account_registration_fee,
            final(self).account_data_size_range == old(self).account_data_size_range,
    {
        match x {
            Some(x) => {
                self.set_rotation_timeout_flag(true);
                self.rotation_timeout = x;
            },
            None => {
                self.set_rotation_timeout_flag(false);
            },
        }
    }

    /// Whether the `account_registration_fee` flag is set.
    fn get_account_registration_fee_flag(&self) -> (r: bool)
        ensures
            r == flag_of(self.flags.raw(), 1),
    {
        self.flags.get_flag(Self::ACCOUNT_REGISTRATION_FEE)
    }

    /// Sets the `account_registration_fee` flag.
    fn set_account_registration_fee_flag(&mut self, x: bool)
        ensures
            final(self).flags.raw() == with_flag(old(self).flags.raw(), 1, x),
            final(self).rotation_timeout == old(self).rotation_timeout,
            final(self).account_registration_fee == old(self).account_registration_fee,
            final(self).account_data_size_range == old(self).account_data_size_range,
    {
        self.flags.set_flag(Self::ACCOUNT_REGISTRATION_FEE, x);
    }

    /// The `account_registration_fee` value if its flag is set.
    pub fn get_account_registration_fee(&self) -> (r: Option<AssetItem>)
        ensures
            r == if flag_of(self.flags.raw(), 1) {
                Some(self.account_registration_fee)
            } else {
                None
            },
    {
        if self.get_account_registration_fee_flag() {
            Some(self.account_registration_fee)
        } else {
            None
        }
    }

    /// Stores `account_registration_fee` and sets its flag, or clears the flag.
    pub fn set_account_registration_fee(&mut self, x: Option<AssetItem>)
        ensures
            final(self).flags.raw() == with_flag(old(self).flags.raw(), 1, x is Some),
            final(self).account_registration_fee == match x {
                Some(v) => v,
                None => old(self).account_registration_fee,
            },
            final(self).rotation_timeout == old(self).rotation_timeout,
            final(self).account_data_size_range == old(self).account_data_size_range,
    {
        match x {
            Some(x) => {
                self.set_account_registration_fee_flag(true);
                self.account_registration_fee = x;
            },
            None => {
                self.set_account_registration_fee_flag(false);
            },
        }
    }

    /// Whether the `account_data_size_range` flag is set.
    fn get_account_data_size_range_flag(&self) -> (r: bool)
        ensures
            r == flag_of(self.flags.raw(), 2),
    {
        self.flags.get_flag(Self::ACCOUNT_DATA_SIZE_RANGE)
    }

    /// Sets the `account_data_size_range` flag.
    fn set_account_data_size_range_flag(&mut self, x: bool)
        ensures
            final(self).flags.raw() == with_flag(old(self).flags.raw(), 2, x),
            final(self).rotation_timeout == old(self).rotation_timeout,
            final(self).account_registration_fee == old(self).account_registration_fee,
            final(self).account_data_size_range == old(self).account_data_size_range,
    {
        self.flags.set_flag(Self::ACCOUNT_DATA_SIZE_RANGE, x);
    }

    /// The `account_data_size_range` value if its flag is set.
    pub fn get_account_data_size_range(&self) -> (r: Option<Range>)
        ensures
            r == if flag_of(self.flags.raw(), 2) {
                Some(self.account_data_size_range)
            } else {
                None
            },
    {
        if self.get_account_data_size_range_flag() {
            Some(self.account_data_size_range)
        } else {
            None
        }
    }

    /// Stores `account_data_size_range` and sets its flag, or clears the flag.
    pub fn set_account_data_size_range(&mut self, x: Option<Range>)
        ensures
            final(self).flags.raw() == with_flag(old(self).flags.raw(), 2, x is Some),
            final(self).account_data_size_range == match x {
                Some(v) => v,
                None => old(self).account_data_size_range,
            },
            final(self).rotation_timeout == old(self).rotation_timeout,
            final(self).account_registration_fee == old(self).account_registration_fee,
    {
        match x {
            Some(x) => {
                self.set_account_data_size_range_flag(true);
                self.account_data_size_range = x;
            },
            None => {
                self.set_account_data_size_range_flag(false);
            },
        }
    }

    /// Whether a rotation timeout is given.
    pub fn is_rotation_timeout(&self) -> (r: bool)
        ensures
            r == flag_of(self.flags.raw(), 0),
    {
        self.get_rotation_timeout_flag()
    }

    pub fn set_is_rotation_timeout(&mut self, flag: bool)
        ensures
            final(self).flags.raw() == with_flag(old(self).flags.raw(), 0, flag),
            final(self).rotation_timeout == old(self).rotation_timeout,
            final(self).account_registration_fee == old(self).account_registration_fee,
            final(self).account_data_size_range == old(self).account_data_size_range,
    {
        self.set_rotation_timeout_flag(flag);
    }

    /// Whether a registration fee is given.
    pub fn is_account_registration_fee(&self) -> (r: bool)
        ensures
            r == flag_of(self.flags.raw(), 1),
    {
        self.get_account_registration_fee_flag()
    }

    pub fn set_is_account_registration_fee(&mut self, flag: bool)
        ensures
            final(self).flags.raw() == with_flag(old(self).flags.raw(), 1, flag),
            final(self).rotation_timeout == old(self).rotation_timeout,
            final(self).account_registration_fee == old(self).account_registration_fee,
            final(self).account_data_size_range == old(self).account_data_size_range,
    {
        self.set_account_registration_fee_flag(flag);
    }

    /// Whether a data size range is given.
    pub fn is_account_data_size_range(&self) -> (r: bool)
        ensures
            r == flag_of(self.flags.raw(), 2),
    {
        self.get_account_data_size_range_flag()
    }

    pub fn set_is_account_data_size_range(&mut self, flag: bool)
        ensures
            final(self).flags.raw() == with_flag(old(self).flags.raw(), 2, flag),
            final(self).rotation_timeout == old(self).rotation_timeout,
            final(self).account_registration_fee == old(self).account_registration_fee,
            final(self).account_data_size_range == old(self).account_data_size_range,
    {
        self.set_account_data_size_range_flag(flag);
    }
}

impl InstructionSerialize for InstructionData {
    open spec fn serialized(&self) -> Seq<u8> {
        seq![Discriminator::Init.spec_byte()] + self.bytes()
    }

    fn serialize(&self) -> (r: Result<Vec<u8>>) {
        let mut out: Vec<u8> = Vec::new();
        out.push(Discriminator::Init.to_u8());
        let body = self.to_bytes();
        append_bytes(&mut out, body.as_slice());
        assert(out@ =~= self.serialized());
        Ok(out)
    }
}

impl DataLen for InstructionData {
    open spec fn spec_data_len() -> nat {
        53
    }

    fn data_len() -> (r: usize) {
        Self::LEN
    }
}

impl Default for InstructionData {
    fn default() -> (r: Self)
        ensures
            r.bytes() == Seq::new(53, |i: int| 0u8),
    {
        let r = InstructionData { flags: BitField::default(), rotation_timeout: Uint32::default(), account_registration_fee: AssetItem::default(), account_data_size_range: Range::default() };
        assert(r.bytes() =~= Seq::new(53, |i: int| 0u8));
        r
    }
}

/// The layout of the data is one to one with its value.
pub proof fn lemma_bytes_injective(a: InstructionData, b: InstructionData)
    requires
        a.bytes() == b.bytes(),
    ensures
        a == b,
{
    assert(a.flags.raw() == a.bytes()[0]);
    assert(b.flags.raw() == b.bytes()[0]);
    BitField::lemma_from_raw_raw(a.flags);
    BitField::lemma_from_raw_raw(b.flags);
    assert(a.rotation_timeout.bytes() =~= a.bytes().subrange(1, 5));
    assert(b.rotation_timeout.bytes() =~= b.bytes().subrange(1, 5));
    a.rotation_timeout.lemma_bytes_injective(b.rotation_timeout);
    assert(a.account_registration_fee.bytes() =~= a.bytes().subrange(5, 45));
    assert(b.account_registration_fee.bytes() =~= b.bytes().subrange(5, 45));
    lemma_asset_item_bytes_injective(a.account_registration_fee, b.account_registration_fee);
    assert(a.account_data_size_range.bytes() =~= a.bytes().subrange(45, 53));
    assert(b.account_data_size_range.bytes() =~= b.bytes().subrange(45, 53));
    lemma_range_bytes_injective(a.account_data_size_range, b.account_data_size_range);
}

} // verus!
