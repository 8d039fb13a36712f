//! Data of the instruction that updates the configuration: each setting is
//! applied only where its flag is set.

use crate::error::{ProgramError, Result};
use crate::instructions::InstructionSerialize;
use crate::state::Discriminator;
use crate::pubkey::Pubkey;
use crate::layout::{DataLen, append_bytes, append_pubkey, append_uint32, append_uint64, read_bit_field, read_pubkey, read_uint32, read_uint64};
use crate::types::{BitField, Uint32, Uint64};
use crate::state::{Range, lemma_range_bytes_injective};
use crate::bits::{flag_of, with_flag};
use vstd::prelude::*;

verus! {

broadcast use {
    vstd::array::group_array_axioms,
    Uint32::lemma_bytes_len,
    Uint64::lemma_bytes_len,
    BitField::lemma_raw_from_raw,
};

#[derive(Debug, Clone, Copy, PartialEq, Eq)]
pub struct InstructionData {
    /// Which settings are present (and the value of the pause setting).
    pub flags: BitField,
    /// Proposed new admin, who must accept the role.
    pub admin: Pubkey,
    pub rotation_timeout: Uint32,
    pub registration_fee_amount: Uint64,
    pub data_size_range: Range,
}

impl InstructionData {
    pub const LEN: usize = 53;
    const _IS_PAUSED: u8 = 0;
    const IS_PAUSED: u8 = 1;
    const ADMIN: u8 = 2;
    const ROTATION_TIMEOUT: u8 = 3;
    const REGISTRATION_FEE_AMOUNT: u8 = 4;
    const DATA_SIZE_RANGE: u8 = 5;

    /// The layout bytes, fields in declaration order.
    pub open spec fn bytes(self) -> Seq<u8> {
        seq![self.flags.raw()] + self.admin@ + self.rotation_timeout.bytes() + self.registration_fee_amount.bytes() + self.data_size_range.bytes()
    }

    pub fn to_bytes(&self) -> (r: Vec<u8>)
        ensures
            r@ == self.bytes(),
    {
        let mut out: Vec<u8> = Vec::new();
        out.push(self.flags.get_raw());
        append_pubkey(&mut out, &self.admin);
        append_uint32(&mut out, &self.rotation_timeout);
        append_uint64(&mut out, &self.registration_fee_amount);
        self.data_size_range.append_to(&mut out);
        assert(out@ =~= self.bytes());
        out
    }

    /// Reads the data from exactly `Self::LEN` bytes.
    pub fn from_bytes(data: &[u8]) -> (r: Result<Self>)
        ensures
            r is Ok <==> data@.len() == Self::LEN,
            r is Err ==> r == Err::<Self, ProgramError>(ProgramError::InvalidAccountData),
            r matches Ok(v) ==> v.bytes() == data@,
    {
        if data.len() != Self::LEN {
            return Err(ProgramError::InvalidAccountData);
        }
        let v = InstructionData {
            flags: read_bit_field(data, 0),
            admin: read_pubkey(data, 1),
            rotation_timeout: read_uint32(data, 33),
            registration_fee_amount: read_uint64(data, 37),
            data_size_range: Range::read_at(data, 45),
        };
        assert(v.bytes() =~= data@);
        Ok(v)
    }

    /// Whether the `_is_paused` flag is set.
    fn get__is_paused_flag(&self) -> (r: bool)
        ensures
            r == flag_of(self.flags.raw(), 0),
    {
        self.flags.get_flag(Self::_IS_PAUSED)
    }

    /// Sets the `_is_paused` flag.
    fn set__is_paused_flag(&mut self, x: bool)
        ensures
            final(self).flags.raw() == with_flag(old(self).flags.raw(), 0, x),
            final(self).admin == old(self).admin,
            final(self).rotation_timeout == old(self).rotation_timeout,
            final(self).registration_fee_amount == old(self).registration_fee_amount,
            final(self).data_size_range == old(self).data_size_range,
    {
        self.flags.set_flag(Self::_IS_PAUSED, x);
    }

    /// The `is_paused` value if its flag is set.
    pub fn get_is_paused(&self) -> (r: Option<bool>)
        ensures
            r == if flag_of(self.flags.raw(), 0) {
                Some(flag_of(self.flags.raw(), 1))
            } else {
                None
            },
    {
        if self.get__is_paused_flag() {
            Some(self.flags.get_flag(Self::IS_PAUSED))
        } else {
            None
        }
    }

    /// Stores `is_paused` and sets its flag, or clears the flag.
    pub fn set_is_paused(&mut self, x: Option<bool>)
        ensures
            final(self).flags.raw() == match x {
                Some(v) => with_flag(with_flag(old(self).flags.raw(), 0, true), 1, v),
                None => with_flag(old(self).flags.raw(), 0, false),
            },
            final(self).admin == old(self).admin,
            final(self).rotation_timeout == old(self).rotation_timeout,
            final(self).registration_fee_amount == old(self).registration_fee_amount,
            final(self).data_size_range == old(self).data_size_range,
    {
        match x {
            Some(x) => {
                self.set__is_paused_flag(true);
                self.flags.set_flag(Self::IS_PAUSED, x);
            },
            None => {
                self.set__is_paused_flag(false);
            },
        }
    }

    /// Whether the `admin` flag is set.
    fn get_admin_flag(&self) -> (r: bool)
        ensures
            r == flag_of(self.flags.raw(), 2),
    {
        self.flags.get_flag(Self::ADMIN)
    }

    /// Sets the `admin` flag.
    fn set_admin_flag(&mut self, x: bool)
        ensures
            final(self).flags.raw() == with_flag(old(self).flags.raw(), 2, x),
            final(self).admin == old(self).admin,
            final(self).rotation_timeout == old(self).rotation_timeout,
            final(self).registration_fee_amount == old(self).registration_fee_amount,
            final(self).data_size_range == old(self).data_size_range,
    {
        self.flags.set_flag(Self::ADMIN, x);
    }

    /// The `admin` value if its flag is set.
    pub fn get_admin(&self) -> (r: Option<Pubkey>)
        ensures
            r == if flag_of(self.flags.raw(), 2) {
                Some(self.admin)
            } else {
                None
            },
    {
        if self.get_admin_flag() {
            Some(self.admin)
        } else {
            None
        }
    }

    /// Stores `admin` and sets its flag, or clears the flag.
    pub fn set_admin(&mut self, x: Option<Pubkey>)
        ensures
            final(self).flags.raw() == with_flag(old(self).flags.raw(), 2, x is Some),
            final(self).admin == match x {
                Some(v) => v,
                None => old(self).admin,
            },
            final(self).rotation_timeout == old(self).rotation_timeout,
            final(self).registration_fee_amount == old(self).registration_fee_amount,
            final(self).data_size_range == old(self).data_size_range,
    {
        match x {
            Some(x) => {
                self.set_admin_flag(true);
                self.admin = x;
            },
            None => {
                self.set_admin_flag(false);
            },
        }
    }

    /// Whether the `rotation_timeout` flag is set.
    fn get_rotation_timeout_flag(&self) -> (r: bool)
        ensures
            r == flag_of(self.flags.raw(), 3),
    {
        self.flags.get_flag(Self::ROTATION_TIMEOUT)
    }

    /// Sets the `rotation_timeout` flag.
    fn set_rotation_timeout_flag(&mut self, x: bool)
        ensures
            final(self).flags.raw() == with_flag(old(self).flags.raw(), 3, x),
            final(self).admin == old(self).admin,
            final(self).rotation_timeout == old(self).rotation_timeout,
            final(self).registration_fee_amount == old(self).registration_fee_amount,
            final(self).data_size_range == old(self).data_size_range,
    {
        self.flags.set_flag(Self::ROTATION_TIMEOUT, x);
    }

    /// The `rotation_timeout` value if its flag is set.
    pub fn get_rotation_timeout(&self) -> (r: Option<Uint32>)
        ensures
            r == if flag_of(self.flags.raw(), 3) {
                Some(self.rotation_timeout)
            } else {
                None
            },
    {
        if self.get_rotation_timeout_flag() {
            Some(self.rotation_timeout)
        } else {
            None
        }
    }

    /// Stores `rotation_timeout` and sets its flag, or clears the flag.
    pub fn set_rotation_timeout(&mut self, x: Option<Uint32>)
        ensures
            final(self).flags.raw() == with_flag(old(self).flags.raw(), 3, x is Some),
            final(self).rotation_timeout == match x {
                Some(v) => v,
                None => old(self).rotation_timeout,
            },
            final(self).admin == old(self).admin,
            final(self).registration_fee_amount == old(self).registration_fee_amount,
            final(self).data_size_range == old(self).data_size_range,
    {
        match x {
            Some(x) => {
                self.set_rotation_timeout_flag(true);
                self.rotation_timeout = x;
            },
            None => {
                self.set_rotation_timeout_flag(false);
            },
        }
    }

    /// Whether the `registration_fee_amount` flag is set.
    fn get_registration_fee_amount_flag(&self) -> (r: bool)
        ensures
            r == flag_of(self.flags.raw(), 4),
    {
        self.flags.get_flag(Self::REGISTRATION_FEE_AMOUNT)
    }

    /// Sets the `registration_fee_amount` flag.
    fn set_registration_fee_amount_flag(&mut self, x: bool)
        ensures
            final(self).flags.raw() == with_flag(old(self).flags.raw(), 4, x),
            final(self).admin == old(self).admin,
            final(self).rotation_timeout == old(self).rotation_timeout,
            final(self).registration_fee_amount == old(self).registration_fee_amount,
            final(self).data_size_range == old(self).data_size_range,
    {
        self.flags.set_flag(Self::REGISTRATION_FEE_AMOUNT, x);
    }

    /// The `registration_fee_amount` value if its flag is set.
    pub fn get_registration_fee_amount(&self) -> (r: Option<Uint64>)
        ensures
            r == if flag_of(self.flags.raw(), 4) {
                Some(self.registration_fee_amount)
            } else {
                None
            },
    {
        if self.get_registration_fee_amount_flag() {
            Some(self.registration_fee_amount)
        } else {
            None
        }
    }

    /// Stores `registration_fee_amount` and sets its flag, or clears the flag.
    pub fn set_registration_fee_amount(&mut self, x: Option<Uint64>)
        ensures
            final(self).flags.raw() == with_flag(old(self).flags.raw(), 4, x is Some),
            final(self).registration_fee_amount == match x {
                Some(v) => v,
                None => old(self).registration_fee_amount,
            },
            final(self).admin == old(self).admin,
            final(self).rotation_timeout == old(self).rotation_timeout,
            final(self).data_size_range == old(self).data_size_range,
    {
        match x {
            Some(x) => {
                self.set_registration_fee_amount_flag(true);
                self.registration_fee_amount = x;
            },
            None => {
                self.set_registration_fee_amount_flag(false);
            },
        }
    }

    /// Whether the `data_size_range` flag is set.
    fn get_data_size_range_flag(&self) -> (r: bool)
        ensures
            r == flag_of(self.flags.raw(), 5),
    {
        self.flags.get_flag(Self::DATA_SIZE_RANGE)
    }

    /// Sets the `data_size_range` flag.
    fn set_data_size_range_flag(&mut self, x: bool)
        ensures
            final(self).flags.raw() == with_flag(old(self).flags.raw(), 5, x),
            final(self).admin == old(self).admin,
            final(self).rotation_timeout == old(self).rotation_timeout,
            final(self).registration_fee_amount == old(self).registration_fee_amount,
            final(self).data_size_range == old(self).data_size_range,
    {
        self.flags.set_flag(Self::DATA_SIZE_RANGE, x);
    }

    /// The `data_size_range` value if its flag is set.
    pub fn get_data_size_range(&self) -> (r: Option<Range>)
        ensures
            r == if flag_of(self.flags.raw(), 5) {
                Some(self.data_size_range)
            } else {
                None
            },
    {
        if self.get_data_size_range_flag() {
            Some(self.data_size_range)
        } else {
            None
        }
    }

    /// Stores `data_size_range` and sets its flag, or clears the flag.
    pub fn set_data_size_range(&mut self, x: Option<Range>)
        ensures
            final(self).flags.raw() == with_flag(old(self).flags.raw(), 5, x is Some),
            final(self).data_size_range == match x {
                Some(v) => v,
                None => old(self).data_size_range,
            },
            final(self).admin == old(self).admin,
            final(self).rotation_timeout == old(self).rotation_timeout,
            final(self).registration_fee_amount == old(self).registration_fee_amount,
    {
        match x {
            Some(x) => {
                self.set_data_size_range_flag(true);
                self.data_size_range = x;
            },
            None => {
                self.set_data_size_range_flag(false);
            },
        }
    }

    /// Whether a pause setting is given.
    pub fn is_paused(&self) -> (r: bool)
        ensures
            r == flag_of(self.flags.raw(), 0),
    {
        self.flags.get_flag(Self::_IS_PAUSED)
    }

    /// Whether a new admin is given.
    pub fn is_admin(&self) -> (r: bool)
        ensures
            r == flag_of(self.flags.raw(), 2),
    {
        self.flags.get_flag(Self::ADMIN)
    }

    pub fn set_is_admin(&mut self, flag: bool)
        ensures
            final(self).flags.raw() == with_flag(old(self).flags.raw(), 2, flag),
            final(self).admin == old(self).admin,
            final(self).rotation_timeout == old(self).rotation_timeout,
            final(self).registration_fee_amount == old(self).registration_fee_amount,
            final(self).data_size_range == old(self).data_size_range,
    {
        self.flags.set_flag(Self::ADMIN, flag);
    }

    /// Whether a rotation timeout is given.
    pub fn is_rotation_timeout(&self) -> (r: bool)
        ensures
            r == flag_of(self.flags.raw(), 3),
    {
        self.flags.get_flag(Self::ROTATION_TIMEOUT)
    }

    pub fn set_is_rotation_timeout(&mut self, flag: bool)
        ensures
            final(self).flags.raw() == with_flag(old(self).flags.raw(), 3, flag),
            final(self).admin == old(self).admin,
            final(self).rotation_timeout == old(self).rotation_timeout,
            final(self).registration_fee_amount == old(self).registration_fee_amount,
            final(self).data_size_range == old(self).data_size_range,
    {
        self.flags.set_flag(Self::ROTATION_TIMEOUT, flag);
    }

    /// Whether a registration fee amount is given.
    pub fn is_registration_fee_amount(&self) -> (r: bool)
        ensures
            r == flag_of(self.flags.raw(), 4),
    {
        self.flags.get_flag(Self::REGISTRATION_FEE_AMOUNT)
    }

    pub fn set_is_registration_fee_amount(&mut self, flag: bool)
        ensures
            final(self).flags.raw() == with_flag(old(self).flags.raw(), 4, flag),
            final(self).admin == old(self).admin,
            final(self).rotation_timeout == old(self).rotation_timeout,
            final(self).registration_fee_amount == old(self).registration_fee_amount,
            final(self).data_size_range == old(self).data_size_range,
    {
        self.flags.set_flag(Self::REGISTRATION_FEE_AMOUNT, flag);
    }

    /// Whether a data size range is given.
    pub fn is_data_size_range(&self) -> (r: bool)
        ensures
            r == flag_of(self.flags.raw(), 5),
    {
        self.flags.get_flag(Self::DATA_SIZE_RANGE)
    }

    pub fn set_is_data_size_range(&mut self, flag: bool)
        ensures
            final(self).flags.raw() == with_flag(old(self).flags.raw(), 5, flag),
            final(self).admin == old(self).admin,
            final(self).rotation_timeout == old(self).rotation_timeout,
            final(self).registration_fee_amount == old(self).registration_fee_amount,
            final(self).data_size_range == old(self).data_size_range,
    {
        self.flags.set_flag(Self::DATA_SIZE_RANGE, flag);
    }
}

impl InstructionSerialize for InstructionData {
    open spec fn serialized(&self) -> Seq<u8> {
        seq![Discriminator::UpdateConfig.spec_byte()] + self.bytes()
    }

    fn serialize(&self) -> (r: Result<Vec<u8>>) {
        let mut out: Vec<u8> = Vec::new();
        out.push(Discriminator::UpdateConfig.to_u8());
        let body = self.to_bytes();
        append_bytes(&mut out, body.as_slice());
        assert(out@ =~= self.serialized());
        Ok(out)
    }
}

impl DataLen for InstructionData {
    open spec fn spec_data_len() -> nat {
        53
    }

    fn data_len() -> (r: usize) {
        Self::LEN
    }
}

impl Default for InstructionData {
    fn default() -> (r: Self)
        ensures
            r.bytes() == Seq::new(53, |i: int| 0u8),
    {
        let r = InstructionData { flags: BitField::default(), admin: [0u8; 32], rotation_timeout: Uint32::default(), registration_fee_amount: Uint64::default(), data_size_range: Range::default() };
        assert(r.bytes() =~= Seq::new(53, |i: int| 0u8));
        r
    }
}

/// The layout of the data is one to one with its value.
pub proof fn lemma_bytes_injective(a: InstructionData, b: InstructionData)
    requires
        a.bytes() == b.bytes(),
    ensures
        a == b,
{
    assert(a.flags.raw() == a.bytes()[0]);
    assert(b.flags.raw() == b.bytes()[0]);
    BitField::lemma_from_raw_raw(a.flags);
    BitField::lemma_from_raw_raw(b.flags);
    assert(a.admin@ =~= a.bytes().subrange(1, 33));
    assert(b.admin@ =~= b.bytes().subrange(1, 33));
    assert(a.admin =~= b.admin);
    assert(a.rotation_timeout.bytes() =~= a.bytes().subrange(33, 37));
    assert(b.rotation_timeout.bytes() =~= b.bytes().subrange(33, 37));
    a.rotation_timeout.lemma_bytes_injective(b.rotation_timeout);
    assert(a.registration_fee_amount.bytes() =~= a.bytes().subrange(37, 45));
    assert(b.registration_fee_amount.bytes() =~= b.bytes().subrange(37, 45));
    a.registration_fee_amount.lemma_bytes_injective(b.registration_fee_amount);
    assert(a.data_size_range.bytes() =~= a.bytes().subrange(45, 53));
    assert(b.data_size_range.bytes() =~= b.bytes().subrange(45, 53));
    lemma_range_bytes_injective(a.data_size_range, b.data_size_range);
}

/// The data whose layout is `b`.
pub open spec fn data_of(b: Seq<u8>) -> InstructionData {
    choose|c: InstructionData| c.bytes() == b
}

/// Reading back the layout of the data gives the data.
pub proof fn lemma_data_of(c: InstructionData)
    ensures
        data_of(c.bytes()) == c,
{
    lemma_bytes_injective(data_of(c.bytes()), c);
}

} // verus!
