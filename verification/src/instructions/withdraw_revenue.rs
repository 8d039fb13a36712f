//! Data of the instruction that withdraws collected fees: without an amount,
//! the whole balance is withdrawn.

use crate::error::{ProgramError, Result};
use crate::instructions::InstructionSerialize;
use crate::state::Discriminator;
use crate::layout::{DataLen, append_bytes, append_uint64, read_bit_field, read_uint64};
use crate::types::{BitField, Uint64};
use crate::bits::{flag_of, with_flag};
use vstd::prelude::*;

verus! {

broadcast use {
    vstd::array::group_array_axioms,
    Uint64::lemma_bytes_len,
    BitField::lemma_raw_from_raw,
};

#[derive(Debug, Clone, Copy, PartialEq, Eq)]
pub struct InstructionData {
    /// Whether an amount is given.
    pub flags: BitField,
    pub amount: Uint64,
}

impl InstructionData {
    pub const LEN: usize = 9;
    const AMOUNT: u8 = 0;

    /// The layout bytes, fields in declaration order.
    pub open spec fn bytes(self) -> Seq<u8> {
        seq![self.flags.raw()] + self.amount.bytes()
    }

    pub fn to_bytes(&self) -> (r: Vec<u8>)
        ensures
            r@ == self.bytes(),
    {
        let mut out: Vec<u8> = Vec::new();
        out.push(self.flags.get_raw());
        append_uint64(&mut out, &self.amount);
        assert(out@ =~= self.bytes());
        out
    }

    /// Reads the data from exactly `Self::LEN` bytes.
    pub fn from_bytes(data: &[u8]) -> (r: Result<Self>)
        ensures
            r is Ok <==> data@.len() == Self::LEN,
            r is Err ==> r == Err::<Self, ProgramError>(ProgramError::InvalidAccountData),
            r matches Ok(v) ==> v.bytes() == data@,
    {
        if data.len() != Self::LEN {
            return Err(ProgramError::InvalidAccountData);
        }
        let v = InstructionData {
            flags: read_bit_field(data, 0),
            amount: read_uint64(data, 1),
        };
        assert(v.bytes() =~= data@);
        Ok(v)
    }

    /// Whether the `amount` flag is set.
    fn get_amount_flag(&self) -> (r: bool)
        ensures
            r == flag_of(self.flags.raw(), 0),
    {
        self.flags.get_flag(Self::AMOUNT)
    }

    /// Sets the `amount` flag.
    fn set_amount_flag(&mut self, x: bool)
        ensures
            final(self).flags.raw() == with_flag(old(self).flags.raw(), 0, x),
            final(self).amount == old(self).amount,
    {
        self.flags.set_flag(Self::AMOUNT, x);
    }

    /// The `amount` value if its flag is set.
    pub fn get_amount(&self) -> (r: Option<Uint64>)
        ensures
            r == if flag_of(self.flags.raw(), 0) {
                Some(self.amount)
            } else {
                None
            },
    {
        if self.get_amount_flag() {
            Some(self.amount)
        } else {
            None
        }
    }

    /// Stores `amount` and sets its flag, or clears the flag.
    pub fn set_amount(&mut self, x: Option<Uint64>)
        ensures
            final(self).flags.raw() == with_flag(old(self).flags.raw(), 0, x is Some),
            final(self).amount == match x {
                Some(v) => v,
                None => old(self).amount,
            },
    {
        match x {
            Some(x) => {
                self.set_amount_flag(true);
                self.amount = x;
            },
            None => {
                self.set_amount_flag(false);
            },
        }
    }

    /// The stored amount, whether or not its flag is set.
    pub fn amount(&self) -> (r: u64)
        ensures
            r == self.amount.value(),
    {
        self.amount.get()
    }

    /// Whether an amount is given.
    pub fn is_amount(&self) -> (r: bool)
        ensures
            r == flag_of(self.flags.raw(), 0),
    {
        self.get_amount_flag()
    }

    pub fn set_is_amount(&mut self, flag: bool)
        ensures
            final(self).flags.raw() == with_flag(old(self).flags.raw(), 0, flag),
            final(self).amount == old(self).amount,
    {
        self.set_amount_flag(flag);
    }
}

impl InstructionSerialize for InstructionData {
    open spec fn serialized(&self) -> Seq<u8> {
        seq![Discriminator::WithdrawRevenue.spec_byte()] + self.bytes()
    }

    fn serialize(&self) -> (r: Result<Vec<u8>>) {
        let mut out: Vec<u8> = Vec::new();
        out.push(Discriminator::WithdrawRevenue.to_u8());
        let body = self.to_bytes();
        append_bytes(&mut out, body.as_slice());
        assert(out@ =~= self.serialized());
        Ok(out)
    }
}

impl DataLen for InstructionData {
    open spec fn spec_data_len() -> nat {
        9
    }

    fn data_len() -> (r: usize) {
        Self::LEN
    }
}

impl Default for InstructionData {
    fn default() -> (r: Self)
        ensures
            r.bytes() == Seq::new(9, |i: int| 0u8),
    {
        let r = InstructionData { flags: BitField::default(), amount: Uint64::default() };
        assert(r.bytes() =~= Seq::new(9, |i: int| 0u8));
        r
    }
}

/// The layout of the data is one to one with its value.
pub proof fn lemma_bytes_injective(a: InstructionData, b: InstructionData)
    requires
        a.bytes() == b.bytes(),
    ensures
        a == b,
{
    assert(a.flags.raw() == a.bytes()[0]);
    assert(b.flags.raw() == b.bytes()[0]);
    BitField::lemma_from_raw_raw(a.flags);
    BitField::lemma_from_raw_raw(b.flags);
    assert(a.amount.bytes() =~= a.bytes().subrange(1, 9));
    assert(b.amount.bytes() =~= b.bytes().subrange(1, 9));
    a.amount.lemma_bytes_injective(b.amount);
}

/// The data whose layout is `b`.
pub open spec fn data_of(b: Seq<u8>) -> InstructionData {
    choose|c: InstructionData| c.bytes() == b
}

/// Reading back the layout of the data gives the data.
pub proof fn lemma_data_of(c: InstructionData)
    ensures
        data_of(c.bytes()) == c,
{
    lemma_bytes_injective(data_of(c.bytes()), c);
}

} // verus!
