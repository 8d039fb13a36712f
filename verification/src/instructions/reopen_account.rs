//! Data of the instruction that reopens a closed user account with a new
//! capacity.

use crate::error::{ProgramError, Result};
use crate::instructions::InstructionSerialize;
use crate::state::Discriminator;
use crate::layout::{DataLen, append_bytes, append_uint32, read_uint32};
use crate::types::{Uint32};
use vstd::prelude::*;

verus! {

broadcast use {
    vstd::array::group_array_axioms,
    Uint32::lemma_bytes_len,
};

#[derive(Debug, Clone, Copy, PartialEq, Eq)]
pub struct InstructionData {
    pub max_data_size: Uint32,
}

impl InstructionData {
    pub const LEN: usize = 4;

    /// The layout bytes, fields in declaration order.
    pub open spec fn bytes(self) -> Seq<u8> {
        self.max_data_size.bytes()
    }

    pub fn to_bytes(&self) -> (r: Vec<u8>)
        ensures
            r@ == self.bytes(),
    {
        let mut out: Vec<u8> = Vec::new();
        append_uint32(&mut out, &self.max_data_size);
        assert(out@ =~= self.bytes());
        out
    }

    /// Reads the data from exactly `Self::LEN` bytes.
    pub fn from_bytes(data: &[u8]) -> (r: Result<Self>)
        ensures
            r is Ok <==> data@.len() == Self::LEN,
            r is Err ==> r == Err::<Self, ProgramError>(ProgramError::InvalidAccountData),
            r matches Ok(v) ==> v.bytes() == data@,
    {
        if data.len() != Self::LEN {
            return Err(ProgramError::InvalidAccountData);
        }
        let v = InstructionData {
            max_data_size: read_uint32(data, 0),
        };
        assert(v.bytes() =~= data@);
        Ok(v)
    }

    /// The requested capacity.
    pub fn max_data_size(&self) -> (r: u32)
        ensures
            r == self.max_data_size.value(),
    {
        self.max_data_size.get()
    }

    pub fn set_max_data_size(&mut self, value: u32)
        ensures
            final(self).max_data_size.value() == value,
    {
        self.max_data_size.set(value);
    }
}

impl InstructionSerialize for InstructionData {
    open spec fn serialized(&self) -> Seq<u8> {
        seq![Discriminator::ReopenAccount.spec_byte()] + self.bytes()
    }

    fn serialize(&self) -> (r: Result<Vec<u8>>) {
        let mut out: Vec<u8> = Vec::new();
        out.push(Discriminator::ReopenAccount.to_u8());
        let body = self.to_bytes();
        append_bytes(&mut out, body.as_slice());
        assert(out@ =~= self.serialized());
        Ok(out)
    }
}

impl DataLen for InstructionData {
    open spec fn spec_data_len() -> nat {
        4
    }

    fn data_len() -> (r: usize) {
        Self::LEN
    }
}

impl Default for InstructionData {
    fn default() -> (r: Self)
        ensures
            r.bytes() == Seq::new(4, |i: int| 0u8),
    {
        let r = InstructionData { max_data_size: Uint32::default() };
        assert(r.bytes() =~= Seq::new(4, |i: int| 0u8));
        r
    }
}

/// The layout of the data is one to one with its value.
pub proof fn lemma_bytes_injective(a: InstructionData, b: InstructionData)
    requires
        a.bytes() == b.bytes(),
    ensures
        a == b,
{
    assert(a.max_data_size.bytes() =~= a.bytes().subrange(0, 4));
    assert(b.max_data_size.bytes() =~= b.bytes().subrange(0, 4));
    a.max_data_size.lemma_bytes_injective(b.max_data_size);
}

} // verus!
