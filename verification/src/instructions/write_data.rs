//! Data of the instruction that stores encrypted user data.

use crate::error::{ProgramError, Result};
use crate::instructions::InstructionSerialize;
use crate::state::Discriminator;
use crate::layout::{DataLen, append_bytes, append_uint64, read_array_4096, read_uint64};
use crate::types::{Uint64};
use crate::fixed_str::String4096;
use vstd::prelude::*;

verus! {

broadcast use {
    vstd::array::group_array_axioms,
    Uint64::lemma_bytes_len,
    String4096::lemma_bytes_len,
};

#[derive(Debug, Clone, Copy, PartialEq, Eq)]
pub struct InstructionData {
    pub data: String4096,
    pub nonce: Uint64,
}

impl InstructionData {
    pub const LEN: usize = 4104;

    /// The layout bytes, fields in declaration order.
    pub open spec fn bytes(self) -> Seq<u8> {
        self.data.bytes() + self.nonce.bytes()
    }

    pub fn to_bytes(&self) -> (r: Vec<u8>)
        ensures
            r@ == self.bytes(),
    {
        let mut out: Vec<u8> = Vec::new();
        append_bytes(&mut out, self.data.get_raw().as_slice());
        append_uint64(&mut out, &self.nonce);
        assert(out@ =~= self.bytes());
        out
    }

    /// Reads the data from exactly `Self::LEN` bytes.
    pub fn from_bytes(data: &[u8]) -> (r: Result<Self>)
        ensures
            r is Ok <==> data@.len() == Self::LEN,
            r is Err ==> r == Err::<Self, ProgramError>(ProgramError::InvalidAccountData),
            r matches Ok(v) ==> v.bytes() == data@,
    {
        if data.len() != Self::LEN {
            return Err(ProgramError::InvalidAccountData);
        }
        let v = InstructionData {
            data: String4096::from_array(read_array_4096(data, 0)),
            nonce: read_uint64(data, 4096),
        };
        assert(v.bytes() =~= data@);
        Ok(v)
    }
}

impl InstructionSerialize for InstructionData {
    open spec fn serialized(&self) -> Seq<u8> {
        seq![Discriminator::WriteData.spec_byte()] + self.bytes()
    }

    fn serialize(&self) -> (r: Result<Vec<u8>>) {
        let mut out: Vec<u8> = Vec::new();
        out.push(Discriminator::WriteData.to_u8());
        let body = self.to_bytes();
        append_bytes(&mut out, body.as_slice());
        assert(out@ =~= self.serialized());
        Ok(out)
    }
}

impl DataLen for InstructionData {
    open spec fn spec_data_len() -> nat {
        4104
    }

    fn data_len() -> (r: usize) {
        Self::LEN
    }
}

impl Default for InstructionData {
    fn default() -> (r: Self)
        ensures
            r.bytes() == Seq::new(4104, |i: int| 0u8),
    {
        let r = InstructionData { data: String4096::from_array([0u8; 4096]), nonce: Uint64::default() };
        assert(r.bytes() =~= Seq::new(4104, |i: int| 0u8));
        r
    }
}

/// The layout of the data is one to one with its value.
pub proof fn lemma_bytes_injective(a: InstructionData, b: InstructionData)
    requires
        a.bytes() == b.bytes(),
    ensures
        a == b,
{
    assert(a.data.bytes() =~= a.bytes().subrange(0, 4096));
    assert(b.data.bytes() =~= b.bytes().subrange(0, 4096));
    a.data.lemma_bytes_injective(b.data);
    assert(a.nonce.bytes() =~= a.bytes().subrange(4096, 4104));
    assert(b.nonce.bytes() =~= b.bytes().subrange(4096, 4104));
    a.nonce.lemma_bytes_injective(b.nonce);
}

} // verus!
