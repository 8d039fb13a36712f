//! Data of the instruction with which a proposed admin accepts the role.

use crate::error::{ProgramError, Result};
use crate::instructions::InstructionSerialize;
use crate::state::Discriminator;
use crate::layout::{DataLen, append_bytes};
use vstd::prelude::*;

verus! {

broadcast use {
    vstd::array::group_array_axioms,
};

#[derive(Debug, Clone, Copy, PartialEq, Eq)]
pub struct InstructionData {
}

impl InstructionData {
    pub const LEN: usize = 0;

    /// The layout bytes, fields in declaration order.
    pub open spec fn bytes(self) -> Seq<u8> {
        Seq::empty()
    }

    pub fn to_bytes(&self) -> (r: Vec<u8>)
        ensures
            r@ == self.bytes(),
    {
        let mut out: Vec<u8> = Vec::new();
        assert(out@ =~= self.bytes());
        out
    }

    /// Reads the data from exactly `Self::LEN` bytes.
    pub fn from_bytes(data: &[u8]) -> (r: Result<Self>)
        ensures
            r is Ok <==> data@.len() == Self::LEN,
            r is Err ==> r == Err::<Self, ProgramError>(ProgramError::InvalidAccountData),
            r matches Ok(v) ==> v.bytes() == data@,
    {
        if data.len() != Self::LEN {
            return Err(ProgramError::InvalidAccountData);
        }
        let v = InstructionData {};
        assert(v.bytes() =~= data@);
        Ok(v)
    }
}

impl InstructionSerialize for InstructionData {
    open spec fn serialized(&self) -> Seq<u8> {
        seq![Discriminator::ConfirmAdminRotation.spec_byte()] + self.bytes()
    }

    fn serialize(&self) -> (r: Result<Vec<u8>>) {
        let mut out: Vec<u8> = Vec::new();
        out.push(Discriminator::ConfirmAdminRotation.to_u8());
        let body = self.to_bytes();
        append_bytes(&mut out, body.as_slice());
        assert(out@ =~= self.serialized());
        Ok(out)
    }
}

impl DataLen for InstructionData {
    open spec fn spec_data_len() -> nat {
        0
    }

    fn data_len() -> (r: usize) {
        Self::LEN
    }
}

impl Default for InstructionData {
    fn default() -> (r: Self)
        ensures
            r.bytes() == Seq::new(0, |i: int| 0u8),
    {
        let r = InstructionData {};
        assert(r.bytes() =~= Seq::new(0, |i: int| 0u8));
        r
    }
}

/// The layout of the data is one to one with its value.
pub proof fn lemma_bytes_injective(a: InstructionData, b: InstructionData)
    requires
        a.bytes() == b.bytes(),
    ensures
        a == b,
{
}

} // verus!
