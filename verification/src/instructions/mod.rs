//! Data of the registry's instructions: fixed layouts that follow the
//! discriminator byte, with optional settings marked by flag bits.

pub mod close_account;
pub mod confirm_account_rotation;
pub mod confirm_admin_rotation;
pub mod init;
pub mod reopen_account;
pub mod update_config;
pub mod withdraw_revenue;
pub mod write_data;

use crate::error::Result;
use vstd::prelude::*;

verus! {

/// Instruction data that can be encoded for sending.
pub trait InstructionSerialize {
    /// The encoded instruction: the discriminator byte, then the layout
    /// bytes of the data.
    spec fn serialized(&self) -> Seq<u8>;

    fn serialize(&self) -> (r: Result<Vec<u8>>)
        ensures
            r is Ok,
            r matches Ok(v) ==> v@ == self.serialized(),
    ;
}

} // verus!
