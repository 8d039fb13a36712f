//! What the registry reads of an account handed to an instruction, and the
//! addresses and sizes of the programs it works with.

use crate::pubkey::Pubkey;
use vstd::prelude::*;

verus! {

/// An account as an instruction sees it: its address, the program that owns
/// it, its balance, its data and how it was passed.
#[derive(Debug, PartialEq, Eq)]
pub struct AccountState {
    pub key: Pubkey,
    pub owner: Pubkey,
    pub lamports: u64,
    pub data: Vec<u8>,
    pub is_signer: bool,
    pub is_writable: bool,
    pub executable: bool,
}

/// Bytes of the system program's address (`11111111111111111111111111111111`).
pub open spec fn system_program_address() -> Seq<u8> {
    Seq::new(32, |i: int| 0u8)
}

/// Bytes of the token program's address
/// (`TokenkegQfeZyiNwAJbNbGKPFXCWuBvf9Ss623VQ5DA`).
pub open spec fn token_program_address() -> Seq<u8> {
    seq![
        6u8, 221, 246, 225, 215, 101, 161, 147, 217, 203, 225, 70, 206, 235, 121, 172,
        28, 180, 133, 237, 95, 91, 55, 145, 58, 140, 245, 133, 126, 255, 0, 169,
    ]
}

/// `pinocchio_system::ID`, declared from the base58 text
/// `11111111111111111111111111111111`, which decodes to 32 zero bytes.
#[verifier::external_body]
pub(crate) fn system_program_id() -> (r: Pubkey)
    ensures
        r@ == system_program_address(),
{
    pinocchio_system::ID
}

/// `pinocchio_token::ID`, declared from the base58 text
/// `TokenkegQfeZyiNwAJbNbGKPFXCWuBvf9Ss623VQ5DA`; the contract gives its
/// decoded bytes.
#[verifier::external_body]
pub(crate) fn token_program_id() -> (r: Pubkey)
    ensures
        r@ == token_program_address(),
{
    pinocchio_token::ID
}

/// `pinocchio_token::state::Mint::LEN`: the size of the `repr(C)` mint
/// layout of byte-array fields (4 + 32 + 8 + 1 + 1 + 4 + 32 bytes).
#[verifier::external_body]
pub(crate) fn mint_len() -> (r: usize)
    ensures
        r == 82,
{
    pinocchio_token::state::Mint::LEN
}

/// `pinocchio_token::state::TokenAccount::LEN`: the size of the `repr(C)`
/// token-account layout of byte-array fields
/// (32 + 32 + 8 + 4 + 32 + 1 + 4 + 8 + 8 + 4 + 32 bytes).
#[verifier::external_body]
pub(crate) fn token_account_len() -> (r: usize)
    ensures
        r == 165,
{
    pinocchio_token::state::TokenAccount::LEN
}

} // verus!
