//! Verified core of an on-chain account registry.
//!
//! - Data: bit flags (`bits`), little-endian integer cells and fixed-size
//!   strings (`le`, `types`, `fixed_str`), a field-by-field byte codec
//!   (`codec`), addresses (`pubkey`) and the fixed layouts of the registry's
//!   accounts and instructions (`layout`, `state`, `instructions`).
//! - Checks and decisions: the accounts an instruction sees (`account`,
//!   `accounts`, `guards`), the errors it answers with (`error`), and what
//!   each instruction decides (`program`).
//! - Code generation: what the derive macros and the TypeScript bindings
//!   decide about a declaration (`naming`, `codegen`, `ts`).

pub mod account;
pub mod accounts;
pub mod bits;
pub mod codec;
pub mod codegen;
pub mod error;
pub mod fixed_str;
pub mod guards;
pub mod instructions;
pub mod layout;
pub mod le;
pub mod naming;
pub mod program;
pub mod pubkey;
pub mod state;
pub mod ts;
pub mod types;
