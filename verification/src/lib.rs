//! A constant-product automated market maker for Solana: pool state, the
//! swap curve, the batch encoding of token operations, and each instruction's
//! checks and decisions, with their contracts proved by Verus.
use vstd::prelude::*;

pub mod account;
pub mod batch;
pub mod constants;
pub mod curve;
pub mod errors;
pub mod instructions;
pub mod pda;
pub mod state;

verus! {

/// The address of this program.
pub const ID: [u8; 32] = [
    0xee, 0x4e, 0x1b, 0x65, 0xec, 0x86, 0xc0, 0x1e,
    0xb2, 0x2d, 0xb8, 0xc9, 0xa7, 0x5a, 0xc6, 0x69,
    0x79, 0x62, 0x6b, 0x50, 0x59, 0xe3, 0xa8, 0x89,
    0x02, 0x86, 0x4f, 0xd7, 0x7b, 0x0a, 0x00, 0x9e,
];

} // verus!
