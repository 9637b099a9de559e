//! The pool's instructions: how each one checks its accounts and data, and
//! what it decides to write or to ask of the token program.
use vstd::prelude::*;
use vstd::bytes::*;
use vstd::slice::slice_subrange;

use crate::batch::TokenOp;
use crate::errors::{amm_err, AmmError, ProgramError};
use crate::pda::{config_seed_vecs, config_seeds, push_bump};
use crate::state::{Config, ConfigView};

pub mod config_actions;
pub mod initialize;
pub mod swap;
pub mod withdraw;

verus! {

/// The token operations an instruction ends with, and the seeds with which
/// the pool's config account signs them.
pub struct BatchPlan {
    pub ops: Vec<TokenOp>,
    pub signer_seeds: Vec<Vec<u8>>,
}

/// Seeds with which the config account signs: its address seeds and its bump.
pub open spec fn config_signer_seeds(cv: ConfigView) -> Seq<Seq<u8>> {
    config_seeds(cv.seed, cv.mint_x, cv.mint_y).push(seq![cv.bump])
}

/// The seeds with which the config account signs.
pub fn signer_seeds(config: &Config) -> (r: Vec<Vec<u8>>)
    ensures
        r.deep_view() == config_signer_seeds(config@),
{
    let mut seeds = config_seed_vecs(config.seed(), config.mint_x(), config.mint_y());
    push_bump(&mut seeds, config.bump());
    seeds
}

/// The `u64` stored little endian at `off..off + 8`.
pub open spec fn le_u64_at(data: Seq<u8>, off: int) -> u64 {
    spec_u64_from_le_bytes(data.subrange(off, off + 8))
}

/// The `u16` stored little endian at `off..off + 2`.
pub open spec fn le_u16_at(data: Seq<u8>, off: int) -> u16 {
    spec_u16_from_le_bytes(data.subrange(off, off + 2))
}

/// Reads the `u64` stored little endian at `off`.
pub fn read_u64(data: &[u8], off: usize) -> (r: u64)
    requires
        off + 8 <= data@.len(),
    ensures
        r == le_u64_at(data@, off as int),
{
    let _len = data.len();
    u64_from_le_bytes(slice_subrange(data, off, off + 8))
}

/// Reads the `i64` stored little endian (two's complement) at `off`.
pub fn read_i64(data: &[u8], off: usize) -> (r: i64)
    requires
        off + 8 <= data@.len(),
    ensures
        r == le_u64_at(data@, off as int) as i64,
{
    read_u64(data, off) as i64
}

/// Reads the `u16` stored little endian at `off`.
pub fn read_u16(data: &[u8], off: usize) -> (r: u16)
    requires
        off + 2 <= data@.len(),
    ensures
        r == le_u16_at(data@, off as int),
{
    let _len = data.len();
    u16_from_le_bytes(slice_subrange(data, off, off + 2))
}

/// The deadline check of an offer: `clock` is the current unix time where the
/// clock is read (on chain), and `None` where it is not.
pub open spec fn expiration_check(clock: Option<Result<i64, ProgramError>>, expiration: i64) -> Result<(), ProgramError> {
    match clock {
        None => Ok(()),
        Some(Err(e)) => Err(e),
        Some(Ok(now)) => if expiration <= now {
            Err(amm_err(AmmError::OfferExpired))
        } else {
            Ok(())
        },
    }
}

/// Refuses an offer whose deadline has passed.
pub fn check_expiration(clock: &Option<Result<i64, ProgramError>>, expiration: i64) -> (r: Result<(), ProgramError>)
    ensures
        r == expiration_check(*clock, expiration),
{
    match clock {
        None => Ok(()),
        Some(Err(e)) => Err(*e),
        Some(Ok(now)) => {
            if expiration <= *now {
                Err(AmmError::OfferExpired.to_program_error())
            } else {
                Ok(())
            }
        },
    }
}

/// The instruction an instruction's first byte selects.
#[derive(Clone, Copy, PartialEq, Eq, Debug)]
pub enum InstructionKind {
    Initialize,
    Deposit,
    Withdraw,
    Swap,
    UpdateAuthority,
    UpdateFee,
    UpdateLock,
    RemoveAuthority,
}

/// The instruction selected by discriminator `d`, if any: 0 Initialize,
/// 1 Deposit, 2 Withdraw, 3 Swap, 4 UpdateAuthority, 5 UpdateFee,
/// 6 UpdateLock, 7 RemoveAuthority.
pub open spec fn kind_of(d: u8) -> Option<InstructionKind> {
    if d == 0 {
        Some(InstructionKind::Initialize)
    } else if d == 1 {
        Some(InstructionKind::Deposit)
    } else if d == 2 {
        Some(InstructionKind::Withdraw)
    } else if d == 3 {
        Some(InstructionKind::Swap)
    } else if d == 4 {
        Some(InstructionKind::UpdateAuthority)
    } else if d == 5 {
        Some(InstructionKind::UpdateFee)
    } else if d == 6 {
        Some(InstructionKind::UpdateLock)
    } else if d == 7 {
        Some(InstructionKind::RemoveAuthority)
    } else {
        None
    }
}

/// Splits instruction data into the instruction its first byte selects and
/// the rest of the data; empty data or an unknown first byte is
/// `InvalidInstructionData`.
pub fn split_instruction(data: &[u8]) -> (r: Result<(InstructionKind, &[u8]), ProgramError>)
    ensures
        data@.len() == 0 ==> r is Err && r->Err_0 == ProgramError::InvalidInstructionData,
        data@.len() > 0 && kind_of(data@[0]) is None ==> r is Err && r->Err_0
            == ProgramError::InvalidInstructionData,
        data@.len() > 0 && kind_of(data@[0]) is Some ==> r is Ok && r->Ok_0.0 == kind_of(
            data@[0],
        )->Some_0 && r->Ok_0.1@ == data@.subrange(1, data@.len() as int),
{
    if data.len() == 0 {
        return Err(ProgramError::InvalidInstructionData);
    }
    let kind = match data[0] {
        0 => InstructionKind::Initialize,
        1 => InstructionKind::Deposit,
        2 => InstructionKind::Withdraw,
        3 => InstructionKind::Swap,
        4 => InstructionKind::UpdateAuthority,
        5 => InstructionKind::UpdateFee,
        6 => InstructionKind::UpdateLock,
        7 => InstructionKind::RemoveAuthority,
        _ => return Err(ProgramError::InvalidInstructionData),
    };
    Ok((kind, slice_subrange(data, 1, data.len())))
}

} // verus!
