//! Swap: trade one of the pool's tokens for the other along the constant
//! product curve.
use vstd::prelude::*;

use crate::account::{keys_eq, Account};
use crate::batch::{TokenOp, TRANSFER};
use crate::curve::{self, lemma_swap_keeps_product, lemma_swap_ranges, swap_outcome, SwapResult};
use crate::errors::{amm_err, AmmError, ProgramError};
use crate::pda::{config_address, find_config_address, find_vault_address, vault_address};
use crate::state::{config_load_error, parse_config, Config, ConfigView};

use super::{
    check_expiration, config_signer_seeds, expiration_check, le_u64_at, read_i64, read_u64,
    signer_seeds, BatchPlan,
};

verus! {

/// Bytes of a swap's instruction data.
pub const DATA_LEN: usize = 24;

/// Accounts:
///  0. user           [signer]
///  1. mint_from      []
///  2. mint_to        []
///  3. user_from      [mut]
///  4. user_to        [mut]
///  5. vault_from     [mut]
///  6. vault_to       [mut]
///  7. config         []
///  8. token_program  []
pub struct SwapAccounts<'a> {
    pub user: &'a Account,
    pub mint_from: &'a Account,
    pub mint_to: &'a Account,
    pub user_from: &'a Account,
    pub user_to: &'a Account,
    pub vault_from: &'a Account,
    pub vault_to: &'a Account,
    pub config: &'a Account,
    pub token_program: &'a Account,
}

/// Why the accounts of a swap are refused, if they are.
pub open spec fn swap_accounts_error(accounts: Seq<Account>) -> Option<ProgramError> {
    if accounts.len() < 9 {
        Some(ProgramError::NotEnoughAccountKeys)
    } else if !accounts[0].is_signer {
        Some(amm_err(AmmError::NotSigner))
    } else {
        None
    }
}

/// The accounts hold, in order, the first nine of `accounts`.
pub open spec fn swap_accounts_are(s: SwapAccounts, accounts: Seq<Account>) -> bool {
    &&& *s.user == accounts[0]
    &&& *s.mint_from == accounts[1]
    &&& *s.mint_to == accounts[2]
    &&& *s.user_from == accounts[3]
    &&& *s.user_to == accounts[4]
    &&& *s.vault_from == accounts[5]
    &&& *s.vault_to == accounts[6]
    &&& *s.config == accounts[7]
    &&& *s.token_program == accounts[8]
}

impl<'a> SwapAccounts<'a> {
    pub fn try_from(accounts: &'a [Account]) -> (r: Result<Self, ProgramError>)
        ensures
            match r {
                Ok(s) => swap_accounts_error(accounts@) is None && swap_accounts_are(s, accounts@),
                Err(e) => swap_accounts_error(accounts@) == Some(e),
            },
    {
        if accounts.len() < 9 {
            return Err(ProgramError::NotEnoughAccountKeys);
        }
        let user = &accounts[0];
        if !user.is_signer {
            return Err(AmmError::NotSigner.to_program_error());
        }
        Ok(Self {
            user,
            mint_from: &accounts[1],
            mint_to: &accounts[2],
            user_from: &accounts[3],
            user_to: &accounts[4],
            vault_from: &accounts[5],
            vault_to: &accounts[6],
            config: &accounts[7],
            token_program: &accounts[8],
        })
    }
}

pub struct SwapInstructionData {
    pub amount: u64,
    pub min: u64,
    pub expiration: i64,
}

/// The instruction data holds these values: amount, min and expiration,
/// 8 bytes each, little endian.
pub open spec fn swap_data_is(d: SwapInstructionData, data: Seq<u8>) -> bool {
    &&& d.amount == le_u64_at(data, 0)
    &&& d.min == le_u64_at(data, 8)
    &&& d.expiration == le_u64_at(data, 16) as i64
}

impl SwapInstructionData {
    pub fn try_from(data: &[u8]) -> (r: Result<Self, ProgramError>)
        ensures
            data@.len() < DATA_LEN ==> r is Err && r->Err_0 == ProgramError::InvalidInstructionData,
            data@.len() >= DATA_LEN ==> r is Ok && swap_data_is(r->Ok_0, data@),
    {
        if data.len() < DATA_LEN {
            return Err(ProgramError::InvalidInstructionData);
        }
        Ok(Self { amount: read_u64(data, 0), min: read_u64(data, 8), expiration: read_i64(data, 16) })
    }
}

pub struct Swap<'a> {
    pub accounts: SwapAccounts<'a>,
    pub instruction_data: SwapInstructionData,
}

/// What a swap learns from the token program's accounts and from the clock.
pub struct SwapReads {
    /// The mint of the user's destination token account.
    pub user_to_mint: Result<[u8; 32], ProgramError>,
    /// The current unix time where the clock is read (on chain); `None`
    /// elsewhere, where expiration is not checked.
    pub clock: Option<Result<i64, ProgramError>>,
    /// The balances of the source and destination vaults.
    pub reserves: Result<(u64, u64), ProgramError>,
}

/// The config account lives at the pool's address, and both vaults are the
/// config's associated token accounts for the two mints.
pub open spec fn swap_address_check(a: SwapAccounts, cv: ConfigView) -> Result<(), ProgramError> {
    match config_address(cv.seed, cv.mint_x, cv.mint_y) {
        Err(e) => Err(e),
        Ok((expected, _)) => if expected != a.config.address@ {
            Err(amm_err(AmmError::InvalidPda))
        } else {
            match vault_address(a.config.address@, a.token_program.address@, a.mint_from.address@) {
                Err(e) => Err(e),
                Ok((vault_from, _)) => if vault_from != a.vault_from.address@ {
                    Err(amm_err(AmmError::InvalidVaultAddress))
                } else {
                    match vault_address(
                        a.config.address@,
                        a.token_program.address@,
                        a.mint_to.address@,
                    ) {
                        Err(e) => Err(e),
                        Ok((vault_to, _)) => if vault_to != a.vault_to.address@ {
                            Err(amm_err(AmmError::InvalidVaultAddress))
                        } else {
                            Ok(())
                        },
                    }
                },
            }
        },
    }
}

/// The destination token account holds `mint_to`, and the two mints are the
/// pool's pair, in either order.
pub open spec fn swap_mint_check(a: SwapAccounts, cv: ConfigView, user_to_mint: Result<[u8; 32], ProgramError>) -> Result<(), ProgramError> {
    match user_to_mint {
        Err(e) => Err(e),
        Ok(m) => if m@ != a.mint_to.address@ {
            Err(amm_err(AmmError::InvalidMint))
        } else if !((a.mint_from.address@ == cv.mint_x && a.mint_to.address@ == cv.mint_y) || (
        a.mint_from.address@ == cv.mint_y && a.mint_to.address@ == cv.mint_x)) {
            Err(amm_err(AmmError::InvalidMint))
        } else {
            Ok(())
        },
    }
}

/// What a swap decides: the pool's configuration and the amounts to move, or
/// the error it ends with. The checks come in this order.
pub open spec fn swap_decision(a: SwapAccounts, d: SwapInstructionData, reads: SwapReads) -> Result<(ConfigView, SwapResult), ProgramError> {
    match config_load_error(a.config.owner@, a.config.data@) {
        Some(e) => Err(e),
        None => {
            let cv = parse_config(a.config.data@);
            match swap_address_check(a, cv) {
                Err(e) => Err(e),
                Ok(()) => match swap_mint_check(a, cv, reads.user_to_mint) {
                    Err(e) => Err(e),
                    Ok(()) => if cv.is_locked() {
                        Err(amm_err(AmmError::PoolLocked))
                    } else {
                        match expiration_check(reads.clock, d.expiration) {
                            Err(e) => Err(e),
                            Ok(()) => if d.amount == 0 || d.min == 0 {
                                Err(amm_err(AmmError::InvalidAmount))
                            } else {
                                match reads.reserves {
                                    Err(e) => Err(e),
                                    Ok((reserve_in, reserve_out)) => match swap_outcome(
                                        reserve_in,
                                        reserve_out,
                                        d.amount,
                                        cv.fee,
                                        d.min,
                                    ) {
                                        Err(e) => Err(e),
                                        Ok(res) => Ok((cv, res)),
                                    },
                                }
                            },
                        }
                    },
                },
            }
        },
    }
}

/// The token operations of a swap: the deposit from the user to the source
/// vault, signed by the user; the output from the destination vault to the
/// user, signed by the config account.
pub open spec fn swap_ops(a: SwapAccounts, res: SwapResult) -> Seq<TokenOp> {
    seq![
        TokenOp {
            a: a.user_from.address,
            b: a.vault_from.address,
            authority: a.user.address,
            disc: TRANSFER,
            amount: res.deposit,
        },
        TokenOp {
            a: a.vault_to.address,
            b: a.user_to.address,
            authority: a.config.address,
            disc: TRANSFER,
            amount: res.withdraw,
        },
    ]
}

impl<'a> Swap<'a> {
    pub const DISCRIMINATOR: u8 = 3;

    /// Checks the accounts, then reads the instruction data.
    pub fn try_from(data: &[u8], accounts: &'a [Account]) -> (r: Result<Self, ProgramError>)
        ensures
            match r {
                Ok(s) => swap_accounts_error(accounts@) is None && data@.len() >= DATA_LEN
                    && swap_accounts_are(s.accounts, accounts@) && swap_data_is(
                    s.instruction_data,
                    data@,
                ),
                Err(e) => match swap_accounts_error(accounts@) {
                    Some(a) => e == a,
                    None => data@.len() < DATA_LEN && e == ProgramError::InvalidInstructionData,
                },
            },
    {
        let accounts = match SwapAccounts::try_from(accounts) {
            Ok(a) => a,
            Err(e) => return Err(e),
        };
        let instruction_data = match SwapInstructionData::try_from(data) {
            Ok(d) => d,
            Err(e) => return Err(e),
        };
        Ok(Self { accounts, instruction_data })
    }

    fn check_addresses(&self, config: &Config) -> (r: Result<(), ProgramError>)
        ensures
            r == swap_address_check(self.accounts, config@),
    {
        let a = &self.accounts;
        let expected_config = match find_config_address(config.seed(), config.mint_x(), config.mint_y()) {
            Ok(p) => p,
            Err(e) => return Err(e),
        };
        if !keys_eq(&expected_config.0, &a.config.address) {
            return Err(AmmError::InvalidPda.to_program_error());
        }
        let expected_vault_from = match find_vault_address(
            &a.config.address,
            &a.token_program.address,
            &a.mint_from.address,
        ) {
            Ok(p) => p,
            Err(e) => return Err(e),
        };
        if !keys_eq(&expected_vault_from.0, &a.vault_from.address) {
            return Err(AmmError::InvalidVaultAddress.to_program_error());
        }
        let expected_vault_to = match find_vault_address(
            &a.config.address,
            &a.token_program.address,
            &a.mint_to.address,
        ) {
            Ok(p) => p,
            Err(e) => return Err(e),
        };
        if !keys_eq(&expected_vault_to.0, &a.vault_to.address) {
            return Err(AmmError::InvalidVaultAddress.to_program_error());
        }
        Ok(())
    }

    fn check_mints(&self, config: &Config, user_to_mint: &Result<[u8; 32], ProgramError>) -> (r:
        Result<(), ProgramError>)
        ensures
            r == swap_mint_check(self.accounts, config@, *user_to_mint),
    {
        let a = &self.accounts;
        match user_to_mint {
            Err(e) => return Err(*e),
            Ok(m) => {
                if !keys_eq(m, &a.mint_to.address) {
                    return Err(AmmError::InvalidMint.to_program_error());
                }
            },
        }
        let from_is_x = keys_eq(&a.mint_from.address, config.mint_x());
        let to_is_y = keys_eq(&a.mint_to.address, config.mint_y());
        let from_is_y = keys_eq(&a.mint_from.address, config.mint_y());
        let to_is_x = keys_eq(&a.mint_to.address, config.mint_x());
        if !((from_is_x && to_is_y) || (from_is_y && to_is_x)) {
            return Err(AmmError::InvalidMint.to_program_error());
        }
        Ok(())
    }

    /// Decides the swap: on success, the two transfers to run and the seeds
    /// with which the config account signs the second.
    pub fn process(&self, reads: &SwapReads) -> (r: Result<BatchPlan, ProgramError>)
        ensures
            match swap_decision(self.accounts, self.instruction_data, *reads) {
                Err(e) => r is Err && r->Err_0 == e,
                Ok((cv, res)) => r is Ok && r->Ok_0.ops@ == swap_ops(self.accounts, res)
                    && r->Ok_0.signer_seeds.deep_view() == config_signer_seeds(cv),
            },
    {
        let a = &self.accounts;
        let config = match Config::load(a.config) {
            Ok(c) => c,
            Err(e) => return Err(e),
        };
        match self.check_addresses(&config) {
            Ok(()) => {},
            Err(e) => return Err(e),
        }
        match self.check_mints(&config, &reads.user_to_mint) {
            Ok(()) => {},
            Err(e) => return Err(e),
        }
        if config.locked() {
            return Err(AmmError::PoolLocked.to_program_error());
        }
        match check_expiration(&reads.clock, self.instruction_data.expiration) {
            Ok(()) => {},
            Err(e) => return Err(e),
        }
        if self.instruction_data.amount == 0 || self.instruction_data.min == 0 {
            return Err(AmmError::InvalidAmount.to_program_error());
        }
        let (reserve_in, reserve_out) = match reads.reserves {
            Ok(r) => r,
            Err(e) => return Err(e),
        };
        let result = match curve::swap(
            reserve_in,
            reserve_out,
            self.instruction_data.amount,
            config.fee(),
            self.instruction_data.min,
        ) {
            Ok(res) => res,
            Err(e) => return Err(e),
        };
        let mut ops: Vec<TokenOp> = Vec::new();
        ops.push(TokenOp::transfer(a.user_from, a.vault_from, a.user, result.deposit));
        ops.push(TokenOp::transfer(a.vault_to, a.user_to, a.config, result.withdraw));
        assert(ops@ =~= swap_ops(self.accounts, result));
        Ok(BatchPlan { ops, signer_seeds: signer_seeds(&config) })
    }
}

/// Law: a swap goes through only on an unlocked pool, between its two mints
/// (in either direction), before its deadline where the clock is read. In
/// either direction it charges the pool's stored fee,
/// `amount * fee / 10_000`, and pays the constant-product output
/// `reserve_out * net / (reserve_in + net)` of the rest, at least the asked
/// minimum and less than the reserve it is taken from; the pool's constant
/// product does not fall.
pub proof fn lemma_swap_gates(a: SwapAccounts, d: SwapInstructionData, reads: SwapReads)
    requires
        swap_decision(a, d, reads) is Ok,
    ensures
        ({
            let (cv, res) = swap_decision(a, d, reads)->Ok_0;
            let (reserve_in, reserve_out) = reads.reserves->Ok_0;
            &&& cv == parse_config(a.config.data@)
            &&& !cv.is_locked()
            &&& (a.mint_from.address@ == cv.mint_x && a.mint_to.address@ == cv.mint_y) || (
            a.mint_from.address@ == cv.mint_y && a.mint_to.address@ == cv.mint_x)
            &&& (reads.clock matches Some(Ok(now)) ==> d.expiration > now)
            &&& reads.reserves is Ok
            &&& res.deposit == d.amount > 0
            &&& res.fee == (d.amount as int) * (cv.fee as int) / 10_000
            &&& res.withdraw == (reserve_out as int) * (d.amount - res.fee) / ((reserve_in as int) + (
            d.amount - res.fee))
            &&& d.min <= res.withdraw < reserve_out
            &&& ((reserve_in as int) + res.deposit) * ((reserve_out as int) - res.withdraw) >= (
            reserve_in as int) * (reserve_out as int)
        }),
{
    let cv = parse_config(a.config.data@);
    let (reserve_in, reserve_out) = reads.reserves->Ok_0;
    lemma_swap_keeps_product(reserve_in, reserve_out, d.amount, cv.fee, d.min);
    lemma_swap_ranges(reserve_in, reserve_out, d.amount, cv.fee);
}

} // verus!
