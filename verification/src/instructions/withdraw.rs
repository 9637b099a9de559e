//! Withdraw: burn LP tokens for a proportional share of both vaults.
use vstd::prelude::*;
use vstd::arithmetic::div_mod::*;

use crate::account::{keys_eq, Account};
use crate::batch::{TokenOp, BURN, TRANSFER};
use crate::constants::MINIMUM_LIQUIDITY;
use crate::errors::{amm_err, AmmError, ProgramError};
use crate::pda::{
    config_address, find_config_address, find_lp_mint_address, find_vault_address, lp_mint_address,
    vault_address,
};
use crate::state::{config_load_error, parse_config, Config, ConfigView};

use super::{
    check_expiration, config_signer_seeds, expiration_check, le_u64_at, read_i64, read_u64,
    signer_seeds, BatchPlan,
};

verus! {

/// Bytes of a withdrawal's instruction data.
pub const DATA_LEN: usize = 32;

/// Accounts:
///  0. user           [signer]
///  1. mint_x         []
///  2. mint_y         []
///  3. mint_lp        [mut]
///  4. vault_x        [mut]
///  5. vault_y        [mut]
///  6. user_x         [mut]
///  7. user_y         [mut]
///  8. user_lp        [mut]
///  9. config         []
/// 10. token_program  []
pub struct WithdrawAccounts<'a> {
    pub user: &'a Account,
    pub mint_x: &'a Account,
    pub mint_y: &'a Account,
    pub mint_lp: &'a Account,
    pub vault_x: &'a Account,
    pub vault_y: &'a Account,
    pub user_x: &'a Account,
    pub user_y: &'a Account,
    pub user_lp: &'a Account,
    pub config: &'a Account,
    pub token_program: &'a Account,
}

/// Why the accounts of a withdrawal are refused, if they are.
pub open spec fn withdraw_accounts_error(accounts: Seq<Account>) -> Option<ProgramError> {
    if accounts.len() < 11 {
        Some(ProgramError::NotEnoughAccountKeys)
    } else if !accounts[0].is_signer {
        Some(amm_err(AmmError::NotSigner))
    } else {
        None
    }
}

/// The accounts hold, in order, the first eleven of `accounts`.
pub open spec fn withdraw_accounts_are(s: WithdrawAccounts, accounts: Seq<Account>) -> bool {
    &&& *s.user == accounts[0]
    &&& *s.mint_x == accounts[1]
    &&& *s.mint_y == accounts[2]
    &&& *s.mint_lp == accounts[3]
    &&& *s.vault_x == accounts[4]
    &&& *s.vault_y == accounts[5]
    &&& *s.user_x == accounts[6]
    &&& *s.user_y == accounts[7]
    &&& *s.user_lp == accounts[8]
    &&& *s.config == accounts[9]
    &&& *s.token_program == accounts[10]
}

impl<'a> WithdrawAccounts<'a> {
    pub fn try_from(accounts: &'a [Account]) -> (r: Result<Self, ProgramError>)
        ensures
            match r {
                Ok(s) => withdraw_accounts_error(accounts@) is None && withdraw_accounts_are(
                    s,
                    accounts@,
                ),
                Err(e) => withdraw_accounts_error(accounts@) == Some(e),
            },
    {
        if accounts.len() < 11 {
            return Err(ProgramError::NotEnoughAccountKeys);
        }
        let user = &accounts[0];
        if !user.is_signer {
            return Err(AmmError::NotSigner.to_program_error());
        }
        Ok(Self {
            user,
            mint_x: &accounts[1],
            mint_y: &accounts[2],
            mint_lp: &accounts[3],
            vault_x: &accounts[4],
            vault_y: &accounts[5],
            user_x: &accounts[6],
            user_y: &accounts[7],
            user_lp: &accounts[8],
            config: &accounts[9],
            token_program: &accounts[10],
        })
    }
}

pub struct WithdrawInstructionData {
    pub amount: u64,
    pub min_x: u64,
    pub min_y: u64,
    pub expiration: i64,
}

/// The instruction data holds these values: amount, min_x, min_y and
/// expiration, 8 bytes each, little endian.
pub open spec fn withdraw_data_is(d: WithdrawInstructionData, data: Seq<u8>) -> bool {
    &&& d.amount == le_u64_at(data, 0)
    &&& d.min_x == le_u64_at(data, 8)
    &&& d.min_y == le_u64_at(data, 16)
    &&& d.expiration == le_u64_at(data, 24) as i64
}

impl WithdrawInstructionData {
    pub fn try_from(data: &[u8]) -> (r: Result<Self, ProgramError>)
        ensures
            data@.len() < DATA_LEN ==> r is Err && r->Err_0 == ProgramError::InvalidInstructionData,
            data@.len() >= DATA_LEN ==> r is Ok && withdraw_data_is(r->Ok_0, data@),
    {
        if data.len() < DATA_LEN {
            return Err(ProgramError::InvalidInstructionData);
        }
        Ok(Self {
            amount: read_u64(data, 0),
            min_x: read_u64(data, 8),
            min_y: read_u64(data, 16),
            expiration: read_i64(data, 24),
        })
    }
}

pub struct Withdraw<'a> {
    pub accounts: WithdrawAccounts<'a>,
    pub instruction_data: WithdrawInstructionData,
}

/// What a withdrawal learns from the token program's accounts and from the
/// clock.
pub struct WithdrawReads {
    /// The mint of the user's X token account.
    pub user_x_mint: Result<[u8; 32], ProgramError>,
    /// The mint of the user's Y token account.
    pub user_y_mint: Result<[u8; 32], ProgramError>,
    /// The current unix time where the clock is read (on chain); `None`
    /// elsewhere, where expiration is not checked.
    pub clock: Option<Result<i64, ProgramError>>,
    /// The balances of vault X and vault Y, and the LP mint's supply.
    pub balances: Result<(u64, u64, u64), ProgramError>,
}

/// The share of a vault holding `balance` that `amount` LP tokens redeem,
/// rounded down: `balance * amount / (supply + MINIMUM_LIQUIDITY)`.
pub open spec fn withdraw_share(balance: u64, amount: u64, supply: u64) -> int {
    (balance as int) * (amount as int) / ((supply as int) + (MINIMUM_LIQUIDITY as int))
}

/// The config account lives at the pool's address, the mints are the pool's,
/// the LP mint is the pool's, and both vaults are the config's associated
/// token accounts.
pub open spec fn withdraw_address_check(a: WithdrawAccounts, cv: ConfigView) -> Result<(), ProgramError> {
    match config_address(cv.seed, cv.mint_x, cv.mint_y) {
        Err(e) => Err(e),
        Ok((expected, _)) => if expected != a.config.address@ {
            Err(amm_err(AmmError::InvalidPda))
        } else if a.mint_x.address@ != cv.mint_x {
            Err(amm_err(AmmError::InvalidMint))
        } else if a.mint_y.address@ != cv.mint_y {
            Err(amm_err(AmmError::InvalidMint))
        } else {
            match lp_mint_address(a.config.address@) {
                Err(e) => Err(e),
                Ok((lp, _)) => if lp != a.mint_lp.address@ {
                    Err(amm_err(AmmError::InvalidPda))
                } else {
                    match vault_address(a.config.address@, a.token_program.address@, cv.mint_x) {
                        Err(e) => Err(e),
                        Ok((vx, _)) => if vx != a.vault_x.address@ {
                            Err(amm_err(AmmError::InvalidVaultAddress))
                        } else {
                            match vault_address(
                                a.config.address@,
                                a.token_program.address@,
                                cv.mint_y,
                            ) {
                                Err(e) => Err(e),
                                Ok((vy, _)) => if vy != a.vault_y.address@ {
                                    Err(amm_err(AmmError::InvalidVaultAddress))
                                } else {
                                    Ok(())
                                },
                            }
                        },
                    }
                },
            }
        },
    }
}

/// The user's token accounts hold the pool's two mints.
pub open spec fn withdraw_mint_check(cv: ConfigView, reads: WithdrawReads) -> Result<(), ProgramError> {
    match reads.user_x_mint {
        Err(e) => Err(e),
        Ok(mx) => if mx@ != cv.mint_x {
            Err(amm_err(AmmError::InvalidMint))
        } else {
            match reads.user_y_mint {
                Err(e) => Err(e),
                Ok(my) => if my@ != cv.mint_y {
                    Err(amm_err(AmmError::InvalidMint))
                } else {
                    Ok(())
                },
            }
        },
    }
}

/// The amounts paid out of the vaults, or the error the computation ends with.
pub open spec fn withdraw_amounts(d: WithdrawInstructionData, vault_x: u64, vault_y: u64, supply: u64) -> Result<(u64, u64), ProgramError> {
    let x_out = withdraw_share(vault_x, d.amount, supply);
    let y_out = withdraw_share(vault_y, d.amount, supply);
    if x_out > u64::MAX {
        Err(amm_err(AmmError::Overflow))
    } else if y_out > u64::MAX {
        Err(amm_err(AmmError::Overflow))
    } else if x_out < d.min_x || y_out < d.min_y {
        Err(amm_err(AmmError::SlippageExceeded))
    } else {
        Ok((x_out as u64, y_out as u64))
    }
}

/// What a withdrawal decides: the pool's configuration and the amounts paid
/// out of each vault, or the error it ends with. The checks come in this
/// order.
pub open spec fn withdraw_decision(a: WithdrawAccounts, d: WithdrawInstructionData, reads: WithdrawReads) -> Result<(ConfigView, u64, u64), ProgramError> {
    match config_load_error(a.config.owner@, a.config.data@) {
        Some(e) => Err(e),
        None => {
            let cv = parse_config(a.config.data@);
            match withdraw_address_check(a, cv) {
                Err(e) => Err(e),
                Ok(()) => match withdraw_mint_check(cv, reads) {
                    Err(e) => Err(e),
                    Ok(()) => if cv.is_locked() {
                        Err(amm_err(AmmError::PoolLocked))
                    } else {
                        match expiration_check(reads.clock, d.expiration) {
                            Err(e) => Err(e),
                            Ok(()) => if d.amount == 0 || d.min_x == 0 || d.min_y == 0 {
                                Err(amm_err(AmmError::InvalidAmount))
                            } else {
                                match reads.balances {
                                    Err(e) => Err(e),
                                    Ok((vx, vy, supply)) => match withdraw_amounts(
                                        d,
                                        vx,
                                        vy,
                                        supply,
                                    ) {
                                        Err(e) => Err(e),
                                        Ok((x_out, y_out)) => Ok((cv, x_out, y_out)),
                                    },
                                }
                            },
                        }
                    },
                },
            }
        },
    }
}

/// The token operations of a withdrawal: both shares paid from the vaults to
/// the user, signed by the config account, and the LP tokens burned from the
/// user, signed by the user.
pub open spec fn withdraw_ops(a: WithdrawAccounts, amount: u64, x_out: u64, y_out: u64) -> Seq<TokenOp> {
    seq![
        TokenOp {
            a: a.vault_x.address,
            b: a.user_x.address,
            authority: a.config.address,
            disc: TRANSFER,
            amount: x_out,
        },
        TokenOp {
            a: a.vault_y.address,
            b: a.user_y.address,
            authority: a.config.address,
            disc: TRANSFER,
            amount: y_out,
        },
        TokenOp {
            a: a.user_lp.address,
            b: a.mint_lp.address,
            authority: a.user.address,
            disc: BURN,
            amount: amount,
        },
    ]
}

/// Computes one vault's share of a withdrawal, refusing one that does not fit
/// in a `u64`.
fn share_of(balance: u64, amount: u64, supply: u64) -> (r: Result<u64, ProgramError>)
    ensures
        withdraw_share(balance, amount, supply) > u64::MAX ==> r == Err::<u64, ProgramError>(
            amm_err(AmmError::Overflow),
        ),
        withdraw_share(balance, amount, supply) <= u64::MAX ==> r == Ok::<u64, ProgramError>(
            withdraw_share(balance, amount, supply) as u64,
        ),
{
    let adjusted_supply = (supply as u128) + (MINIMUM_LIQUIDITY as u128);
    assert((balance as int) * (amount as int) <= 0xffff_ffff_ffff_ffff * 0xffff_ffff_ffff_ffff)
        by (nonlinear_arith);
    let product = (balance as u128) * (amount as u128);
    let share = product / adjusted_supply;
    if share > u64::MAX as u128 {
        return Err(AmmError::Overflow.to_program_error());
    }
    Ok(share as u64)
}

impl<'a> Withdraw<'a> {
    pub const DISCRIMINATOR: u8 = 2;

    /// Checks the accounts, then reads the instruction data.
    pub fn try_from(data: &[u8], accounts: &'a [Account]) -> (r: Result<Self, ProgramError>)
        ensures
            match r {
                Ok(s) => withdraw_accounts_error(accounts@) is None && data@.len() >= DATA_LEN
                    && withdraw_accounts_are(s.accounts, accounts@) && withdraw_data_is(
                    s.instruction_data,
                    data@,
                ),
                Err(e) => match withdraw_accounts_error(accounts@) {
                    Some(a) => e == a,
                    None => data@.len() < DATA_LEN && e == ProgramError::InvalidInstructionData,
                },
            },
    {
        let accounts = match WithdrawAccounts::try_from(accounts) {
            Ok(a) => a,
            Err(e) => return Err(e),
        };
        let instruction_data = match WithdrawInstructionData::try_from(data) {
            Ok(d) => d,
            Err(e) => return Err(e),
        };
        Ok(Self { accounts, instruction_data })
    }

    fn check_addresses(&self, config: &Config) -> (r: Result<(), ProgramError>)
        ensures
            r == withdraw_address_check(self.accounts, config@),
    {
        let a = &self.accounts;
        let expected_config = match find_config_address(config.seed(), config.mint_x(), config.mint_y()) {
            Ok(p) => p,
            Err(e) => return Err(e),
        };
        if !keys_eq(&expected_config.0, &a.config.address) {
            return Err(AmmError::InvalidPda.to_program_error());
        }
        if !keys_eq(&a.mint_x.address, config.mint_x()) {
            return Err(AmmError::InvalidMint.to_program_error());
        }
        if !keys_eq(&a.mint_y.address, config.mint_y()) {
            return Err(AmmError::InvalidMint.to_program_error());
        }
        let expected_lp = match find_lp_mint_address(&a.config.address) {
            Ok(p) => p,
            Err(e) => return Err(e),
        };
        if !keys_eq(&expected_lp.0, &a.mint_lp.address) {
            return Err(AmmError::InvalidPda.to_program_error());
        }
        let expected_vault_x = match find_vault_address(
            &a.config.address,
            &a.token_program.address,
            config.mint_x(),
        ) {
            Ok(p) => p,
            Err(e) => return Err(e),
        };
        if !keys_eq(&expected_vault_x.0, &a.vault_x.address) {
            return Err(AmmError::InvalidVaultAddress.to_program_error());
        }
        let expected_vault_y = match find_vault_address(
            &a.config.address,
            &a.token_program.address,
            config.mint_y(),
        ) {
            Ok(p) => p,
            Err(e) => return Err(e),
        };
        if !keys_eq(&expected_vault_y.0, &a.vault_y.address) {
            return Err(AmmError::InvalidVaultAddress.to_program_error());
        }
        Ok(())
    }

    fn check_mints(&self, config: &Config, reads: &WithdrawReads) -> (r: Result<(), ProgramError>)
        ensures
            r == withdraw_mint_check(config@, *reads),
    {
        match &reads.user_x_mint {
            Err(e) => return Err(*e),
            Ok(m) => {
                if !keys_eq(m, config.mint_x()) {
                    return Err(AmmError::InvalidMint.to_program_error());
                }
            },
        }
        match &reads.user_y_mint {
            Err(e) => return Err(*e),
            Ok(m) => {
                if !keys_eq(m, config.mint_y()) {
                    return Err(AmmError::InvalidMint.to_program_error());
                }
            },
        }
        Ok(())
    }

    /// Decides the withdrawal: on success, the two payouts and the burn to
    /// run, and the seeds with which the config account signs the payouts.
    pub fn process(&self, reads: &WithdrawReads) -> (r: Result<BatchPlan, ProgramError>)
        ensures
            match withdraw_decision(self.accounts, self.instruction_data, *reads) {
                Err(e) => r is Err && r->Err_0 == e,
                Ok((cv, x_out, y_out)) => r is Ok && r->Ok_0.ops@ == withdraw_ops(
                    self.accounts,
                    self.instruction_data.amount,
                    x_out,
                    y_out,
                ) && r->Ok_0.signer_seeds.deep_view() == config_signer_seeds(cv),
            },
    {
        let a = &self.accounts;
        let d = &self.instruction_data;
        let config = match Config::load(a.config) {
            Ok(c) => c,
            Err(e) => return Err(e),
        };
        match self.check_addresses(&config) {
            Ok(()) => {},
            Err(e) => return Err(e),
        }
        match self.check_mints(&config, reads) {
            Ok(()) => {},
            Err(e) => return Err(e),
        }
        if config.locked() {
            return Err(AmmError::PoolLocked.to_program_error());
        }
        match check_expiration(&reads.clock, d.expiration) {
            Ok(()) => {},
            Err(e) => return Err(e),
        }
        if d.amount == 0 || d.min_x == 0 || d.min_y == 0 {
            return Err(AmmError::InvalidAmount.to_program_error());
        }
        let (vault_x_bal, vault_y_bal, lp_supply) = match reads.balances {
            Ok(b) => b,
            Err(e) => return Err(e),
        };
        let x_out = match share_of(vault_x_bal, d.amount, lp_supply) {
            Ok(v) => v,
            Err(e) => return Err(e),
        };
        let y_out = match share_of(vault_y_bal, d.amount, lp_supply) {
            Ok(v) => v,
            Err(e) => return Err(e),
        };
        if x_out < d.min_x || y_out < d.min_y {
            return Err(AmmError::SlippageExceeded.to_program_error());
        }
        let mut ops: Vec<TokenOp> = Vec::new();
        ops.push(TokenOp::transfer(a.vault_x, a.user_x, a.config, x_out));
        ops.push(TokenOp::transfer(a.vault_y, a.user_y, a.config, y_out));
        ops.push(TokenOp::burn(a.user_lp, a.mint_lp, a.user, d.amount));
        assert(ops@ =~= withdraw_ops(self.accounts, d.amount, x_out, y_out));
        Ok(BatchPlan { ops, signer_seeds: signer_seeds(&config) })
    }
}

/// Law: redeeming LP tokens never pays out more than the vault holds. When
/// `amount` is at most the LP supply, the share is strictly less than the
/// balance (the locked minimum liquidity stays behind), unless the vault is
/// empty; and redeeming more never pays less.
pub proof fn lemma_withdraw_share_bounded(balance: u64, amount: u64, more: u64, supply: u64)
    requires
        amount <= supply,
        amount <= more,
    ensures
        0 <= withdraw_share(balance, amount, supply) <= balance,
        balance > 0 ==> withdraw_share(balance, amount, supply) < balance,
        withdraw_share(balance, amount, supply) <= withdraw_share(balance, more, supply),
{
    let b = balance as int;
    let s = (supply as int) + (MINIMUM_LIQUIDITY as int);
    let m = amount as int;
    assert(0 <= b * m) by (nonlinear_arith)
        requires
            b >= 0,
            m >= 0,
    ;
    lemma_div_pos_is_pos(b * m, s);
    assert(b * m <= b * s) by (nonlinear_arith)
        requires
            b >= 0,
            0 <= m < s,
    ;
    assert(b * m <= b * (more as int)) by (nonlinear_arith)
        requires
            b >= 0,
            m <= more,
    ;
    lemma_div_is_ordered(b * m, b * (more as int), s);
    lemma_div_is_ordered(b * m, b * s, s);
    vstd::arithmetic::div_mod::lemma_div_by_multiple(b, s);
    assert(b * s == s * b) by (nonlinear_arith);
    if b > 0 {
        lemma_fundamental_div_mod(b * m, s);
        lemma_mod_bound(b * m, s);
        assert(b * m < b * s) by (nonlinear_arith)
            requires
                b > 0,
                0 <= m < s,
        ;
        assert(b * m / s < b) by (nonlinear_arith)
            requires
                b * m == s * (b * m / s) + (b * m) % s,
                0 <= (b * m) % s,
                b * m < b * s,
                s > 0,
        ;
    }
}

/// Law: a withdrawal goes through only on an unlocked pool, from the pool's
/// own vaults and LP mint, before its deadline where the clock is read, and
/// pays each vault's share of the burned LP tokens, at least the asked
/// minimums.
pub proof fn lemma_withdraw_gates(a: WithdrawAccounts, d: WithdrawInstructionData, reads: WithdrawReads)
    requires
        withdraw_decision(a, d, reads) is Ok,
    ensures
        ({
            let (cv, x_out, y_out) = withdraw_decision(a, d, reads)->Ok_0;
            let (vx, vy, supply) = reads.balances->Ok_0;
            &&& cv == parse_config(a.config.data@)
            &&& !cv.is_locked()
            &&& a.mint_x.address@ == cv.mint_x && a.mint_y.address@ == cv.mint_y
            &&& lp_mint_address(a.config.address@) is Ok && lp_mint_address(
                a.config.address@,
            )->Ok_0.0 == a.mint_lp.address@
            &&& (reads.clock matches Some(Ok(now)) ==> d.expiration > now)
            &&& d.amount > 0 && d.min_x > 0 && d.min_y > 0
            &&& x_out == withdraw_share(vx, d.amount, supply) && x_out >= d.min_x
            &&& y_out == withdraw_share(vy, d.amount, supply) && y_out >= d.min_y
        }),
{
}

/// Law: a withdrawal whose accounts check out (the config loads, the
/// addresses and the user's mints are the pool's), on an unlocked pool before
/// its deadline, with a positive amount and positive minimums, is accepted
/// whenever both shares `balance * amount / (supply + 1000)` fit in a `u64`
/// and meet their minimums, for any amount, the whole LP supply included; it
/// then pays exactly those shares.
pub proof fn lemma_withdraw_accepts(a: WithdrawAccounts, d: WithdrawInstructionData, reads: WithdrawReads)
    requires
        config_load_error(a.config.owner@, a.config.data@) is None,
        withdraw_address_check(a, parse_config(a.config.data@)) is Ok,
        withdraw_mint_check(parse_config(a.config.data@), reads) is Ok,
        !parse_config(a.config.data@).is_locked(),
        expiration_check(reads.clock, d.expiration) is Ok,
        d.amount > 0,
        d.min_x > 0,
        d.min_y > 0,
        reads.balances is Ok,
        ({
            let (vx, vy, supply) = reads.balances->Ok_0;
            let x = (vx as int) * (d.amount as int) / ((supply as int) + 1000);
            let y = (vy as int) * (d.amount as int) / ((supply as int) + 1000);
            x <= u64::MAX && y <= u64::MAX && x >= d.min_x && y >= d.min_y
        }),
    ensures
        ({
            let (vx, vy, supply) = reads.balances->Ok_0;
            let x = (vx as int) * (d.amount as int) / ((supply as int) + 1000);
            let y = (vy as int) * (d.amount as int) / ((supply as int) + 1000);
            withdraw_decision(a, d, reads) == Ok::<(ConfigView, u64, u64), ProgramError>(
                (parse_config(a.config.data@), x as u64, y as u64),
            )
        }),
{
}

} // verus!
