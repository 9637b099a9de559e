//! Initialize: create a pool, its LP mint and vaults, and seed its first
//! liquidity.
use vstd::prelude::*;

use crate::account::{keys_eq, read_key, Account};
use crate::batch::{TokenOp, MINT_TO, TRANSFER};
use crate::constants::{MAX_FEE_BPS, MINIMUM_LIQUIDITY};
use crate::curve::integer_sqrt;
use crate::errors::{amm_err, AmmError, ProgramError};
use crate::pda::{
    config_address, config_seed_vecs, find_config_address, find_lp_mint_address, lp_mint_address,
    lp_seeds, lp_signer_seed_vecs, push_bump,
};
use crate::state::{parse_config, Config, ConfigView};
use crate::ID;

use super::{config_signer_seeds, le_u16_at, le_u64_at, read_u16, read_u64, signer_seeds, BatchPlan};

verus! {

/// Bytes of a token mint account.
pub const MINT_ACCOUNT_SIZE: usize = 82;

/// Decimals of the LP mint.
pub const LP_DECIMALS: u8 = 6;

/// Bytes of the instruction data.
pub const DATA_LEN: usize = 58;

/// Accounts:
///  0. initializer     [signer, mut]
///  1. mint_x          []
///  2. mint_y          []
///  3. mint_lp         [mut]
///  4. vault_x         [mut]
///  5. vault_y         [mut]
///  6. initializer_x   [mut]
///  7. initializer_y   [mut]
///  8. initializer_lp  [mut]
///  9. config          [mut]
/// 10. system_program  []
/// 11. token_program   []
/// 12. ata_program     []
pub struct InitializeAccounts<'a> {
    pub initializer: &'a Account,
    pub mint_x: &'a Account,
    pub mint_y: &'a Account,
    pub mint_lp: &'a Account,
    pub vault_x: &'a Account,
    pub vault_y: &'a Account,
    pub initializer_x: &'a Account,
    pub initializer_y: &'a Account,
    pub initializer_lp: &'a Account,
    pub config: &'a Account,
    pub system_program: &'a Account,
    pub token_program: &'a Account,
}

/// Why the accounts of an initialization are refused, if they are.
pub open spec fn initialize_accounts_error(accounts: Seq<Account>) -> Option<ProgramError> {
    if accounts.len() < 13 {
        Some(ProgramError::NotEnoughAccountKeys)
    } else if !accounts[0].is_signer {
        Some(amm_err(AmmError::NotSigner))
    } else {
        None
    }
}

/// The accounts hold, in order, the first twelve of `accounts`.
pub open spec fn initialize_accounts_are(s: InitializeAccounts, accounts: Seq<Account>) -> bool {
    &&& *s.initializer == accounts[0]
    &&& *s.mint_x == accounts[1]
    &&& *s.mint_y == accounts[2]
    &&& *s.mint_lp == accounts[3]
    &&& *s.vault_x == accounts[4]
    &&& *s.vault_y == accounts[5]
    &&& *s.initializer_x == accounts[6]
    &&& *s.initializer_y == accounts[7]
    &&& *s.initializer_lp == accounts[8]
    &&& *s.config == accounts[9]
    &&& *s.system_program == accounts[10]
    &&& *s.token_program == accounts[11]
}

impl<'a> InitializeAccounts<'a> {
    pub fn try_from(accounts: &'a [Account]) -> (r: Result<Self, ProgramError>)
        ensures
            match r {
                Ok(s) => initialize_accounts_error(accounts@) is None && initialize_accounts_are(
                    s,
                    accounts@,
                ),
                Err(e) => initialize_accounts_error(accounts@) == Some(e),
            },
    {
        if accounts.len() < 13 {
            return Err(ProgramError::NotEnoughAccountKeys);
        }
        let initializer = &accounts[0];
        if !initializer.is_signer {
            return Err(AmmError::NotSigner.to_program_error());
        }
        Ok(Self {
            initializer,
            mint_x: &accounts[1],
            mint_y: &accounts[2],
            mint_lp: &accounts[3],
            vault_x: &accounts[4],
            vault_y: &accounts[5],
            initializer_x: &accounts[6],
            initializer_y: &accounts[7],
            initializer_lp: &accounts[8],
            config: &accounts[9],
            system_program: &accounts[10],
            token_program: &accounts[11],
        })
    }
}

pub struct InitializeInstructionData {
    pub seed: u64,
    pub authority: [u8; 32],
    pub fee: u16,
    pub init_amount_x: u64,
    pub init_amount_y: u64,
}

/// What the instruction data holds: seed (8 bytes), authority (32), fee (2),
/// and the two initial amounts (8 each), numbers little endian.
pub open spec fn initialize_data_is(d: InitializeInstructionData, data: Seq<u8>) -> bool {
    &&& d.seed == le_u64_at(data, 0)
    &&& d.authority@ == data.subrange(8, 40)
    &&& d.fee == le_u16_at(data, 40)
    &&& d.init_amount_x == le_u64_at(data, 42)
    &&& d.init_amount_y == le_u64_at(data, 50)
}

/// Why the instruction data of an initialization is refused, if it is.
pub open spec fn initialize_data_error(data: Seq<u8>) -> Option<ProgramError> {
    if data.len() < DATA_LEN {
        Some(ProgramError::InvalidInstructionData)
    } else if le_u16_at(data, 40) > MAX_FEE_BPS {
        Some(amm_err(AmmError::InvalidFee))
    } else if le_u64_at(data, 42) == 0 || le_u64_at(data, 50) == 0 {
        Some(amm_err(AmmError::InvalidAmount))
    } else {
        None
    }
}

/// Law: the instruction data of an initialization is accepted exactly when
/// it holds at least 58 bytes, a fee of at most 10_000 basis points, and two
/// nonzero initial amounts, whatever those amounts are.
pub proof fn lemma_initialize_data_accepts(data: Seq<u8>)
    ensures
        initialize_data_error(data) is None <==> (data.len() >= 58 && le_u16_at(data, 40) <= 10_000
            && le_u64_at(data, 42) != 0 && le_u64_at(data, 50) != 0),
{
}

impl InitializeInstructionData {
    pub fn try_from(data: &[u8]) -> (r: Result<Self, ProgramError>)
        ensures
            match r {
                Ok(d) => initialize_data_error(data@) is None && initialize_data_is(d, data@),
                Err(e) => initialize_data_error(data@) == Some(e),
            },
    {
        if data.len() < DATA_LEN {
            return Err(ProgramError::InvalidInstructionData);
        }
        let seed = read_u64(data, 0);
        let authority = read_key(data, 8);
        let fee = read_u16(data, 40);
        let init_amount_x = read_u64(data, 42);
        let init_amount_y = read_u64(data, 50);

        if fee > MAX_FEE_BPS {
            return Err(AmmError::InvalidFee.to_program_error());
        }
        if init_amount_x == 0 || init_amount_y == 0 {
            return Err(AmmError::InvalidAmount.to_program_error());
        }
        Ok(Self { seed, authority, fee, init_amount_x, init_amount_y })
    }
}

pub struct Initialize<'a> {
    pub accounts: InitializeAccounts<'a>,
    pub instruction_data: InitializeInstructionData,
    pub config_bump: u8,
    pub lp_bump: u8,
}

/// The config account (at `config`) and the LP mint (at `mint_lp`) are at
/// the addresses derived for the pool of this seed and these mints; on
/// success, their two bumps.
pub open spec fn pool_address_check(
    seed: u64,
    mint_x: Seq<u8>,
    mint_y: Seq<u8>,
    config: Seq<u8>,
    mint_lp: Seq<u8>,
) -> Result<(u8, u8), ProgramError> {
    match config_address(seed, mint_x, mint_y) {
        Err(e) => Err(e),
        Ok((config_pda, config_bump)) => if config_pda != config {
            Err(amm_err(AmmError::InvalidPda))
        } else {
            match lp_mint_address(config) {
                Err(e) => Err(e),
                Ok((lp_pda, lp_bump)) => if lp_pda != mint_lp {
                    Err(amm_err(AmmError::InvalidPda))
                } else {
                    Ok((config_bump, lp_bump))
                },
            }
        },
    }
}

/// [`pool_address_check`] for these accounts and this data.
pub open spec fn initialize_address_check(a: InitializeAccounts, d: InitializeInstructionData) -> Result<(u8, u8), ProgramError> {
    pool_address_check(
        d.seed,
        a.mint_x.address@,
        a.mint_y.address@,
        a.config.address@,
        a.mint_lp.address@,
    )
}

/// The configuration a new pool stores.
pub open spec fn initial_config(s: Initialize) -> ConfigView {
    ConfigView {
        discriminator: Config::DISCRIMINATOR,
        seed: s.instruction_data.seed,
        authority: s.instruction_data.authority@,
        mint_x: s.accounts.mint_x.address@,
        mint_y: s.accounts.mint_y.address@,
        fee: s.instruction_data.fee,
        locked: 0,
        lp_bump: s.lp_bump,
        bump: s.config_bump,
    }
}

/// An account-creation step of an initialization. The steps run, in order,
/// before the configuration is stored and the token operations run.
pub enum SetupAction {
    /// Create `account` with `space` bytes owned by `owner`, funded by
    /// `payer` with the rent-exempt minimum, the new account signing with
    /// `signer_seeds`.
    CreateAccount {
        account: [u8; 32],
        space: usize,
        owner: [u8; 32],
        payer: [u8; 32],
        signer_seeds: Vec<Vec<u8>>,
    },
    /// Initialize the token mint `mint` with `decimals` and `mint_authority`,
    /// and no freeze authority.
    InitializeMint { mint: [u8; 32], decimals: u8, mint_authority: [u8; 32] },
    /// Create `account`, the associated token account of `wallet` for `mint`,
    /// funded by `funding`.
    CreateAssociatedTokenAccount {
        funding: [u8; 32],
        account: [u8; 32],
        wallet: [u8; 32],
        mint: [u8; 32],
        system_program: [u8; 32],
        token_program: [u8; 32],
    },
}

/// `action` creates the associated token account `account` of `wallet` for
/// `mint`, paid by the initializer.
pub open spec fn creates_ata(action: SetupAction, s: Initialize, account: [u8; 32], wallet: [u8; 32], mint: [u8; 32]) -> bool {
    action == SetupAction::CreateAssociatedTokenAccount {
        funding: s.accounts.initializer.address,
        account,
        wallet,
        mint,
        system_program: s.accounts.system_program.address,
        token_program: s.accounts.token_program.address,
    }
}

/// The setup of a new pool, in order: the config account (110 bytes, owned
/// by this program, signed with the config seeds and bump); the LP mint
/// (82 bytes, owned by the token program, signed with `"lp"`, the config
/// address and the LP bump); the LP mint's initialization (6 decimals, the
/// config as mint authority); and the associated token accounts of the config
/// for both mints and of the initializer for the LP mint, all paid by the
/// initializer.
pub open spec fn setup_is(actions: Seq<SetupAction>, s: Initialize) -> bool {
    let a = s.accounts;
    &&& actions.len() == 6
    &&& actions[0] matches SetupAction::CreateAccount { account, space, owner, payer, signer_seeds }
        && account == a.config.address && space == Config::LEN && owner@ == ID@ && payer
        == a.initializer.address && signer_seeds.deep_view() == config_signer_seeds(
        initial_config(s),
    )
    &&& actions[1] matches SetupAction::CreateAccount { account, space, owner, payer, signer_seeds }
        && account == a.mint_lp.address && space == MINT_ACCOUNT_SIZE && owner
        == a.token_program.address && payer == a.initializer.address
        && signer_seeds.deep_view() == lp_seeds(a.config.address@).push(seq![s.lp_bump])
    &&& actions[2] == SetupAction::InitializeMint {
        mint: a.mint_lp.address,
        decimals: LP_DECIMALS,
        mint_authority: a.config.address,
    }
    &&& creates_ata(actions[3], s, a.vault_x.address, a.config.address, a.mint_x.address)
    &&& creates_ata(actions[4], s, a.vault_y.address, a.config.address, a.mint_y.address)
    &&& creates_ata(
        actions[5],
        s,
        a.initializer_lp.address,
        a.initializer.address,
        a.mint_lp.address,
    )
}

/// `r` is the integer square root of `n`.
pub open spec fn is_isqrt(n: int, r: int) -> bool {
    r >= 0 && r * r <= n < (r + 1) * (r + 1)
}

/// What initialization ends with: the configuration to store and the
/// token operations to run.
pub struct InitializePlan {
    pub config: Config,
    pub batch: BatchPlan,
}

/// The token operations of an initialization: both initial amounts from the
/// initializer to the vaults, signed by the initializer; `lp` LP tokens minted
/// to the initializer, signed by the config account.
pub open spec fn initialize_ops(s: Initialize, lp: u64) -> Seq<TokenOp> {
    let a = s.accounts;
    seq![
        TokenOp {
            a: a.initializer_x.address,
            b: a.vault_x.address,
            authority: a.initializer.address,
            disc: TRANSFER,
            amount: s.instruction_data.init_amount_x,
        },
        TokenOp {
            a: a.initializer_y.address,
            b: a.vault_y.address,
            authority: a.initializer.address,
            disc: TRANSFER,
            amount: s.instruction_data.init_amount_y,
        },
        TokenOp {
            a: a.mint_lp.address,
            b: a.initializer_lp.address,
            authority: a.config.address,
            disc: MINT_TO,
            amount: lp,
        },
    ]
}

/// The integer square root is at most 1000 exactly when the number is below
/// 1001 * 1001, and it fits in a `u64` for any product of two `u64`.
proof fn lemma_isqrt_facts(n: int, r: int)
    requires
        is_isqrt(n, r),
        n <= 0xffff_ffff_ffff_ffff * 0xffff_ffff_ffff_ffff,
    ensures
        r <= MINIMUM_LIQUIDITY <==> n < 1001 * 1001,
        r <= u64::MAX,
{
    if r <= 1000 {
        assert((r + 1) * (r + 1) <= 1001 * 1001) by (nonlinear_arith)
            requires
                0 <= r <= 1000,
        ;
    } else {
        assert(r * r >= 1001 * 1001) by (nonlinear_arith)
            requires
                r >= 1001,
        ;
    }
    if r > u64::MAX {
        assert(r * r > 0xffff_ffff_ffff_ffff * 0xffff_ffff_ffff_ffff) by (nonlinear_arith)
            requires
                r > 0xffff_ffff_ffff_ffff,
        ;
    }
}

impl<'a> Initialize<'a> {
    pub const DISCRIMINATOR: u8 = 0;

    /// Checks the accounts and the instruction data, then that the config
    /// account and the LP mint sit at the addresses derived for this pool.
    pub fn try_from(data: &[u8], accounts: &'a [Account]) -> (r: Result<Self, ProgramError>)
        ensures
            match r {
                Ok(s) => {
                    &&& initialize_accounts_error(accounts@) is None
                    &&& initialize_data_error(data@) is None
                    &&& initialize_accounts_are(s.accounts, accounts@)
                    &&& initialize_data_is(s.instruction_data, data@)
                    &&& initialize_address_check(s.accounts, s.instruction_data) == Ok::<
                        (u8, u8),
                        ProgramError,
                    >((s.config_bump, s.lp_bump))
                },
                Err(e) => match initialize_accounts_error(accounts@) {
                    Some(a) => e == a,
                    None => match initialize_data_error(data@) {
                        Some(b) => e == b,
                        None => pool_address_check(
                            le_u64_at(data@, 0),
                            accounts@[1].address@,
                            accounts@[2].address@,
                            accounts@[9].address@,
                            accounts@[3].address@,
                        ) == Err::<(u8, u8), ProgramError>(e),
                    },
                },
            },
    {
        let accounts = match InitializeAccounts::try_from(accounts) {
            Ok(a) => a,
            Err(e) => return Err(e),
        };
        let instruction_data = match InitializeInstructionData::try_from(data) {
            Ok(d) => d,
            Err(e) => return Err(e),
        };

        let (config_pda, config_bump) = match find_config_address(
            instruction_data.seed,
            &accounts.mint_x.address,
            &accounts.mint_y.address,
        ) {
            Ok(p) => p,
            Err(e) => return Err(e),
        };
        if !keys_eq(&config_pda, &accounts.config.address) {
            return Err(AmmError::InvalidPda.to_program_error());
        }

        let (lp_pda, lp_bump) = match find_lp_mint_address(&accounts.config.address) {
            Ok(p) => p,
            Err(e) => return Err(e),
        };
        if !keys_eq(&lp_pda, &accounts.mint_lp.address) {
            return Err(AmmError::InvalidPda.to_program_error());
        }

        Ok(Self { accounts, instruction_data, config_bump, lp_bump })
    }

    /// The accounts a new pool needs, to be created before [`Self::process`].
    pub fn setup(&self) -> (r: Vec<SetupAction>)
        ensures
            setup_is(r@, *self),
    {
        let a = &self.accounts;
        let d = &self.instruction_data;
        let mut config_seeds = config_seed_vecs(d.seed, &a.mint_x.address, &a.mint_y.address);
        push_bump(&mut config_seeds, self.config_bump);
        let lp_seeds = lp_signer_seed_vecs(&a.config.address, self.lp_bump);
        let mut actions: Vec<SetupAction> = Vec::new();
        actions.push(
            SetupAction::CreateAccount {
                account: a.config.address,
                space: Config::LEN,
                owner: ID,
                payer: a.initializer.address,
                signer_seeds: config_seeds,
            },
        );
        actions.push(
            SetupAction::CreateAccount {
                account: a.mint_lp.address,
                space: MINT_ACCOUNT_SIZE,
                owner: a.token_program.address,
                payer: a.initializer.address,
                signer_seeds: lp_seeds,
            },
        );
        actions.push(
            SetupAction::InitializeMint {
                mint: a.mint_lp.address,
                decimals: LP_DECIMALS,
                mint_authority: a.config.address,
            },
        );
        actions.push(
            SetupAction::CreateAssociatedTokenAccount {
                funding: a.initializer.address,
                account: a.vault_x.address,
                wallet: a.config.address,
                mint: a.mint_x.address,
                system_program: a.system_program.address,
                token_program: a.token_program.address,
            },
        );
        actions.push(
            SetupAction::CreateAssociatedTokenAccount {
                funding: a.initializer.address,
                account: a.vault_y.address,
                wallet: a.config.address,
                mint: a.mint_y.address,
                system_program: a.system_program.address,
                token_program: a.token_program.address,
            },
        );
        actions.push(
            SetupAction::CreateAssociatedTokenAccount {
                funding: a.initializer.address,
                account: a.initializer_lp.address,
                wallet: a.initializer.address,
                mint: a.mint_lp.address,
                system_program: a.system_program.address,
                token_program: a.token_program.address,
            },
        );
        actions
    }

    /// Decides what a new pool stores and mints, once its accounts exist: the
    /// configuration, the two deposits, and `isqrt(x * y) - 1000` LP tokens to
    /// the initializer. A fee above the cap is refused (as when the data is
    /// read), and so is a pool whose initial liquidity `isqrt(x * y)` is at
    /// most 1000 is refused.
    pub fn process(&self) -> (r: Result<InitializePlan, ProgramError>)
        ensures
            self.instruction_data.fee > MAX_FEE_BPS ==> r is Err && r->Err_0 == amm_err(
                AmmError::InvalidFee,
            ),
            self.instruction_data.fee <= MAX_FEE_BPS ==> ({
                let x = self.instruction_data.init_amount_x as int;
                let y = self.instruction_data.init_amount_y as int;
                &&& x * y < 1001 * 1001 ==> r is Err && r->Err_0 == amm_err(
                    AmmError::InsufficientInitialLiquidity,
                )
                &&& x * y >= 1001 * 1001 ==> r is Ok && ({
                    let plan = r->Ok_0;
                    let lp = plan.batch.ops@[2].amount;
                    &&& is_isqrt(x * y, lp + MINIMUM_LIQUIDITY)
                    &&& plan.batch.ops@ == initialize_ops(*self, lp)
                    &&& plan.config@ == initial_config(*self)
                    &&& plan.batch.signer_seeds.deep_view() == config_signer_seeds(
                        initial_config(*self),
                    )
                })
            }),
    {
        let a = &self.accounts;
        let d = &self.instruction_data;

        let zeroed = [0u8; 110];
        let mut config = Config::from_bytes(zeroed.as_slice());
        match config.init(
            d.seed,
            &d.authority,
            &a.mint_x.address,
            &a.mint_y.address,
            d.fee,
            self.lp_bump,
            self.config_bump,
        ) {
            Ok(()) => {},
            Err(e) => return Err(e),
        }

        assert((d.init_amount_x as int) * (d.init_amount_y as int) <= 0xffff_ffff_ffff_ffff
            * 0xffff_ffff_ffff_ffff) by (nonlinear_arith);
        let product = (d.init_amount_x as u128) * (d.init_amount_y as u128);
        let root = integer_sqrt(product);
        proof {
            lemma_isqrt_facts(product as int, root as int);
        }
        let liquidity = root as u64;

        if liquidity <= MINIMUM_LIQUIDITY {
            return Err(AmmError::InsufficientInitialLiquidity.to_program_error());
        }

        let lp_to_mint = liquidity - MINIMUM_LIQUIDITY;

        let mut ops: Vec<TokenOp> = Vec::new();
        ops.push(TokenOp::transfer(a.initializer_x, a.vault_x, a.initializer, d.init_amount_x));
        ops.push(TokenOp::transfer(a.initializer_y, a.vault_y, a.initializer, d.init_amount_y));
        ops.push(TokenOp::mint_to(a.mint_lp, a.initializer_lp, a.config, lp_to_mint));
        assert(ops@ =~= initialize_ops(*self, lp_to_mint));
        let signer_seeds = signer_seeds(&config);
        Ok(InitializePlan { config, batch: BatchPlan { ops, signer_seeds } })
    }
}

} // verus!
