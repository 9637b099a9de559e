//! Scenarios of a whole pool: initialize it, then run the authority's
//! actions, swaps and withdrawals against it, with token balances kept by
//! applying each instruction's token operations.
use std::collections::HashMap;

use pinocchio_amm::account::Account;
use pinocchio_amm::batch::{TokenOp, BURN, MINT_TO, TRANSFER};
use pinocchio_amm::errors::{AmmError, ProgramError};
use pinocchio_amm::instructions::config_actions::{
    RemoveAuthority, UpdateAuthority, UpdateFee, UpdateLock,
};
use pinocchio_amm::instructions::initialize::{Initialize, SetupAction};
use pinocchio_amm::instructions::swap::{Swap, SwapReads};
use pinocchio_amm::instructions::withdraw::{Withdraw, WithdrawReads};
use pinocchio_amm::pda::{find_config_address, find_lp_mint_address, find_vault_address};
use pinocchio_amm::ID;

const TOKEN_PROGRAM_ID: [u8; 32] = [
    6, 221, 246, 225, 215, 101, 161, 147, 217, 203, 225, 70, 206, 235, 121, 172, 28, 180, 133,
    237, 95, 91, 55, 145, 58, 140, 245, 133, 126, 255, 0, 169,
];
const SYSTEM_PROGRAM_ID: [u8; 32] = [0; 32];
const ATA_PROGRAM_ID: [u8; 32] = [
    140, 151, 37, 143, 78, 36, 137, 241, 187, 61, 16, 41, 20, 142, 13, 131, 11, 90, 19, 153, 218,
    255, 16, 132, 4, 142, 123, 216, 219, 233, 248, 89,
];

// Offsets into config account data
const CONFIG_DISC_OFF: usize = 0;
const CONFIG_SEED_OFF: usize = 1;
const CONFIG_AUTH_OFF: usize = 9;
const CONFIG_MINT_X_OFF: usize = 41;
const CONFIG_MINT_Y_OFF: usize = 73;
const CONFIG_FEE_OFF: usize = 105;
const CONFIG_LOCKED_OFF: usize = 107;
const CONFIG_LEN: usize = 110;
const CONFIG_DISCRIMINATOR: u8 = 1;

fn key(tag: u8, n: u8) -> [u8; 32] {
    let mut k = [n; 32];
    k[0] = tag;
    k[31] = 0xA5;
    k
}

fn account(address: [u8; 32], is_signer: bool, is_writable: bool) -> Account {
    Account { address, owner: TOKEN_PROGRAM_ID, is_signer, is_writable, data: Vec::new() }
}

/// An associated token account address, as the associated token program derives it.
fn ata(wallet: &[u8; 32], mint: &[u8; 32]) -> [u8; 32] {
    find_vault_address(wallet, &TOKEN_PROGRAM_ID, mint).unwrap().0
}

fn get_config_fee(data: &[u8]) -> u16 {
    u16::from_le_bytes(data[CONFIG_FEE_OFF..CONFIG_FEE_OFF + 2].try_into().unwrap())
}

fn get_config_locked(data: &[u8]) -> bool {
    data[CONFIG_LOCKED_OFF] != 0
}

fn get_config_authority(data: &[u8]) -> [u8; 32] {
    data[CONFIG_AUTH_OFF..CONFIG_AUTH_OFF + 32].try_into().unwrap()
}

/// Token balances of the pool's world, moved by the token operations.
struct Ledger {
    balances: HashMap<[u8; 32], u64>,
    supplies: HashMap<[u8; 32], u64>,
}

impl Ledger {
    fn balance(&self, a: &[u8; 32]) -> u64 {
        *self.balances.get(a).unwrap_or(&0)
    }

    fn apply(&mut self, ops: &[TokenOp]) {
        for op in ops {
            match op.disc {
                TRANSFER => {
                    let from = self.balance(&op.a);
                    assert!(from >= op.amount, "insufficient funds");
                    self.balances.insert(op.a, from - op.amount);
                    let to = self.balance(&op.b);
                    self.balances.insert(op.b, to + op.amount);
                }
                MINT_TO => {
                    let to = self.balance(&op.b);
                    self.balances.insert(op.b, to + op.amount);
                    let s = *self.supplies.get(&op.a).unwrap_or(&0);
                    self.supplies.insert(op.a, s + op.amount);
                }
                BURN => {
                    let from = self.balance(&op.a);
                    assert!(from >= op.amount, "insufficient funds");
                    self.balances.insert(op.a, from - op.amount);
                    let s = *self.supplies.get(&op.b).unwrap();
                    self.supplies.insert(op.b, s - op.amount);
                }
                _ => panic!("unknown token operation"),
            }
        }
    }
}

struct PoolContext {
    initializer: [u8; 32],
    mint_x: [u8; 32],
    mint_y: [u8; 32],
    config: [u8; 32],
    config_data: Vec<u8>,
    lp_mint: [u8; 32],
    ledger: Ledger,
}

fn initialize_data(seed: u64, authority: &[u8; 32], fee: u16, x: u64, y: u64) -> Vec<u8> {
    let mut data = Vec::new();
    data.extend_from_slice(&seed.to_le_bytes());
    data.extend_from_slice(authority);
    data.extend_from_slice(&fee.to_le_bytes());
    data.extend_from_slice(&x.to_le_bytes());
    data.extend_from_slice(&y.to_le_bytes());
    data
}

fn initialize_accounts(initializer: &[u8; 32], mint_x: &[u8; 32], mint_y: &[u8; 32], seed: u64) -> Vec<Account> {
    let config = find_config_address(seed, mint_x, mint_y).unwrap().0;
    let lp_mint = find_lp_mint_address(&config).unwrap().0;
    vec![
        account(*initializer, true, true),
        account(*mint_x, false, false),
        account(*mint_y, false, false),
        account(lp_mint, false, true),
        account(ata(&config, mint_x), false, true),
        account(ata(&config, mint_y), false, true),
        account(ata(initializer, mint_x), false, true),
        account(ata(initializer, mint_y), false, true),
        account(ata(initializer, &lp_mint), false, true),
        account(config, false, true),
        account(SYSTEM_PROGRAM_ID, false, false),
        account(TOKEN_PROGRAM_ID, false, false),
        account(ATA_PROGRAM_ID, false, false),
    ]
}

/// Runs an initialization against the ledger; returns the config data it stores.
fn run_initialize(
    ledger: &mut Ledger,
    initializer: &[u8; 32],
    mint_x: &[u8; 32],
    mint_y: &[u8; 32],
    seed: u64,
    authority: &[u8; 32],
    fee: u16,
    x: u64,
    y: u64,
) -> Result<Vec<u8>, ProgramError> {
    let accounts = initialize_accounts(initializer, mint_x, mint_y, seed);
    let data = initialize_data(seed, authority, fee, x, y);
    let ix = Initialize::try_from(&data, &accounts)?;
    let plan = ix.process()?;
    ledger.apply(&plan.batch.ops);
    Ok(plan.config.to_bytes())
}

impl PoolContext {
    fn new(seed: u64, fee: u16, init_x: u64, init_y: u64) -> Self {
        let initializer = key(1, seed as u8);
        let mint_x = key(2, seed as u8);
        let mint_y = key(3, seed as u8);
        let mut ledger = Ledger { balances: HashMap::new(), supplies: HashMap::new() };
        ledger.balances.insert(ata(&initializer, &mint_x), init_x);
        ledger.balances.insert(ata(&initializer, &mint_y), init_y);
        let config_data = run_initialize(
            &mut ledger, &initializer, &mint_x, &mint_y, seed, &initializer, fee, init_x, init_y,
        )
        .unwrap();
        let config = find_config_address(seed, &mint_x, &mint_y).unwrap().0;
        let lp_mint = find_lp_mint_address(&config).unwrap().0;
        PoolContext { initializer, mint_x, mint_y, config, config_data, lp_mint, ledger }
    }

    fn config_account(&self, is_writable: bool) -> Account {
        Account {
            address: self.config,
            owner: ID,
            is_signer: false,
            is_writable,
            data: self.config_data.clone(),
        }
    }

    fn add_user(&mut self, tag: u8, amount_x: u64, amount_y: u64) -> [u8; 32] {
        let user = key(9, tag);
        self.ledger.balances.insert(ata(&user, &self.mint_x), amount_x);
        self.ledger.balances.insert(ata(&user, &self.mint_y), amount_y);
        user
    }

    fn update_authority(&mut self, signer: &[u8; 32], new_authority: &[u8; 32]) -> Result<(), ProgramError> {
        let accounts = vec![account(*signer, true, false), self.config_account(true)];
        let ix = UpdateAuthority::try_from(new_authority, &accounts)?;
        let config = ix.process()?;
        self.config_data = config.to_bytes();
        Ok(())
    }

    fn update_fee(&mut self, signer: &[u8; 32], fee: u16) -> Result<(), ProgramError> {
        let accounts = vec![account(*signer, true, false), self.config_account(true)];
        let ix = UpdateFee::try_from(&fee.to_le_bytes(), &accounts)?;
        let config = ix.process()?;
        self.config_data = config.to_bytes();
        Ok(())
    }

    fn update_lock(&mut self, signer: &[u8; 32]) -> Result<(), ProgramError> {
        let accounts = vec![account(*signer, true, false), self.config_account(true)];
        let ix = UpdateLock::try_from(&accounts)?;
        let config = ix.process()?;
        self.config_data = config.to_bytes();
        Ok(())
    }

    fn remove_authority(&mut self, signer: &[u8; 32]) -> Result<(), ProgramError> {
        let accounts = vec![account(*signer, true, false), self.config_account(true)];
        let ix = RemoveAuthority::try_from(&accounts)?;
        let config = ix.process()?;
        self.config_data = config.to_bytes();
        Ok(())
    }

    /// Swaps `amount` of `mint_from` for `mint_to`, with the clock at `now`.
    fn swap(
        &mut self,
        user: &[u8; 32],
        mint_from: &[u8; 32],
        mint_to: &[u8; 32],
        amount: u64,
        min: u64,
        expiration: i64,
        now: i64,
    ) -> Result<(), ProgramError> {
        let vault_from = ata(&self.config, mint_from);
        let vault_to = ata(&self.config, mint_to);
        let user_from = ata(user, mint_from);
        let user_to = ata(user, mint_to);
        let accounts = vec![
            account(*user, true, false),
            account(*mint_from, false, false),
            account(*mint_to, false, false),
            account(user_from, false, true),
            account(user_to, false, true),
            account(vault_from, false, true),
            account(vault_to, false, true),
            self.config_account(false),
            account(TOKEN_PROGRAM_ID, false, false),
        ];
        let mut data = Vec::new();
        data.extend_from_slice(&amount.to_le_bytes());
        data.extend_from_slice(&min.to_le_bytes());
        data.extend_from_slice(&expiration.to_le_bytes());
        let ix = Swap::try_from(&data, &accounts)?;
        let reads = SwapReads {
            user_to_mint: Ok(*mint_to),
            clock: Some(Ok(now)),
            reserves: Ok((self.ledger.balance(&vault_from), self.ledger.balance(&vault_to))),
        };
        let plan = ix.process(&reads)?;
        self.ledger.apply(&plan.ops);
        Ok(())
    }

    fn withdraw(
        &mut self,
        user: &[u8; 32],
        amount: u64,
        min_x: u64,
        min_y: u64,
        expiration: i64,
        now: i64,
    ) -> Result<(), ProgramError> {
        let vault_x = ata(&self.config, &self.mint_x);
        let vault_y = ata(&self.config, &self.mint_y);
        let accounts = vec![
            account(*user, true, false),
            account(self.mint_x, false, false),
            account(self.mint_y, false, false),
            account(self.lp_mint, false, true),
            account(vault_x, false, true),
            account(vault_y, false, true),
            account(ata(user, &self.mint_x), false, true),
            account(ata(user, &self.mint_y), false, true),
            account(ata(user, &self.lp_mint), false, true),
            self.config_account(false),
            account(TOKEN_PROGRAM_ID, false, false),
        ];
        let mut data = Vec::new();
        data.extend_from_slice(&amount.to_le_bytes());
        data.extend_from_slice(&min_x.to_le_bytes());
        data.extend_from_slice(&min_y.to_le_bytes());
        data.extend_from_slice(&expiration.to_le_bytes());
        let ix = Withdraw::try_from(&data, &accounts)?;
        let reads = WithdrawReads {
            user_x_mint: Ok(self.mint_x),
            user_y_mint: Ok(self.mint_y),
            clock: Some(Ok(now)),
            balances: Ok((
                self.ledger.balance(&vault_x),
                self.ledger.balance(&vault_y),
                *self.ledger.supplies.get(&self.lp_mint).unwrap_or(&0),
            )),
        };
        let plan = ix.process(&reads)?;
        self.ledger.apply(&plan.ops);
        Ok(())
    }
}

fn integer_sqrt(n: u128) -> u128 {
    if n == 0 {
        return 0;
    }
    let mut x = n;
    let mut y = (x + 1) / 2;
    while y < x {
        x = y;
        y = (x + n / x) / 2;
    }
    x
}

// =============================================================================
// UPDATE AUTHORITY / FEE / LOCK / REMOVE AUTHORITY
// =============================================================================

const CA_SEED: u64 = 10;
const CA_FEE: u16 = 300;
const CA_INIT_X: u64 = 10_000_000;
const CA_INIT_Y: u64 = 10_000_000;

fn setup_config_pool() -> PoolContext {
    PoolContext::new(CA_SEED, CA_FEE, CA_INIT_X, CA_INIT_Y)
}

#[test]
fn test_update_authority_success() {
    let mut ctx = setup_config_pool();
    let new_authority = key(7, 7);
    let signer = ctx.initializer;
    ctx.update_authority(&signer, &new_authority).unwrap();
    assert_eq!(
        &ctx.config_data[CONFIG_AUTH_OFF..CONFIG_AUTH_OFF + 32],
        &new_authority[..],
    );
}

#[test]
fn test_update_authority_fails_with_wrong_signer() {
    let mut ctx = setup_config_pool();
    let wrong = key(8, 8);
    let result = ctx.update_authority(&wrong, &wrong);
    assert!(result.is_err(), "Wrong authority should fail");
    assert_eq!(result, Err(ProgramError::Custom(AmmError::InvalidAuthority.code())));
}

#[test]
fn test_update_fee_success() {
    let mut ctx = setup_config_pool();
    let new_fee: u16 = 500;
    let signer = ctx.initializer;
    ctx.update_fee(&signer, new_fee).unwrap();
    assert_eq!(get_config_fee(&ctx.config_data), new_fee);
}

#[test]
fn test_update_fee_fails_with_excessive_fee() {
    let mut ctx = setup_config_pool();
    let signer = ctx.initializer;
    let result = ctx.update_fee(&signer, 10_001);
    assert!(result.is_err(), "Fee > 10000 should fail");
}

#[test]
fn test_update_fee_with_max_fee_succeeds() {
    let mut ctx = setup_config_pool();
    let signer = ctx.initializer;
    let result = ctx.update_fee(&signer, 10_000);
    assert!(result.is_ok(), "Fee = 10000 should succeed");
    assert_eq!(get_config_fee(&ctx.config_data), 10_000);
}

#[test]
fn test_update_fee_with_zero_succeeds() {
    let mut ctx = setup_config_pool();
    let signer = ctx.initializer;
    let result = ctx.update_fee(&signer, 0);
    assert!(result.is_ok(), "Fee = 0 should succeed");
    assert_eq!(get_config_fee(&ctx.config_data), 0);
}

#[test]
fn test_update_fee_fails_with_wrong_authority() {
    let mut ctx = setup_config_pool();
    let wrong = key(8, 8);
    assert!(ctx.update_fee(&wrong, 100).is_err());
}

#[test]
fn test_update_lock_toggle() {
    let mut ctx = setup_config_pool();
    let signer = ctx.initializer;

    // Initially unlocked
    assert!(!get_config_locked(&ctx.config_data));

    // Lock
    ctx.update_lock(&signer).unwrap();
    assert!(get_config_locked(&ctx.config_data), "Should be locked");

    // Unlock
    ctx.update_lock(&signer).unwrap();
    assert!(!get_config_locked(&ctx.config_data), "Should be unlocked");
}

#[test]
fn test_update_lock_fails_with_wrong_authority() {
    let mut ctx = setup_config_pool();
    let wrong = key(8, 8);
    assert!(ctx.update_lock(&wrong).is_err());
}

#[test]
fn test_remove_authority_success() {
    let mut ctx = setup_config_pool();
    let signer = ctx.initializer;
    ctx.remove_authority(&signer).unwrap();
    assert_eq!(get_config_authority(&ctx.config_data), [0u8; 32], "Authority should be zeroed");
}

#[test]
fn test_remove_authority_prevents_further_updates() {
    let mut ctx = setup_config_pool();
    let signer = ctx.initializer;

    // Remove authority
    ctx.remove_authority(&signer).unwrap();

    // Now try to update fee — should fail (authority is zeroed, nobody matches)
    let result = ctx.update_fee(&signer, 100);
    assert!(result.is_err(), "Should fail after authority removed");
}

#[test]
fn config_action_requires_signer_and_writable_config() {
    let ctx = setup_config_pool();
    let not_signing = vec![account(ctx.initializer, false, false), ctx.config_account(true)];
    assert_eq!(
        UpdateLock::try_from(&not_signing).err(),
        Some(ProgramError::Custom(AmmError::NotSigner.code())),
    );
    let read_only = vec![account(ctx.initializer, true, false), ctx.config_account(false)];
    assert_eq!(
        UpdateLock::try_from(&read_only).err(),
        Some(ProgramError::Custom(AmmError::NotMutable.code())),
    );
    let one = vec![account(ctx.initializer, true, false)];
    assert_eq!(UpdateLock::try_from(&one).err(), Some(ProgramError::NotEnoughAccountKeys));
    let accounts = vec![account(ctx.initializer, true, false), ctx.config_account(true)];
    assert_eq!(
        UpdateFee::try_from(&[1u8], &accounts).err(),
        Some(ProgramError::InvalidInstructionData),
    );
    assert_eq!(
        UpdateAuthority::try_from(&[0u8; 31], &accounts).err(),
        Some(ProgramError::InvalidInstructionData),
    );
}

#[test]
fn config_action_refuses_foreign_or_uninitialized_config() {
    let ctx = setup_config_pool();
    let mut foreign = ctx.config_account(true);
    foreign.owner = TOKEN_PROGRAM_ID;
    let accounts = vec![account(ctx.initializer, true, false), foreign];
    let ix = UpdateLock::try_from(&accounts).unwrap();
    assert_eq!(ix.process().err(), Some(ProgramError::Custom(AmmError::InvalidAccountOwner.code())));

    let mut short = ctx.config_account(true);
    short.data.pop();
    let accounts = vec![account(ctx.initializer, true, false), short];
    let ix = UpdateLock::try_from(&accounts).unwrap();
    assert_eq!(ix.process().err(), Some(ProgramError::Custom(AmmError::InvalidAccountLength.code())));

    let mut blank = ctx.config_account(true);
    blank.data[0] = 0;
    let accounts = vec![account(ctx.initializer, true, false), blank];
    let ix = UpdateLock::try_from(&accounts).unwrap();
    assert_eq!(ix.process().err(), Some(ProgramError::Custom(AmmError::PoolNotInitialized.code())));

    let mut elsewhere = ctx.config_account(true);
    elsewhere.address = key(4, 4);
    let accounts = vec![account(ctx.initializer, true, false), elsewhere];
    let ix = UpdateLock::try_from(&accounts).unwrap();
    assert_eq!(ix.process().err(), Some(ProgramError::Custom(AmmError::InvalidPda.code())));
}

#[test]
fn authority_handover_moves_control() {
    let mut ctx = setup_config_pool();
    let old = ctx.initializer;
    let new_authority = key(7, 7);
    ctx.update_authority(&old, &new_authority).unwrap();
    assert!(ctx.update_fee(&old, 100).is_err());
    ctx.update_fee(&new_authority, 100).unwrap();
    assert_eq!(get_config_fee(&ctx.config_data), 100);
}

// =============================================================================
// INITIALIZE
// =============================================================================

#[test]
fn test_initialize_success() {
    let seed: u64 = 42;
    let fee: u16 = 300; // 3%
    let init_x: u64 = 1_000_000; // 1 token (6 decimals)
    let init_y: u64 = 2_000_000;

    let initializer = key(1, 42);
    let mint_x = key(2, 42);
    let mint_y = key(3, 42);
    let mut ledger = Ledger { balances: HashMap::new(), supplies: HashMap::new() };
    ledger.balances.insert(ata(&initializer, &mint_x), init_x);
    ledger.balances.insert(ata(&initializer, &mint_y), init_y);

    let result = run_initialize(
        &mut ledger, &initializer, &mint_x, &mint_y, seed, &initializer, fee, init_x, init_y,
    );
    assert!(result.is_ok(), "Initialize failed: {:?}", result.as_ref().err());
    let data = result.unwrap();

    // --- Verify config state ---
    let config_pda = find_config_address(seed, &mint_x, &mint_y).unwrap().0;
    assert_eq!(data.len(), CONFIG_LEN);
    assert_eq!(data[CONFIG_DISC_OFF], CONFIG_DISCRIMINATOR);
    assert_eq!(
        u64::from_le_bytes(data[CONFIG_SEED_OFF..CONFIG_SEED_OFF + 8].try_into().unwrap()),
        seed
    );
    assert_eq!(&data[CONFIG_AUTH_OFF..CONFIG_AUTH_OFF + 32], &initializer[..]);
    assert_eq!(&data[CONFIG_MINT_X_OFF..CONFIG_MINT_X_OFF + 32], &mint_x[..]);
    assert_eq!(&data[CONFIG_MINT_Y_OFF..CONFIG_MINT_Y_OFF + 32], &mint_y[..]);
    assert_eq!(get_config_fee(&data), fee);
    assert!(!get_config_locked(&data));

    // --- Verify vault balances ---
    let vault_x = ata(&config_pda, &mint_x);
    let vault_y = ata(&config_pda, &mint_y);
    assert_eq!(ledger.balance(&vault_x), init_x);
    assert_eq!(ledger.balance(&vault_y), init_y);

    // --- Verify LP tokens minted ---
    // LP = sqrt(init_x * init_y) - MINIMUM_LIQUIDITY(1000)
    let expected_lp = integer_sqrt(init_x as u128 * init_y as u128) as u64 - 1000;
    let lp_mint = find_lp_mint_address(&config_pda).unwrap().0;
    let initializer_lp = ata(&initializer, &lp_mint);
    assert_eq!(ledger.balance(&initializer_lp), expected_lp);
    assert_eq!(expected_lp, 1_414_213 - 1000);

    // --- Verify user token balances drained ---
    assert_eq!(ledger.balance(&ata(&initializer, &mint_x)), 0);
    assert_eq!(ledger.balance(&ata(&initializer, &mint_y)), 0);
}

fn initialize_with(seed: u64, fee: u16, x: u64, y: u64, balance: u64) -> Result<Vec<u8>, ProgramError> {
    let user = key(1, 77);
    let mint_x = key(2, 77);
    let mint_y = key(3, 77);
    let mut ledger = Ledger { balances: HashMap::new(), supplies: HashMap::new() };
    ledger.balances.insert(ata(&user, &mint_x), balance);
    ledger.balances.insert(ata(&user, &mint_y), balance);
    run_initialize(&mut ledger, &user, &mint_x, &mint_y, seed, &user, fee, x, y)
}

#[test]
fn test_initialize_fails_with_zero_amount_x() {
    let result = initialize_with(1, 300, 0, 1_000_000, 1_000_000);
    assert!(result.is_err(), "Should fail with zero init_amount_x");
    assert_eq!(result.err(), Some(ProgramError::Custom(AmmError::InvalidAmount.code())));
}

#[test]
fn test_initialize_fails_with_excessive_fee() {
    // fee = 10001 (> 100%)
    let result = initialize_with(1, 10_001, 1_000_000, 1_000_000, 1_000_000);
    assert!(result.is_err(), "Should fail with excessive fee");
    assert_eq!(result.err(), Some(ProgramError::Custom(AmmError::InvalidFee.code())));
}

#[test]
fn test_initialize_fails_with_insufficient_liquidity() {
    // sqrt(1 * 1) = 1 which is <= MINIMUM_LIQUIDITY(1000)
    let result = initialize_with(1, 300, 1, 1, 1);
    assert!(result.is_err(), "Should fail with insufficient initial liquidity");
    assert_eq!(
        result.err(),
        Some(ProgramError::Custom(AmmError::InsufficientInitialLiquidity.code())),
    );
}

#[test]
fn test_initialize_with_max_fee_succeeds() {
    // fee = 10000 (exactly 100%) should succeed
    let result = initialize_with(99, 10_000, 1_000_000, 1_000_000, 1_000_000);
    assert!(result.is_ok(), "10000 bps (100%) should be valid");
}

#[test]
fn initialize_setup_creates_pool_accounts() {
    let user = key(1, 79);
    let mint_x = key(2, 79);
    let mint_y = key(3, 79);
    let seed: u64 = 9;
    let data = initialize_data(seed, &user, 300, 1_000_000, 1_000_000);
    let accounts = initialize_accounts(&user, &mint_x, &mint_y, seed);
    let ix = Initialize::try_from(&data, &accounts).unwrap();
    let (config, config_bump) = find_config_address(seed, &mint_x, &mint_y).unwrap();
    let (lp_mint, lp_bump) = find_lp_mint_address(&config).unwrap();
    let actions = ix.setup();
    assert_eq!(actions.len(), 6);
    match &actions[0] {
        SetupAction::CreateAccount { account, space, owner, payer, signer_seeds } => {
            assert_eq!((*account, *space, *owner, *payer), (config, 110, ID, user));
            let expected: Vec<Vec<u8>> = vec![
                b"config".to_vec(),
                seed.to_le_bytes().to_vec(),
                mint_x.to_vec(),
                mint_y.to_vec(),
                vec![config_bump],
            ];
            assert_eq!(signer_seeds, &expected);
        }
        _ => panic!("expected the config account's creation"),
    }
    match &actions[1] {
        SetupAction::CreateAccount { account, space, owner, payer, signer_seeds } => {
            assert_eq!((*account, *space, *owner, *payer), (lp_mint, 82, TOKEN_PROGRAM_ID, user));
            let expected: Vec<Vec<u8>> = vec![b"lp".to_vec(), config.to_vec(), vec![lp_bump]];
            assert_eq!(signer_seeds, &expected);
        }
        _ => panic!("expected the LP mint's creation"),
    }
    match &actions[2] {
        SetupAction::InitializeMint { mint, decimals, mint_authority } => {
            assert_eq!((*mint, *decimals, *mint_authority), (lp_mint, 6, config));
        }
        _ => panic!("expected the LP mint's initialization"),
    }
    let atas = [
        (ata(&config, &mint_x), config, mint_x),
        (ata(&config, &mint_y), config, mint_y),
        (ata(&user, &lp_mint), user, lp_mint),
    ];
    for (i, (acct, wallet, mint)) in atas.iter().enumerate() {
        match &actions[3 + i] {
            SetupAction::CreateAssociatedTokenAccount {
                funding,
                account,
                wallet: w,
                mint: m,
                system_program,
                token_program,
            } => {
                assert_eq!((*funding, *account, *w, *m), (user, *acct, *wallet, *mint));
                assert_eq!((*system_program, *token_program), (SYSTEM_PROGRAM_ID, TOKEN_PROGRAM_ID));
            }
            _ => panic!("expected an associated token account's creation"),
        }
    }
}

#[test]
fn initialize_liquidity_threshold_is_1001_squared() {
    // 1001 * 1001 is the least product that leaves one LP token to mint.
    assert!(initialize_with(5, 0, 1001, 1001, 1001).is_ok());
    assert_eq!(
        initialize_with(5, 0, 1000, 1002, 1002).err(),
        Some(ProgramError::Custom(AmmError::InsufficientInitialLiquidity.code())),
    );
}

#[test]
fn initialize_refuses_wrong_addresses_and_short_data() {
    let user = key(1, 78);
    let mint_x = key(2, 78);
    let mint_y = key(3, 78);
    let data = initialize_data(1, &user, 300, 1_000_000, 1_000_000);
    let mut accounts = initialize_accounts(&user, &mint_x, &mint_y, 1);
    assert_eq!(
        Initialize::try_from(&data[..57], &accounts).err(),
        Some(ProgramError::InvalidInstructionData),
    );
    accounts[9].address = key(4, 78);
    assert_eq!(
        Initialize::try_from(&data, &accounts).err(),
        Some(ProgramError::Custom(AmmError::InvalidPda.code())),
    );
    let mut accounts = initialize_accounts(&user, &mint_x, &mint_y, 1);
    accounts[3].address = key(5, 78);
    assert_eq!(
        Initialize::try_from(&data, &accounts).err(),
        Some(ProgramError::Custom(AmmError::InvalidPda.code())),
    );
    let mut accounts = initialize_accounts(&user, &mint_x, &mint_y, 1);
    accounts[0].is_signer = false;
    assert_eq!(
        Initialize::try_from(&data, &accounts).err(),
        Some(ProgramError::Custom(AmmError::NotSigner.code())),
    );
    let accounts = initialize_accounts(&user, &mint_x, &mint_y, 1);
    assert_eq!(
        Initialize::try_from(&data, &accounts[..12]).err(),
        Some(ProgramError::NotEnoughAccountKeys),
    );
}

// =============================================================================
// SWAP
// =============================================================================

const SW_SEED: u64 = 3;
const SW_FEE: u16 = 300; // 3%
const SW_INIT_X: u64 = 100_000_000; // 100 tokens
const SW_INIT_Y: u64 = 100_000_000;
const CLOCK_TS: i64 = 1_000_000;

fn setup_swap_pool() -> PoolContext {
    PoolContext::new(SW_SEED, SW_FEE, SW_INIT_X, SW_INIT_Y)
}

#[test]
fn test_swap_x_to_y_success() {
    let mut ctx = setup_swap_pool();
    let user = ctx.add_user(1, 10_000_000, 0);

    let vault_x = ata(&ctx.config, &ctx.mint_x);
    let vault_y = ata(&ctx.config, &ctx.mint_y);
    let vault_x_before = ctx.ledger.balance(&vault_x);
    let vault_y_before = ctx.ledger.balance(&vault_y);
    let user_x = ata(&user, &ctx.mint_x);
    let user_y = ata(&user, &ctx.mint_y);

    let swap_amount: u64 = 1_000_000; // 1 token
    let (mx, my) = (ctx.mint_x, ctx.mint_y);
    let result = ctx.swap(&user, &mx, &my, swap_amount, 1, CLOCK_TS + 1000, CLOCK_TS);
    assert!(result.is_ok(), "Swap X->Y failed: {:?}", result.err());

    // --- Verify user received Y tokens ---
    let user_y_after = ctx.ledger.balance(&user_y);
    assert!(user_y_after > 0, "User should receive Y tokens");
    // fee 30_000, net 970_000: 100_000_000 * 970_000 / 100_970_000
    assert_eq!(user_y_after, 960_681);

    // --- Verify user spent X tokens ---
    let user_x_after = ctx.ledger.balance(&user_x);
    assert!(user_x_after < 10_000_000, "User should spend X tokens");

    // --- Verify vault_x increased, vault_y decreased ---
    let vault_x_after = ctx.ledger.balance(&vault_x);
    let vault_y_after = ctx.ledger.balance(&vault_y);
    assert!(vault_x_after > vault_x_before, "Vault X should increase");
    assert!(vault_y_after < vault_y_before, "Vault Y should decrease");

    // --- Verify constant product maintained (k should increase due to fees) ---
    let k_before = vault_x_before as u128 * vault_y_before as u128;
    let k_after = vault_x_after as u128 * vault_y_after as u128;
    assert!(k_after >= k_before, "k should increase or stay same (fees)");
}

#[test]
fn test_swap_y_to_x_success() {
    let mut ctx = setup_swap_pool();
    let user = ctx.add_user(2, 0, 10_000_000);
    let swap_amount: u64 = 1_000_000;
    let (mx, my) = (ctx.mint_x, ctx.mint_y);
    let result = ctx.swap(&user, &my, &mx, swap_amount, 1, CLOCK_TS + 1000, CLOCK_TS);
    assert!(result.is_ok(), "Swap Y->X failed: {:?}", result.err());
    let user_x = ata(&user, &ctx.mint_x);
    assert!(ctx.ledger.balance(&user_x) > 0, "User should receive X");
}

#[test]
fn test_swap_fails_with_zero_amount() {
    let mut ctx = setup_swap_pool();
    let user = ctx.add_user(3, 10_000_000, 0);
    let (mx, my) = (ctx.mint_x, ctx.mint_y);
    let result = ctx.swap(&user, &mx, &my, 0, 1, CLOCK_TS + 1000, CLOCK_TS);
    assert!(result.is_err(), "Should fail with zero amount");
    assert_eq!(result.err(), Some(ProgramError::Custom(AmmError::InvalidAmount.code())));
}

#[test]
fn test_swap_fails_with_slippage_exceeded() {
    let mut ctx = setup_swap_pool();
    let user = ctx.add_user(4, 1_000_000, 0);
    let (mx, my) = (ctx.mint_x, ctx.mint_y);
    let result = ctx.swap(&user, &mx, &my, 1_000_000, u64::MAX, CLOCK_TS + 1000, CLOCK_TS);
    assert!(result.is_err(), "Should fail with slippage exceeded");
    assert_eq!(result.err(), Some(ProgramError::Custom(AmmError::SlippageExceeded.code())));
}

#[test]
fn test_swap_fails_when_pool_locked() {
    let mut ctx = setup_swap_pool();
    let signer = ctx.initializer;
    ctx.update_lock(&signer).unwrap();
    let user = ctx.add_user(5, 1_000_000, 0);
    let (mx, my) = (ctx.mint_x, ctx.mint_y);
    let result = ctx.swap(&user, &mx, &my, 1_000_000, 1, CLOCK_TS + 1000, CLOCK_TS);
    assert!(result.is_err(), "Should fail when locked");
    assert_eq!(result.err(), Some(ProgramError::Custom(AmmError::PoolLocked.code())));
}

#[test]
fn test_swap_fails_with_expired_offer() {
    let mut ctx = setup_swap_pool();
    let user = ctx.add_user(6, 1_000_000, 0);
    let (mx, my) = (ctx.mint_x, ctx.mint_y);
    let result = ctx.swap(&user, &mx, &my, 1_000_000, 1, CLOCK_TS - 1, CLOCK_TS);
    assert!(result.is_err(), "Should fail with expired offer");
    assert_eq!(result.err(), Some(ProgramError::Custom(AmmError::OfferExpired.code())));
}

#[test]
fn test_swap_fails_with_invalid_mint_pair() {
    let mut ctx = setup_swap_pool();
    let fake_mint = key(6, 66);
    let user = ctx.add_user(7, 1_000_000, 0);
    let mx = ctx.mint_x;
    let result = ctx.swap(&user, &mx, &fake_mint, 1_000_000, 1, CLOCK_TS + 1000, CLOCK_TS);
    assert!(result.is_err(), "Should fail with invalid mint pair");
    assert_eq!(result.err(), Some(ProgramError::Custom(AmmError::InvalidMint.code())));
}

#[test]
fn swap_off_chain_does_not_check_expiration() {
    // Where the clock is not read, an expired offer still goes through.
    let mut ctx = setup_swap_pool();
    let user = ctx.add_user(8, 1_000_000, 0);
    let (mx, my) = (ctx.mint_x, ctx.mint_y);
    let vault_from = ata(&ctx.config, &mx);
    let vault_to = ata(&ctx.config, &my);
    let accounts = vec![
        account(user, true, false),
        account(mx, false, false),
        account(my, false, false),
        account(ata(&user, &mx), false, true),
        account(ata(&user, &my), false, true),
        account(vault_from, false, true),
        account(vault_to, false, true),
        ctx.config_account(false),
        account(TOKEN_PROGRAM_ID, false, false),
    ];
    let mut data = Vec::new();
    data.extend_from_slice(&1_000_000u64.to_le_bytes());
    data.extend_from_slice(&1u64.to_le_bytes());
    data.extend_from_slice(&(CLOCK_TS - 1).to_le_bytes());
    let ix = Swap::try_from(&data, &accounts).unwrap();
    let reads = SwapReads {
        user_to_mint: Ok(my),
        clock: None,
        reserves: Ok((ctx.ledger.balance(&vault_from), ctx.ledger.balance(&vault_to))),
    };
    let plan = ix.process(&reads).unwrap();
    assert_eq!(plan.ops.len(), 2);
    assert_eq!(plan.ops[0].amount, 1_000_000);
    assert_eq!(plan.ops[1].amount, 960_681);
    assert_eq!(plan.ops[1].authority, ctx.config);
    // A failing read of the destination account ends the swap with its error.
    let reads = SwapReads { user_to_mint: Err(ProgramError::Runtime(7)), clock: None, reserves: Ok((1, 1)) };
    assert_eq!(ix.process(&reads).err(), Some(ProgramError::Runtime(7)));
}

// =============================================================================
// WITHDRAW
// =============================================================================

const WD_SEED: u64 = 2;
const WD_FEE: u16 = 300;
const WD_INIT_X: u64 = 10_000_000;
const WD_INIT_Y: u64 = 20_000_000;

fn setup_withdraw_pool() -> PoolContext {
    PoolContext::new(WD_SEED, WD_FEE, WD_INIT_X, WD_INIT_Y)
}

#[test]
fn test_withdraw_success() {
    let mut ctx = setup_withdraw_pool();

    // Initializer has LP tokens from initialization
    let initializer_lp = ata(&ctx.initializer, &ctx.lp_mint);
    let lp_balance = ctx.ledger.balance(&initializer_lp);
    assert!(lp_balance > 0, "Initializer should have LP tokens");

    let vault_x = ata(&ctx.config, &ctx.mint_x);
    let vault_y = ata(&ctx.config, &ctx.mint_y);
    let vault_x_before = ctx.ledger.balance(&vault_x);
    let vault_y_before = ctx.ledger.balance(&vault_y);
    let user_x = ata(&ctx.initializer, &ctx.mint_x);
    let user_y = ata(&ctx.initializer, &ctx.mint_y);
    let user_x_before = ctx.ledger.balance(&user_x);
    let user_y_before = ctx.ledger.balance(&user_y);

    // Withdraw half the LP tokens
    let withdraw_amount = lp_balance / 2;
    let initializer = ctx.initializer;
    let result = ctx.withdraw(&initializer, withdraw_amount, 1, 1, CLOCK_TS + 1000, CLOCK_TS);
    assert!(result.is_ok(), "Withdraw failed: {:?}", result.err());

    // --- Verify LP burned ---
    let lp_after = ctx.ledger.balance(&initializer_lp);
    assert_eq!(lp_after, lp_balance - withdraw_amount);

    // --- Verify tokens received ---
    let user_x_after = ctx.ledger.balance(&user_x);
    let user_y_after = ctx.ledger.balance(&user_y);
    assert!(user_x_after > user_x_before, "Should receive token X");
    assert!(user_y_after > user_y_before, "Should receive token Y");

    // --- Verify vault balances decreased ---
    let vault_x_after = ctx.ledger.balance(&vault_x);
    let vault_y_after = ctx.ledger.balance(&vault_y);
    assert!(vault_x_after < vault_x_before, "Vault X should decrease");
    assert!(vault_y_after < vault_y_before, "Vault Y should decrease");

    // --- Verify conservation: user received = vault lost ---
    assert_eq!(user_x_after - user_x_before, vault_x_before - vault_x_after);
    assert_eq!(user_y_after - user_y_before, vault_y_before - vault_y_after);

    // --- Exact shares: balance * amount / (supply + 1000) ---
    let supply = lp_balance as u128;
    let x_out = (vault_x_before as u128 * withdraw_amount as u128 / (supply + 1000)) as u64;
    let y_out = (vault_y_before as u128 * withdraw_amount as u128 / (supply + 1000)) as u64;
    assert_eq!(user_x_after - user_x_before, x_out);
    assert_eq!(user_y_after - user_y_before, y_out);
}

#[test]
fn test_withdraw_fails_with_zero_amount() {
    let mut ctx = setup_withdraw_pool();
    let initializer = ctx.initializer;
    let result = ctx.withdraw(&initializer, 0, 1, 1, CLOCK_TS + 1000, CLOCK_TS);
    assert!(result.is_err(), "Should fail with zero amount");
    assert_eq!(result.err(), Some(ProgramError::Custom(AmmError::InvalidAmount.code())));
}

#[test]
fn test_withdraw_fails_with_slippage_exceeded() {
    let mut ctx = setup_withdraw_pool();
    let initializer = ctx.initializer;
    let result = ctx.withdraw(&initializer, 1, u64::MAX, u64::MAX, CLOCK_TS + 1000, CLOCK_TS);
    assert!(result.is_err(), "Should fail with slippage exceeded");
    assert_eq!(result.err(), Some(ProgramError::Custom(AmmError::SlippageExceeded.code())));
}

#[test]
fn test_withdraw_fails_when_pool_locked() {
    let mut ctx = setup_withdraw_pool();
    let initializer = ctx.initializer;
    ctx.update_lock(&initializer).unwrap();
    let result = ctx.withdraw(&initializer, 100, 1, 1, CLOCK_TS + 1000, CLOCK_TS);
    assert!(result.is_err(), "Should fail when locked");
    assert_eq!(result.err(), Some(ProgramError::Custom(AmmError::PoolLocked.code())));
}

#[test]
fn test_withdraw_fails_with_expired_offer() {
    let mut ctx = setup_withdraw_pool();
    let initializer = ctx.initializer;
    let result = ctx.withdraw(&initializer, 100, 1, 1, CLOCK_TS - 1, CLOCK_TS);
    assert!(result.is_err(), "Should fail with expired offer");
    assert_eq!(result.err(), Some(ProgramError::Custom(AmmError::OfferExpired.code())));
}

#[test]
fn withdraw_overflowing_share_is_refused() {
    // Redeeming far more LP than exist can compute a share beyond u64.
    let mut ctx = setup_withdraw_pool();
    let initializer = ctx.initializer;
    ctx.ledger.supplies.insert(ctx.lp_mint, 0);
    let vault_x = ata(&ctx.config, &ctx.mint_x);
    ctx.ledger.balances.insert(vault_x, u64::MAX);
    let result = ctx.withdraw(&initializer, u64::MAX, 1, 1, CLOCK_TS + 1000, CLOCK_TS);
    assert_eq!(result.err(), Some(ProgramError::Custom(AmmError::Overflow.code())));
}
