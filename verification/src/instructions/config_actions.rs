//! The authority's instructions: update the authority, update the fee,
//! toggle the lock, and give up the authority for good.
use vstd::prelude::*;

use crate::account::{keys_eq, Account};
use crate::constants::MAX_FEE_BPS;
use crate::errors::{amm_err, AmmError, ProgramError};
use crate::pda::{config_address, find_config_address};
use crate::state::{
    config_bytes, config_load_error, lemma_config_byte_at, lemma_config_bytes_parse,
    lemma_parse_config_bytes, parse_config, Config, ConfigView,
};
use vstd::bytes::*;

verus! {

/// Accounts:
///  0. authority  [signer]
///  1. config     [mut]
pub struct ConfigActionAccounts<'a> {
    pub authority: &'a Account,
    pub config_account: &'a Account,
}

/// Why the accounts of a config action are refused, if they are.
pub open spec fn config_action_accounts_error(accounts: Seq<Account>) -> Option<ProgramError> {
    if accounts.len() < 2 {
        Some(ProgramError::NotEnoughAccountKeys)
    } else if !accounts[0].is_signer {
        Some(amm_err(AmmError::NotSigner))
    } else if !accounts[1].is_writable {
        Some(amm_err(AmmError::NotMutable))
    } else {
        None
    }
}

impl<'a> ConfigActionAccounts<'a> {
    pub fn try_from(accounts: &'a [Account]) -> (r: Result<Self, ProgramError>)
        ensures
            match r {
                Ok(s) => config_action_accounts_error(accounts@) is None && *s.authority
                    == accounts@[0] && *s.config_account == accounts@[1],
                Err(e) => config_action_accounts_error(accounts@) == Some(e),
            },
    {
        if accounts.len() < 2 {
            return Err(ProgramError::NotEnoughAccountKeys);
        }
        let authority = &accounts[0];
        let config_account = &accounts[1];
        if !authority.is_signer {
            return Err(AmmError::NotSigner.to_program_error());
        }
        if !config_account.is_writable {
            return Err(AmmError::NotMutable.to_program_error());
        }
        Ok(Self { authority, config_account })
    }
}

/// Whether the signer at `signer` may act on the configuration `cv` stored at
/// `config_addr`: the address must be the pool's config address, and the
/// signer the pool's authority.
pub open spec fn authority_check(cv: ConfigView, config_addr: Seq<u8>, signer: Seq<u8>) -> Result<(), ProgramError> {
    match config_address(cv.seed, cv.mint_x, cv.mint_y) {
        Err(e) => Err(e),
        Ok((expected, _)) => if expected != config_addr {
            Err(amm_err(AmmError::InvalidPda))
        } else if signer != cv.authority {
            Err(amm_err(AmmError::InvalidAuthority))
        } else {
            Ok(())
        },
    }
}

fn validate_config_authority(config: &Config, config_account: &Account, authority: &Account) -> (r:
    Result<(), ProgramError>)
    ensures
        r == authority_check(config@, config_account.address@, authority.address@),
{
    let expected = match find_config_address(config.seed(), config.mint_x(), config.mint_y()) {
        Ok(p) => p,
        Err(e) => return Err(e),
    };
    if !keys_eq(&expected.0, &config_account.address) {
        return Err(AmmError::InvalidPda.to_program_error());
    }
    if !keys_eq(&authority.address, config.authority()) {
        return Err(AmmError::InvalidAuthority.to_program_error());
    }
    Ok(())
}

/// The configuration a config action may change: the one stored in the
/// config account, once it loads and the signer is its authority.
pub open spec fn authorized_config(config_addr: Seq<u8>, owner: Seq<u8>, data: Seq<u8>, signer: Seq<u8>) -> Result<ConfigView, ProgramError> {
    match config_load_error(owner, data) {
        Some(e) => Err(e),
        None => match authority_check(parse_config(data), config_addr, signer) {
            Err(e) => Err(e),
            Ok(()) => Ok(parse_config(data)),
        },
    }
}

/// The configuration a config action may change, for these accounts.
pub open spec fn authorized_config_of(accounts: ConfigActionAccounts) -> Result<ConfigView, ProgramError> {
    authorized_config(
        accounts.config_account.address@,
        accounts.config_account.owner@,
        accounts.config_account.data@,
        accounts.authority.address@,
    )
}

/// The result of a config action, by the view of the configuration it stores.
pub open spec fn result_view(r: Result<Config, ProgramError>) -> Result<ConfigView, ProgramError> {
    match r {
        Ok(c) => Ok(c@),
        Err(e) => Err(e),
    }
}

/// Loads the configuration and checks the signer's authority over it.
fn load_authorized(accounts: &ConfigActionAccounts) -> (r: Result<Config, ProgramError>)
    ensures
        result_view(r) == authorized_config_of(*accounts),
{
    let config = match Config::load_mut(accounts.config_account) {
        Ok(c) => c,
        Err(e) => return Err(e),
    };
    match validate_config_authority(&config, accounts.config_account, accounts.authority) {
        Ok(()) => {},
        Err(e) => return Err(e),
    }
    Ok(config)
}

// --- UpdateAuthority ---

pub struct UpdateAuthorityInstructionData {
    pub new_authority: [u8; 32],
}

impl UpdateAuthorityInstructionData {
    /// Reads the new authority from the first 32 bytes.
    pub fn try_from(data: &[u8]) -> (r: Result<Self, ProgramError>)
        ensures
            data@.len() < 32 ==> r is Err && r->Err_0 == ProgramError::InvalidInstructionData,
            data@.len() >= 32 ==> r is Ok && r->Ok_0.new_authority@ == data@.subrange(0, 32),
    {
        if data.len() < 32 {
            return Err(ProgramError::InvalidInstructionData);
        }
        let new_authority = crate::account::read_key(data, 0);
        Ok(Self { new_authority })
    }
}

pub struct UpdateAuthority<'a> {
    pub accounts: ConfigActionAccounts<'a>,
    pub instruction_data: UpdateAuthorityInstructionData,
}

impl<'a> UpdateAuthority<'a> {
    pub const DISCRIMINATOR: u8 = 4;

    /// Checks the accounts, then reads the instruction data.
    pub fn try_from(data: &[u8], accounts: &'a [Account]) -> (r: Result<Self, ProgramError>)
        ensures
            match r {
                Ok(s) => config_action_accounts_error(accounts@) is None && data@.len() >= 32
                    && *s.accounts.authority == accounts@[0] && *s.accounts.config_account
                    == accounts@[1] && s.instruction_data.new_authority@ == data@.subrange(0, 32),
                Err(e) => match config_action_accounts_error(accounts@) {
                    Some(a) => e == a,
                    None => data@.len() < 32 && e == ProgramError::InvalidInstructionData,
                },
            },
    {
        let accounts = match ConfigActionAccounts::try_from(accounts) {
            Ok(a) => a,
            Err(e) => return Err(e),
        };
        let instruction_data = match UpdateAuthorityInstructionData::try_from(data) {
            Ok(d) => d,
            Err(e) => return Err(e),
        };
        Ok(Self { accounts, instruction_data })
    }

    /// Replaces the authority; returns the configuration to store.
    pub fn process(&self) -> (r: Result<Config, ProgramError>)
        ensures
            result_view(r) == match authorized_config_of(self.accounts) {
                Err(e) => Err(e),
                Ok(cv) => Ok(ConfigView { authority: self.instruction_data.new_authority@, ..cv }),
            },
    {
        let mut config = match load_authorized(&self.accounts) {
            Ok(c) => c,
            Err(e) => return Err(e),
        };
        config.set_authority(&self.instruction_data.new_authority);
        Ok(config)
    }
}

// --- UpdateFee ---

pub struct UpdateFeeInstructionData {
    pub fee: u16,
}

impl UpdateFeeInstructionData {
    /// Reads the fee, little endian, from the first 2 bytes.
    pub fn try_from(data: &[u8]) -> (r: Result<Self, ProgramError>)
        ensures
            data@.len() < 2 ==> r is Err && r->Err_0 == ProgramError::InvalidInstructionData,
            data@.len() >= 2 ==> r is Ok && r->Ok_0.fee == super::le_u16_at(data@, 0),
    {
        if data.len() < 2 {
            return Err(ProgramError::InvalidInstructionData);
        }
        let fee = super::read_u16(data, 0);
        Ok(Self { fee })
    }
}

pub struct UpdateFee<'a> {
    pub accounts: ConfigActionAccounts<'a>,
    pub instruction_data: UpdateFeeInstructionData,
}

/// What an update of the fee to `fee` stores, once authorized.
pub open spec fn fee_update(cv: ConfigView, fee: u16) -> Result<ConfigView, ProgramError> {
    if fee > MAX_FEE_BPS {
        Err(amm_err(AmmError::InvalidFee))
    } else {
        Ok(ConfigView { fee: fee, ..cv })
    }
}

impl<'a> UpdateFee<'a> {
    pub const DISCRIMINATOR: u8 = 5;

    /// Checks the accounts, then reads the instruction data.
    pub fn try_from(data: &[u8], accounts: &'a [Account]) -> (r: Result<Self, ProgramError>)
        ensures
            match r {
                Ok(s) => config_action_accounts_error(accounts@) is None && data@.len() >= 2
                    && *s.accounts.authority == accounts@[0] && *s.accounts.config_account
                    == accounts@[1] && s.instruction_data.fee == super::le_u16_at(data@, 0),
                Err(e) => match config_action_accounts_error(accounts@) {
                    Some(a) => e == a,
                    None => data@.len() < 2 && e == ProgramError::InvalidInstructionData,
                },
            },
    {
        let accounts = match ConfigActionAccounts::try_from(accounts) {
            Ok(a) => a,
            Err(e) => return Err(e),
        };
        let instruction_data = match UpdateFeeInstructionData::try_from(data) {
            Ok(d) => d,
            Err(e) => return Err(e),
        };
        Ok(Self { accounts, instruction_data })
    }

    /// Sets the fee; returns the configuration to store.
    pub fn process(&self) -> (r: Result<Config, ProgramError>)
        ensures
            result_view(r) == match authorized_config_of(self.accounts) {
                Err(e) => Err(e),
                Ok(cv) => fee_update(cv, self.instruction_data.fee),
            },
    {
        let mut config = match load_authorized(&self.accounts) {
            Ok(c) => c,
            Err(e) => return Err(e),
        };
        match config.set_fee(self.instruction_data.fee) {
            Ok(()) => {},
            Err(e) => return Err(e),
        }
        Ok(config)
    }
}

// --- UpdateLock ---

pub struct UpdateLock<'a> {
    pub accounts: ConfigActionAccounts<'a>,
}

/// The configuration with its lock turned over: a locked pool is unlocked
/// (lock byte 0), an unlocked one locked (lock byte 1).
pub open spec fn lock_toggled(cv: ConfigView) -> ConfigView {
    ConfigView { locked: if cv.is_locked() { 0u8 } else { 1u8 }, ..cv }
}

impl<'a> UpdateLock<'a> {
    pub const DISCRIMINATOR: u8 = 6;

    /// Checks the accounts.
    pub fn try_from(accounts: &'a [Account]) -> (r: Result<Self, ProgramError>)
        ensures
            match r {
                Ok(s) => config_action_accounts_error(accounts@) is None && *s.accounts.authority
                    == accounts@[0] && *s.accounts.config_account == accounts@[1],
                Err(e) => config_action_accounts_error(accounts@) == Some(e),
            },
    {
        let accounts = match ConfigActionAccounts::try_from(accounts) {
            Ok(a) => a,
            Err(e) => return Err(e),
        };
        Ok(Self { accounts })
    }

    /// Turns the lock over; returns the configuration to store.
    pub fn process(&self) -> (r: Result<Config, ProgramError>)
        ensures
            result_view(r) == match authorized_config_of(self.accounts) {
                Err(e) => Err(e),
                Ok(cv) => Ok(lock_toggled(cv)),
            },
    {
        let mut config = match load_authorized(&self.accounts) {
            Ok(c) => c,
            Err(e) => return Err(e),
        };
        let current = config.locked();
        config.set_locked(!current);
        Ok(config)
    }
}

// --- RemoveAuthority ---

pub struct RemoveAuthority<'a> {
    pub accounts: ConfigActionAccounts<'a>,
}

/// The all-zero key that stands for "no authority".
pub open spec fn zero_key() -> Seq<u8> {
    Seq::new(32, |i: int| 0u8)
}

impl<'a> RemoveAuthority<'a> {
    pub const DISCRIMINATOR: u8 = 7;

    /// Checks the accounts.
    pub fn try_from(accounts: &'a [Account]) -> (r: Result<Self, ProgramError>)
        ensures
            match r {
                Ok(s) => config_action_accounts_error(accounts@) is None && *s.accounts.authority
                    == accounts@[0] && *s.accounts.config_account == accounts@[1],
                Err(e) => config_action_accounts_error(accounts@) == Some(e),
            },
    {
        let accounts = match ConfigActionAccounts::try_from(accounts) {
            Ok(a) => a,
            Err(e) => return Err(e),
        };
        Ok(Self { accounts })
    }

    /// Sets the authority to the all-zero key; returns the configuration to
    /// store.
    pub fn process(&self) -> (r: Result<Config, ProgramError>)
        ensures
            result_view(r) == match authorized_config_of(self.accounts) {
                Err(e) => Err(e),
                Ok(cv) => Ok(ConfigView { authority: zero_key(), ..cv }),
            },
    {
        let mut config = match load_authorized(&self.accounts) {
            Ok(c) => c,
            Err(e) => return Err(e),
        };
        let zero = [0u8; 32];
        config.set_authority(&zero);
        assert(zero@ =~= zero_key());
        Ok(config)
    }
}

// --- Laws ---

/// Once a config action has been accepted, the configuration it stores is
/// loaded again by the next one (same account, same address), which accepts
/// exactly the signer that the stored configuration names as its authority.
pub proof fn lemma_stored_config_reloads(
    config_addr: Seq<u8>,
    owner: Seq<u8>,
    data: Seq<u8>,
    signer: Seq<u8>,
    next: ConfigView,
    next_signer: Seq<u8>,
)
    requires
        authorized_config(config_addr, owner, data, signer) is Ok,
        next.wf(),
        next.discriminator == parse_config(data).discriminator,
        next.seed == parse_config(data).seed,
        next.mint_x == parse_config(data).mint_x,
        next.mint_y == parse_config(data).mint_y,
    ensures
        authorized_config(config_addr, owner, config_bytes(next), next_signer) == if next_signer
            == next.authority {
            Ok::<ConfigView, ProgramError>(next)
        } else {
            Err(amm_err(AmmError::InvalidAuthority))
        },
{
    lemma_parse_config_bytes(next);
    lemma_config_bytes_parse(data);
}

/// Law: only the pool's authority, signing, changes its configuration, and
/// only through the config account at the pool's own derived address.
pub proof fn lemma_only_authority_changes_config(
    config_addr: Seq<u8>,
    owner: Seq<u8>,
    data: Seq<u8>,
    signer: Seq<u8>,
)
    requires
        authorized_config(config_addr, owner, data, signer) is Ok,
    ensures
        owner == crate::ID@,
        signer == parse_config(data).authority,
        ({
            let cv = parse_config(data);
            config_address(cv.seed, cv.mint_x, cv.mint_y) is Ok && config_address(
                cv.seed,
                cv.mint_x,
                cv.mint_y,
            )->Ok_0.0 == config_addr
        }),
{
}

/// Law: turning the lock over twice gives back the lock state one started
/// from, and the second turn is always accepted once the first was. Nothing
/// but the lock byte changes.
pub proof fn lemma_lock_toggle_twice(config_addr: Seq<u8>, owner: Seq<u8>, data: Seq<u8>, signer: Seq<u8>)
    requires
        authorized_config(config_addr, owner, data, signer) is Ok,
    ensures
        ({
            let cv = parse_config(data);
            let once = lock_toggled(cv);
            &&& authorized_config(config_addr, owner, config_bytes(once), signer) == Ok::<
                ConfigView,
                ProgramError,
            >(once)
            &&& once.is_locked() == !cv.is_locked()
            &&& lock_toggled(once).is_locked() == cv.is_locked()
            &&& lock_toggled(once) == (ConfigView { locked: lock_toggled(once).locked, ..cv })
        }),
{
    lemma_config_bytes_parse(data);
    lemma_stored_config_reloads(config_addr, owner, data, signer, lock_toggled(parse_config(data)), signer);
}

/// Law: once the authority is removed, no config action is accepted again,
/// whoever signs, unless the signer's address is the all-zero key (which no
/// one can sign for).
pub proof fn lemma_removed_authority_refuses_all(
    config_addr: Seq<u8>,
    owner: Seq<u8>,
    data: Seq<u8>,
    signer: Seq<u8>,
    next_signer: Seq<u8>,
)
    requires
        authorized_config(config_addr, owner, data, signer) is Ok,
        next_signer != zero_key(),
    ensures
        authorized_config(
            config_addr,
            owner,
            config_bytes(ConfigView { authority: zero_key(), ..parse_config(data) }),
            next_signer,
        ) == Err::<ConfigView, ProgramError>(amm_err(AmmError::InvalidAuthority)),
{
    lemma_config_bytes_parse(data);
    lemma_stored_config_reloads(
        config_addr,
        owner,
        data,
        signer,
        ConfigView { authority: zero_key(), ..parse_config(data) },
        next_signer,
    );
}

/// Law: after the authority is handed to `new_authority`, the next config
/// action is accepted from `new_authority` and refused from anyone else.
pub proof fn lemma_authority_handover(
    config_addr: Seq<u8>,
    owner: Seq<u8>,
    data: Seq<u8>,
    signer: Seq<u8>,
    new_authority: Seq<u8>,
    next_signer: Seq<u8>,
)
    requires
        authorized_config(config_addr, owner, data, signer) is Ok,
        new_authority.len() == 32,
    ensures
        ({
            let next = ConfigView { authority: new_authority, ..parse_config(data) };
            authorized_config(config_addr, owner, config_bytes(next), next_signer) == if next_signer
                == new_authority {
                Ok::<ConfigView, ProgramError>(next)
            } else {
                Err(amm_err(AmmError::InvalidAuthority))
            }
        }),
{
    lemma_config_bytes_parse(data);
    lemma_stored_config_reloads(
        config_addr,
        owner,
        data,
        signer,
        ConfigView { authority: new_authority, ..parse_config(data) },
        next_signer,
    );
}

/// Law: a stored fee never exceeds [`MAX_FEE_BPS`]: an update of the fee is
/// accepted exactly when the new fee is within the cap, and then stores it.
pub proof fn lemma_fee_update_within_cap(cv: ConfigView, fee: u16)
    ensures
        fee_update(cv, fee) is Ok <==> fee <= MAX_FEE_BPS,
        fee_update(cv, fee) is Ok ==> fee_update(cv, fee)->Ok_0.fee == fee,
{
}

/// The account bytes a config action stores, when it is accepted: the
/// layout of its resulting configuration.
pub open spec fn stored_bytes(r: Result<ConfigView, ProgramError>) -> Seq<u8> {
    config_bytes(r->Ok_0)
}

/// Law: an accepted update of the fee rewrites only the two fee bytes of the
/// config account, which then hold the new fee; the lock byte, the keys, the
/// seed and the bumps stay as they were.
pub proof fn lemma_fee_update_rewrites_only_fee(
    config_addr: Seq<u8>,
    owner: Seq<u8>,
    data: Seq<u8>,
    signer: Seq<u8>,
    fee: u16,
)
    requires
        authorized_config(config_addr, owner, data, signer) is Ok,
        fee <= MAX_FEE_BPS,
    ensures
        fee_update(parse_config(data), fee) is Ok,
        stored_bytes(fee_update(parse_config(data), fee)).len() == data.len(),
        forall|i: int|
            0 <= i < data.len() && !(105 <= i < 107) ==> #[trigger] stored_bytes(
                fee_update(parse_config(data), fee),
            )[i] == data[i],
        spec_u16_from_le_bytes(stored_bytes(fee_update(parse_config(data), fee)).subrange(105, 107))
            == fee,
{
    lemma_config_bytes_parse(data);
    let cv = parse_config(data);
    let next = fee_update(cv, fee)->Ok_0;
    lemma_parse_config_bytes(next);
    assert forall|i: int| 0 <= i < data.len() && !(105 <= i < 107) implies #[trigger] stored_bytes(
        fee_update(parse_config(data), fee),
    )[i] == data[i] by {
        lemma_config_byte_at(next, i);
        lemma_config_byte_at(cv, i);
    }
}

/// Law: an accepted lock toggle rewrites only the lock byte of the config
/// account, to 0 when it was locked and to 1 when it was not.
pub proof fn lemma_lock_toggle_rewrites_only_lock(
    config_addr: Seq<u8>,
    owner: Seq<u8>,
    data: Seq<u8>,
    signer: Seq<u8>,
)
    requires
        authorized_config(config_addr, owner, data, signer) is Ok,
    ensures
        config_bytes(lock_toggled(parse_config(data))).len() == data.len(),
        forall|i: int|
            0 <= i < data.len() && i != 107 ==> #[trigger] config_bytes(
                lock_toggled(parse_config(data)),
            )[i] == data[i],
        config_bytes(lock_toggled(parse_config(data)))[107] == if data[107] != 0 {
            0u8
        } else {
            1u8
        },
{
    lemma_config_bytes_parse(data);
    let cv = parse_config(data);
    let next = lock_toggled(cv);
    lemma_parse_config_bytes(next);
    assert forall|i: int| 0 <= i < data.len() && i != 107 implies #[trigger] config_bytes(
        lock_toggled(parse_config(data)),
    )[i] == data[i] by {
        lemma_config_byte_at(next, i);
        lemma_config_byte_at(cv, i);
    }
    lemma_config_byte_at(next, 107);
}

/// Law: an accepted change of authority (to `new_authority`, all zeros when
/// the authority is removed) rewrites only the 32 authority bytes of the
/// config account, which then hold the new key.
pub proof fn lemma_authority_change_rewrites_only_authority(
    config_addr: Seq<u8>,
    owner: Seq<u8>,
    data: Seq<u8>,
    signer: Seq<u8>,
    new_authority: Seq<u8>,
)
    requires
        authorized_config(config_addr, owner, data, signer) is Ok,
        new_authority.len() == 32,
    ensures
        ({
            let stored = config_bytes(ConfigView { authority: new_authority, ..parse_config(data) });
            &&& stored.len() == data.len()
            &&& forall|i: int|
                0 <= i < data.len() && !(9 <= i < 41) ==> #[trigger] stored[i] == data[i]
            &&& stored.subrange(9, 41) == new_authority
        }),
{
    lemma_config_bytes_parse(data);
    let cv = parse_config(data);
    let next = ConfigView { authority: new_authority, ..cv };
    lemma_parse_config_bytes(next);
    let stored = config_bytes(next);
    assert forall|i: int| 0 <= i < data.len() && !(9 <= i < 41) implies #[trigger] stored[i]
        == data[i] by {
        lemma_config_byte_at(next, i);
        lemma_config_byte_at(cv, i);
    }
    assert forall|i: int| 9 <= i < 41 implies stored[i] == new_authority[i - 9] by {
        lemma_config_byte_at(next, i);
    }
    assert(stored.subrange(9, 41) =~= new_authority);
}

} // verus!
