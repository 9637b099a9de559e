use vstd::prelude::*;
use vstd::bytes::*;

use crate::account::{keys_eq, read_key, Account};
use crate::constants::MAX_FEE_BPS;
use crate::errors::{amm_err, AmmError, ProgramError};
use crate::ID;

verus! {

/// The pool's configuration, field by field, as the account stores it.
pub struct ConfigView {
    pub discriminator: u8,
    pub seed: u64,
    pub authority: Seq<u8>,
    pub mint_x: Seq<u8>,
    pub mint_y: Seq<u8>,
    pub fee: u16,
    /// The raw lock byte; the pool is locked when it is not zero.
    pub locked: u8,
    pub lp_bump: u8,
    pub bump: u8,
}

impl ConfigView {
    /// The three keys are 32 bytes long.
    pub open spec fn wf(self) -> bool {
        &&& self.authority.len() == 32
        &&& self.mint_x.len() == 32
        &&& self.mint_y.len() == 32
    }

    /// Whether trading and withdrawing are stopped.
    pub open spec fn is_locked(self) -> bool {
        self.locked != 0
    }
}

/// The bytes of a config account, in order: discriminator (1), seed (8, little
/// endian), authority (32), mint_x (32), mint_y (32), fee (2, little endian),
/// locked (1), lp_bump (1), bump (1).
pub open spec fn config_bytes(v: ConfigView) -> Seq<u8> {
    seq![v.discriminator] + spec_u64_to_le_bytes(v.seed) + v.authority + v.mint_x + v.mint_y
        + spec_u16_to_le_bytes(v.fee) + seq![v.locked, v.lp_bump, v.bump]
}

/// The configuration that 110 bytes of account data hold.
pub open spec fn parse_config(d: Seq<u8>) -> ConfigView {
    ConfigView {
        discriminator: d[0],
        seed: spec_u64_from_le_bytes(d.subrange(1, 9)),
        authority: d.subrange(9, 41),
        mint_x: d.subrange(41, 73),
        mint_y: d.subrange(73, 105),
        fee: spec_u16_from_le_bytes(d.subrange(105, 107)),
        locked: d[107],
        lp_bump: d[108],
        bump: d[109],
    }
}

/// Law: reading back the bytes of a configuration gives that configuration.
pub proof fn lemma_parse_config_bytes(v: ConfigView)
    requires
        v.wf(),
    ensures
        config_bytes(v).len() == Config::LEN,
        parse_config(config_bytes(v)) == v,
{
    lemma_auto_spec_u64_to_from_le_bytes();
    lemma_auto_spec_u16_to_from_le_bytes();
    let b = config_bytes(v);
    assert(b.subrange(1, 9) =~= spec_u64_to_le_bytes(v.seed));
    assert(b.subrange(9, 41) =~= v.authority);
    assert(b.subrange(41, 73) =~= v.mint_x);
    assert(b.subrange(73, 105) =~= v.mint_y);
    assert(b.subrange(105, 107) =~= spec_u16_to_le_bytes(v.fee));
}

/// Byte `i` of a configuration's layout, field by field.
pub proof fn lemma_config_byte_at(v: ConfigView, i: int)
    requires
        v.wf(),
        0 <= i < Config::LEN,
    ensures
        config_bytes(v)[i] == if i == 0 {
            v.discriminator
        } else if i < 9 {
            spec_u64_to_le_bytes(v.seed)[i - 1]
        } else if i < 41 {
            v.authority[i - 9]
        } else if i < 73 {
            v.mint_x[i - 41]
        } else if i < 105 {
            v.mint_y[i - 73]
        } else if i < 107 {
            spec_u16_to_le_bytes(v.fee)[i - 105]
        } else if i == 107 {
            v.locked
        } else if i == 108 {
            v.lp_bump
        } else {
            v.bump
        },
{
    lemma_auto_spec_u64_to_from_le_bytes();
    lemma_auto_spec_u16_to_from_le_bytes();
    assert(spec_u64_to_le_bytes(v.seed).len() == 8);
    assert(spec_u16_to_le_bytes(v.fee).len() == 2);
}

/// Law: writing back the configuration read from 110 bytes gives those bytes.
pub proof fn lemma_config_bytes_parse(d: Seq<u8>)
    requires
        d.len() == Config::LEN,
    ensures
        parse_config(d).wf(),
        config_bytes(parse_config(d)) == d,
{
    lemma_auto_spec_u64_to_from_le_bytes();
    lemma_auto_spec_u16_to_from_le_bytes();
    assert(spec_u64_to_le_bytes(spec_u64_from_le_bytes(d.subrange(1, 9))) == d.subrange(1, 9));
    assert(spec_u16_to_le_bytes(spec_u16_from_le_bytes(d.subrange(105, 107))) == d.subrange(
        105,
        107,
    ));
    assert(config_bytes(parse_config(d)) =~= d);
}

/// Why an account cannot be loaded as a config, if it cannot.
pub open spec fn config_load_error(owner: Seq<u8>, data: Seq<u8>) -> Option<ProgramError> {
    if owner != ID@ {
        Some(amm_err(AmmError::InvalidAccountOwner))
    } else if data.len() != Config::LEN {
        Some(amm_err(AmmError::InvalidAccountLength))
    } else if data[0] != Config::DISCRIMINATOR {
        Some(amm_err(AmmError::PoolNotInitialized))
    } else {
        None
    }
}

/// The pool's configuration account, laid out as in [`config_bytes`].
pub struct Config {
    discriminator: [u8; 1],
    seed: [u8; 8],
    authority: [u8; 32],
    mint_x: [u8; 32],
    mint_y: [u8; 32],
    fee: [u8; 2],
    locked: [u8; 1],
    lp_bump: [u8; 1],
    bump: [u8; 1],
}

impl View for Config {
    type V = ConfigView;

    closed spec fn view(&self) -> ConfigView {
        ConfigView {
            discriminator: self.discriminator@[0],
            seed: spec_u64_from_le_bytes(self.seed@),
            authority: self.authority@,
            mint_x: self.mint_x@,
            mint_y: self.mint_y@,
            fee: spec_u16_from_le_bytes(self.fee@),
            locked: self.locked@[0],
            lp_bump: self.lp_bump@[0],
            bump: self.bump@[0],
        }
    }
}

impl Config {
    pub const DISCRIMINATOR: u8 = 1;

    pub const LEN: usize = 1 + 8 + 32 + 32 + 32 + 2 + 1 + 1 + 1;

    /// The view of a config always has 32-byte keys (authority and mints).
    pub proof fn lemma_view_wf(&self)
        ensures
            self@.wf(),
    {
    }

    /// Reads a configuration from 110 bytes, whatever they hold.
    pub fn from_bytes(data: &[u8]) -> (r: Config)
        requires
            data@.len() == Config::LEN,
        ensures
            r@ == parse_config(data@),
    {
        let r = Config {
            discriminator: [data[0]],
            seed: [data[1], data[2], data[3], data[4], data[5], data[6], data[7], data[8]],
            authority: read_key(data, 9),
            mint_x: read_key(data, 41),
            mint_y: read_key(data, 73),
            fee: [data[105], data[106]],
            locked: [data[107]],
            lp_bump: [data[108]],
            bump: [data[109]],
        };
        assert(r.seed@ =~= data@.subrange(1, 9));
        assert(r.fee@ =~= data@.subrange(105, 107));
        r
    }

    /// The 110 bytes that store this configuration.
    pub fn to_bytes(&self) -> (r: Vec<u8>)
        ensures
            r@ == config_bytes(self@),
    {
        let mut out: Vec<u8> = Vec::new();
        out.push(self.discriminator[0]);
        push_all(&mut out, &self.seed);
        push_all(&mut out, &self.authority);
        push_all(&mut out, &self.mint_x);
        push_all(&mut out, &self.mint_y);
        push_all(&mut out, &self.fee);
        out.push(self.locked[0]);
        out.push(self.lp_bump[0]);
        out.push(self.bump[0]);
        proof {
            lemma_auto_spec_u64_to_from_le_bytes();
            lemma_auto_spec_u16_to_from_le_bytes();
            assert(spec_u64_to_le_bytes(spec_u64_from_le_bytes(self.seed@)) == self.seed@);
            assert(spec_u16_to_le_bytes(spec_u16_from_le_bytes(self.fee@)) == self.fee@);
            assert(out@ =~= config_bytes(self@));
        }
        out
    }

    /// Loads the configuration stored in `account`, which must belong to this
    /// program, be 110 bytes long and be initialized.
    pub fn load(account: &Account) -> (r: Result<Config, ProgramError>)
        ensures
            match r {
                Ok(c) => config_load_error(account.owner@, account.data@) is None && c@
                    == parse_config(account.data@),
                Err(e) => config_load_error(account.owner@, account.data@) == Some(e),
            },
    {
        if !keys_eq(&account.owner, &ID) {
            return Err(AmmError::InvalidAccountOwner.to_program_error());
        }
        if account.data.len() != Config::LEN {
            return Err(AmmError::InvalidAccountLength.to_program_error());
        }
        if account.data[0] != Config::DISCRIMINATOR {
            return Err(AmmError::PoolNotInitialized.to_program_error());
        }
        Ok(Config::from_bytes(account.data.as_slice()))
    }

    /// Loads the configuration stored in `account` for an update; the checks
    /// are those of [`Config::load`].
    pub fn load_mut(account: &Account) -> (r: Result<Config, ProgramError>)
        ensures
            match r {
                Ok(c) => config_load_error(account.owner@, account.data@) is None && c@
                    == parse_config(account.data@),
                Err(e) => config_load_error(account.owner@, account.data@) == Some(e),
            },
    {
        Config::load(account)
    }

    pub fn seed(&self) -> (r: u64)
        ensures
            r == self@.seed,
    {
        u64_from_le_bytes(self.seed.as_slice())
    }

    pub fn authority(&self) -> (r: &[u8; 32])
        ensures
            r@ == self@.authority,
    {
        &self.authority
    }

    pub fn mint_x(&self) -> (r: &[u8; 32])
        ensures
            r@ == self@.mint_x,
    {
        &self.mint_x
    }

    pub fn mint_y(&self) -> (r: &[u8; 32])
        ensures
            r@ == self@.mint_y,
    {
        &self.mint_y
    }

    pub fn fee(&self) -> (r: u16)
        ensures
            r == self@.fee,
    {
        u16_from_le_bytes(self.fee.as_slice())
    }

    pub fn locked(&self) -> (r: bool)
        ensures
            r == self@.is_locked(),
    {
        self.locked[0] != 0
    }

    pub fn lp_bump(&self) -> (r: u8)
        ensures
            r == self@.lp_bump,
    {
        self.lp_bump[0]
    }

    pub fn bump(&self) -> (r: u8)
        ensures
            r == self@.bump,
    {
        self.bump[0]
    }

    pub fn set_seed(&mut self, v: u64)
        ensures
            final(self)@ == (ConfigView { seed: v, ..old(self)@ }),
    {
        let b = u64_to_le_bytes(v);
        self.seed = [b[0], b[1], b[2], b[3], b[4], b[5], b[6], b[7]];
        proof {
            lemma_auto_spec_u64_to_from_le_bytes();
            assert(self.seed@ =~= b@);
        }
    }

    pub fn set_authority(&mut self, v: &[u8; 32])
        ensures
            final(self)@ == (ConfigView { authority: v@, ..old(self)@ }),
    {
        self.authority = *v;
    }

    pub fn set_mint_x(&mut self, v: &[u8; 32])
        ensures
            final(self)@ == (ConfigView { mint_x: v@, ..old(self)@ }),
    {
        self.mint_x = *v;
    }

    pub fn set_mint_y(&mut self, v: &[u8; 32])
        ensures
            final(self)@ == (ConfigView { mint_y: v@, ..old(self)@ }),
    {
        self.mint_y = *v;
    }

    /// Sets the fee; a fee above [`MAX_FEE_BPS`] is refused and leaves the
    /// configuration as it was.
    pub fn set_fee(&mut self, v: u16) -> (r: Result<(), ProgramError>)
        ensures
            v > MAX_FEE_BPS ==> r == Err::<(), ProgramError>(amm_err(AmmError::InvalidFee))
                && final(self)@ == old(self)@,
            v <= MAX_FEE_BPS ==> r is Ok && final(self)@ == (ConfigView { fee: v, ..old(self)@ }),
    {
        if v > MAX_FEE_BPS {
            return Err(AmmError::InvalidFee.to_program_error());
        }
        let b = u16_to_le_bytes(v);
        self.fee = [b[0], b[1]];
        proof {
            lemma_auto_spec_u16_to_from_le_bytes();
            assert(self.fee@ =~= b@);
        }
        Ok(())
    }

    /// Sets the lock byte to 1 (locked) or 0 (unlocked).
    pub fn set_locked(&mut self, v: bool)
        ensures
            final(self)@ == (ConfigView { locked: if v { 1u8 } else { 0u8 }, ..old(self)@ }),
    {
        self.locked[0] = if v { 1 } else { 0 };
    }

    pub fn set_lp_bump(&mut self, v: u8)
        ensures
            final(self)@ == (ConfigView { lp_bump: v, ..old(self)@ }),
    {
        self.lp_bump[0] = v;
    }

    pub fn set_bump(&mut self, v: u8)
        ensures
            final(self)@ == (ConfigView { bump: v, ..old(self)@ }),
    {
        self.bump[0] = v;
    }

    /// Initialize all config fields after account creation.
    ///
    /// A fee above [`MAX_FEE_BPS`] is refused once discriminator, seed,
    /// authority and mints are written; the other fields are then untouched.
    pub fn init(
        &mut self,
        seed: u64,
        authority: &[u8; 32],
        mint_x: &[u8; 32],
        mint_y: &[u8; 32],
        fee: u16,
        lp_bump: u8,
        bump: u8,
    ) -> (r: Result<(), ProgramError>)
        ensures
            fee > MAX_FEE_BPS ==> r == Err::<(), ProgramError>(amm_err(AmmError::InvalidFee))
                && final(self)@ == (ConfigView {
                discriminator: Config::DISCRIMINATOR,
                seed: seed,
                authority: authority@,
                mint_x: mint_x@,
                mint_y: mint_y@,
                ..old(self)@
            }),
            fee <= MAX_FEE_BPS ==> r is Ok && final(self)@ == (ConfigView {
                discriminator: Config::DISCRIMINATOR,
                seed: seed,
                authority: authority@,
                mint_x: mint_x@,
                mint_y: mint_y@,
                fee: fee,
                locked: 0,
                lp_bump: lp_bump,
                bump: bump,
            }),
    {
        self.discriminator[0] = Self::DISCRIMINATOR;
        self.set_seed(seed);
        self.set_authority(authority);
        self.set_mint_x(mint_x);
        self.set_mint_y(mint_y);
        match self.set_fee(fee) {
            Ok(()) => {},
            Err(e) => return Err(e),
        }
        self.set_locked(false);
        self.set_lp_bump(lp_bump);
        self.set_bump(bump);
        Ok(())
    }
}

/// Copies the bytes of `src` onto the end of `out`.
fn push_all(out: &mut Vec<u8>, src: &[u8])
    ensures
        final(out)@ == old(out)@ + src@,
{
    let mut i: usize = 0;
    while i < src.len()
        invariant
            0 <= i <= src@.len(),
            out@ == old(out)@ + src@.subrange(0, i as int),
        decreases src@.len() - i,
    {
        out.push(src[i]);
        i += 1;
        assert(out@ =~= old(out)@ + src@.subrange(0, i as int));
    }
    assert(src@.subrange(0, src@.len() as int) =~= src@);
}

} // verus!
