use vstd::prelude::*;
use vstd::bytes::*;

use pinocchio::Address;

use crate::constants::{CONFIG_SEED, LP_SEED};
use crate::errors::ProgramError;
use crate::ID;

verus! {

/// The program derived address, and its bump, that Solana finds for `seeds`
/// under `program_id`; `None` when no bump gives an address off the curve or
/// when the seeds are too many or too long.
pub uninterp spec fn program_address(seeds: Seq<Seq<u8>>, program_id: Seq<u8>) -> Option<(Seq<u8>, u8)>;

/// Calls `Address::try_find_program_address` (solana-address, re-exported by
/// pinocchio). Its contract only names the result: the address and bump are
/// what [`program_address`] gives for the same seeds and program id.
#[verifier::external_body]
fn try_find_program_address(seeds: &Vec<Vec<u8>>, program_id: &[u8; 32]) -> (r: Option<([u8; 32], u8)>)
    ensures
        r.deep_view() == program_address(seeds.deep_view(), program_id@),
{
    let refs: Vec<&[u8]> = seeds.iter().map(|s| s.as_slice()).collect();
    match Address::try_find_program_address(&refs, &Address::new_from_array(*program_id)) {
        Some((address, bump)) => Some((address.to_bytes(), bump)),
        None => None,
    }
}

/// The bytes of the associated token account program's address,
/// `ATokenGPvbdGVxr1b2hvZbsiqW5xWH25efTNsLJA8knL`.
pub open spec fn ata_program_id_bytes() -> Seq<u8> {
    seq![
        140u8, 151, 37, 143, 78, 36, 137, 241, 187, 61, 16, 41, 20, 142, 13, 131,
        11, 90, 19, 153, 218, 255, 16, 132, 4, 142, 123, 216, 219, 233, 248, 89,
    ]
}

/// Reads `pinocchio_associated_token_account::ID`, the address that crate
/// declares for the associated token account program.
#[verifier::external_body]
fn ata_program_id() -> (r: [u8; 32])
    ensures
        r@ == ata_program_id_bytes(),
{
    pinocchio_associated_token_account::ID.to_bytes()
}

/// Seeds of a pool's config address: `"config"`, the seed in little endian,
/// and the two mints.
pub open spec fn config_seeds(seed: u64, mint_x: Seq<u8>, mint_y: Seq<u8>) -> Seq<Seq<u8>> {
    seq![CONFIG_SEED@, spec_u64_to_le_bytes(seed), mint_x, mint_y]
}

/// Seeds of a pool's LP mint address: `"lp"` and the config address.
pub open spec fn lp_seeds(config: Seq<u8>) -> Seq<Seq<u8>> {
    seq![LP_SEED@, config]
}

/// Seeds of an associated token account: wallet, token program and mint.
pub open spec fn vault_seeds(wallet: Seq<u8>, token_program: Seq<u8>, mint: Seq<u8>) -> Seq<Seq<u8>> {
    seq![wallet, token_program, mint]
}

/// The derived address for `seeds` under `program_id`, or `NoProgramAddress`
/// when there is none.
pub open spec fn derived(seeds: Seq<Seq<u8>>, program_id: Seq<u8>) -> Result<(Seq<u8>, u8), ProgramError> {
    match program_address(seeds, program_id) {
        Some(p) => Ok(p),
        None => Err(ProgramError::NoProgramAddress),
    }
}

/// The config address of the pool with this seed and these mints.
pub open spec fn config_address(seed: u64, mint_x: Seq<u8>, mint_y: Seq<u8>) -> Result<(Seq<u8>, u8), ProgramError> {
    derived(config_seeds(seed, mint_x, mint_y), ID@)
}

/// The LP mint address of the pool whose config lives at `config`.
pub open spec fn lp_mint_address(config: Seq<u8>) -> Result<(Seq<u8>, u8), ProgramError> {
    derived(lp_seeds(config), ID@)
}

/// The associated token account of `wallet` for `mint`.
pub open spec fn vault_address(wallet: Seq<u8>, token_program: Seq<u8>, mint: Seq<u8>) -> Result<(Seq<u8>, u8), ProgramError> {
    derived(vault_seeds(wallet, token_program, mint), ata_program_id_bytes())
}

/// The view of a derivation's result.
pub open spec fn derived_view(r: Result<([u8; 32], u8), ProgramError>) -> Result<(Seq<u8>, u8), ProgramError> {
    match r {
        Ok((a, b)) => Ok((a@, b)),
        Err(e) => Err(e),
    }
}

/// A byte vector's deep view is its view.
proof fn lemma_bytes_deep_view(v: Vec<u8>)
    ensures
        v.deep_view() == v@,
{
    assert(v.deep_view() =~= v@);
}

/// A key's deep view is its view.
proof fn lemma_key_deep_view(a: [u8; 32])
    ensures
        a.deep_view() == a@,
{
    assert(a.deep_view() =~= a@);
}

/// Finds the derived address of `seeds` under `program_id`.
fn find(seeds: &Vec<Vec<u8>>, program_id: &[u8; 32]) -> (r: Result<([u8; 32], u8), ProgramError>)
    ensures
        derived_view(r) == derived(seeds.deep_view(), program_id@),
{
    match try_find_program_address(seeds, program_id) {
        Some(p) => {
            proof {
                lemma_key_deep_view(p.0);
            }
            Ok(p)
        },
        None => Err(ProgramError::NoProgramAddress),
    }
}

/// Copies `src` into a new vector.
pub fn to_vec(src: &[u8]) -> (r: Vec<u8>)
    ensures
        r@ == src@,
{
    let mut out: Vec<u8> = Vec::new();
    let mut i: usize = 0;
    while i < src.len()
        invariant
            0 <= i <= src@.len(),
            out@ == src@.subrange(0, i as int),
        decreases src@.len() - i,
    {
        out.push(src[i]);
        i += 1;
        assert(out@ =~= src@.subrange(0, i as int));
    }
    assert(src@.subrange(0, src@.len() as int) =~= src@);
    out
}

/// The seeds of the config address, as byte vectors.
pub fn config_seed_vecs(seed: u64, mint_x: &[u8; 32], mint_y: &[u8; 32]) -> (r: Vec<Vec<u8>>)
    ensures
        r.deep_view() == config_seeds(seed, mint_x@, mint_y@),
{
    let mut seeds: Vec<Vec<u8>> = Vec::new();
    seeds.push(to_vec(CONFIG_SEED.as_slice()));
    seeds.push(u64_to_le_bytes(seed));
    seeds.push(to_vec(mint_x.as_slice()));
    seeds.push(to_vec(mint_y.as_slice()));
    proof {
        lemma_bytes_deep_view(seeds@[0]);
        lemma_bytes_deep_view(seeds@[1]);
        lemma_bytes_deep_view(seeds@[2]);
        lemma_bytes_deep_view(seeds@[3]);
        assert(seeds.deep_view() =~= config_seeds(seed, mint_x@, mint_y@));
    }
    seeds
}

/// `seeds` followed by the one-byte seed `bump`.
pub fn push_bump(seeds: &mut Vec<Vec<u8>>, bump: u8)
    ensures
        final(seeds).deep_view() == old(seeds).deep_view().push(seq![bump]),
{
    let mut b: Vec<u8> = Vec::new();
    b.push(bump);
    let ghost before = seeds.deep_view();
    seeds.push(b);
    proof {
        assert(b.deep_view() =~= seq![bump]);
        assert(seeds.deep_view() =~= before.push(seq![bump]));
    }
}

/// The seeds with which the LP mint's address signs: `"lp"`, the config
/// address, and its bump.
pub fn lp_signer_seed_vecs(config: &[u8; 32], bump: u8) -> (r: Vec<Vec<u8>>)
    ensures
        r.deep_view() == lp_seeds(config@).push(seq![bump]),
{
    let mut seeds: Vec<Vec<u8>> = Vec::new();
    seeds.push(to_vec(LP_SEED.as_slice()));
    seeds.push(to_vec(config.as_slice()));
    proof {
        lemma_bytes_deep_view(seeds@[0]);
        lemma_bytes_deep_view(seeds@[1]);
        assert(seeds.deep_view() =~= lp_seeds(config@));
    }
    push_bump(&mut seeds, bump);
    seeds
}

/// Derives the config address of the pool with this seed and these mints.
pub fn find_config_address(seed: u64, mint_x: &[u8; 32], mint_y: &[u8; 32]) -> (r: Result<([u8; 32], u8), ProgramError>)
    ensures
        derived_view(r) == config_address(seed, mint_x@, mint_y@),
{
    let seeds = config_seed_vecs(seed, mint_x, mint_y);
    find(&seeds, &ID)
}

/// Derives the LP mint address of the pool whose config lives at `config`.
pub fn find_lp_mint_address(config: &[u8; 32]) -> (r: Result<([u8; 32], u8), ProgramError>)
    ensures
        derived_view(r) == lp_mint_address(config@),
{
    let mut seeds: Vec<Vec<u8>> = Vec::new();
    seeds.push(to_vec(LP_SEED.as_slice()));
    seeds.push(to_vec(config.as_slice()));
    proof {
        lemma_bytes_deep_view(seeds@[0]);
        lemma_bytes_deep_view(seeds@[1]);
        assert(seeds.deep_view() =~= lp_seeds(config@));
    }
    find(&seeds, &ID)
}

/// Derives the associated token account of `wallet` for `mint`.
pub fn find_vault_address(wallet: &[u8; 32], token_program: &[u8; 32], mint: &[u8; 32]) -> (r: Result<([u8; 32], u8), ProgramError>)
    ensures
        derived_view(r) == vault_address(wallet@, token_program@, mint@),
{
    let mut seeds: Vec<Vec<u8>> = Vec::new();
    seeds.push(to_vec(wallet.as_slice()));
    seeds.push(to_vec(token_program.as_slice()));
    seeds.push(to_vec(mint.as_slice()));
    proof {
        lemma_bytes_deep_view(seeds@[0]);
        lemma_bytes_deep_view(seeds@[1]);
        lemma_bytes_deep_view(seeds@[2]);
        assert(seeds.deep_view() =~= vault_seeds(wallet@, token_program@, mint@));
    }
    let ata = ata_program_id();
    find(&seeds, &ata)
}

} // verus!
