use vstd::prelude::*;

verus! {

/// Largest fee a pool may charge, in basis points (100%).
pub const MAX_FEE_BPS: u16 = 10_000;

/// Liquidity that stays locked in every pool: it is never minted to anyone.
pub const MINIMUM_LIQUIDITY: u64 = 1_000;

/// First seed of a pool's config address: the bytes of `"config"`.
pub const CONFIG_SEED: [u8; 6] = [0x63, 0x6f, 0x6e, 0x66, 0x69, 0x67];

/// First seed of a pool's LP mint address: the bytes of `"lp"`.
pub const LP_SEED: [u8; 2] = [0x6c, 0x70];

} // verus!
