use vstd::prelude::*;

verus! {

/// Errors raised by the pool's own rules.
#[derive(Clone, Copy, PartialEq, Eq, Debug)]
pub enum AmmError {
    // Account validation
    NotMutable,
    NotSigner,
    InvalidAccountOwner,
    InvalidAccountLength,
    InvalidPda,
    InvalidAuthority,
    InvalidMint,
    InvalidVaultAddress,
    // State errors
    PoolNotInitialized,
    PoolLocked,
    // Arithmetic
    Overflow,
    Underflow,
    // Business logic
    OfferExpired,
    SlippageExceeded,
    InvalidFee,
    InvalidAmount,
    ZeroBalance,
    InsufficientInitialLiquidity,
}

/// The numeric code under which an [`AmmError`] is reported to the runtime.
pub open spec fn error_code(e: AmmError) -> u32 {
    match e {
        AmmError::NotMutable => 0,
        AmmError::NotSigner => 1,
        AmmError::InvalidAccountOwner => 2,
        AmmError::InvalidAccountLength => 3,
        AmmError::InvalidPda => 4,
        AmmError::InvalidAuthority => 5,
        AmmError::InvalidMint => 6,
        AmmError::InvalidVaultAddress => 7,
        AmmError::PoolNotInitialized => 10,
        AmmError::PoolLocked => 11,
        AmmError::Overflow => 20,
        AmmError::Underflow => 21,
        AmmError::OfferExpired => 30,
        AmmError::SlippageExceeded => 31,
        AmmError::InvalidFee => 32,
        AmmError::InvalidAmount => 33,
        AmmError::ZeroBalance => 34,
        AmmError::InsufficientInitialLiquidity => 35,
    }
}

impl AmmError {
    /// The code of this error, as the runtime sees it in `Custom(code)`.
    pub fn code(&self) -> (r: u32)
        ensures
            r == error_code(*self),
    {
        match self {
            AmmError::NotMutable => 0,
            AmmError::NotSigner => 1,
            AmmError::InvalidAccountOwner => 2,
            AmmError::InvalidAccountLength => 3,
            AmmError::InvalidPda => 4,
            AmmError::InvalidAuthority => 5,
            AmmError::InvalidMint => 6,
            AmmError::InvalidVaultAddress => 7,
            AmmError::PoolNotInitialized => 10,
            AmmError::PoolLocked => 11,
            AmmError::Overflow => 20,
            AmmError::Underflow => 21,
            AmmError::OfferExpired => 30,
            AmmError::SlippageExceeded => 31,
            AmmError::InvalidFee => 32,
            AmmError::InvalidAmount => 33,
            AmmError::ZeroBalance => 34,
            AmmError::InsufficientInitialLiquidity => 35,
        }
    }
}

/// The error an instruction ends with, as the program reports it.
#[derive(Clone, Copy, PartialEq, Eq, Debug)]
pub enum ProgramError {
    /// An error of this program's own, by its code (see [`error_code`]).
    Custom(u32),
    /// The instruction data is too short or malformed.
    InvalidInstructionData,
    /// Fewer accounts were passed than the instruction needs.
    NotEnoughAccountKeys,
    /// No bump seed gives a program derived address for the seeds, where the
    /// runtime's own derivation gives up. The program stops there (it panics
    /// with "Unable to find a viable program address bump seed"); the library
    /// reports it so that the caller can.
    NoProgramAddress,
    /// An error reported by the runtime or by a token-program reader, carried
    /// through by its numeric code.
    Runtime(u64),
}

/// The program error that reports `e`.
pub open spec fn amm_err(e: AmmError) -> ProgramError {
    ProgramError::Custom(error_code(e))
}

impl From<AmmError> for ProgramError {
    fn from(e: AmmError) -> (r: Self) {
        ProgramError::Custom(e.code())
    }
}

impl vstd::std_specs::convert::FromSpecImpl<AmmError> for ProgramError {
    open spec fn obeys_from_spec() -> bool {
        true
    }

    open spec fn from_spec(e: AmmError) -> Self {
        amm_err(e)
    }
}

impl AmmError {
    /// This error as a program error: `Custom(code)`.
    pub fn to_program_error(self) -> (r: ProgramError)
        ensures
            r == amm_err(self),
    {
        ProgramError::from(self)
    }
}

} // verus!
