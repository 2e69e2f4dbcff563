use vstd::prelude::*;

verus! {

/// Number of seconds in one day.
pub const SECONDS_PER_DAY: u64 = 86400;

/// A 32-byte account identity, held as two 128-bit halves.
#[derive(Clone, Copy, Debug, PartialEq, Eq, Structural)]
pub struct Address {
    pub hi: u128,
    pub lo: u128,
}

/// Global parameters, set once by the administrator and read-only afterwards.
#[derive(Clone, Copy, Debug, PartialEq, Eq, Structural)]
pub struct StakeConfig {
    /// Points awarded per whole day an asset stays locked.
    pub points_per_stake: u8,
    /// Upper bound on the assets one user may have locked at once.
    pub max_stake: u8,
    /// Minimum number of whole days before an asset may be unlocked.
    pub freeze_period: u32,
    /// Derivation bump of the reward mint.
    pub rewards_bump: u8,
    /// Derivation bump of the config record.
    pub bump: u8,
}

/// Per-user counters.
#[derive(Clone, Copy, Debug, PartialEq, Eq, Structural)]
pub struct UserAccount {
    /// Accrued, unredeemed points.
    pub points: u32,
    /// Number of assets this user has locked right now.
    pub amount_staked: u8,
    /// Derivation bump of this record.
    pub bump: u8,
}

/// The record of one locked asset; it lives exactly while the asset is locked.
#[derive(Clone, Copy, Debug, PartialEq, Eq, Structural)]
pub struct StakeAccount {
    /// The user who locked the asset.
    pub owner: Address,
    /// The locked asset.
    pub mint: Address,
    /// Unix time of the lock, in seconds.
    pub staked_at: i64,
    /// Derivation bump of this record.
    pub bump: u8,
}

} // verus!
