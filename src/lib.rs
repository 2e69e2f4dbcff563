//! Accounting core of an asset-staking program: users lock a non-fungible
//! asset, accrue points per whole day it stays locked, unlock it after a
//! freeze period and redeem points for minted reward units.
//!
//! Each instruction is a transition on plain account values. The calls to the
//! custody and token programs are handed back as requests for the caller to
//! perform inside the same atomic transaction.

mod claim;
mod errors;
mod ledger;
mod stake;
mod state;
mod unstake;

pub use claim::{capped, mint_amount, reward_amount, reward_scale, Claim, MintRequest};
pub use errors::StakeError;
pub use ledger::{
    lemma_second_lock_collides, lemma_staked_is_live_count, owned_count, Ledger, LedgerView,
    UserEntry,
};
pub use stake::{FreezeRequest, Stake, StakeBumps};
pub use state::{Address, StakeAccount, StakeConfig, UserAccount, SECONDS_PER_DAY};
pub use unstake::{
    credit_for, credited_for, elapsed_days, lemma_partial_day_earns_nothing,
    lemma_unlock_at_freeze_period, unlock_refusal_for, whole_days, UnfreezeRequest, Unstake,
};
