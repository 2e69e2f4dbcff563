use vstd::prelude::*;

use crate::errors::StakeError;
use crate::state::{Address, StakeAccount, StakeConfig, UserAccount};

verus! {

/// Derivation bumps found for the records that a lock creates.
#[derive(Clone, Copy, Debug, PartialEq, Eq, Structural)]
pub struct StakeBumps {
    pub stake_account: u8,
}

/// Ask the custody program to freeze `asset`, with `authority` as the only
/// identity that may thaw it later.
#[derive(Clone, Copy, Debug, PartialEq, Eq, Structural)]
pub struct FreezeRequest {
    pub asset: Address,
    pub collection: Address,
    pub authority: Address,
}

/// The accounts of a lock: the signer, the asset and its collection, the
/// address derived for the new stake record, the record itself (still
/// blank), the config and the signer's counters.
#[derive(Clone, Copy, Debug, PartialEq, Eq, Structural)]
pub struct Stake {
    pub user: Address,
    pub asset: Address,
    pub collection: Address,
    pub stake_account_key: Address,
    pub stake_account: StakeAccount,
    pub config: StakeConfig,
    pub user_account: UserAccount,
}

impl Stake {
    /// The stake record that a lock at time `now` writes.
    pub open spec fn new_record(self, bumps: StakeBumps, now: i64) -> StakeAccount {
        StakeAccount {
            owner: self.user,
            mint: self.asset,
            staked_at: now,
            bump: bumps.stake_account,
        }
    }

    /// The freeze that a lock asks of the custody program.
    pub open spec fn freeze_of(self) -> FreezeRequest {
        FreezeRequest {
            asset: self.asset,
            collection: self.collection,
            authority: self.stake_account_key,
        }
    }

    /// Whether the user may lock one more asset.
    pub open spec fn has_capacity(self) -> bool {
        self.user_account.amount_staked < self.config.max_stake
    }

    /// Lock the asset at time `now`: refused with `CapacityExceeded` when
    /// the user is at `max_stake`; otherwise the stake record is written,
    /// `amount_staked` grows by one, and the freeze to perform is returned.
    pub fn stake(&mut self, bumps: &StakeBumps, now: i64) -> (r: Result<FreezeRequest, StakeError>)
        ensures
            old(self).has_capacity() <==> r is Ok,
            r is Ok ==> r == Ok::<FreezeRequest, StakeError>(old(self).freeze_of()),
            r is Ok ==> *final(self) == (Stake {
                stake_account: old(self).new_record(*bumps, now),
                user_account: UserAccount {
                    amount_staked: (old(self).user_account.amount_staked + 1) as u8,
                    ..old(self).user_account
                },
                ..*old(self)
            }),
            r is Err ==> r == Err::<FreezeRequest, StakeError>(StakeError::CapacityExceeded),
            r is Err ==> *final(self) == *old(self),
    {
        if self.user_account.amount_staked >= self.config.max_stake {
            return Err(StakeError::CapacityExceeded);
        }
        let request = FreezeRequest {
            asset: self.asset,
            collection: self.collection,
            authority: self.stake_account_key,
        };
        self.stake_account = StakeAccount {
            owner: self.user,
            mint: self.asset,
            staked_at: now,
            bump: bumps.stake_account,
        };
        self.user_account.amount_staked = self.user_account.amount_staked + 1;
        Ok(request)
    }
}

} // verus!
