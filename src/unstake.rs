use vstd::prelude::*;

use crate::errors::StakeError;
use crate::state::{Address, StakeAccount, StakeConfig, UserAccount, SECONDS_PER_DAY};

verus! {

/// Whole days from `staked_at` to `now`, the quotient truncated toward zero:
/// a partial day counts for nothing, and a clock behind `staked_at` gives a
/// day count of zero or below.
pub open spec fn elapsed_days(staked_at: i64, now: i64) -> int {
    if now >= staked_at {
        (now - staked_at) / (SECONDS_PER_DAY as int)
    } else {
        -((staked_at - now) / (SECONDS_PER_DAY as int))
    }
}

/// Computes `elapsed_days(staked_at, now)`.
pub fn whole_days(staked_at: i64, now: i64) -> (r: i64)
    ensures
        r == elapsed_days(staked_at, now),
        r <= u64::MAX / SECONDS_PER_DAY,
{
    if now >= staked_at {
        let span: u64 = ((now as i128) - (staked_at as i128)) as u64;
        (span / SECONDS_PER_DAY) as i64
    } else {
        let span: u64 = ((staked_at as i128) - (now as i128)) as u64;
        0 - ((span / SECONDS_PER_DAY) as i64)
    }
}

/// Ask the custody program to thaw `asset` and then drop its freeze
/// capability; the thaw is signed by the stake record at `authority`, whose
/// derivation bump is `authority_bump`.
#[derive(Clone, Copy, Debug, PartialEq, Eq, Structural)]
pub struct UnfreezeRequest {
    pub asset: Address,
    pub collection: Address,
    pub authority: Address,
    pub authority_bump: u8,
}

/// The accounts of an unlock: the signer, the asset and its collection, the
/// stake record with its address, the config and the signer's counters.
#[derive(Clone, Copy, Debug, PartialEq, Eq, Structural)]
pub struct Unstake {
    pub user: Address,
    pub asset: Address,
    pub collection: Address,
    pub stake_account_key: Address,
    pub stake_account: StakeAccount,
    pub config: StakeConfig,
    pub user_account: UserAccount,
}

/// Points that unlocking `record` at time `now` credits: whole days times
/// `points_per_stake`.
pub open spec fn credit_for(record: StakeAccount, config: StakeConfig, now: i64) -> int {
    elapsed_days(record.staked_at, now) * config.points_per_stake
}

/// The error with which `user` unlocking `record` at time `now` ends, if any.
pub open spec fn unlock_refusal_for(
    record: StakeAccount,
    user: Address,
    config: StakeConfig,
    account: UserAccount,
    now: i64,
) -> Option<StakeError> {
    if record.owner != user {
        Some(StakeError::NotOwner)
    } else if elapsed_days(record.staked_at, now) < config.freeze_period {
        Some(StakeError::FreezePeriodNotPassed)
    } else if account.points + credit_for(record, config, now) > u32::MAX
        || account.amount_staked == 0 {
        Some(StakeError::ArithmeticOverflow)
    } else {
        None
    }
}

/// The user's counters after unlocking `record` at time `now`.
pub open spec fn credited_for(
    record: StakeAccount,
    config: StakeConfig,
    account: UserAccount,
    now: i64,
) -> UserAccount {
    UserAccount {
        points: (account.points + credit_for(record, config, now)) as u32,
        amount_staked: (account.amount_staked - 1) as u8,
        bump: account.bump,
    }
}

impl Unstake {
    /// Whole days the asset has been locked at time `now`.
    pub open spec fn days(self, now: i64) -> int {
        elapsed_days(self.stake_account.staked_at, now)
    }

    /// Points that an unlock at time `now` credits.
    pub open spec fn credit(self, now: i64) -> int {
        credit_for(self.stake_account, self.config, now)
    }

    /// The error an unlock at time `now` ends with, if any.
    pub open spec fn refusal(self, now: i64) -> Option<StakeError> {
        unlock_refusal_for(self.stake_account, self.user, self.config, self.user_account, now)
    }

    /// The thaw that an unlock asks of the custody program.
    pub open spec fn thaw_of(self) -> UnfreezeRequest {
        UnfreezeRequest {
            asset: self.asset,
            collection: self.collection,
            authority: self.stake_account_key,
            authority_bump: self.stake_account.bump,
        }
    }

    /// The counters after a successful unlock at time `now`.
    pub open spec fn credited(self, now: i64) -> UserAccount {
        credited_for(self.stake_account, self.config, self.user_account, now)
    }

    /// Unlock the asset at time `now`. Refused with `NotOwner` when the
    /// signer is not the record's owner, then with `FreezePeriodNotPassed`
    /// before `freeze_period` whole days, then with `ArithmeticOverflow`
    /// when the points would not fit in 32 bits. Otherwise the points grow by
    /// whole days times `points_per_stake`, `amount_staked` drops by one, and
    /// the thaw to perform is returned; the record is then to be closed.
    pub fn unstake(&mut self, now: i64) -> (r: Result<UnfreezeRequest, StakeError>)
        ensures
            r is Ok <==> old(self).refusal(now) is None,
            r is Ok ==> r == Ok::<UnfreezeRequest, StakeError>(old(self).thaw_of()),
            r is Ok ==> *final(self) == (Unstake {
                user_account: old(self).credited(now),
                ..*old(self)
            }),
            r matches Err(e) ==> old(self).refusal(now) == Some(e),
            r is Err ==> *final(self) == *old(self),
    {
        if !(self.stake_account.owner == self.user) {
            return Err(StakeError::NotOwner);
        }
        let days: i64 = whole_days(self.stake_account.staked_at, now);
        if days < self.config.freeze_period as i64 {
            return Err(StakeError::FreezePeriodNotPassed);
        }
        let days: u64 = days as u64;
        let rate: u64 = self.config.points_per_stake as u64;
        assert(days * rate <= (u64::MAX / SECONDS_PER_DAY) * 255) by (nonlinear_arith)
            requires
                days <= u64::MAX / SECONDS_PER_DAY,
                rate <= 255,
        ;
        let credit: u64 = days * rate;
        let total: u64 = self.user_account.points as u64 + credit;
        if total > u32::MAX as u64 || self.user_account.amount_staked == 0 {
            return Err(StakeError::ArithmeticOverflow);
        }
        let request = UnfreezeRequest {
            asset: self.asset,
            collection: self.collection,
            authority: self.stake_account_key,
            authority_bump: self.stake_account.bump,
        };
        self.user_account.points = total as u32;
        self.user_account.amount_staked = self.user_account.amount_staked - 1;
        Ok(request)
    }
}

/// A lock that has lasted `days` whole days and `rest` seconds more, `rest`
/// under one day, counts exactly `days` days: a partial day earns nothing.
pub proof fn lemma_partial_day_earns_nothing(staked_at: i64, now: i64, days: int, rest: int)
    requires
        days >= 0,
        0 <= rest < SECONDS_PER_DAY,
        now == staked_at + days * SECONDS_PER_DAY + rest,
    ensures
        elapsed_days(staked_at, now) == days,
{
    assert((days * (SECONDS_PER_DAY as int) + rest) / (SECONDS_PER_DAY as int) == days) by (nonlinear_arith)
        requires
            days >= 0,
            0 <= rest < SECONDS_PER_DAY,
    ;
}

/// An unlock by the record's owner after exactly `freeze_period` whole days
/// succeeds and credits `freeze_period * points_per_stake`, where the user has
/// an asset locked and the new total fits in the points counter.
pub proof fn lemma_unlock_at_freeze_period(u: Unstake, now: i64)
    requires
        u.stake_account.owner == u.user,
        u.days(now) == u.config.freeze_period,
        u.user_account.amount_staked > 0,
        u.user_account.points + u.config.freeze_period * u.config.points_per_stake <= u32::MAX,
    ensures
        u.refusal(now) is None,
        u.credit(now) == u.config.freeze_period * u.config.points_per_stake,
        u.credited(now).points == u.user_account.points + u.config.freeze_period
            * u.config.points_per_stake,
{
}

} // verus!
