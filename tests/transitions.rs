use nft_staking::{
    reward_amount, reward_scale, whole_days, Address, Claim, FreezeRequest, Ledger, Stake,
    StakeAccount, StakeBumps, StakeConfig, StakeError, UnfreezeRequest, Unstake, UserAccount,
    SECONDS_PER_DAY,
};

const DAY: i64 = SECONDS_PER_DAY as i64;

fn addr(n: u128) -> Address {
    Address { hi: n, lo: n + 1 }
}

fn config(max_stake: u8, points_per_stake: u8, freeze_period: u32) -> StakeConfig {
    StakeConfig { points_per_stake, max_stake, freeze_period, rewards_bump: 9, bump: 8 }
}

fn blank() -> StakeAccount {
    StakeAccount { owner: addr(0), mint: addr(0), staked_at: 0, bump: 0 }
}

fn stake_context(amount_staked: u8, max_stake: u8) -> Stake {
    Stake {
        user: addr(1),
        asset: addr(10),
        collection: addr(20),
        stake_account_key: addr(30),
        stake_account: blank(),
        config: config(max_stake, 2, 3),
        user_account: UserAccount { points: 4, amount_staked, bump: 7 },
    }
}

fn unstake_context(staked_at: i64, points: u32) -> Unstake {
    Unstake {
        user: addr(1),
        asset: addr(10),
        collection: addr(20),
        stake_account_key: addr(30),
        stake_account: StakeAccount { owner: addr(1), mint: addr(10), staked_at, bump: 5 },
        config: config(5, 2, 3),
        user_account: UserAccount { points, amount_staked: 1, bump: 7 },
    }
}

#[test]
fn stake_below_capacity_records_and_counts() {
    let mut s = stake_context(4, 5);
    let r = s.stake(&StakeBumps { stake_account: 6 }, 1_000);
    assert_eq!(r, Ok(FreezeRequest { asset: addr(10), collection: addr(20), authority: addr(30) }));
    assert_eq!(s.user_account.amount_staked, 5);
    assert_eq!(s.user_account.points, 4);
    assert_eq!(
        s.stake_account,
        StakeAccount { owner: addr(1), mint: addr(10), staked_at: 1_000, bump: 6 }
    );
}

#[test]
fn stake_at_capacity_is_refused() {
    let mut s = stake_context(5, 5);
    let before = s;
    assert_eq!(s.stake(&StakeBumps { stake_account: 6 }, 1_000), Err(StakeError::CapacityExceeded));
    assert_eq!(s, before);
}

#[test]
fn stake_with_zero_capacity_is_refused() {
    let mut s = stake_context(0, 0);
    assert_eq!(s.stake(&StakeBumps { stake_account: 6 }, 0), Err(StakeError::CapacityExceeded));
}

#[test]
fn unstake_before_freeze_period_is_refused() {
    let mut u = unstake_context(0, 7);
    let before = u;
    assert_eq!(u.unstake(3 * DAY - 1), Err(StakeError::FreezePeriodNotPassed));
    assert_eq!(u, before);
}

#[test]
fn unstake_at_freeze_period_credits_period_times_rate() {
    let mut u = unstake_context(100, 7);
    let r = u.unstake(100 + 3 * DAY);
    assert_eq!(
        r,
        Ok(UnfreezeRequest {
            asset: addr(10),
            collection: addr(20),
            authority: addr(30),
            authority_bump: 5,
        })
    );
    assert_eq!(u.user_account, UserAccount { points: 13, amount_staked: 0, bump: 7 });
}

#[test]
fn unstake_partial_day_earns_nothing() {
    let mut exact = unstake_context(0, 0);
    let mut later = unstake_context(0, 0);
    exact.unstake(3 * DAY).unwrap();
    later.unstake(3 * DAY + 23 * 3600).unwrap();
    assert_eq!(exact.user_account.points, 6);
    assert_eq!(later.user_account.points, 6);
}

#[test]
fn unstake_by_stranger_is_refused() {
    let mut u = unstake_context(0, 0);
    u.user = addr(2);
    let before = u;
    assert_eq!(u.unstake(10 * DAY), Err(StakeError::NotOwner));
    assert_eq!(u, before);
}

#[test]
fn unstake_points_overflow_is_refused() {
    let mut u = unstake_context(0, u32::MAX - 5);
    let before = u;
    assert_eq!(u.unstake(3 * DAY), Err(StakeError::ArithmeticOverflow));
    assert_eq!(u, before);
    let mut fits = unstake_context(0, u32::MAX - 6);
    assert!(fits.unstake(3 * DAY).is_ok());
    assert_eq!(fits.user_account.points, u32::MAX);
}

#[test]
fn unstake_with_clock_behind_stake_is_refused() {
    let mut u = unstake_context(10 * DAY, 0);
    assert_eq!(u.unstake(0), Err(StakeError::FreezePeriodNotPassed));
}

#[test]
fn whole_days_truncates_toward_zero() {
    assert_eq!(whole_days(0, DAY - 1), 0);
    assert_eq!(whole_days(0, DAY), 1);
    assert_eq!(whole_days(50, 5 * DAY + 49), 4);
    assert_eq!(whole_days(DAY, 0), -1);
    assert_eq!(whole_days(DAY - 1, 0), 0);
    assert_eq!(whole_days(i64::MIN, i64::MAX), (u64::MAX / SECONDS_PER_DAY) as i64);
}

#[test]
fn reward_scale_saturates() {
    assert_eq!(reward_scale(0), 1);
    assert_eq!(reward_scale(6), 1_000_000);
    assert_eq!(reward_scale(19), 10_000_000_000_000_000_000);
    assert_eq!(reward_scale(20), u64::MAX);
    assert_eq!(reward_scale(255), u64::MAX);
}

#[test]
fn reward_amount_is_points_times_scale_capped() {
    assert_eq!(reward_amount(0, 9), 0);
    assert_eq!(reward_amount(0, 200), 0);
    assert_eq!(reward_amount(10, 6), 10_000_000);
    assert_eq!(reward_amount(u32::MAX, 9), u32::MAX as u64 * 1_000_000_000);
    assert_eq!(reward_amount(u32::MAX, 10), u64::MAX);
    assert_eq!(reward_amount(1, 19), 10_000_000_000_000_000_000);
    assert_eq!(reward_amount(2, 19), u64::MAX);
}

fn claim_context(points: u32, reward_decimals: u8) -> Claim {
    Claim {
        user: addr(1),
        rewards_ata: addr(40),
        reward_mint: addr(50),
        reward_decimals,
        config: config(5, 2, 3),
        user_account: UserAccount { points, amount_staked: 2, bump: 7 },
    }
}

#[test]
fn claim_zero_points_mints_nothing() {
    let mut c = claim_context(0, 6);
    let before = c;
    let r = c.claim();
    assert_eq!(r.amount, 0);
    assert_eq!(c, before);
}

#[test]
fn claim_mints_scaled_points_and_resets() {
    let mut c = claim_context(25, 6);
    let r = c.claim();
    assert_eq!(r.amount, 25_000_000);
    assert_eq!(r.mint, addr(50));
    assert_eq!(r.to, addr(40));
    assert_eq!(c.user_account, UserAccount { points: 0, amount_staked: 2, bump: 7 });
}

#[test]
fn claim_saturates_large_amounts() {
    let mut c = claim_context(u32::MAX, 12);
    assert_eq!(c.claim().amount, u64::MAX);
    assert_eq!(c.user_account.points, 0);
}

fn ledger_with_user() -> Ledger {
    let mut l = Ledger::new(config(5, 2, 3));
    l.open_user(addr(1), 4).unwrap();
    l
}

#[test]
fn second_lock_of_one_asset_collides() {
    let mut l = ledger_with_user();
    l.open_user(addr(2), 4).unwrap();
    assert!(l.lock(addr(1), addr(10), addr(20), addr(30), 6, 0).is_ok());
    let users = l.users.clone();
    let stakes = l.stakes.clone();
    assert_eq!(l.lock(addr(2), addr(10), addr(20), addr(30), 6, 5), Err(StakeError::RecordCollision));
    assert_eq!(l.lock(addr(1), addr(10), addr(20), addr(30), 6, 5), Err(StakeError::RecordCollision));
    assert_eq!(l.users, users);
    assert_eq!(l.stakes, stakes);
    assert_eq!(l.user_account(addr(2)).unwrap().amount_staked, 0);
    assert_eq!(l.stake_record(addr(10)).unwrap().owner, addr(1));
}

#[test]
fn open_user_twice_collides() {
    let mut l = ledger_with_user();
    assert_eq!(l.open_user(addr(1), 4), Err(StakeError::RecordCollision));
    assert_eq!(l.users.len(), 1);
}

#[test]
fn ledger_refuses_missing_records() {
    let mut l = ledger_with_user();
    assert_eq!(l.lock(addr(9), addr(10), addr(20), addr(30), 6, 0), Err(StakeError::RecordMissing));
    assert_eq!(l.unlock(addr(1), addr(10), addr(20), addr(30), 9 * DAY), Err(StakeError::RecordMissing));
    assert_eq!(l.redeem(addr(9), addr(40), addr(50), 6), Err(StakeError::RecordMissing));
    assert!(l.user_account(addr(9)).is_none());
    assert!(l.stake_record(addr(10)).is_none());
}

#[test]
fn ledger_unlock_by_stranger_is_refused() {
    let mut l = ledger_with_user();
    l.open_user(addr(2), 4).unwrap();
    l.lock(addr(1), addr(10), addr(20), addr(30), 6, 0).unwrap();
    assert_eq!(l.unlock(addr(2), addr(10), addr(20), addr(30), 9 * DAY), Err(StakeError::NotOwner));
    assert!(l.stake_record(addr(10)).is_some());
}

#[test]
fn staked_count_follows_live_records() {
    let mut l = ledger_with_user();
    for n in 0..5u128 {
        l.lock(addr(1), addr(100 + n), addr(20), addr(200 + n), 1, 0).unwrap();
        assert_eq!(l.user_account(addr(1)).unwrap().amount_staked as u128, n + 1);
    }
    assert_eq!(l.lock(addr(1), addr(105), addr(20), addr(205), 1, 0), Err(StakeError::CapacityExceeded));
    assert_eq!(l.stakes.len(), 5);
    l.unlock(addr(1), addr(102), addr(20), addr(202), 4 * DAY).unwrap();
    assert_eq!(l.user_account(addr(1)).unwrap().amount_staked, 4);
    assert_eq!(l.stakes.len(), 4);
    assert!(l.stake_record(addr(102)).is_none());
    l.lock(addr(1), addr(105), addr(20), addr(205), 1, 4 * DAY).unwrap();
    assert_eq!(l.user_account(addr(1)).unwrap().amount_staked, 5);
    let owned = l.stakes.iter().filter(|s| s.owner == addr(1)).count();
    assert_eq!(owned, 5);
}

#[test]
fn end_to_end_lock_wait_unlock_redeem() {
    let mut l = ledger_with_user();
    let freeze = l.lock(addr(1), addr(10), addr(20), addr(30), 6, 1_000).unwrap();
    assert_eq!(freeze.authority, addr(30));
    assert_eq!(l.user_account(addr(1)).unwrap().amount_staked, 1);
    let thaw = l.unlock(addr(1), addr(10), addr(20), addr(30), 1_000 + 5 * DAY).unwrap();
    assert_eq!(thaw, UnfreezeRequest { asset: addr(10), collection: addr(20), authority: addr(30), authority_bump: 6 });
    let account = l.user_account(addr(1)).unwrap();
    assert_eq!(account.points, 10);
    assert_eq!(account.amount_staked, 0);
    assert!(l.stake_record(addr(10)).is_none());
    let mint = l.redeem(addr(1), addr(40), addr(50), 6).unwrap();
    assert_eq!(mint.amount, 10 * 1_000_000);
    assert_eq!(l.user_account(addr(1)).unwrap().points, 0);
}
