use vstd::prelude::*;

use crate::claim::{mint_amount, Claim, MintRequest};
use crate::errors::StakeError;
use crate::stake::{FreezeRequest, Stake, StakeBumps};
use crate::state::{Address, StakeAccount, StakeConfig, UserAccount};
use crate::unstake::{credited_for, unlock_refusal_for, UnfreezeRequest, Unstake};

verus! {

/// A user's counters under the user's identity.
#[derive(Clone, Copy, Debug, PartialEq, Eq, Structural)]
pub struct UserEntry {
    pub key: Address,
    pub account: UserAccount,
}

/// The records of one config: the user records, keyed by user, and the live
/// stake records, keyed by asset.
pub struct Ledger {
    pub config: StakeConfig,
    pub users: Vec<UserEntry>,
    pub stakes: Vec<StakeAccount>,
}

/// What a `Ledger` holds, as sequences.
pub struct LedgerView {
    pub config: StakeConfig,
    pub users: Seq<UserEntry>,
    pub stakes: Seq<StakeAccount>,
}

impl View for Ledger {
    type V = LedgerView;

    open spec fn view(&self) -> LedgerView {
        LedgerView { config: self.config, users: self.users@, stakes: self.stakes@ }
    }
}

/// Number of stake records in `stakes` owned by `owner`.
pub open spec fn owned_count(stakes: Seq<StakeAccount>, owner: Address) -> nat
    decreases stakes.len(),
{
    if stakes.len() == 0 {
        0
    } else {
        owned_count(stakes.drop_last(), owner) + if stakes.last().owner == owner {
            1nat
        } else {
            0nat
        }
    }
}

proof fn lemma_count_push(stakes: Seq<StakeAccount>, record: StakeAccount, owner: Address)
    ensures
        owned_count(stakes.push(record), owner) == owned_count(stakes, owner) + if record.owner
            == owner {
            1nat
        } else {
            0nat
        },
{
    assert(stakes.push(record).drop_last() =~= stakes);
}

proof fn lemma_count_none(stakes: Seq<StakeAccount>, owner: Address)
    requires
        forall|j: int| 0 <= j < stakes.len() ==> stakes[j].owner != owner,
    ensures
        owned_count(stakes, owner) == 0,
    decreases stakes.len(),
{
    if stakes.len() > 0 {
        lemma_count_none(stakes.drop_last(), owner);
    }
}

proof fn lemma_count_remove(stakes: Seq<StakeAccount>, j: int, owner: Address)
    requires
        0 <= j < stakes.len(),
    ensures
        owned_count(stakes.remove(j), owner) + (if stakes[j].owner == owner {
            1nat
        } else {
            0nat
        }) == owned_count(stakes, owner),
    decreases stakes.len(),
{
    if j == stakes.len() - 1 {
        assert(stakes.remove(j) =~= stakes.drop_last());
    } else {
        lemma_count_remove(stakes.drop_last(), j, owner);
        assert(stakes.remove(j).drop_last() =~= stakes.drop_last().remove(j));
        assert(stakes.remove(j).last() == stakes.last());
    }
}

impl LedgerView {
    pub open spec fn has_user(self, key: Address) -> bool {
        exists|i: int| 0 <= i < self.users.len() && self.users[i].key == key
    }

    pub open spec fn user_slot(self, key: Address) -> int {
        choose|i: int| 0 <= i < self.users.len() && self.users[i].key == key
    }

    pub open spec fn has_stake(self, asset: Address) -> bool {
        exists|j: int| 0 <= j < self.stakes.len() && self.stakes[j].mint == asset
    }

    pub open spec fn stake_slot(self, asset: Address) -> int {
        choose|j: int| 0 <= j < self.stakes.len() && self.stakes[j].mint == asset
    }

    /// User keys are unique, assets are unique among the live records, each
    /// user's `amount_staked` is the number of live records that the user
    /// owns and at most `max_stake`, and each record's owner has a user
    /// record.
    pub open spec fn wf(self) -> bool {
        &&& forall|i: int, k: int|
            0 <= i < self.users.len() && 0 <= k < self.users.len() && self.users[i].key
                == self.users[k].key ==> i == k
        &&& forall|j: int, k: int|
            0 <= j < self.stakes.len() && 0 <= k < self.stakes.len() && self.stakes[j].mint
                == self.stakes[k].mint ==> j == k
        &&& forall|i: int|
            0 <= i < self.users.len() ==> self.users[i].account.amount_staked == owned_count(
                self.stakes,
                #[trigger] self.users[i].key,
            )
        &&& forall|i: int|
            0 <= i < self.users.len() ==> #[trigger] self.users[i].account.amount_staked
                <= self.config.max_stake
        &&& forall|j: int| 0 <= j < self.stakes.len() ==> self.has_user(#[trigger] self.stakes[j].owner)
    }

    /// The error a lock of `asset` by `user` ends with, if any.
    pub open spec fn lock_refusal(self, user: Address, asset: Address) -> Option<StakeError> {
        if self.has_stake(asset) {
            Some(StakeError::RecordCollision)
        } else if !self.has_user(user) {
            Some(StakeError::RecordMissing)
        } else if self.users[self.user_slot(user)].account.amount_staked
            >= self.config.max_stake {
            Some(StakeError::CapacityExceeded)
        } else {
            None
        }
    }

    /// The records after `user` locks `asset` at time `now`.
    pub open spec fn after_lock(
        self,
        user: Address,
        asset: Address,
        bump: u8,
        now: i64,
    ) -> LedgerView {
        let slot = self.user_slot(user);
        let account = self.users[slot].account;
        LedgerView {
            config: self.config,
            users: self.users.update(
                slot,
                UserEntry {
                    key: user,
                    account: UserAccount {
                        amount_staked: (account.amount_staked + 1) as u8,
                        ..account
                    },
                },
            ),
            stakes: self.stakes.push(
                StakeAccount { owner: user, mint: asset, staked_at: now, bump },
            ),
        }
    }

    /// The error an unlock of `asset` by `user` at time `now` ends with, if
    /// any.
    pub open spec fn unlock_refusal(self, user: Address, asset: Address, now: i64) -> Option<
        StakeError,
    > {
        if !self.has_stake(asset) {
            Some(StakeError::RecordMissing)
        } else if self.stakes[self.stake_slot(asset)].owner != user {
            Some(StakeError::NotOwner)
        } else if !self.has_user(user) {
            Some(StakeError::RecordMissing)
        } else {
            unlock_refusal_for(
                self.stakes[self.stake_slot(asset)],
                user,
                self.config,
                self.users[self.user_slot(user)].account,
                now,
            )
        }
    }

    /// The records after `user` unlocks `asset` at time `now`: the user's
    /// counters are credited and the stake record is gone.
    pub open spec fn after_unlock(self, user: Address, asset: Address, now: i64) -> LedgerView {
        LedgerView {
            config: self.config,
            users: self.users.update(
                self.user_slot(user),
                UserEntry {
                    key: user,
                    account: credited_for(
                        self.stakes[self.stake_slot(asset)],
                        self.config,
                        self.users[self.user_slot(user)].account,
                        now,
                    ),
                },
            ),
            stakes: self.stakes.remove(self.stake_slot(asset)),
        }
    }
    /// The records after `user` redeems: the user's points are zero.
    pub open spec fn after_redeem(self, user: Address) -> LedgerView {
        let slot = self.user_slot(user);
        LedgerView {
            users: self.users.update(
                slot,
                UserEntry {
                    key: user,
                    account: UserAccount { points: 0, ..self.users[slot].account },
                },
            ),
            ..self
        }
    }
}

impl Ledger {
    /// An empty ledger under `config`.
    pub fn new(config: StakeConfig) -> (r: Ledger)
        ensures
            r@.config == config,
            r@.users.len() == 0,
            r@.stakes.len() == 0,
            r@.wf(),
    {
        Ledger { config, users: Vec::new(), stakes: Vec::new() }
    }

    /// Create the user record of `key` with zeroed counters; refused with
    /// `RecordCollision` when it exists already.
    pub fn open_user(&mut self, key: Address, bump: u8) -> (r: Result<(), StakeError>)
        requires
            old(self)@.wf(),
        ensures
            final(self)@.wf(),
            r is Err <==> old(self)@.has_user(key),
            r is Err ==> r == Err::<(), StakeError>(StakeError::RecordCollision) && final(self)@
                == old(self)@,
            r is Ok ==> final(self)@ == (LedgerView {
                users: old(self)@.users.push(
                    UserEntry { key, account: UserAccount { points: 0, amount_staked: 0, bump } },
                ),
                ..old(self)@
            }),
    {
        if let Some(i) = find_user(&self.users, key) {
            proof {
                assert(self@.users[i as int].key == key);
            }
            return Err(StakeError::RecordCollision);
        }
        let ghost before = self@;
        self.users.push(
            UserEntry { key, account: UserAccount { points: 0, amount_staked: 0, bump } },
        );
        proof {
            let after = self@;
            assert(forall|j: int|
                0 <= j < before.stakes.len() ==> before.stakes[j].owner != key) by {
                assert forall|j: int| 0 <= j < before.stakes.len() implies before.stakes[j].owner
                    != key by {
                    if before.stakes[j].owner == key {
                        assert(before.has_user(before.stakes[j].owner));
                    }
                }
            }
            lemma_count_none(before.stakes, key);
            assert forall|j: int| 0 <= j < after.stakes.len() implies after.has_user(
                #[trigger] after.stakes[j].owner,
            ) by {
                let i = before.user_slot(after.stakes[j].owner);
                assert(before.has_user(before.stakes[j].owner));
                assert(after.users[i].key == after.stakes[j].owner);
            }
        }
        Ok(())
    }

    /// Lock `asset` for `user` at time `now`. Refused with `RecordCollision`
    /// when a live record exists for the asset, with `RecordMissing` when the
    /// user has no record, and with `CapacityExceeded` at `max_stake`.
    /// Otherwise the record is created, the user's `amount_staked` grows by
    /// one, and the freeze to perform is returned.
    pub fn lock(
        &mut self,
        user: Address,
        asset: Address,
        collection: Address,
        stake_key: Address,
        bump: u8,
        now: i64,
    ) -> (r: Result<FreezeRequest, StakeError>)
        requires
            old(self)@.wf(),
        ensures
            final(self)@.wf(),
            r is Ok <==> old(self)@.lock_refusal(user, asset) is None,
            r matches Err(e) ==> old(self)@.lock_refusal(user, asset) == Some(e),
            r is Err ==> final(self)@ == old(self)@,
            r is Ok ==> r == Ok::<FreezeRequest, StakeError>(
                FreezeRequest { asset, collection, authority: stake_key },
            ),
            r is Ok ==> final(self)@ == old(self)@.after_lock(user, asset, bump, now),
    {
        if let Some(j) = find_stake(&self.stakes, asset) {
            proof {
                assert(self@.stakes[j as int].mint == asset);
            }
            return Err(StakeError::RecordCollision);
        }
        let i = match find_user(&self.users, user) {
            Some(i) => i,
            None => {
                return Err(StakeError::RecordMissing);
            },
        };
        let ghost before = self@;
        proof {
            assert(before.users[i as int].key == user);
            assert(before.has_user(user));
            assert(before.user_slot(user) == i);
        }
        let mut context = Stake {
            user,
            asset,
            collection,
            stake_account_key: stake_key,
            stake_account: StakeAccount {
                owner: Address { hi: 0, lo: 0 },
                mint: Address { hi: 0, lo: 0 },
                staked_at: 0,
                bump: 0,
            },
            config: self.config,
            user_account: self.users[i].account,
        };
        let request = match context.stake(&StakeBumps { stake_account: bump }, now) {
            Ok(q) => q,
            Err(e) => {
                return Err(e);
            },
        };
        self.users[i] = UserEntry { key: user, account: context.user_account };
        self.stakes.push(context.stake_account);
        proof {
            let after = self@;
            let record = context.stake_account;
            assert(after.users =~= before.after_lock(user, asset, bump, now).users);
            assert(after.stakes =~= before.after_lock(user, asset, bump, now).stakes);
            assert forall|k: int| 0 <= k < after.users.len() implies after.users[k].account.amount_staked
                == owned_count(after.stakes, #[trigger] after.users[k].key) by {
                lemma_count_push(before.stakes, record, before.users[k].key);
            }
            assert forall|j: int| 0 <= j < after.stakes.len() implies after.has_user(
                #[trigger] after.stakes[j].owner,
            ) by {
                if j < before.stakes.len() {
                    let k = before.user_slot(after.stakes[j].owner);
                    assert(before.has_user(before.stakes[j].owner));
                    assert(after.users[k].key == after.stakes[j].owner);
                } else {
                    assert(after.users[i as int].key == after.stakes[j].owner);
                }
            }
        }
        Ok(request)
    }

    /// Unlock `asset` for `user` at time `now`. Refused with `RecordMissing`
    /// when no live record exists for the asset, with `NotOwner` when the
    /// record belongs to someone else, and otherwise as the unlock
    /// instruction refuses. On success the user's counters are credited,
    /// the record is removed, and the thaw to perform is returned.
    pub fn unlock(
        &mut self,
        user: Address,
        asset: Address,
        collection: Address,
        stake_key: Address,
        now: i64,
    ) -> (r: Result<UnfreezeRequest, StakeError>)
        requires
            old(self)@.wf(),
        ensures
            final(self)@.wf(),
            r is Ok <==> old(self)@.unlock_refusal(user, asset, now) is None,
            r matches Err(e) ==> old(self)@.unlock_refusal(user, asset, now) == Some(e),
            r is Err ==> final(self)@ == old(self)@,
            r is Ok ==> r == Ok::<UnfreezeRequest, StakeError>(
                UnfreezeRequest {
                    asset,
                    collection,
                    authority: stake_key,
                    authority_bump: old(self)@.stakes[old(self)@.stake_slot(asset)].bump,
                },
            ),
            r is Ok ==> final(self)@ == old(self)@.after_unlock(user, asset, now),
    {
        let j = match find_stake(&self.stakes, asset) {
            Some(j) => j,
            None => {
                return Err(StakeError::RecordMissing);
            },
        };
        let ghost before = self@;
        proof {
            assert(before.stakes[j as int].mint == asset);
            assert(before.has_stake(asset));
            assert(before.stake_slot(asset) == j);
        }
        if !(self.stakes[j].owner == user) {
            return Err(StakeError::NotOwner);
        }
        let i = match find_user(&self.users, user) {
            Some(i) => i,
            None => {
                return Err(StakeError::RecordMissing);
            },
        };
        proof {
            assert(before.users[i as int].key == user);
            assert(before.has_user(user));
            assert(before.user_slot(user) == i);
        }
        let mut context = Unstake {
            user,
            asset,
            collection,
            stake_account_key: stake_key,
            stake_account: self.stakes[j],
            config: self.config,
            user_account: self.users[i].account,
        };
        let request = match context.unstake(now) {
            Ok(q) => q,
            Err(e) => {
                return Err(e);
            },
        };
        self.users[i] = UserEntry { key: user, account: context.user_account };
        self.stakes.remove(j);
        proof {
            let after = self@;
            assert(after.users =~= before.after_unlock(user, asset, now).users);
            assert(after.stakes =~= before.after_unlock(user, asset, now).stakes);
            assert forall|k: int| 0 <= k < after.users.len() implies after.users[k].account.amount_staked
                == owned_count(after.stakes, #[trigger] after.users[k].key) by {
                lemma_count_remove(before.stakes, j as int, before.users[k].key);
            }
            assert forall|a: int, b: int|
                0 <= a < after.stakes.len() && 0 <= b < after.stakes.len()
                    && after.stakes[a].mint == after.stakes[b].mint implies a == b by {
                let a0 = if a < j { a } else { a + 1 };
                let b0 = if b < j { b } else { b + 1 };
                assert(after.stakes[a] == before.stakes[a0]);
                assert(after.stakes[b] == before.stakes[b0]);
            }
            assert forall|m: int| 0 <= m < after.stakes.len() implies after.has_user(
                #[trigger] after.stakes[m].owner,
            ) by {
                let m0 = if m < j { m } else { m + 1 };
                assert(after.stakes[m] == before.stakes[m0]);
                let k = before.user_slot(before.stakes[m0].owner);
                assert(before.has_user(before.stakes[m0].owner));
                assert(after.users[k].key == after.stakes[m].owner);
            }
        }
        Ok(request)
    }

    /// Redeem every point of `user`, with the reward mint's decimals.
    /// Refused with `RecordMissing` when the user has no record; otherwise
    /// the user's points drop to zero and the mint to perform is returned.
    pub fn redeem(
        &mut self,
        user: Address,
        rewards_ata: Address,
        reward_mint: Address,
        reward_decimals: u8,
    ) -> (r: Result<MintRequest, StakeError>)
        requires
            old(self)@.wf(),
        ensures
            final(self)@.wf(),
            r is Ok <==> old(self)@.has_user(user),
            r is Err ==> r == Err::<MintRequest, StakeError>(StakeError::RecordMissing)
                && final(self)@ == old(self)@,
            r is Ok ==> r == Ok::<MintRequest, StakeError>(
                MintRequest {
                    mint: reward_mint,
                    to: rewards_ata,
                    amount: mint_amount(
                        old(self)@.users[old(self)@.user_slot(user)].account.points,
                        reward_decimals,
                    ) as u64,
                },
            ),
            r is Ok ==> final(self)@ == old(self)@.after_redeem(user),
    {
        let i = match find_user(&self.users, user) {
            Some(i) => i,
            None => {
                return Err(StakeError::RecordMissing);
            },
        };
        let ghost before = self@;
        proof {
            assert(before.users[i as int].key == user);
            assert(before.has_user(user));
            assert(before.user_slot(user) == i);
        }
        let mut context = Claim {
            user,
            rewards_ata,
            reward_mint,
            reward_decimals,
            config: self.config,
            user_account: self.users[i].account,
        };
        let request = context.claim();
        self.users[i] = UserEntry { key: user, account: context.user_account };
        proof {
            let after = self@;
            assert(after.users =~= before.after_redeem(user).users);
            assert forall|m: int| 0 <= m < after.stakes.len() implies after.has_user(
                #[trigger] after.stakes[m].owner,
            ) by {
                let k = before.user_slot(before.stakes[m].owner);
                assert(before.has_user(before.stakes[m].owner));
                assert(after.users[k].key == after.stakes[m].owner);
            }
        }
        Ok(request)
    }

    /// The counters of `key`, if the user has a record.
    pub fn user_account(&self, key: Address) -> (r: Option<UserAccount>)
        requires
            self@.wf(),
        ensures
            r is Some <==> self@.has_user(key),
            r is Some ==> r == Some(self@.users[self@.user_slot(key)].account),
    {
        match find_user(&self.users, key) {
            Some(i) => {
                proof {
                    assert(self@.users[i as int].key == key);
                    assert(self@.has_user(key));
                }
                Some(self.users[i].account)
            },
            None => None,
        }
    }

    /// The live stake record of `asset`, if there is one.
    pub fn stake_record(&self, asset: Address) -> (r: Option<StakeAccount>)
        requires
            self@.wf(),
        ensures
            r is Some <==> self@.has_stake(asset),
            r is Some ==> r == Some(self@.stakes[self@.stake_slot(asset)]),
    {
        match find_stake(&self.stakes, asset) {
            Some(j) => {
                proof {
                    assert(self@.stakes[j as int].mint == asset);
                    assert(self@.has_stake(asset));
                }
                Some(self.stakes[j])
            },
            None => None,
        }
    }
}

/// In every state that the ledger's operations reach, a user's
/// `amount_staked` is the number of live stake records that the user owns,
/// and lies between zero and `max_stake`.
pub proof fn lemma_staked_is_live_count(v: LedgerView, user: Address)
    requires
        v.wf(),
        v.has_user(user),
    ensures
        v.users[v.user_slot(user)].account.amount_staked == owned_count(v.stakes, user),
        0 <= v.users[v.user_slot(user)].account.amount_staked <= v.config.max_stake,
{
    let i = v.user_slot(user);
    assert(v.users[i].key == user);
}

/// Of two locks of one asset, the second meets the record that the first
/// created: whoever attempts it, it is refused with `RecordCollision`, and a
/// refused lock changes nothing.
pub proof fn lemma_second_lock_collides(
    v: LedgerView,
    first: Address,
    second: Address,
    asset: Address,
    bump: u8,
    now: i64,
)
    requires
        v.wf(),
        v.lock_refusal(first, asset) is None,
    ensures
        v.after_lock(first, asset, bump, now).lock_refusal(second, asset) == Some(
            StakeError::RecordCollision,
        ),
{
    let after = v.after_lock(first, asset, bump, now);
    let j = v.stakes.len() as int;
    assert(after.stakes[j].mint == asset);
    assert(after.has_stake(asset));
}

fn find_user(users: &Vec<UserEntry>, key: Address) -> (r: Option<usize>)
    ensures
        r matches Some(i) ==> i < users@.len() && users@[i as int].key == key,
        r is None ==> forall|i: int| 0 <= i < users@.len() ==> users@[i].key != key,
{
    let mut i: usize = 0;
    while i < users.len()
        invariant
            i <= users@.len(),
            forall|k: int| 0 <= k < i ==> users@[k].key != key,
        decreases users@.len() - i,
    {
        if users[i].key == key {
            return Some(i);
        }
        i = i + 1;
    }
    None
}

fn find_stake(stakes: &Vec<StakeAccount>, asset: Address) -> (r: Option<usize>)
    ensures
        r matches Some(j) ==> j < stakes@.len() && stakes@[j as int].mint == asset,
        r is None ==> forall|j: int| 0 <= j < stakes@.len() ==> stakes@[j].mint != asset,
{
    let mut j: usize = 0;
    while j < stakes.len()
        invariant
            j <= stakes@.len(),
            forall|k: int| 0 <= k < j ==> stakes@[k].mint != asset,
        decreases stakes@.len() - j,
    {
        if stakes[j].mint == asset {
            return Some(j);
        }
        j = j + 1;
    }
    None
}

} // verus!
