use vstd::arithmetic::power::{lemma_pow_positive, pow};
use vstd::prelude::*;

use crate::state::{Address, StakeConfig, UserAccount};

verus! {

/// `x`, or the largest `u64` where `x` is larger.
pub open spec fn capped(x: int) -> int {
    if x > u64::MAX {
        u64::MAX as int
    } else {
        x
    }
}

/// Reward units minted for `points` on a mint with `decimals` decimals:
/// `points * 10^decimals`, capped at the largest `u64`.
pub open spec fn mint_amount(points: u32, decimals: u8) -> int {
    capped(points * pow(10, decimals as nat))
}

proof fn lemma_capped_scale(k: int, x: int)
    requires
        k >= 0,
        x >= 0,
    ensures
        capped(k * capped(x)) == capped(k * x),
{
    if x > u64::MAX {
        if k >= 1 {
            assert(k * x >= x) by (nonlinear_arith)
                requires
                    k >= 1,
                    x >= 0,
            ;
            assert(k * (u64::MAX as int) >= u64::MAX) by (nonlinear_arith)
                requires
                    k >= 1,
            ;
        } else {
            assert(k == 0);
        }
    }
}

/// `10^decimals`, capped at the largest `u64`.
pub fn reward_scale(decimals: u8) -> (r: u64)
    ensures
        r == capped(pow(10, decimals as nat)),
{
    let mut acc: u64 = 1;
    let mut i: u8 = 0;
    proof {
        reveal(pow);
    }
    while i < decimals
        invariant
            i <= decimals,
            acc == capped(pow(10, i as nat)),
        decreases decimals - i,
    {
        proof {
            reveal(pow);
            lemma_pow_positive(10, i as nat);
            lemma_capped_scale(10, pow(10, i as nat));
            assert(pow(10, (i + 1) as nat) == 10 * pow(10, i as nat));
        }
        acc = match acc.checked_mul(10) {
            Some(v) => v,
            None => u64::MAX,
        };
        i = i + 1;
    }
    acc
}

/// `mint_amount(points, decimals)`.
pub fn reward_amount(points: u32, decimals: u8) -> (r: u64)
    ensures
        r == mint_amount(points, decimals),
{
    let scale: u64 = reward_scale(decimals);
    proof {
        lemma_pow_positive(10, decimals as nat);
        lemma_capped_scale(points as int, pow(10, decimals as nat));
    }
    match (points as u64).checked_mul(scale) {
        Some(v) => v,
        None => u64::MAX,
    }
}

/// Ask the token program to mint `amount` units of `mint` into `to`,
/// signed by the config record.
#[derive(Clone, Copy, Debug, PartialEq, Eq, Structural)]
pub struct MintRequest {
    pub mint: Address,
    pub to: Address,
    pub amount: u64,
}

/// The accounts of a redemption: the signer, the signer's reward account,
/// the reward mint with its decimals, the config and the signer's counters.
#[derive(Clone, Copy, Debug, PartialEq, Eq, Structural)]
pub struct Claim {
    pub user: Address,
    pub rewards_ata: Address,
    pub reward_mint: Address,
    pub reward_decimals: u8,
    pub config: StakeConfig,
    pub user_account: UserAccount,
}

impl Claim {
    /// Redeem every accrued point: the mint to perform is
    /// `points * 10^decimals` units, capped at the largest `u64`, into the
    /// signer's reward account, and the points drop to zero.
    pub fn claim(&mut self) -> (r: MintRequest)
        ensures
            r.mint == old(self).reward_mint,
            r.to == old(self).rewards_ata,
            r.amount == mint_amount(old(self).user_account.points, old(self).reward_decimals),
            old(self).user_account.points == 0 ==> r.amount == 0 && *final(self) == *old(self),
            *final(self) == (Claim {
                user_account: UserAccount { points: 0, ..old(self).user_account },
                ..*old(self)
            }),
    {
        let amount: u64 = reward_amount(self.user_account.points, self.reward_decimals);
        self.user_account.points = 0;
        MintRequest { mint: self.reward_mint, to: self.rewards_ata, amount }
    }
}

} // verus!
