use vstd::prelude::*;

verus! {

/// Why a transition was refused. A refused transition changes nothing.
#[derive(Clone, Copy, Debug, PartialEq, Eq, Structural)]
pub enum StakeError {
    /// The user already has `max_stake` assets locked.
    CapacityExceeded,
    /// The caller is not the owner recorded in the stake record.
    NotOwner,
    /// Fewer whole days than `freeze_period` have passed since the lock.
    FreezePeriodNotPassed,
    /// A live stake record already exists for the asset.
    RecordCollision,
    /// A counter would leave its range.
    ArithmeticOverflow,
    /// The record that the transition reads does not exist.
    RecordMissing,
}

} // verus!
