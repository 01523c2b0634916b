//! Errors of the ledger protocols.

use vstd::prelude::*;

use crate::denom::Denom;

verus! {

/// Why a vesting operation was refused.
#[derive(Clone, Debug, PartialEq, Eq)]
pub enum VestingError {
    /// The beneficiary already has an entry for the asset.
    AlreadyExists,
    /// The schedule would release nothing.
    ZeroAmount,
    /// The schedule starts before the current time.
    InvalidStartTime,
    /// The schedule does not end after it starts.
    InvalidEndTime,
    /// A periodic schedule with a zero interval.
    ZeroInterval,
    /// The period of a periodic schedule is not a multiple of its interval.
    IntervalNotDivisible,
    /// The deposit differs from what the schedule releases.
    DepositMismatch,
    /// A registration must bring exactly one kind of funds.
    InvalidDeposit,
    /// No entry for the asset.
    NotFound(Denom),
    /// The caller may not perform the operation.
    Unauthorized,
    /// An amount computation left the range of 128-bit integers.
    Overflow,
}

} // verus!
