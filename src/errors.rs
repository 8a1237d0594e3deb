//! Errors of the engine. Every one of them is terminal for the message that
//! raised it: the host rolls back all effects of that message.
use vstd::prelude::*;

verus! {

#[derive(Clone, Copy, Debug, PartialEq, Eq, Structural)]
pub enum ContractError {
    /// The caller is not the party that the action is reserved for.
    Unauthorized,
    /// `AcceptOwnership` without a proposed owner.
    PendingOwnerMissing,
    /// The whole allocation has been handed out already.
    AlreadyClaimed,
    /// No further mission was completed since the last claim.
    DoMoreTasks,
    /// Less of the native fee denomination was attached than the fee asks.
    InsufficientFee,
    /// A withdrawal of an empty native balance.
    BalanceIsEmpty,
    /// The prefund delegate reports less than the minimum deposit.
    NotEnoughDeposit,
    /// The KYC delegate does not report the caller as verified.
    KycFailed,
    /// The caller has not accepted the terms of use.
    TouFailed,
    /// The caller already accepted the terms of use.
    TouAlreadyAccepted,
    /// The caller joined the offering before.
    AlreadyJoined,
    /// The offering is administratively paused.
    IdoPaused,
    /// The offering's end date has passed.
    IdoClosed,
    /// The user is bonded at more than one staking delegate.
    CannotStakeInMoreThanOneContract,
    /// A staking delegate list longer than the gateway accepts.
    TooManyDelegates,
    /// The vesting address is on the list already.
    AddressAlreadyRegistered,
    /// The vesting address is not on the list.
    AddressNotRegistered,
    /// The vesting list is full.
    CannotAddMoreVestingAddresses { max: u64 },
    /// A replacement vesting list longer than the maximum.
    CannotHaveMoreVestingAddresses { max: u64 },
    /// The participant counter is at its largest value.
    CounterOverflow,
    /// A new end date at or before the current time.
    EndDateInThePast,
    /// A new snapshot time at or before the current time.
    SnapshotTimeFromPast,
}

} // verus!
