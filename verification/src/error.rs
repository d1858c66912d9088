use vstd::prelude::*;

verus! {

/// Every way an operation of this ledger can fail. Each operation's contract
/// states exactly which variant comes back on which inputs.
#[derive(Clone, Copy, Debug, PartialEq, Eq, Structural)]
pub enum ContractError {
    Unauthorized,
    OnlyOwner,
    NoPendingOwnerSet,
    NotPendingOwner,
    FeeTooLarge,
    MinimumDepositTooSmall,
    DepositBelowMinDeposit,
    InsufficientInjAttached,
    ZeroDiv,
    Overflow,
    ValidatorAlreadyExists,
    ValidatorDoesNotExist,
    ValidatorAlreadyEnabled,
    ValidatorAlreadyDisabled,
    ValidatorNotEnabled,
    CallerIsNotAgent,
    OwnerCannotBeAdded,
    OwnerCannotBeRemoved,
    AgentAlreadyExists,
    AgentDoesNotExist,
    UserAlreadyWhitelisted,
    UserAlreadyBlacklisted,
    UserStatusAlreadyCleared,
    UserNotWhitelisted,
    ContractPaused,
    NotPaused,
    InsufficientTruINJBalance,
    UnstakeAmountTooLow,
    SharesAmountTooLow,
    InsufficientValidatorFunds,
    InsufficientStakerFunds,
    InvalidRecipient,
    AllocationUnderOneInj,
    NoAllocationToRecipient,
    ExcessiveDeallocation,
    NothingToClaim,
    NoAllocations,
    NotInValidatorSet,
}

} // verus!
