//! Inputs the dispatcher hands to the library and the values it gets back:
//! query messages, query responses, host commands and typed events.
//!
//! Events carry one field per attribute of the event the host emits; the
//! host shim turns them into attribute strings.

use vstd::prelude::*;

use crate::math::U256;
use crate::state::{Allocation, ClaimRecord, UserStatus, ValidatorInfo};

verus! {

/// What the contract is instantiated with.
#[derive(Clone, Debug)]
pub struct InstantiateMsg {
    pub owner: String,
    pub treasury: String,
    pub default_validator: String,
}

/// Read-only queries the dispatcher can route to the library.
#[derive(Clone, Debug)]
pub enum QueryMsg {
    GetStakerInfo {},
    Balance { address: String },
    TokenInfo {},
    MarketingInfo {},
    IsOwner { addr: String },
    GetValidators {},
    GetTotalStaked {},
    GetTotalRewards {},
    GetTotalSupply {},
    GetClaimableAmount { user: String },
    IsAgent { agent: String },
    IsWhitelisted { user: String },
    IsBlacklisted { user: String },
    GetCurrentUserStatus { user: String },
    GetSharePrice {},
    GetTotalAssets {},
    GetClaimableAssets { user: String },
    GetMaxWithdraw { user: String },
    GetAllocations { user: String },
    GetTotalAllocated { user: String },
    GetDistributionAmounts { distributor: String, recipient: Option<String> },
}

/// A message for the host to send on the library's behalf.
#[derive(Clone, Debug)]
pub enum Command {
    /// Delegate `amount` of the base asset to a validator.
    Delegate { validator: String, amount: u128 },
    /// Undelegate `amount` of the base asset from a validator.
    Undelegate { validator: String, amount: u128 },
    /// Withdraw the accrued rewards of a validator.
    WithdrawReward { validator: String },
    /// Self-call that re-delegates withdrawn rewards to a validator.
    Restake { validator: String, amount: u128 },
    /// Pay `amount` of the base asset to an address.
    Send { to_address: String, amount: u128 },
}

#[derive(Clone, Debug)]
pub struct GetStakerInfoResponse {
    pub owner: String,
    pub default_validator: String,
    pub treasury: String,
    pub fee: u16,
    pub distribution_fee: u16,
    pub min_deposit: u128,
    pub is_paused: bool,
}

#[derive(Clone, Debug)]
pub struct GetValidatorResponse {
    pub validators: Vec<ValidatorInfo>,
}

#[derive(Clone, Copy, Debug, PartialEq, Eq, Structural)]
pub struct GetIsAgentResponse {
    pub is_agent: bool,
}

#[derive(Clone, Copy, Debug, PartialEq, Eq, Structural)]
pub struct GetIsOwnerResponse {
    pub is_owner: bool,
}

#[derive(Clone, Copy, Debug, PartialEq, Eq, Structural)]
pub struct GetIsWhitelistedResponse {
    pub is_whitelisted: bool,
}

#[derive(Clone, Copy, Debug, PartialEq, Eq, Structural)]
pub struct GetIsBlacklistedResponse {
    pub is_blacklisted: bool,
}

#[derive(Clone, Copy, Debug, PartialEq, Eq, Structural)]
pub struct GetCurrentUserStatusResponse {
    pub user_status: UserStatus,
}

#[derive(Clone, Copy, Debug, PartialEq, Eq, Structural)]
pub struct GetTotalStakedResponse {
    pub total_staked: u128,
}

#[derive(Clone, Copy, Debug, PartialEq, Eq, Structural)]
pub struct GetTotalRewardsResponse {
    pub total_rewards: u128,
}

#[derive(Clone, Copy, Debug, PartialEq, Eq, Structural)]
pub struct GetTotalSupplyResponse {
    pub total_supply: u128,
}

#[derive(Clone, Copy, Debug, PartialEq, Eq, Structural)]
pub struct GetSharePriceResponse {
    pub numerator: U256,
    pub denominator: U256,
}

#[derive(Clone, Copy, Debug, PartialEq, Eq, Structural)]
pub struct GetTotalAssetsResponse {
    pub total_assets: u128,
}

#[derive(Clone, Copy, Debug, PartialEq, Eq, Structural)]
pub struct GetMaxWithdrawResponse {
    pub max_withdraw: u128,
}

#[derive(Clone, Copy, Debug, PartialEq, Eq, Structural)]
pub struct GetClaimableAmountResponse {
    pub claimable_amount: u128,
}

#[derive(Clone, Debug)]
pub struct GetAllocationsResponse {
    pub allocations: Vec<Allocation>,
}

#[derive(Clone, Copy, Debug, PartialEq, Eq, Structural)]
pub struct GetTotalAllocatedResponse {
    pub total_allocated_amount: u128,
    pub total_allocated_share_price_num: U256,
    pub total_allocated_share_price_denom: U256,
}

#[derive(Clone, Copy, Debug, PartialEq, Eq, Structural)]
pub struct GetDistributionAmountsResponse {
    pub inj_amount: u128,
    pub truinj_amount: u128,
    pub distribution_fee: u128,
}

/// The outstanding claims of one user.
#[derive(Clone, Debug)]
pub struct ClaimsResponse {
    pub claims: Vec<ClaimRecord>,
}

// Events, one struct per emitted event name, one field per attribute.

#[derive(Clone, Debug)]
pub struct InstantiatedEvent {
    pub owner: String,
    pub default_validator: String,
    pub treasury: String,
    pub token_name: String,
}

#[derive(Clone, Copy, Debug, PartialEq, Eq, Structural)]
pub struct SetFeeEvent {
    pub old_fee: u16,
    pub new_fee: u16,
}

#[derive(Clone, Copy, Debug, PartialEq, Eq, Structural)]
pub struct SetDistributionFeeEvent {
    pub old_distribution_fee: u16,
    pub new_distribution_fee: u16,
}

#[derive(Clone, Copy, Debug, PartialEq, Eq, Structural)]
pub struct SetMinDepositEvent {
    pub old_min_deposit: u128,
    pub new_min_deposit: u128,
}

#[derive(Clone, Debug)]
pub struct SetTreasuryEvent {
    pub new_treasury_addr: String,
    pub old_treasury_addr: String,
}

#[derive(Clone, Debug)]
pub struct SetDefaultValidatorEvent {
    pub new_default_validator_addr: String,
    pub old_default_validator_addr: String,
}

#[derive(Clone, Debug)]
pub struct SetPendingOwnerEvent {
    pub current_owner: String,
    pub pending_owner: String,
}

#[derive(Clone, Debug)]
pub struct ClaimedOwnershipEvent {
    pub new_owner: String,
    pub old_owner: String,
}

#[derive(Clone, Debug)]
pub struct ValidatorAddedEvent {
    pub validator_address: String,
}

#[derive(Clone, Debug)]
pub struct ValidatorEnabledEvent {
    pub validator_address: String,
}

#[derive(Clone, Debug)]
pub struct ValidatorDisabledEvent {
    pub validator_address: String,
}

#[derive(Clone, Debug)]
pub struct AgentAddedEvent {
    pub new_agent: String,
}

#[derive(Clone, Debug)]
pub struct AgentRemovedEvent {
    pub removed_agent: String,
}

#[derive(Clone, Debug)]
pub struct WhitelistStatusChangedEvent {
    pub user: String,
    pub old_status: UserStatus,
    pub new_status: UserStatus,
}

#[derive(Clone, Debug)]
pub struct DepositedEvent {
    pub user: String,
    pub validator_addr: String,
    pub amount: u128,
    pub contract_rewards: u128,
    pub user_shares_minted: u128,
    pub treasury_shares_minted: u128,
    pub treasury_balance: u128,
    pub total_staked: u128,
    pub total_supply: u128,
    pub share_price_num: U256,
    pub share_price_denom: U256,
    pub user_balance: u128,
}

#[derive(Clone, Debug)]
pub struct UnstakedEvent {
    pub user: String,
    pub amount: u128,
    pub validator_addr: String,
    pub user_balance: u128,
    pub user_shares_burned: u128,
    pub treasury_shares_minted: u128,
    pub treasury_balance: u128,
    pub total_staked: u128,
    pub total_supply: u128,
    pub expires_at: u64,
}

#[derive(Clone, Debug)]
pub struct ClaimedEvent {
    pub user: String,
    pub amount: u128,
}

#[derive(Clone, Debug)]
pub struct AllocationEvent {
    pub user: String,
    pub recipient: String,
    pub amount: u128,
    pub total_amount: u128,
    pub share_price_num: U256,
    pub share_price_denom: U256,
    pub total_allocated_amount: u128,
    pub total_allocated_share_price_num: U256,
    pub total_allocated_share_price_denom: U256,
}

#[derive(Clone, Debug)]
pub struct DistributedRewardsEvent {
    pub user: String,
    pub recipient: String,
    pub user_balance: u128,
    pub recipient_balance: u128,
    pub treasury_balance: u128,
    pub fees: u128,
    pub shares: u128,
    pub inj_amount: u128,
    pub in_inj: bool,
    pub share_price_num: U256,
    pub share_price_denom: U256,
    pub total_allocated_amount: u128,
    pub total_allocated_share_price_num: U256,
    pub total_allocated_share_price_denom: U256,
}

/// What one reconciled allocation produces: the refund left for the
/// distributor, the event to emit, and the base-asset transfer, if any.
#[derive(Clone, Debug)]
pub struct DistributionInfo {
    pub refund_amount: u128,
    pub distribution_event: DistributedRewardsEvent,
    pub inj_transfer: Option<Command>,
}

#[derive(Clone, Debug)]
pub struct DistributedAllEvent {
    pub user: String,
}

#[derive(Clone, Debug)]
pub struct RestakedEvent {
    pub amount: u128,
    pub treasury_shares_minted: u128,
    pub treasury_balance: u128,
}

} // verus!
