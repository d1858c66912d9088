//! The operation handlers of the staker: administration, staking and
//! unstaking, claim settlement, reward allocation, distribution and
//! compounding.
//!
//! Every handler is a pure transition on [`Staker`]: it takes the state,
//! the values the host queried (delegation snapshot, balances, block), and
//! returns the commands and the event to emit, or the error that aborts the
//! message. The delegation snapshot lists the registered validators in
//! registry order, as the host reads them one by one.

use vstd::prelude::*;

use crate::constants::{FEE_PRECISION, ONE_INJ, SHARE_PRICE_SCALING_FACTOR, UNBONDING_PERIOD_SECONDS};
use crate::error::ContractError;
use crate::ledger::TokenLedger;
use crate::math::{
    convert_to_assets, convert_to_shares, internal_share_price, spec_assets_for_shares,
    spec_share_price_denom, spec_share_price_num, spec_shares_for_assets, u256_from_u128,
    SharePrice, U256,
};
use crate::msg::{
    ClaimedEvent, RestakedEvent, ClaimedOwnershipEvent, ClaimsResponse, Command, DepositedEvent,
    GetClaimableAmountResponse, GetIsOwnerResponse, GetMaxWithdrawResponse, GetSharePriceResponse,
    GetStakerInfoResponse, GetTotalAssetsResponse, GetTotalRewardsResponse, GetTotalStakedResponse,
    GetTotalSupplyResponse, GetValidatorResponse, InstantiateMsg, InstantiatedEvent,
    SetDefaultValidatorEvent, SetDistributionFeeEvent, SetFeeEvent, SetMinDepositEvent,
    SetPendingOwnerEvent, SetTreasuryEvent, UnstakedEvent, ValidatorAddedEvent,
    ValidatorDisabledEvent, ValidatorEnabledEvent,
};
use crate::state::{
    claim_view, claims_view, lemma_assoc_none, lemma_assoc_push, lemma_assoc_skip,
    lemma_assoc_update, spec_assoc, spec_total_rewards, spec_total_staked, BlockInfo, ClaimRecord,
    Delegation, Expiration, Staker, StakerInfo, UserStatus, ValidatorInfo, ValidatorState,
};

verus! {

/// Rewards the snapshot reports for one validator; zero when absent.
pub open spec fn spec_delegation_rewards(dels: Seq<Delegation>, v: Seq<char>) -> int
    decreases dels.len(),
{
    if dels.len() == 0 {
        0
    } else if dels[0].validator@ == v {
        dels[0].rewards as int
    } else {
        spec_delegation_rewards(dels.skip(1), v)
    }
}

/// Principal the snapshot reports as delegated to one validator.
pub open spec fn spec_delegation_staked(dels: Seq<Delegation>, v: Seq<char>) -> int
    decreases dels.len(),
{
    if dels.len() == 0 {
        0
    } else if dels[0].validator@ == v {
        dels[0].staked as int
    } else {
        spec_delegation_staked(dels.skip(1), v)
    }
}

/// When no validator in the first `i` snapshot rows matches, both per-validator
/// readings are decided by the rest of the snapshot.
pub proof fn lemma_delegation_skip(dels: Seq<Delegation>, v: Seq<char>, i: int)
    requires
        0 <= i <= dels.len(),
        forall|j: int| 0 <= j < i ==> (#[trigger] dels[j]).validator@ != v,
    ensures
        spec_delegation_rewards(dels, v) == spec_delegation_rewards(dels.skip(i), v),
        spec_delegation_staked(dels, v) == spec_delegation_staked(dels.skip(i), v),
    decreases i,
{
    if i == 0 {
        assert(dels.skip(0) =~= dels);
    } else {
        lemma_delegation_skip(dels.skip(1), v, i - 1);
        assert(dels.skip(1).skip(i - 1) =~= dels.skip(i));
    }
}

/// Fee charged on an amount of rewards, in base-asset units, rounded down.
/// No fee is charged when the fee rate or the rewards are zero.
pub open spec fn spec_fee_amount(rewards: int, fee: int) -> int {
    if fee == 0 || rewards == 0 {
        0
    } else {
        rewards * fee / (FEE_PRECISION as int)
    }
}

impl Staker {
    /// Share price numerator the pool totals and this state imply.
    pub open spec fn spec_price_num(self, dels: Seq<Delegation>) -> int {
        spec_share_price_num(
            spec_total_staked(dels),
            self.contract_rewards as int,
            spec_total_rewards(dels),
            self.ledger.total_supply as int,
            self.staker_info.fee as int,
        )
    }

    /// Share price denominator the pool totals and this state imply.
    pub open spec fn spec_price_denom(self) -> int {
        spec_share_price_denom(self.ledger.total_supply as int)
    }

    /// Checks that the caller is the owner of the contract.
    pub fn check_owner(&self, user_address: &String) -> (r: Result<(), ContractError>)
        ensures
            match r {
                Ok(()) => user_address@ == self.owner@,
                Err(e) => e == ContractError::OnlyOwner && user_address@ != self.owner@,
            },
    {
        if *user_address == self.owner {
            Ok(())
        } else {
            Err(ContractError::OnlyOwner)
        }
    }

    /// Checks that the contract is not paused.
    pub fn check_not_paused(&self) -> (r: Result<(), ContractError>)
        ensures
            match r {
                Ok(()) => !self.is_paused,
                Err(e) => e == ContractError::ContractPaused && self.is_paused,
            },
    {
        if self.is_paused {
            Err(ContractError::ContractPaused)
        } else {
            Ok(())
        }
    }

    /// Finds the registry position of a validator, or its absence.
    fn find_validator_index(&self, validator_addr: &String) -> (r: Option<usize>)
        ensures
            match r {
                Some(i) => i < self.validators@.len() && self.validators@[i as int].0@
                    == validator_addr@ && self.spec_validator_state(validator_addr@) == Some(
                    self.validators@[i as int].1,
                ),
                None => self.spec_validator_state(validator_addr@) is None,
            },
    {
        let n = self.validators.len();
        let mut i: usize = 0;
        while i < n
            invariant
                n == self.validators@.len(),
                0 <= i <= n,
                forall|j: int| 0 <= j < i ==> self.validators@[j].0@ != validator_addr@,
            decreases n - i,
        {
            if self.validators[i].0 == *validator_addr {
                proof {
                    lemma_assoc_skip(self.validators@, validator_addr@, i as int);
                    assert(self.validators@.skip(i as int)[0] == self.validators@[i as int]);
                }
                return Some(i);
            }
            i += 1;
        }
        proof {
            lemma_assoc_skip(self.validators@, validator_addr@, n as int);
        }
        None
    }

    /// Checks that the chosen validator exists and is enabled.
    pub fn check_validator(&self, validator_addr: &String) -> (r: Result<(), ContractError>)
        ensures
            match r {
                Ok(()) => self.spec_validator_state(validator_addr@) == Some(
                    ValidatorState::Enabled,
                ),
                Err(e) => (e == ContractError::ValidatorDoesNotExist && self.spec_validator_state(
                    validator_addr@,
                ) is None) || (e == ContractError::ValidatorNotEnabled && self.spec_validator_state(
                    validator_addr@,
                ) is Some && self.spec_validator_state(validator_addr@) != Some(
                    ValidatorState::Enabled,
                )),
            },
    {
        match self.find_validator_index(validator_addr) {
            None => Err(ContractError::ValidatorDoesNotExist),
            Some(i) => {
                if self.validators[i].1 == ValidatorState::Enabled {
                    Ok(())
                } else {
                    Err(ContractError::ValidatorNotEnabled)
                }
            },
        }
    }

    /// Sets the treasury fee charged on rewards. Owner only; the fee must
    /// stay below the precision denominator.
    pub fn set_fee(&mut self, sender: &String, new_fee: u16) -> (r: Result<
        SetFeeEvent,
        ContractError,
    >)
        requires
            old(self).wf(),
        ensures
            final(self).wf(),
            match r {
                Ok(ev) => sender@ == old(self).owner@ && new_fee < FEE_PRECISION && (*final(self)
                    == (Staker { staker_info: final(self).staker_info, ..(*old(self)) })) && final(self).staker_info == (StakerInfo { fee: new_fee, ..old(self).staker_info }) && ev == (
                SetFeeEvent { old_fee: old(self).staker_info.fee, new_fee }),
                Err(e) => *final(self) == *old(self) && ((e == ContractError::OnlyOwner && sender@
                    != old(self).owner@) || (e == ContractError::FeeTooLarge && sender@ == old(self).owner@ && new_fee >= FEE_PRECISION)),
            },
    {
        if let Err(e) = self.check_owner(sender) {
            return Err(e);
        }
        if !(new_fee < FEE_PRECISION) {
            return Err(ContractError::FeeTooLarge);
        }
        let old_fee = self.staker_info.fee;
        self.staker_info.fee = new_fee;
        Ok(SetFeeEvent { old_fee, new_fee })
    }

    /// Sets the treasury fee charged on rewards distribution. Owner only;
    /// the fee must stay below the precision denominator.
    pub fn set_distribution_fee(&mut self, sender: &String, new_distribution_fee: u16) -> (r:
        Result<SetDistributionFeeEvent, ContractError>)
        requires
            old(self).wf(),
        ensures
            final(self).wf(),
            match r {
                Ok(ev) => sender@ == old(self).owner@ && new_distribution_fee < FEE_PRECISION && (
                *final(self) == (Staker { staker_info: final(self).staker_info, ..(*old(self)) }))
                    && final(self).staker_info == (StakerInfo {
                    distribution_fee: new_distribution_fee,
                    ..old(self).staker_info
                }) && ev == (SetDistributionFeeEvent {
                    old_distribution_fee: old(self).staker_info.distribution_fee,
                    new_distribution_fee,
                }),
                Err(e) => *final(self) == *old(self) && ((e == ContractError::OnlyOwner && sender@
                    != old(self).owner@) || (e == ContractError::FeeTooLarge && sender@ == old(self).owner@ && new_distribution_fee >= FEE_PRECISION)),
            },
    {
        if let Err(e) = self.check_owner(sender) {
            return Err(e);
        }
        if !(new_distribution_fee < FEE_PRECISION) {
            return Err(ContractError::FeeTooLarge);
        }
        let old_distribution_fee = self.staker_info.distribution_fee;
        self.staker_info.distribution_fee = new_distribution_fee;
        Ok(SetDistributionFeeEvent { old_distribution_fee, new_distribution_fee })
    }

    /// Sets the minimum base-asset amount a user can deposit. Owner only;
    /// the minimum cannot drop below one whole unit.
    pub fn set_min_deposit(&mut self, sender: &String, new_min_deposit: u128) -> (r: Result<
        SetMinDepositEvent,
        ContractError,
    >)
        requires
            old(self).wf(),
        ensures
            final(self).wf(),
            match r {
                Ok(ev) => sender@ == old(self).owner@ && new_min_deposit >= ONE_INJ && (*final(self)
                    == (Staker { staker_info: final(self).staker_info, ..(*old(self)) })) && final(self).staker_info == (StakerInfo { min_deposit: new_min_deposit, ..old(self).staker_info }) && ev == (SetMinDepositEvent {
                    old_min_deposit: old(self).staker_info.min_deposit,
                    new_min_deposit,
                }),
                Err(e) => *final(self) == *old(self) && ((e == ContractError::OnlyOwner && sender@
                    != old(self).owner@) || (e == ContractError::MinimumDepositTooSmall && sender@
                    == old(self).owner@ && new_min_deposit < ONE_INJ)),
            },
    {
        if let Err(e) = self.check_owner(sender) {
            return Err(e);
        }
        if !(new_min_deposit >= ONE_INJ) {
            return Err(ContractError::MinimumDepositTooSmall);
        }
        let old_min_deposit = self.staker_info.min_deposit;
        self.staker_info.min_deposit = new_min_deposit;
        Ok(SetMinDepositEvent { old_min_deposit, new_min_deposit })
    }

    /// Sets the treasury address. Owner only.
    pub fn set_treasury(&mut self, sender: &String, new_treasury: &String) -> (r: Result<
        SetTreasuryEvent,
        ContractError,
    >)
        requires
            old(self).wf(),
        ensures
            final(self).wf(),
            match r {
                Ok(ev) => sender@ == old(self).owner@ && (*final(self) == (Staker {
                    staker_info: final(self).staker_info,
                    ..(*old(self))
                })) && final(self).staker_info == (StakerInfo {
                    treasury: final(self).staker_info.treasury,
                    ..old(self).staker_info
                }) && final(self).staker_info.treasury@ == new_treasury@ && ev.new_treasury_addr@
                    == new_treasury@ && ev.old_treasury_addr@ == old(self).staker_info.treasury@,
                Err(e) => *final(self) == *old(self) && e == ContractError::OnlyOwner && sender@
                    != old(self).owner@,
            },
    {
        if let Err(e) = self.check_owner(sender) {
            return Err(e);
        }
        let old_treasury = self.staker_info.treasury.clone();
        self.staker_info.treasury = new_treasury.clone();
        Ok(
            SetTreasuryEvent {
                new_treasury_addr: new_treasury.clone(),
                old_treasury_addr: old_treasury,
            },
        )
    }

    /// Sets a given validator as the new default validator. Owner only; the
    /// validator must be registered and enabled.
    pub fn set_default_validator(&mut self, sender: &String, new_default_validator_addr: &String)
        -> (r: Result<SetDefaultValidatorEvent, ContractError>)
        requires
            old(self).wf(),
        ensures
            final(self).wf(),
            match r {
                Ok(ev) => sender@ == old(self).owner@ && old(self).spec_validator_state(
                    new_default_validator_addr@,
                ) == Some(ValidatorState::Enabled) && (*final(self) == (Staker {
                    default_validator: final(self).default_validator,
                    ..(*old(self))
                })) && final(self).default_validator@ == new_default_validator_addr@
                    && ev.new_default_validator_addr@ == new_default_validator_addr@
                    && ev.old_default_validator_addr@ == old(self).default_validator@,
                Err(e) => *final(self) == *old(self) && ((e == ContractError::OnlyOwner && sender@
                    != old(self).owner@) || (sender@ == old(self).owner@ && ((e
                    == ContractError::ValidatorDoesNotExist && old(self).spec_validator_state(
                    new_default_validator_addr@,
                ) is None) || (e == ContractError::ValidatorNotEnabled && old(self).spec_validator_state(new_default_validator_addr@) is Some && old(self).spec_validator_state(new_default_validator_addr@) != Some(
                    ValidatorState::Enabled,
                ))))),
            },
    {
        if let Err(e) = self.check_owner(sender) {
            return Err(e);
        }
        if let Err(e) = self.check_validator(new_default_validator_addr) {
            return Err(e);
        }
        let old_default = self.default_validator.clone();
        self.default_validator = new_default_validator_addr.clone();
        Ok(
            SetDefaultValidatorEvent {
                new_default_validator_addr: new_default_validator_addr.clone(),
                old_default_validator_addr: old_default,
            },
        )
    }

    /// Sets a pending owner. The pending owner has no contract privileges
    /// until it claims ownership. Owner only.
    pub fn set_pending_owner(&mut self, sender: &String, new_owner: &String) -> (r: Result<
        SetPendingOwnerEvent,
        ContractError,
    >)
        requires
            old(self).wf(),
        ensures
            final(self).wf(),
            match r {
                Ok(ev) => sender@ == old(self).owner@ && (*final(self) == (Staker {
                    pending_owner: final(self).pending_owner,
                    ..(*old(self))
                })) && final(self).pending_owner is Some && final(self).pending_owner.unwrap()@ == new_owner@ && ev.current_owner@ == sender@
                    && ev.pending_owner@ == new_owner@,
                Err(e) => *final(self) == *old(self) && e == ContractError::OnlyOwner && sender@
                    != old(self).owner@,
            },
    {
        if let Err(e) = self.check_owner(sender) {
            return Err(e);
        }
        self.pending_owner = Some(new_owner.clone());
        Ok(SetPendingOwnerEvent { current_owner: sender.clone(), pending_owner: new_owner.clone() })
    }

    /// Allows the pending owner to claim ownership of the contract.
    pub fn claim_ownership(&mut self, sender: &String) -> (r: Result<
        ClaimedOwnershipEvent,
        ContractError,
    >)
        requires
            old(self).wf(),
        ensures
            final(self).wf(),
            match r {
                Ok(ev) => old(self).pending_owner is Some && old(self).pending_owner.unwrap()@ == sender@ && (*final(self) == (Staker {
                    owner: final(self).owner,
                    pending_owner: None,
                    ..(*old(self))
                })) && final(self).owner@ == sender@ && ev.new_owner@ == sender@ && ev.old_owner@
                    == old(self).owner@,
                Err(e) => *final(self) == *old(self) && ((e == ContractError::NoPendingOwnerSet
                    && old(self).pending_owner is None) || (e == ContractError::NotPendingOwner
                    && old(self).pending_owner is Some && old(self).pending_owner.unwrap()@
                    != sender@)),
            },
    {
        let pending = match &self.pending_owner {
            None => {
                return Err(ContractError::NoPendingOwnerSet);
            },
            Some(p) => p.clone(),
        };
        if *sender != pending {
            return Err(ContractError::NotPendingOwner);
        }
        let old_owner = self.owner.clone();
        self.owner = sender.clone();
        self.pending_owner = None;
        Ok(ClaimedOwnershipEvent { new_owner: sender.clone(), old_owner })
    }

    /// Adds a new validator that can be staked to. Owner only; the address
    /// must not be registered yet and must exist in the backend's validator
    /// set.
    pub fn add_validator(
        &mut self,
        sender: &String,
        validator_addr: &String,
        validator_set: &Vec<String>,
    ) -> (r: Result<ValidatorAddedEvent, ContractError>)
        requires
            old(self).wf(),
        ensures
            final(self).wf(),
            match r {
                Ok(ev) => sender@ == old(self).owner@ && old(self).spec_validator_state(
                    validator_addr@,
                ) is None && (exists|i: int|
                    0 <= i < validator_set@.len() && validator_set@[i]@ == validator_addr@) && (
                *final(self) == (Staker { validators: final(self).validators, ..(*old(self)) }))
                    && final(self).validators@ == old(self).validators@.push(
                    (final(self).validators@.last().0, ValidatorState::Enabled),
                ) && final(self).validators@.last().0@ == validator_addr@ && final(self).spec_validator_state(validator_addr@) == Some(ValidatorState::Enabled) && (forall|
                    v: Seq<char>,
                |
                    v != validator_addr@ ==> final(self).spec_validator_state(v) == old(self).spec_validator_state(v)) && ev.validator_address@ == validator_addr@,
                Err(e) => *final(self) == *old(self) && ((e == ContractError::OnlyOwner && sender@
                    != old(self).owner@) || (e == ContractError::ValidatorAlreadyExists && sender@
                    == old(self).owner@ && old(self).spec_validator_state(validator_addr@) is Some)
                    || (e == ContractError::NotInValidatorSet && sender@ == old(self).owner@ && old(self).spec_validator_state(validator_addr@) is None && !(exists|i: int|
                    0 <= i < validator_set@.len() && validator_set@[i]@ == validator_addr@))),
            },
    {
        if let Err(e) = self.check_owner(sender) {
            return Err(e);
        }
        if let Some(i) = self.find_validator_index(validator_addr) {
            return Err(ContractError::ValidatorAlreadyExists);
        }
        if !contains_addr(validator_set, validator_addr) {
            return Err(ContractError::NotInValidatorSet);
        }
        let ghost s0 = self.validators@;
        let entry = (validator_addr.clone(), ValidatorState::Enabled);
        let ghost v = entry;
        self.validators.push(entry);
        proof {
            lemma_assoc_push(s0, v, validator_addr@);
            lemma_assoc_none(s0, validator_addr@);
            assert forall|a: Seq<char>| a != validator_addr@ implies spec_assoc(self.validators@, a)
                == spec_assoc(s0, a) by {
                lemma_assoc_push(s0, v, a);
            }
            lemma_assoc_push(s0, v, old(self).default_validator@);
            assert forall|x: int, y: int|
                0 <= x < y < self.validators@.len() implies self.validators@[x].0@
                != self.validators@[y].0@ by {
                if y < s0.len() {
                } else {
                    assert(self.validators@[y].0@ == validator_addr@);
                    assert(self.validators@[x].0@ == s0[x].0@);
                }
            }
        }
        Ok(ValidatorAddedEvent { validator_address: validator_addr.clone() })
    }

    /// Stores a new registry state for a registered validator.
    fn store_validator_state(&mut self, i: usize, st: ValidatorState)
        requires
            old(self).wf(),
            i < old(self).validators@.len(),
        ensures
            final(self).wf(),
            *final(self) == (Staker { validators: final(self).validators, ..(*old(self)) }),
            final(self).spec_validator_state(old(self).validators@[i as int].0@) == Some(st),
            forall|v: Seq<char>|
                v != old(self).validators@[i as int].0@ ==> final(self).spec_validator_state(v)
                    == old(self).spec_validator_state(v),
            final(self).validators@ == old(self).validators@.update(
                i as int,
                (old(self).validators@[i as int].0, st),
            ),
    {
        let ghost s0 = self.validators@;
        let key = self.validators[i].0.clone();
        self.validators[i] = (key, st);
        proof {
            let v = self.validators@[i as int];
            assert(self.validators@ =~= s0.update(i as int, v));
            assert(v.0@ == s0[i as int].0@ && v.1 == st);
            assert(self.validators@ == s0.update(i as int, (s0[i as int].0, st))) by {
                assert(v.0 == s0[i as int].0);
            }
            lemma_assoc_update(s0, i as int, v, s0[i as int].0@);
            assert forall|a: Seq<char>| a != s0[i as int].0@ implies spec_assoc(self.validators@, a)
                == spec_assoc(s0, a) by {
                lemma_assoc_update(s0, i as int, v, a);
            }
            assert forall|x: int, y: int|
                0 <= x < y < self.validators@.len() implies self.validators@[x].0@
                != self.validators@[y].0@ by {
                assert(self.validators@[x].0@ == s0[x].0@);
                assert(self.validators@[y].0@ == s0[y].0@);
            }
        }
    }

    /// Enables a previously disabled validator. Owner only.
    pub fn enable_validator(&mut self, sender: &String, validator_addr: &String) -> (r: Result<
        ValidatorEnabledEvent,
        ContractError,
    >)
        requires
            old(self).wf(),
        ensures
            final(self).wf(),
            match r {
                Ok(ev) => sender@ == old(self).owner@ && old(self).spec_validator_state(
                    validator_addr@,
                ) is Some && old(self).spec_validator_state(validator_addr@) != Some(
                    ValidatorState::Enabled,
                ) && (*final(self) == (Staker { validators: final(self).validators, ..(*old(self)) }))
                    && final(self).spec_validator_state(validator_addr@) == Some(
                    ValidatorState::Enabled,
                ) && (forall|v: Seq<char>|
                    v != validator_addr@ ==> final(self).spec_validator_state(v) == old(self).spec_validator_state(v)) && ev.validator_address@ == validator_addr@,
                Err(e) => *final(self) == *old(self) && ((e == ContractError::OnlyOwner && sender@
                    != old(self).owner@) || (sender@ == old(self).owner@ && ((e
                    == ContractError::ValidatorDoesNotExist && old(self).spec_validator_state(
                    validator_addr@,
                ) is None) || (e == ContractError::ValidatorAlreadyEnabled && old(self).spec_validator_state(validator_addr@) == Some(ValidatorState::Enabled))))),
            },
    {
        if let Err(e) = self.check_owner(sender) {
            return Err(e);
        }
        match self.find_validator_index(validator_addr) {
            None => Err(ContractError::ValidatorDoesNotExist),
            Some(i) => {
                if self.validators[i].1 == ValidatorState::Enabled {
                    return Err(ContractError::ValidatorAlreadyEnabled);
                }
                self.store_validator_state(i, ValidatorState::Enabled);
                Ok(ValidatorEnabledEvent { validator_address: validator_addr.clone() })
            },
        }
    }

    /// Disables a previously enabled validator. Disabled validators cannot
    /// be staked to, but stake already on them can still be unstaked. Owner
    /// only.
    pub fn disable_validator(&mut self, sender: &String, validator_addr: &String) -> (r: Result<
        ValidatorDisabledEvent,
        ContractError,
    >)
        requires
            old(self).wf(),
        ensures
            final(self).wf(),
            match r {
                Ok(ev) => sender@ == old(self).owner@ && old(self).spec_validator_state(
                    validator_addr@,
                ) is Some && old(self).spec_validator_state(validator_addr@) != Some(
                    ValidatorState::Disabled,
                ) && (*final(self) == (Staker { validators: final(self).validators, ..(*old(self)) }))
                    && final(self).spec_validator_state(validator_addr@) == Some(
                    ValidatorState::Disabled,
                ) && (forall|v: Seq<char>|
                    v != validator_addr@ ==> final(self).spec_validator_state(v) == old(self).spec_validator_state(v)) && ev.validator_address@ == validator_addr@,
                Err(e) => *final(self) == *old(self) && ((e == ContractError::OnlyOwner && sender@
                    != old(self).owner@) || (sender@ == old(self).owner@ && ((e
                    == ContractError::ValidatorDoesNotExist && old(self).spec_validator_state(
                    validator_addr@,
                ) is None) || (e == ContractError::ValidatorAlreadyDisabled && old(self).spec_validator_state(validator_addr@) == Some(ValidatorState::Disabled))))),
            },
    {
        if let Err(e) = self.check_owner(sender) {
            return Err(e);
        }
        match self.find_validator_index(validator_addr) {
            None => Err(ContractError::ValidatorDoesNotExist),
            Some(i) => {
                if self.validators[i].1 == ValidatorState::Disabled {
                    return Err(ContractError::ValidatorAlreadyDisabled);
                }
                self.store_validator_state(i, ValidatorState::Disabled);
                Ok(ValidatorDisabledEvent { validator_address: validator_addr.clone() })
            },
        }
    }

    /// Pauses the contract to prevent user operations. Owner only; the
    /// contract must not already be paused.
    pub fn pause(&mut self, sender: &String) -> (r: Result<(), ContractError>)
        requires
            old(self).wf(),
        ensures
            final(self).wf(),
            match r {
                Ok(()) => sender@ == old(self).owner@ && !old(self).is_paused && (*final(self) == (
                Staker { is_paused: true, ..(*old(self)) })),
                Err(e) => *final(self) == *old(self) && ((e == ContractError::OnlyOwner && sender@
                    != old(self).owner@) || (e == ContractError::ContractPaused && sender@ == old(self).owner@ && old(self).is_paused)),
            },
    {
        if let Err(e) = self.check_owner(sender) {
            return Err(e);
        }
        if let Err(e) = self.check_not_paused() {
            return Err(e);
        }
        self.is_paused = true;
        Ok(())
    }

    /// Unpauses the contract to allow user operations. Owner only; the
    /// contract must currently be paused.
    pub fn unpause(&mut self, sender: &String) -> (r: Result<(), ContractError>)
        requires
            old(self).wf(),
        ensures
            final(self).wf(),
            match r {
                Ok(()) => sender@ == old(self).owner@ && old(self).is_paused && (*final(self) == (
                Staker { is_paused: false, ..(*old(self)) })),
                Err(e) => *final(self) == *old(self) && ((e == ContractError::OnlyOwner && sender@
                    != old(self).owner@) || (e == ContractError::NotPaused && sender@ == old(self).owner@ && !old(self).is_paused)),
            },
    {
        if let Err(e) = self.check_owner(sender) {
            return Err(e);
        }
        if !self.is_paused {
            return Err(ContractError::NotPaused);
        }
        self.is_paused = false;
        Ok(())
    }
}

/// Whether the backend's validator set contains an address.
fn contains_addr(validator_set: &Vec<String>, addr: &String) -> (r: bool)
    ensures
        r == exists|i: int| 0 <= i < validator_set@.len() && validator_set@[i]@ == addr@,
{
    let n = validator_set.len();
    let mut i: usize = 0;
    while i < n
        invariant
            n == validator_set@.len(),
            0 <= i <= n,
            forall|j: int| 0 <= j < i ==> validator_set@[j]@ != addr@,
        decreases n - i,
    {
        if validator_set[i] == *addr {
            return true;
        }
        i += 1;
    }
    false
}

/// Creates the initial contract state: no fees, the minimum deposit at one
/// whole unit, the given default validator registered and enabled, an empty
/// receipt ledger and no idle rewards. The default validator must exist in
/// the backend's validator set.
pub fn instantiate(msg: &InstantiateMsg, validator_set: &Vec<String>) -> (r: Result<
    (Staker, InstantiatedEvent),
    ContractError,
>)
    ensures
        match r {
            Ok((staker, ev)) => (exists|i: int|
                0 <= i < validator_set@.len() && validator_set@[i]@ == msg.default_validator@)
                && staker.wf() && staker.owner@ == msg.owner@ && staker.pending_owner is None
                && staker.staker_info.treasury@ == msg.treasury@ && staker.staker_info.fee == 0
                && staker.staker_info.distribution_fee == 0 && staker.staker_info.min_deposit
                == ONE_INJ && staker.default_validator@ == msg.default_validator@
                && staker.validators@.len() == 1 && staker.validators@[0].0@
                == msg.default_validator@ && staker.validators@[0].1 == ValidatorState::Enabled
                && !staker.is_paused && staker.contract_rewards == 0 && staker.claims@.len() == 0
                && staker.allocations@.len() == 0 && staker.agents@.len() == 0
                && staker.whitelist_users@.len() == 0 && staker.ledger.total_supply == 0 && (forall|
                a: Seq<char>,
            | staker.spec_balance(a) == 0) && ev.owner@ == msg.owner@ && ev.default_validator@
                == msg.default_validator@ && ev.treasury@ == msg.treasury@ && ev.token_name@
                == "TruINJ"@,
            Err(e) => e == ContractError::NotInValidatorSet && !(exists|i: int|
                0 <= i < validator_set@.len() && validator_set@[i]@ == msg.default_validator@),
        },
{
    if !contains_addr(validator_set, &msg.default_validator) {
        return Err(ContractError::NotInValidatorSet);
    }
    let mut validators: Vec<(String, ValidatorState)> = Vec::new();
    validators.push((msg.default_validator.clone(), ValidatorState::Enabled));
    let staker = Staker {
        staker_info: StakerInfo {
            treasury: msg.treasury.clone(),
            fee: 0,
            min_deposit: ONE_INJ,
            distribution_fee: 0,
        },
        owner: msg.owner.clone(),
        pending_owner: None,
        default_validator: msg.default_validator.clone(),
        validators,
        is_paused: false,
        contract_rewards: 0,
        claims: Vec::new(),
        allocations: Vec::new(),
        ledger: TokenLedger::new(),
        agents: Vec::new(),
        whitelist_users: Vec::new(),
    };
    proof {
        assert(staker.validators@[0].0@ == msg.default_validator@);
        assert(staker.spec_validator_state(staker.default_validator@) is Some);
    }
    let ev = InstantiatedEvent {
        owner: msg.owner.clone(),
        default_validator: msg.default_validator.clone(),
        treasury: msg.treasury.clone(),
        token_name: new_token_name(),
    };
    Ok((staker, ev))
}

/// The receipt token's display name.
fn new_token_name() -> (r: String)
    ensures
        r@ == "TruINJ"@,
{
    let s = "TruINJ";
    s.to_owned()
}

/// Neither total of a delegation snapshot is negative.
pub proof fn lemma_totals_nonneg(dels: Seq<Delegation>)
    ensures
        spec_total_staked(dels) >= 0,
        spec_total_rewards(dels) >= 0,
    decreases dels.len(),
{
    if dels.len() > 0 {
        lemma_totals_nonneg(dels.skip(1));
    }
}

/// Sums the staked and reward amounts over all delegations of the snapshot.
pub fn get_total_staked_and_rewards(dels: &Vec<Delegation>) -> (r: (u128, u128))
    requires
        spec_total_staked(dels@) <= u128::MAX,
        spec_total_rewards(dels@) <= u128::MAX,
    ensures
        r.0 as int == spec_total_staked(dels@),
        r.1 as int == spec_total_rewards(dels@),
{
    let n = dels.len();
    let mut total_staked: u128 = 0;
    let mut total_rewards: u128 = 0;
    let mut i: usize = 0;
    proof {
        assert(dels@.skip(0) =~= dels@);
    }
    while i < n
        invariant
            n == dels@.len(),
            0 <= i <= n,
            spec_total_staked(dels@) == total_staked as int + spec_total_staked(dels@.skip(i as int)),
            spec_total_rewards(dels@) == total_rewards as int + spec_total_rewards(
                dels@.skip(i as int),
            ),
            spec_total_staked(dels@) <= u128::MAX,
            spec_total_rewards(dels@) <= u128::MAX,
        decreases n - i,
    {
        proof {
            assert(dels@.skip(i as int)[0] == dels@[i as int]);
            assert(dels@.skip(i as int).skip(1) =~= dels@.skip(i as int + 1));
            lemma_totals_nonneg(dels@.skip(i as int + 1));
        }
        total_staked = total_staked + dels[i].staked;
        total_rewards = total_rewards + dels[i].rewards;
        i += 1;
    }
    proof {
        assert(dels@.skip(n as int) =~= Seq::<Delegation>::empty());
    }
    (total_staked, total_rewards)
}

/// Reads the snapshot row of one validator: its staked principal and its
/// accrued rewards, both zero when the snapshot has no row for it.
pub fn find_delegation(dels: &Vec<Delegation>, validator_addr: &String) -> (r: (u128, u128))
    ensures
        r.0 as int == spec_delegation_staked(dels@, validator_addr@),
        r.1 as int == spec_delegation_rewards(dels@, validator_addr@),
{
    let n = dels.len();
    let mut i: usize = 0;
    while i < n
        invariant
            n == dels@.len(),
            0 <= i <= n,
            forall|j: int| 0 <= j < i ==> (#[trigger] dels@[j]).validator@ != validator_addr@,
        decreases n - i,
    {
        if dels[i].validator == *validator_addr {
            proof {
                lemma_delegation_skip(dels@, validator_addr@, i as int);
                assert(dels@.skip(i as int)[0] == dels@[i as int]);
            }
            return (dels[i].staked, dels[i].rewards);
        }
        i += 1;
    }
    proof {
        lemma_delegation_skip(dels@, validator_addr@, n as int);
        assert(dels@.skip(n as int) =~= Seq::<Delegation>::empty());
    }
    (0, 0)
}

/// Claims of one user that have matured at the given block.
pub open spec fn spec_claimable(s: Seq<ClaimRecord>, u: Seq<char>, block: BlockInfo) -> int
    decreases s.len(),
{
    if s.len() == 0 {
        0
    } else {
        (if s[0].user@ == u && s[0].release_at.spec_is_expired(block) {
            s[0].amount as int
        } else {
            0
        }) + spec_claimable(s.skip(1), u, block)
    }
}

/// The claim records left after one user sweeps every matured claim.
pub open spec fn spec_remaining_claims(s: Seq<ClaimRecord>, u: Seq<char>, block: BlockInfo) -> Seq<
    ClaimRecord,
>
    decreases s.len(),
{
    if s.len() == 0 {
        Seq::empty()
    } else if s[0].user@ == u && s[0].release_at.spec_is_expired(block) {
        spec_remaining_claims(s.skip(1), u, block)
    } else {
        seq![s[0]] + spec_remaining_claims(s.skip(1), u, block)
    }
}

/// The claim records of one user, as view tuples, in creation order.
pub open spec fn spec_user_claims(s: Seq<ClaimRecord>, u: Seq<char>) -> Seq<
    (Seq<char>, u128, Expiration),
>
    decreases s.len(),
{
    if s.len() == 0 {
        Seq::empty()
    } else if s[0].user@ == u {
        seq![claim_view(s[0])] + spec_user_claims(s.skip(1), u)
    } else {
        spec_user_claims(s.skip(1), u)
    }
}

/// The matured total never goes negative.
pub proof fn lemma_claimable_nonneg(s: Seq<ClaimRecord>, u: Seq<char>, block: BlockInfo)
    ensures
        spec_claimable(s, u, block) >= 0,
    decreases s.len(),
{
    if s.len() > 0 {
        lemma_claimable_nonneg(s.skip(1), u, block);
    }
}

impl Staker {
    /// Returns the current receipt-share price implied by the snapshot and
    /// the state.
    pub fn get_share_price(&self, dels: &Vec<Delegation>) -> (r: GetSharePriceResponse)
        requires
            self.wf(),
            spec_total_staked(dels@) <= u128::MAX,
            spec_total_rewards(dels@) <= u128::MAX,
            self.ledger.total_supply != 0 ==> spec_total_staked(dels@) + self.contract_rewards
                <= u128::MAX,
        ensures
            r.numerator.val() == self.spec_price_num(dels@),
            r.denominator.val() == self.spec_price_denom(),
            r.denominator.val() > 0,
    {
        let (total_staked, total_rewards) = get_total_staked_and_rewards(dels);
        let price = internal_share_price(
            total_staked,
            self.contract_rewards,
            total_rewards,
            self.ledger.total_supply,
            self.staker_info.fee,
        );
        GetSharePriceResponse { numerator: price.num, denominator: price.denom }
    }

    /// Returns the total base-asset amount staked across all validators.
    pub fn get_total_staked(&self, dels: &Vec<Delegation>) -> (r: GetTotalStakedResponse)
        requires
            spec_total_staked(dels@) <= u128::MAX,
            spec_total_rewards(dels@) <= u128::MAX,
        ensures
            r.total_staked as int == spec_total_staked(dels@),
    {
        let (total_staked, _) = get_total_staked_and_rewards(dels);
        GetTotalStakedResponse { total_staked }
    }

    /// Returns the total accrued rewards across all validators.
    pub fn get_total_rewards(&self, dels: &Vec<Delegation>) -> (r: GetTotalRewardsResponse)
        requires
            spec_total_staked(dels@) <= u128::MAX,
            spec_total_rewards(dels@) <= u128::MAX,
        ensures
            r.total_rewards as int == spec_total_rewards(dels@),
    {
        let (_, total_rewards) = get_total_staked_and_rewards(dels);
        GetTotalRewardsResponse { total_rewards }
    }

    /// Returns the receipt token's total supply.
    pub fn get_total_supply(&self) -> (r: GetTotalSupplyResponse)
        ensures
            r.total_supply == self.ledger.total_supply,
    {
        GetTotalSupplyResponse { total_supply: self.ledger.total_supply }
    }

    /// Returns the base-asset amount held idle by the contract, as the host
    /// reports it.
    pub fn get_total_assets(&self, contract_balance: u128) -> (r: GetTotalAssetsResponse)
        ensures
            r.total_assets == contract_balance,
    {
        GetTotalAssetsResponse { total_assets: contract_balance }
    }

    /// Returns the settings of the staker.
    pub fn get_staker_info(&self) -> (r: GetStakerInfoResponse)
        ensures
            r.owner@ == self.owner@,
            r.default_validator@ == self.default_validator@,
            r.treasury@ == self.staker_info.treasury@,
            r.fee == self.staker_info.fee,
            r.distribution_fee == self.staker_info.distribution_fee,
            r.min_deposit == self.staker_info.min_deposit,
            r.is_paused == self.is_paused,
    {
        GetStakerInfoResponse {
            owner: self.owner.clone(),
            default_validator: self.default_validator.clone(),
            treasury: self.staker_info.treasury.clone(),
            fee: self.staker_info.fee,
            distribution_fee: self.staker_info.distribution_fee,
            min_deposit: self.staker_info.min_deposit,
            is_paused: self.is_paused,
        }
    }

    /// Returns whether an address is the owner.
    pub fn is_owner(&self, addr: &String) -> (r: GetIsOwnerResponse)
        ensures
            r.is_owner == (addr@ == self.owner@),
    {
        GetIsOwnerResponse { is_owner: *addr == self.owner }
    }

    /// Returns every registered validator with its registry state and the
    /// principal the snapshot reports for it.
    pub fn get_validators(&self, dels: &Vec<Delegation>) -> (r: GetValidatorResponse)
        requires
            self.delegations_match(dels@),
        ensures
            r.validators@.len() == self.validators@.len(),
            forall|i: int|
                0 <= i < r.validators@.len() ==> (#[trigger] r.validators@[i]).addr@
                    == self.validators@[i].0@ && r.validators@[i].state == self.validators@[i].1
                    && r.validators@[i].total_staked == dels@[i].staked,
    {
        let n = self.validators.len();
        let mut out: Vec<ValidatorInfo> = Vec::new();
        let mut i: usize = 0;
        while i < n
            invariant
                n == self.validators@.len(),
                self.delegations_match(dels@),
                0 <= i <= n,
                out@.len() == i,
                forall|j: int|
                    0 <= j < i ==> (#[trigger] out@[j]).addr@ == self.validators@[j].0@
                        && out@[j].state == self.validators@[j].1 && out@[j].total_staked
                        == dels@[j].staked,
            decreases n - i,
        {
            out.push(
                ValidatorInfo {
                    total_staked: dels[i].staked,
                    state: self.validators[i].1,
                    addr: self.validators[i].0.clone(),
                },
            );
            i += 1;
        }
        GetValidatorResponse { validators: out }
    }

    /// Returns the maximum base-asset amount the user could withdraw now:
    /// the value of their shares at the current price, rounded up.
    pub fn get_max_withdraw(&self, dels: &Vec<Delegation>, user: &String) -> (r:
        GetMaxWithdrawResponse)
        requires
            self.wf(),
            spec_total_staked(dels@) <= u128::MAX,
            spec_total_rewards(dels@) <= u128::MAX,
            self.ledger.total_supply != 0 ==> spec_total_staked(dels@) + self.contract_rewards
                <= u128::MAX,
            spec_assets_for_shares(
                self.spec_balance(user@),
                self.spec_price_num(dels@),
                self.spec_price_denom(),
                true,
            ) <= u128::MAX,
        ensures
            r.max_withdraw as int == spec_assets_for_shares(
                self.spec_balance(user@),
                self.spec_price_num(dels@),
                self.spec_price_denom(),
                true,
            ),
    {
        let shares = self.ledger.balance_of(user);
        let price = self.get_share_price(dels);
        let assets = convert_to_assets(shares, &price.numerator, &price.denominator, true);
        match assets {
            Ok(v) => GetMaxWithdrawResponse { max_withdraw: v },
            Err(_) => {
                proof {
                    assert(false);
                }
                GetMaxWithdrawResponse { max_withdraw: 0 }
            },
        }
    }

    /// Returns the total base-asset amount a user can claim now from their
    /// matured withdrawal requests.
    pub fn get_claimable_amount(&self, user: &String, block: &BlockInfo) -> (r:
        GetClaimableAmountResponse)
        requires
            spec_claimable(self.claims@, user@, *block) <= u128::MAX,
        ensures
            r.claimable_amount as int == spec_claimable(self.claims@, user@, *block),
    {
        let n = self.claims.len();
        let mut acc: u128 = 0;
        let mut i: usize = 0;
        proof {
            assert(self.claims@.skip(0) =~= self.claims@);
        }
        while i < n
            invariant
                n == self.claims@.len(),
                0 <= i <= n,
                spec_claimable(self.claims@, user@, *block) == acc as int + spec_claimable(
                    self.claims@.skip(i as int),
                    user@,
                    *block,
                ),
                spec_claimable(self.claims@, user@, *block) <= u128::MAX,
            decreases n - i,
        {
            proof {
                assert(self.claims@.skip(i as int)[0] == self.claims@[i as int]);
                assert(self.claims@.skip(i as int).skip(1) =~= self.claims@.skip(i as int + 1));
                lemma_claimable_nonneg(self.claims@.skip(i as int + 1), user@, *block);
            }
            let c = &self.claims[i];
            if c.user == *user && c.release_at.is_expired(block) {
                acc = acc + c.amount;
            }
            i += 1;
        }
        proof {
            assert(self.claims@.skip(n as int) =~= Seq::<ClaimRecord>::empty());
        }
        GetClaimableAmountResponse { claimable_amount: acc }
    }

    /// Returns the list of outstanding claims of a user, matured or not, in
    /// the order they were created.
    pub fn get_claimable_assets(&self, user: &String) -> (r: ClaimsResponse)
        ensures
            claims_view(r.claims@) == spec_user_claims(self.claims@, user@),
    {
        let n = self.claims.len();
        let mut out: Vec<ClaimRecord> = Vec::new();
        let mut i: usize = 0;
        proof {
            assert(self.claims@.skip(0) =~= self.claims@);
            assert(claims_view(out@) =~= Seq::<(Seq<char>, u128, Expiration)>::empty());
        }
        while i < n
            invariant
                n == self.claims@.len(),
                0 <= i <= n,
                spec_user_claims(self.claims@, user@) =~= claims_view(out@) + spec_user_claims(
                    self.claims@.skip(i as int),
                    user@,
                ),
            decreases n - i,
        {
            proof {
                assert(self.claims@.skip(i as int)[0] == self.claims@[i as int]);
                assert(self.claims@.skip(i as int).skip(1) =~= self.claims@.skip(i as int + 1));
            }
            let c = &self.claims[i];
            let ghost out0 = out@;
            if c.user == *user {
                out.push(c.clone());
                proof {
                    assert(claims_view(out@) =~= claims_view(out0) + seq![
                        claim_view(self.claims@[i as int]),
                    ]);
                    assert(claims_view(out0) + (seq![claim_view(self.claims@[i as int])]
                        + spec_user_claims(self.claims@.skip(i as int + 1), user@)) =~= claims_view(
                        out@,
                    ) + spec_user_claims(self.claims@.skip(i as int + 1), user@));
                }
            }
            i += 1;
        }
        proof {
            assert(self.claims@.skip(n as int) =~= Seq::<ClaimRecord>::empty());
            assert(claims_view(out@) + Seq::<(Seq<char>, u128, Expiration)>::empty() =~= claims_view(
                out@,
            ));
        }
        ClaimsResponse { claims: out }
    }

    /// Allows a user to withdraw all their matured claims. The payout is
    /// capped by the base asset the contract actually holds beyond the idle
    /// reward float, so reward money is never paid out as principal; when
    /// even the matured total exceeds that cap the whole call fails and
    /// every claim stays for a later retry.
    pub fn claim(&mut self, user: &String, block: &BlockInfo, contract_balance: u128) -> (r: Result<
        (Command, ClaimedEvent),
        ContractError,
    >)
        requires
            old(self).wf(),
            spec_claimable(old(self).claims@, user@, *block) <= u128::MAX,
        ensures
            final(self).wf(),
            match r {
                Ok((cmd, ev)) => {
                    let claimed = spec_claimable(old(self).claims@, user@, *block);
                    &&& !old(self).is_paused
                    &&& old(self).spec_user_status(user@) == UserStatus::Whitelisted
                    &&& claimed > 0
                    &&& claimed <= contract_balance as int - old(self).contract_rewards as int
                    &&& *final(self) == (Staker { claims: final(self).claims, ..(*old(self)) })
                    &&& final(self).claims@ == spec_remaining_claims(
                        old(self).claims@,
                        user@,
                        *block,
                    )
                    &&& (cmd matches Command::Send { to_address, amount } && to_address@ == user@
                        && amount as int == claimed)
                    &&& ev.user@ == user@
                    &&& ev.amount == claimed
                },
                Err(e) => *final(self) == *old(self) && ((e == ContractError::ContractPaused && old(
                    self,
                ).is_paused) || (!old(self).is_paused && e == ContractError::UserNotWhitelisted
                    && old(self).spec_user_status(user@) != UserStatus::Whitelisted) || (!old(
                    self,
                ).is_paused && old(self).spec_user_status(user@) == UserStatus::Whitelisted && ((e
                    == ContractError::NothingToClaim && spec_claimable(
                    old(self).claims@,
                    user@,
                    *block,
                ) == 0) || (e == ContractError::InsufficientStakerFunds && spec_claimable(
                    old(self).claims@,
                    user@,
                    *block,
                ) > 0 && spec_claimable(old(self).claims@, user@, *block) > contract_balance as int
                    - old(self).contract_rewards as int)))),
            },
    {
        if let Err(e) = self.check_not_paused() {
            return Err(e);
        }
        if let Err(e) = self.check_whitelisted(user) {
            return Err(e);
        }
        let claimed_amount = self.get_claimable_amount(user, block).claimable_amount;
        if claimed_amount == 0 {
            return Err(ContractError::NothingToClaim);
        }
        let available_assets = if contract_balance >= self.contract_rewards {
            contract_balance - self.contract_rewards
        } else {
            0
        };
        if available_assets < claimed_amount {
            return Err(ContractError::InsufficientStakerFunds);
        }
        let ghost c0 = self.claims@;
        let mut i: usize = self.claims.len();
        proof {
            assert(c0.skip(i as int) =~= Seq::<ClaimRecord>::empty());
            assert(c0.take(i as int) =~= c0);
        }
        while i > 0
            invariant
                0 <= i <= c0.len(),
                *self == (Staker { claims: self.claims, ..(*old(self)) }),
                self.claims@ == c0.take(i as int) + spec_remaining_claims(
                    c0.skip(i as int),
                    user@,
                    *block,
                ),
            decreases i,
        {
            i -= 1;
            proof {
                assert(c0.skip(i as int)[0] == c0[i as int]);
                assert(c0.skip(i as int).skip(1) =~= c0.skip(i as int + 1));
                assert(self.claims@[i as int] == c0[i as int]);
            }
            let matured = self.claims[i].user == *user && self.claims[i].release_at.is_expired(
                block,
            );
            let ghost v0 = self.claims@;
            if matured {
                self.claims.remove(i);
                proof {
                    assert(self.claims@ =~= c0.take(i as int) + spec_remaining_claims(
                        c0.skip(i as int),
                        user@,
                        *block,
                    ));
                }
            } else {
                proof {
                    assert(self.claims@ =~= c0.take(i as int) + (seq![c0[i as int]]
                        + spec_remaining_claims(c0.skip(i as int + 1), user@, *block)));
                }
            }
        }
        proof {
            assert(c0.take(0) =~= Seq::<ClaimRecord>::empty());
            assert(self.claims@ =~= spec_remaining_claims(c0, user@, *block));
        }
        Ok(
            (
                Command::Send { to_address: user.clone(), amount: claimed_amount },
                ClaimedEvent { user: user.clone(), amount: claimed_amount },
            ),
        )
    }
}

/// Receipt shares minted to the treasury for an amount of rewards: the fee
/// share of the rewards, converted at the given price.
pub open spec fn spec_treasury_shares(rewards: int, fee: int, num: int, denom: int) -> int {
    if fee == 0 || rewards == 0 {
        0
    } else {
        spec_shares_for_assets(spec_fee_amount(rewards, fee), num, denom)
    }
}

/// No single validator's row exceeds the totals of the snapshot.
pub proof fn lemma_delegation_le_total(dels: Seq<Delegation>, v: Seq<char>)
    ensures
        0 <= spec_delegation_staked(dels, v) <= spec_total_staked(dels),
        0 <= spec_delegation_rewards(dels, v) <= spec_total_rewards(dels),
    decreases dels.len(),
{
    if dels.len() == 0 {
    } else {
        lemma_delegation_le_total(dels.skip(1), v);
        lemma_totals_nonneg(dels.skip(1));
    }
}

/// When the requested amount leaves at least the minimum deposit below the
/// rounded-up withdrawable maximum, the shares burned for it stay within the
/// user's balance.
pub proof fn lemma_burn_within_balance(bal: int, num: int, denom_s: int, assets: int, min_dep: int)
    requires
        num > 0,
        denom_s > 0,
        min_dep >= 1,
        bal >= 0,
        assets >= 0,
        assets + min_dep <= bal * num / denom_s + (if bal * num % denom_s != 0 {
            1int
        } else {
            0int
        }),
    ensures
        assets * denom_s / num <= bal,
{
    let q = bal * num / denom_s;
    let r = bal * num % denom_s;
    assert(bal * num >= 0) by (nonlinear_arith)
        requires
            bal >= 0,
            num > 0,
    ;
    vstd::arithmetic::div_mod::lemma_fundamental_div_mod(bal * num, denom_s);
    vstd::arithmetic::div_mod::lemma_mod_pos_bound(bal * num, denom_s);
    vstd::arithmetic::div_mod::lemma_div_pos_is_pos(bal * num, denom_s);
    assert(assets <= q);
    assert(assets * denom_s <= q * denom_s) by (nonlinear_arith)
        requires
            assets <= q,
            denom_s > 0,
    ;
    assert(q * denom_s <= bal * num);
    vstd::arithmetic::div_mod::lemma_div_is_ordered(assets * denom_s, bal * num, num);
    assert(bal * num / num == bal) by {
        vstd::arithmetic::div_mod::lemma_div_multiples_vanish(bal, num);
        assert(bal * num == num * bal) by (nonlinear_arith);
    }
}

/// A zero numerator makes every rounded-up conversion zero.
pub proof fn lemma_zero_num_zero_assets(shares: int, denom: int, round_up: bool)
    requires
        denom > 0,
        shares >= 0,
    ensures
        spec_assets_for_shares(shares, 0, denom, round_up) == 0,
{
    let d = denom * (SHARE_PRICE_SCALING_FACTOR as int);
    assert(d > 0) by (nonlinear_arith)
        requires
            denom > 0,
            d == denom * (SHARE_PRICE_SCALING_FACTOR as int),
            SHARE_PRICE_SCALING_FACTOR > 0,
    ;
    assert(shares * 0 == 0) by (nonlinear_arith);
    vstd::arithmetic::div_mod::lemma_div_of0(d);
    assert(0int % d == 0) by {
        vstd::arithmetic::div_mod::lemma_mod_multiples_basic(0, d);
        assert(0 * d == 0) by (nonlinear_arith);
    }
}

/// What must fit in machine words for a deposit to run exactly as the
/// arithmetic describes: the snapshot totals, the capital base, the fee
/// products and the two mints.
pub open spec fn spec_stake_fits(s: Staker, dels: Seq<Delegation>, amount: u128, v: Seq<char>) -> bool {
    let ts = spec_total_staked(dels);
    let tr = spec_total_rewards(dels);
    let supply = s.ledger.total_supply as int;
    let num = s.spec_price_num(dels);
    let denom = s.spec_price_denom();
    let fee = s.staker_info.fee as int;
    let vrew = spec_delegation_rewards(dels, v);
    let tshares = spec_treasury_shares(vrew, fee, num, denom);
    let ushares = spec_shares_for_assets(amount as int, num, denom);
    &&& ts <= u128::MAX
    &&& tr <= u128::MAX
    &&& (supply != 0 ==> ts + s.contract_rewards <= u128::MAX)
    &&& vrew * fee <= u128::MAX
    &&& ((num != 0 && tshares <= u128::MAX) ==> supply + tshares <= u128::MAX)
    &&& ((num != 0 && tshares <= u128::MAX && ushares <= u128::MAX) ==> supply + tshares + ushares
        <= u128::MAX)
    &&& amount + s.contract_rewards <= u128::MAX
    &&& ts + amount + s.contract_rewards <= u128::MAX
}

/// Everything a successful or failed deposit does, stated over the state
/// before and after the call.
pub open spec fn spec_stake_post(
    pre: Staker,
    post: Staker,
    sender: Seq<char>,
    amount: u128,
    v: Seq<char>,
    dels: Seq<Delegation>,
    r: Result<(Command, DepositedEvent), ContractError>,
) -> bool {
    let ts = spec_total_staked(dels);
    let num = pre.spec_price_num(dels);
    let denom = pre.spec_price_denom();
    let fee = pre.staker_info.fee as int;
    let vrew = spec_delegation_rewards(dels, v);
    let tshares = spec_treasury_shares(vrew, fee, num, denom);
    let ushares = spec_shares_for_assets(amount as int, num, denom);
    let treasury = pre.staker_info.treasury@;
    match r {
        Ok((cmd, ev)) => {
            &&& pre.spec_validator_state(v) == Some(ValidatorState::Enabled)
            &&& amount >= pre.staker_info.min_deposit
            &&& num != 0
            &&& tshares <= u128::MAX
            &&& ushares <= u128::MAX
            &&& post == (Staker {
                contract_rewards: post.contract_rewards,
                ledger: post.ledger,
                ..pre
            })
            &&& post.contract_rewards as int == vrew
            &&& post.ledger.total_supply as int == pre.ledger.total_supply + tshares + ushares
            &&& post.spec_balance(sender) == pre.spec_balance(sender) + ushares + (
            if sender == treasury {
                tshares
            } else {
                0int
            })
            &&& post.spec_balance(treasury) == pre.spec_balance(treasury) + tshares + (
            if sender == treasury {
                ushares
            } else {
                0int
            })
            &&& (forall|a: Seq<char>|
                a != sender && a != treasury ==> post.spec_balance(a) == pre.spec_balance(a))
            &&& (cmd matches Command::Delegate { validator, amount: delegated } && validator@ == v
                && delegated as int == amount + pre.contract_rewards)
            &&& ev.user@ == sender
            &&& ev.validator_addr@ == v
            &&& ev.amount == amount
            &&& ev.contract_rewards == pre.contract_rewards
            &&& ev.user_shares_minted as int == ushares
            &&& ev.treasury_shares_minted as int == tshares
            &&& ev.treasury_balance as int == post.spec_balance(treasury)
            &&& ev.total_staked as int == ts + amount + pre.contract_rewards
            &&& ev.total_supply == post.ledger.total_supply
            &&& ev.share_price_num.val() == num
            &&& ev.share_price_denom.val() == denom
            &&& ev.user_balance as int == post.spec_balance(sender)
        },
        Err(e) => {
            &&& post == pre
            &&& ((e == ContractError::ValidatorDoesNotExist && pre.spec_validator_state(v) is None)
                || (e == ContractError::ValidatorNotEnabled && pre.spec_validator_state(v) is Some
                && pre.spec_validator_state(v) != Some(ValidatorState::Enabled)) || (
            pre.spec_validator_state(v) == Some(ValidatorState::Enabled) && ((e
                == ContractError::DepositBelowMinDeposit && amount < pre.staker_info.min_deposit)
                || (amount >= pre.staker_info.min_deposit && ((e == ContractError::ZeroDiv && num
                == 0) || (e == ContractError::Overflow && num != 0 && ((fee != 0 && vrew != 0
                && tshares > u128::MAX) || (tshares <= u128::MAX && ushares > u128::MAX))))))))
        },
    }
}

impl Staker {
    /// Receipt shares owed to the treasury for the fee on an amount of
    /// rewards, at the given price. Zero when the fee or the rewards are
    /// zero.
    fn treasury_fee_shares(&self, rewards: u128, price: &SharePrice) -> (r: Result<
        u128,
        ContractError,
    >)
        requires
            rewards as int * self.staker_info.fee as int <= u128::MAX,
        ensures
            ({
                let fee = self.staker_info.fee as int;
                let tshares = spec_treasury_shares(
                    rewards as int,
                    fee,
                    price.num.val(),
                    price.denom.val(),
                );
                match r {
                    Ok(v) => v as int == tshares && (fee != 0 && rewards != 0 ==> price.num.val()
                        != 0),
                    Err(ContractError::ZeroDiv) => fee != 0 && rewards != 0 && price.num.val()
                        == 0,
                    Err(ContractError::Overflow) => fee != 0 && rewards != 0 && price.num.val()
                        != 0 && tshares > u128::MAX,
                    Err(_) => false,
                }
            }),
    {
        if self.staker_info.fee == 0 || rewards == 0 {
            return Ok(0);
        }
        let fees = rewards * (self.staker_info.fee as u128) / (FEE_PRECISION as u128);
        convert_to_shares(fees, &price.num, &price.denom)
    }

    /// Stakes the attached base-asset amount to the given validator: mints
    /// the treasury fee on the validator's liquid rewards and the user's
    /// shares at the current price, replaces the idle reward float with the
    /// validator's liquid rewards, and delegates the deposit together with
    /// the old float.
    fn internal_stake(
        &mut self,
        sender: &String,
        amount: u128,
        validator_addr: &String,
        dels: &Vec<Delegation>,
    ) -> (r: Result<(Command, DepositedEvent), ContractError>)
        requires
            old(self).wf(),
            old(self).delegations_match(dels@),
            spec_stake_fits(*old(self), dels@, amount, validator_addr@),
        ensures
            final(self).wf(),
            spec_stake_post(
                *old(self),
                *final(self),
                sender@,
                amount,
                validator_addr@,
                dels@,
                r,
            ),
    {
        if let Err(e) = self.check_validator(validator_addr) {
            return Err(e);
        }
        if amount < self.staker_info.min_deposit {
            return Err(ContractError::DepositBelowMinDeposit);
        }
        let (total_staked, total_rewards) = get_total_staked_and_rewards(dels);
        let old_contract_rewards = self.contract_rewards;
        let shares_supply = self.ledger.total_supply;
        let price = internal_share_price(
            total_staked,
            old_contract_rewards,
            total_rewards,
            shares_supply,
            self.staker_info.fee,
        );
        proof {
            lemma_delegation_le_total(dels@, validator_addr@);
        }
        let (_, validator_total_rewards) = find_delegation(dels, validator_addr);
        let treasury_shares_minted = match self.treasury_fee_shares(
            validator_total_rewards,
            &price,
        ) {
            Ok(v) => v,
            Err(e) => {
                return Err(e);
            },
        };
        let user_shares_increase = match convert_to_shares(amount, &price.num, &price.denom) {
            Ok(v) => v,
            Err(e) => {
                return Err(e);
            },
        };
        self.contract_rewards = validator_total_rewards;
        let treasury = self.staker_info.treasury.clone();
        self.ledger.mint(&treasury, treasury_shares_minted);
        self.ledger.mint(sender, user_shares_increase);
        let user_balance = self.ledger.balance_of(sender);
        let treasury_balance = self.ledger.balance_of(&treasury);
        let new_stake_amount = amount + old_contract_rewards;
        let cmd = Command::Delegate {
            validator: validator_addr.clone(),
            amount: new_stake_amount,
        };
        let ev = DepositedEvent {
            user: sender.clone(),
            validator_addr: validator_addr.clone(),
            amount,
            contract_rewards: old_contract_rewards,
            user_shares_minted: user_shares_increase,
            treasury_shares_minted,
            treasury_balance,
            total_staked: total_staked + new_stake_amount,
            total_supply: self.ledger.total_supply,
            share_price_num: price.num,
            share_price_denom: price.denom,
            user_balance,
        };
        Ok((cmd, ev))
    }

    /// Stakes the attached base asset to the default validator. The caller
    /// must be whitelisted and the contract not paused.
    pub fn stake(&mut self, sender: &String, amount: u128, dels: &Vec<Delegation>) -> (r: Result<
        (Command, DepositedEvent),
        ContractError,
    >)
        requires
            old(self).wf(),
            old(self).delegations_match(dels@),
            (!old(self).is_paused && old(self).spec_user_status(sender@)
                == UserStatus::Whitelisted) ==> spec_stake_fits(
                *old(self),
                dels@,
                amount,
                old(self).default_validator@,
            ),
        ensures
            final(self).wf(),
            old(self).is_paused ==> r == Err::<(Command, DepositedEvent), ContractError>(
                ContractError::ContractPaused,
            ) && *final(self) == *old(self),
            (!old(self).is_paused && old(self).spec_user_status(sender@)
                != UserStatus::Whitelisted) ==> r == Err::<(Command, DepositedEvent), ContractError>(
                ContractError::UserNotWhitelisted,
            ) && *final(self) == *old(self),
            (!old(self).is_paused && old(self).spec_user_status(sender@)
                == UserStatus::Whitelisted) ==> spec_stake_post(
                *old(self),
                *final(self),
                sender@,
                amount,
                old(self).default_validator@,
                dels@,
                r,
            ),
    {
        if let Err(e) = self.check_not_paused() {
            return Err(e);
        }
        if let Err(e) = self.check_whitelisted(sender) {
            return Err(e);
        }
        let validator_addr = self.default_validator.clone();
        self.internal_stake(sender, amount, &validator_addr, dels)
    }

    /// Stakes the attached base asset to the specified validator. The caller
    /// must be whitelisted and the contract not paused.
    pub fn stake_to_specific_validator(
        &mut self,
        sender: &String,
        amount: u128,
        validator_addr: &String,
        dels: &Vec<Delegation>,
    ) -> (r: Result<(Command, DepositedEvent), ContractError>)
        requires
            old(self).wf(),
            old(self).delegations_match(dels@),
            (!old(self).is_paused && old(self).spec_user_status(sender@)
                == UserStatus::Whitelisted) ==> spec_stake_fits(
                *old(self),
                dels@,
                amount,
                validator_addr@,
            ),
        ensures
            final(self).wf(),
            old(self).is_paused ==> r == Err::<(Command, DepositedEvent), ContractError>(
                ContractError::ContractPaused,
            ) && *final(self) == *old(self),
            (!old(self).is_paused && old(self).spec_user_status(sender@)
                != UserStatus::Whitelisted) ==> r == Err::<(Command, DepositedEvent), ContractError>(
                ContractError::UserNotWhitelisted,
            ) && *final(self) == *old(self),
            (!old(self).is_paused && old(self).spec_user_status(sender@)
                == UserStatus::Whitelisted) ==> spec_stake_post(
                *old(self),
                *final(self),
                sender@,
                amount,
                validator_addr@,
                dels@,
                r,
            ),
    {
        if let Err(e) = self.check_not_paused() {
            return Err(e);
        }
        if let Err(e) = self.check_whitelisted(sender) {
            return Err(e);
        }
        self.internal_stake(sender, amount, validator_addr, dels)
    }
}

/// What must fit in machine words for a withdrawal request to run exactly as
/// the arithmetic describes.
pub open spec fn spec_unstake_fits(
    s: Staker,
    dels: Seq<Delegation>,
    v: Seq<char>,
    block: BlockInfo,
) -> bool {
    let ts = spec_total_staked(dels);
    let tr = spec_total_rewards(dels);
    let supply = s.ledger.total_supply as int;
    let num = s.spec_price_num(dels);
    let denom = s.spec_price_denom();
    let fee = s.staker_info.fee as int;
    let vrew = spec_delegation_rewards(dels, v);
    let tshares = spec_treasury_shares(vrew, fee, num, denom);
    &&& ts <= u128::MAX
    &&& tr <= u128::MAX
    &&& (supply != 0 ==> ts + s.contract_rewards <= u128::MAX)
    &&& vrew * fee <= u128::MAX
    &&& vrew + s.contract_rewards <= u128::MAX
    &&& block.time + UNBONDING_PERIOD_SECONDS <= u64::MAX
    &&& ((num != 0 && tshares <= u128::MAX) ==> supply + tshares <= u128::MAX)
}

/// Everything a successful or failed withdrawal request does, stated over
/// the state before and after the call. A request that would leave the user
/// below the minimum deposit sweeps the entire position instead; a request
/// beyond the validator's delegated principal is covered out of its liquid
/// rewards and the idle float.
pub open spec fn spec_unstake_post(
    pre: Staker,
    post: Staker,
    sender: Seq<char>,
    v: Seq<char>,
    assets: u128,
    dels: Seq<Delegation>,
    block: BlockInfo,
    r: Result<(Option<Command>, UnstakedEvent), ContractError>,
) -> bool {
    let ts = spec_total_staked(dels);
    let num = pre.spec_price_num(dels);
    let denom = pre.spec_price_denom();
    let fee = pre.staker_info.fee as int;
    let bal = pre.spec_balance(sender);
    let maxw = spec_assets_for_shares(bal, num, denom, true);
    let dust = maxw - assets < pre.staker_info.min_deposit;
    let to_unstake = if dust {
        maxw
    } else {
        assets as int
    };
    let burn = if dust {
        bal
    } else {
        spec_shares_for_assets(assets as int, num, denom)
    };
    let vstaked = spec_delegation_staked(dels, v);
    let vrew = spec_delegation_rewards(dels, v);
    let excess = if to_unstake > vstaked {
        to_unstake - vstaked
    } else {
        0int
    };
    let actual = if to_unstake > vstaked {
        vstaked
    } else {
        to_unstake
    };
    let tshares = spec_treasury_shares(vrew, fee, num, denom);
    let treasury = pre.staker_info.treasury@;
    match r {
        Ok((cmd, ev)) => {
            &&& assets > 0
            &&& maxw <= u128::MAX
            &&& assets <= maxw
            &&& burn > 0
            &&& excess <= vrew + pre.contract_rewards
            &&& num != 0
            &&& tshares <= u128::MAX
            &&& post == (Staker {
                contract_rewards: post.contract_rewards,
                claims: post.claims,
                ledger: post.ledger,
                ..pre
            })
            &&& post.contract_rewards as int == pre.contract_rewards + vrew - excess
            &&& claims_view(post.claims@) == claims_view(pre.claims@).push(
                (sender, to_unstake as u128, Expiration::AtTime((block.time
                    + UNBONDING_PERIOD_SECONDS) as u64)),
            )
            &&& post.ledger.total_supply as int == pre.ledger.total_supply + tshares - burn
            &&& post.spec_balance(sender) == bal + (if sender == treasury {
                tshares
            } else {
                0int
            }) - burn
            &&& post.spec_balance(treasury) == pre.spec_balance(treasury) + tshares - (
            if sender == treasury {
                burn
            } else {
                0int
            })
            &&& (forall|a: Seq<char>|
                a != sender && a != treasury ==> post.spec_balance(a) == pre.spec_balance(a))
            &&& (if actual > 0 {
                cmd matches Some(c) && (c matches Command::Undelegate { validator, amount }
                    && validator@ == v && amount as int == actual)
            } else {
                cmd is None
            })
            &&& ev.user@ == sender
            &&& ev.amount as int == to_unstake
            &&& ev.validator_addr@ == v
            &&& ev.user_balance as int == post.spec_balance(sender)
            &&& ev.user_shares_burned as int == burn
            &&& ev.treasury_shares_minted as int == tshares
            &&& ev.treasury_balance as int == post.spec_balance(treasury)
            &&& ev.total_staked as int == ts - actual
            &&& ev.total_supply == post.ledger.total_supply
            &&& ev.expires_at as int == block.time + UNBONDING_PERIOD_SECONDS
        },
        Err(e) => {
            &&& post == pre
            &&& ((e == ContractError::UnstakeAmountTooLow && assets == 0) || (assets > 0 && ((e
                == ContractError::Overflow && maxw > u128::MAX) || (maxw <= u128::MAX && ((e
                == ContractError::InsufficientTruINJBalance && assets > maxw) || (assets <= maxw
                && ((e == ContractError::SharesAmountTooLow && burn == 0) || (burn > 0 && ((e
                == ContractError::InsufficientValidatorFunds && excess > vrew
                + pre.contract_rewards) || (excess <= vrew + pre.contract_rewards && e
                == ContractError::Overflow && fee != 0 && vrew != 0 && num != 0 && tshares
                > u128::MAX))))))))))
        },
    }
}

impl Staker {
    /// Unstakes a given base-asset amount from a specific validator:
    /// creates a time-locked claim for the requested amount, burns the
    /// matching shares (or the whole position when what would remain is
    /// dust), mints the treasury fee on the validator's liquid rewards, and
    /// undelegates only what the validator actually holds.
    fn internal_unstake(
        &mut self,
        sender: &String,
        validator_addr: &String,
        assets: u128,
        dels: &Vec<Delegation>,
        block: &BlockInfo,
    ) -> (r: Result<(Option<Command>, UnstakedEvent), ContractError>)
        requires
            old(self).wf(),
            old(self).delegations_match(dels@),
            spec_unstake_fits(*old(self), dels@, validator_addr@, *block),
        ensures
            final(self).wf(),
            spec_unstake_post(
                *old(self),
                *final(self),
                sender@,
                validator_addr@,
                assets,
                dels@,
                *block,
                r,
            ),
    {
        if assets == 0 {
            return Err(ContractError::UnstakeAmountTooLow);
        }
        let (total_staked, total_rewards) = get_total_staked_and_rewards(dels);
        let old_contract_rewards = self.contract_rewards;
        let shares_supply = self.ledger.total_supply;
        let price = internal_share_price(
            total_staked,
            old_contract_rewards,
            total_rewards,
            shares_supply,
            self.staker_info.fee,
        );
        let shares_balance = self.ledger.balance_of(sender);
        let max_withdraw = match convert_to_assets(shares_balance, &price.num, &price.denom, true) {
            Ok(v) => v,
            Err(e) => {
                return Err(e);
            },
        };
        if assets > max_withdraw {
            return Err(ContractError::InsufficientTruINJBalance);
        }
        proof {
            if price.num.val() == 0 {
                lemma_zero_num_zero_assets(shares_balance as int, price.denom.val(), true);
                assert(false);
            }
        }
        let dust = max_withdraw - assets < self.staker_info.min_deposit;
        let (assets_to_unstake, shares_to_burn): (u128, u128) = if dust {
            (max_withdraw, shares_balance)
        } else {
            proof {
                lemma_burn_within_balance(
                    shares_balance as int,
                    price.num.val(),
                    price.denom.val() * (SHARE_PRICE_SCALING_FACTOR as int),
                    assets as int,
                    self.staker_info.min_deposit as int,
                );
                assert(price.denom.val() * (SHARE_PRICE_SCALING_FACTOR as int) > 0)
                    by (nonlinear_arith)
                    requires
                        price.denom.val() > 0,
                        SHARE_PRICE_SCALING_FACTOR > 0,
                ;
                assert(price.denom.val() * (assets as int) * (SHARE_PRICE_SCALING_FACTOR as int)
                    == assets as int * (price.denom.val() * (SHARE_PRICE_SCALING_FACTOR as int)))
                    by (nonlinear_arith);
            }
            let shares = match convert_to_shares(assets, &price.num, &price.denom) {
                Ok(v) => v,
                Err(e) => {
                    proof {
                        assert(false);
                    }
                    return Err(e);
                },
            };
            (assets, shares)
        };
        if shares_to_burn == 0 {
            return Err(ContractError::SharesAmountTooLow);
        }
        proof {
            lemma_delegation_le_total(dels@, validator_addr@);
        }
        let (validator_total_staked, validator_total_rewards) = find_delegation(
            dels,
            validator_addr,
        );
        let (actual_amount_to_unstake, excess_unstaked_amount): (u128, u128) = if assets_to_unstake
            > validator_total_staked {
            (validator_total_staked, assets_to_unstake - validator_total_staked)
        } else {
            (assets_to_unstake, 0)
        };
        if excess_unstaked_amount > validator_total_rewards + old_contract_rewards {
            return Err(ContractError::InsufficientValidatorFunds);
        }
        let treasury_shares_minted = match self.treasury_fee_shares(
            validator_total_rewards,
            &price,
        ) {
            Ok(v) => v,
            Err(e) => {
                return Err(e);
            },
        };
        self.contract_rewards = old_contract_rewards + validator_total_rewards
            - excess_unstaked_amount;
        let expires_at = block.time + UNBONDING_PERIOD_SECONDS;
        let claim_record = ClaimRecord {
            user: sender.clone(),
            amount: assets_to_unstake,
            release_at: Expiration::AtTime(expires_at),
        };
        let ghost claims0 = self.claims@;
        let ghost new_claim = claim_record;
        self.claims.push(claim_record);
        proof {
            assert(claims_view(self.claims@) =~= claims_view(claims0).push(claim_view(new_claim)));
        }
        let treasury = self.staker_info.treasury.clone();
        let ghost pre_mint_balance = self.ledger.spec_balance(sender@);
        self.ledger.mint(&treasury, treasury_shares_minted);
        proof {
            if sender@ != treasury@ {
                assert(self.ledger.spec_balance(sender@) == pre_mint_balance);
            }
        }
        self.ledger.burn(sender, shares_to_burn);
        let user_shares_balance = self.ledger.balance_of(sender);
        let treasury_balance = self.ledger.balance_of(&treasury);
        let new_total_staked = total_staked - actual_amount_to_unstake;
        let cmd: Option<Command> = if actual_amount_to_unstake > 0 {
            Some(
                Command::Undelegate {
                    validator: validator_addr.clone(),
                    amount: actual_amount_to_unstake,
                },
            )
        } else {
            None
        };
        let ev = UnstakedEvent {
            user: sender.clone(),
            amount: assets_to_unstake,
            validator_addr: validator_addr.clone(),
            user_balance: user_shares_balance,
            user_shares_burned: shares_to_burn,
            treasury_shares_minted,
            treasury_balance,
            total_staked: new_total_staked,
            total_supply: self.ledger.total_supply,
            expires_at,
        };
        Ok((cmd, ev))
    }

    /// Unstakes a given base-asset amount from the default validator. The
    /// caller must be whitelisted and the contract not paused.
    pub fn unstake(
        &mut self,
        sender: &String,
        amount: u128,
        dels: &Vec<Delegation>,
        block: &BlockInfo,
    ) -> (r: Result<(Option<Command>, UnstakedEvent), ContractError>)
        requires
            old(self).wf(),
            old(self).delegations_match(dels@),
            (!old(self).is_paused && old(self).spec_user_status(sender@)
                == UserStatus::Whitelisted) ==> spec_unstake_fits(
                *old(self),
                dels@,
                old(self).default_validator@,
                *block,
            ),
        ensures
            final(self).wf(),
            old(self).is_paused ==> r == Err::<(Option<Command>, UnstakedEvent), ContractError>(
                ContractError::ContractPaused,
            ) && *final(self) == *old(self),
            (!old(self).is_paused && old(self).spec_user_status(sender@)
                != UserStatus::Whitelisted) ==> r == Err::<
                (Option<Command>, UnstakedEvent),
                ContractError,
            >(ContractError::UserNotWhitelisted) && *final(self) == *old(self),
            (!old(self).is_paused && old(self).spec_user_status(sender@)
                == UserStatus::Whitelisted) ==> spec_unstake_post(
                *old(self),
                *final(self),
                sender@,
                old(self).default_validator@,
                amount,
                dels@,
                *block,
                r,
            ),
    {
        if let Err(e) = self.check_not_paused() {
            return Err(e);
        }
        if let Err(e) = self.check_whitelisted(sender) {
            return Err(e);
        }
        let validator_addr = self.default_validator.clone();
        self.internal_unstake(sender, &validator_addr, amount, dels, block)
    }

    /// Unstakes a given base-asset amount from the specified validator,
    /// which must be registered (it may be disabled). The caller must be
    /// whitelisted and the contract not paused.
    pub fn unstake_from_specific_validator(
        &mut self,
        sender: &String,
        validator_addr: &String,
        amount: u128,
        dels: &Vec<Delegation>,
        block: &BlockInfo,
    ) -> (r: Result<(Option<Command>, UnstakedEvent), ContractError>)
        requires
            old(self).wf(),
            old(self).delegations_match(dels@),
            (!old(self).is_paused && old(self).spec_user_status(sender@)
                == UserStatus::Whitelisted) ==> spec_unstake_fits(
                *old(self),
                dels@,
                validator_addr@,
                *block,
            ),
        ensures
            final(self).wf(),
            old(self).is_paused ==> r == Err::<(Option<Command>, UnstakedEvent), ContractError>(
                ContractError::ContractPaused,
            ) && *final(self) == *old(self),
            (!old(self).is_paused && old(self).spec_user_status(sender@)
                != UserStatus::Whitelisted) ==> r == Err::<
                (Option<Command>, UnstakedEvent),
                ContractError,
            >(ContractError::UserNotWhitelisted) && *final(self) == *old(self),
            (!old(self).is_paused && old(self).spec_user_status(sender@)
                == UserStatus::Whitelisted && old(self).spec_validator_state(
                validator_addr@,
            ) is None) ==> r == Err::<(Option<Command>, UnstakedEvent), ContractError>(
                ContractError::ValidatorDoesNotExist,
            ) && *final(self) == *old(self),
            (!old(self).is_paused && old(self).spec_user_status(sender@)
                == UserStatus::Whitelisted && old(self).spec_validator_state(
                validator_addr@,
            ) is Some) ==> spec_unstake_post(
                *old(self),
                *final(self),
                sender@,
                validator_addr@,
                amount,
                dels@,
                *block,
                r,
            ),
    {
        if let Err(e) = self.check_not_paused() {
            return Err(e);
        }
        if let Err(e) = self.check_whitelisted(sender) {
            return Err(e);
        }
        if let None = self.find_validator_index(validator_addr) {
            return Err(ContractError::ValidatorDoesNotExist);
        }
        self.internal_unstake(sender, validator_addr, amount, dels, block)
    }

    /// Executes the second half of a compounding sweep: re-delegates a
    /// withdrawn reward amount, folding the idle float in when the target is
    /// the default validator. Only the contract itself may call this.
    pub fn _restake(
        &mut self,
        sender: &String,
        contract_address: &String,
        restake_amount: u128,
        restake_validator: &String,
    ) -> (r: Result<Command, ContractError>)
        requires
            old(self).wf(),
            restake_validator@ == old(self).default_validator@ ==> restake_amount + old(
                self,
            ).contract_rewards <= u128::MAX,
        ensures
            final(self).wf(),
            match r {
                Ok(cmd) => sender@ == contract_address@ && (if restake_validator@ == old(
                    self,
                ).default_validator@ {
                    &&& *final(self) == (Staker { contract_rewards: 0, ..(*old(self)) })
                    &&& (cmd matches Command::Delegate { validator, amount } && validator@
                        == restake_validator@ && amount as int == restake_amount + old(
                        self,
                    ).contract_rewards)
                } else {
                    &&& *final(self) == *old(self)
                    &&& (cmd matches Command::Delegate { validator, amount } && validator@
                        == restake_validator@ && amount == restake_amount)
                }),
                Err(e) => *final(self) == *old(self) && e == ContractError::Unauthorized && sender@
                    != contract_address@,
            },
    {
        if !(*sender == *contract_address) {
            return Err(ContractError::Unauthorized);
        }
        let mut amount = restake_amount;
        if *restake_validator == self.default_validator {
            amount = amount + self.contract_rewards;
            self.contract_rewards = 0;
        }
        Ok(Command::Delegate { validator: restake_validator.clone(), amount })
    }
}

/// The validators of the snapshot that carry a nonzero liquid reward, with
/// that reward, in registry order.
pub open spec fn spec_reward_rows(dels: Seq<Delegation>) -> Seq<(Seq<char>, u128)>
    decreases dels.len(),
{
    if dels.len() == 0 {
        Seq::empty()
    } else if dels[0].rewards > 0 {
        seq![(dels[0].validator@, dels[0].rewards)] + spec_reward_rows(dels.skip(1))
    } else {
        spec_reward_rows(dels.skip(1))
    }
}

impl Staker {
    /// Restakes the accrued rewards of every validator: for each validator
    /// with a nonzero liquid reward it issues a reward withdrawal and a
    /// matching self-call that re-delegates the amount. When the compounding
    /// fee is set, the treasury is minted shares for its cut of the total
    /// rewards at the pre-compounding price. With no rewards anywhere the
    /// sweep is a no-op.
    pub fn compound_rewards(&mut self, dels: &Vec<Delegation>) -> (r: Result<
        (Vec<Command>, Option<RestakedEvent>),
        ContractError,
    >)
        requires
            old(self).wf(),
            old(self).delegations_match(dels@),
            spec_total_staked(dels@) <= u128::MAX,
            spec_total_rewards(dels@) <= u128::MAX,
            spec_total_rewards(dels@) * old(self).staker_info.fee <= u128::MAX,
            old(self).ledger.total_supply != 0 ==> spec_total_staked(dels@) + old(
                self,
            ).contract_rewards <= u128::MAX,
            ({
                let tr = spec_total_rewards(dels@);
                let fees = spec_fee_amount(tr, old(self).staker_info.fee as int);
                let tshares = spec_shares_for_assets(
                    fees,
                    old(self).spec_price_num(dels@),
                    old(self).spec_price_denom(),
                );
                (fees > 0 && tshares <= u128::MAX) ==> old(self).ledger.total_supply + tshares
                    <= u128::MAX
            }),
        ensures
            final(self).wf(),
            ({
                let rows = spec_reward_rows(dels@);
                let tr = spec_total_rewards(dels@);
                let fees = spec_fee_amount(tr, old(self).staker_info.fee as int);
                let num = old(self).spec_price_num(dels@);
                let denom = old(self).spec_price_denom();
                let tshares = spec_shares_for_assets(fees, num, denom);
                let treasury = old(self).staker_info.treasury@;
                match r {
                    Ok((cmds, ev)) => {
                        &&& (tr == 0 ==> cmds@.len() == 0 && ev is None && *final(self) == *old(
                            self,
                        ))
                        &&& (tr > 0 ==> {
                            &&& cmds@.len() == 2 * rows.len()
                            &&& (forall|j: int|
                                0 <= j < rows.len() ==> ((#[trigger] cmds@[j])
                                    matches Command::WithdrawReward { validator } && validator@
                                    == rows[j].0))
                            &&& (forall|j: int|
                                0 <= j < rows.len() ==> ((#[trigger] cmds@[rows.len() + j])
                                    matches Command::Restake { validator, amount } && validator@
                                    == rows[j].0 && amount == rows[j].1))
                            &&& (fees > 0 ==> {
                                &&& tshares <= u128::MAX
                                &&& *final(self) == (Staker {
                                    ledger: final(self).ledger,
                                    ..(*old(self))
                                })
                                &&& final(self).ledger.total_supply as int == old(
                                    self,
                                ).ledger.total_supply + tshares
                                &&& final(self).spec_balance(treasury) == old(self).spec_balance(
                                    treasury,
                                ) + tshares
                                &&& (forall|a: Seq<char>|
                                    a != treasury ==> final(self).spec_balance(a) == old(
                                        self,
                                    ).spec_balance(a))
                            })
                            &&& (fees == 0 ==> *final(self) == *old(self))
                            &&& ev matches Some(e2)
                            &&& (ev matches Some(e2) ==> e2.amount as int == tr
                                && e2.treasury_shares_minted as int == (if fees > 0 {
                                tshares
                            } else {
                                0int
                            }) && e2.treasury_balance as int == final(self).spec_balance(treasury))
                        })
                    },
                    Err(e) => *final(self) == *old(self) && e == ContractError::Overflow && tr > 0
                        && fees > 0 && tshares > u128::MAX,
                }
            }),
    {
        let n = self.validators.len();
        let mut collect_rewards_messages: Vec<Command> = Vec::new();
        let mut restake_messages: Vec<Command> = Vec::new();
        let ghost rows = spec_reward_rows(dels@);
        let mut i: usize = 0;
        proof {
            assert(dels@.skip(0) =~= dels@);
        }
        while i < n
            invariant
                *self == *old(self),
                old(self).delegations_match(dels@),
                n == self.validators@.len(),
                n == dels@.len(),
                0 <= i <= n,
                rows == spec_reward_rows(dels@),
                collect_rewards_messages@.len() == restake_messages@.len(),
                collect_rewards_messages@.len() <= rows.len(),
                rows =~= rows.take(collect_rewards_messages@.len() as int) + spec_reward_rows(
                    dels@.skip(i as int),
                ),
                forall|j: int|
                    0 <= j < collect_rewards_messages@.len() ==> ((
                    #[trigger] collect_rewards_messages@[j])
                        matches Command::WithdrawReward { validator } && validator@ == rows[j].0),
                forall|j: int|
                    0 <= j < restake_messages@.len() ==> ((#[trigger] restake_messages@[j])
                        matches Command::Restake { validator, amount } && validator@ == rows[j].0
                        && amount == rows[j].1),
            decreases n - i,
        {
            proof {
                assert(dels@.skip(i as int)[0] == dels@[i as int]);
                assert(dels@.skip(i as int).skip(1) =~= dels@.skip(i as int + 1));
            }
            let ghost k = collect_rewards_messages@.len() as int;
            if dels[i].rewards > 0 {
                proof {
                    assert(rows[k] == (dels@[i as int].validator@, dels@[i as int].rewards)) by {
                        assert(rows.take(k) + spec_reward_rows(dels@.skip(i as int)) =~= rows);
                        assert(spec_reward_rows(dels@.skip(i as int))[0] == (dels@[
                        i as int].validator@, dels@[i as int].rewards));
                    }
                    assert(rows.take(k + 1) =~= rows.take(k) + seq![rows[k]]);
                    assert(rows.take(k + 1) + spec_reward_rows(dels@.skip(i as int + 1)) =~= rows);
                }
                collect_rewards_messages.push(
                    Command::WithdrawReward { validator: dels[i].validator.clone() },
                );
                restake_messages.push(
                    Command::Restake {
                        validator: dels[i].validator.clone(),
                        amount: dels[i].rewards,
                    },
                );
            } else {
                proof {
                    assert(rows.take(k) + spec_reward_rows(dels@.skip(i as int + 1)) =~= rows);
                }
            }
            i += 1;
        }
        proof {
            assert(dels@.skip(n as int) =~= Seq::<Delegation>::empty());
            assert(spec_reward_rows(dels@.skip(n as int)) =~= Seq::<(Seq<char>, u128)>::empty());
            assert(rows.take(collect_rewards_messages@.len() as int) + Seq::<(
                Seq<char>,
                u128,
            )>::empty() =~= rows.take(collect_rewards_messages@.len() as int));
            assert(rows.take(collect_rewards_messages@.len() as int) =~= rows);
            assert(collect_rewards_messages@.len() == rows.len());
        }
        let (total_staked, total_rewards) = get_total_staked_and_rewards(dels);
        if total_rewards == 0 {
            proof {
                lemma_no_rewards_no_rows(dels@);
            }
            return Ok((Vec::new(), None));
        }
        let fee = self.staker_info.fee;
        let fees: u128 = total_rewards * (fee as u128) / (FEE_PRECISION as u128);
        proof {
            if fee == 0 || total_rewards == 0 {
                assert(total_rewards as int * (fee as int) == 0) by (nonlinear_arith)
                    requires
                        total_rewards == 0 || fee == 0,
                ;
                vstd::arithmetic::div_mod::lemma_div_of0(FEE_PRECISION as int);
            }
            assert(fees as int == spec_fee_amount(spec_total_rewards(dels@), fee as int));
        }
        let mut treasury_share_increase: u128 = 0;
        if fees > 0 {
            let price = internal_share_price(
                total_staked,
                self.contract_rewards,
                total_rewards,
                self.ledger.total_supply,
                fee,
            );
            treasury_share_increase = match convert_to_shares(fees, &price.num, &price.denom) {
                Ok(v) => v,
                Err(e) => {
                    proof {
                        if price.num.val() == 0 {
                            lemma_positive_capital_positive_num(
                                spec_total_staked(dels@),
                                self.contract_rewards as int,
                                spec_total_rewards(dels@),
                                self.ledger.total_supply as int,
                                fee as int,
                            );
                        }
                    }
                    return Err(e);
                },
            };
            let treasury = self.staker_info.treasury.clone();
            self.ledger.mint(&treasury, treasury_share_increase);
        }
        let treasury_balance = self.ledger.balance_of(&self.staker_info.treasury);
        let mut commands = collect_rewards_messages;
        let ghost w = commands@;
        let ghost rst = restake_messages@;
        commands.append(&mut restake_messages);
        proof {
            assert(commands@ =~= w + rst);
        }
        let ev = RestakedEvent {
            amount: total_rewards,
            treasury_shares_minted: treasury_share_increase,
            treasury_balance,
        };
        Ok((commands, Some(ev)))
    }
}

/// With no rewards anywhere in the snapshot there are no reward rows.
pub proof fn lemma_no_rewards_no_rows(dels: Seq<Delegation>)
    requires
        spec_total_rewards(dels) == 0,
    ensures
        spec_reward_rows(dels).len() == 0,
    decreases dels.len(),
{
    if dels.len() > 0 {
        lemma_totals_nonneg(dels.skip(1));
        lemma_no_rewards_no_rows(dels.skip(1));
    }
}

/// While any fee-bearing rewards are accrued, the share price numerator is
/// positive.
pub proof fn lemma_positive_capital_positive_num(
    ts: int,
    ta: int,
    tr: int,
    supply: int,
    fee: int,
) by (nonlinear_arith)
    requires
        ts >= 0,
        ta >= 0,
        tr > 0,
        0 <= fee < FEE_PRECISION,
        SHARE_PRICE_SCALING_FACTOR > 0,
        FEE_PRECISION > 0,
    ensures
        spec_share_price_num(ts, ta, tr, supply, fee) > 0,
{
}

} // verus!
