use injective_staker::constants::ONE_INJ;
use injective_staker::contract::instantiate;
use injective_staker::error::ContractError;
use injective_staker::msg::InstantiateMsg;
use injective_staker::state::{Staker, UserStatus, ValidatorState};

fn setup() -> Staker {
    let msg = InstantiateMsg {
        owner: "owner".to_string(),
        treasury: "treasury".to_string(),
        default_validator: "my-validator".to_string(),
    };
    let validator_set = vec!["my-validator".to_string(), "other-validator".to_string()];
    let (staker, _) = instantiate(&msg, &validator_set).unwrap();
    staker
}

#[test]
fn test_initialization() {
    let msg = InstantiateMsg {
        owner: "owner".to_string(),
        treasury: "treasury".to_string(),
        default_validator: "my-validator".to_string(),
    };
    let validator_set = vec!["my-validator".to_string()];
    let (staker, event) = instantiate(&msg, &validator_set).unwrap();

    let info = staker.get_staker_info();
    assert_eq!(info.owner, "owner");
    assert_eq!(info.default_validator, "my-validator");
    assert_eq!(info.treasury, "treasury");
    assert_eq!(info.fee, 0);
    assert_eq!(info.distribution_fee, 0);
    assert_eq!(info.min_deposit, ONE_INJ);
    assert!(!info.is_paused);

    assert_eq!(event.owner, "owner");
    assert_eq!(event.default_validator, "my-validator");
    assert_eq!(event.treasury, "treasury");
    assert_eq!(event.token_name, "TruINJ");
    assert_eq!(staker.get_total_supply().total_supply, 0);
}

#[test]
fn instantiation_mints_no_tokens_to_owner() {
    let msg = InstantiateMsg {
        owner: "owner".to_string(),
        treasury: "treasury".to_string(),
        default_validator: "my-validator".to_string(),
    };
    let validator_set = vec!["my-validator".to_string()];
    let (staker, _) = instantiate(&msg, &validator_set).unwrap();
    assert_eq!(staker.ledger.balance_of(&"owner".to_string()), 0);
    assert_eq!(staker.ledger.balance_of(&"user".to_string()), 0);
    assert_eq!(staker.get_total_supply().total_supply, 0);
}

#[test]
fn test_instantiate_with_non_existent_validator_fails() {
    let msg = InstantiateMsg {
        owner: "owner".to_string(),
        treasury: "treasury".to_string(),
        default_validator: "my-validator".to_string(),
    };
    let validator_set = vec!["another".to_string()];
    let err = instantiate(&msg, &validator_set).unwrap_err();
    assert_eq!(err, ContractError::NotInValidatorSet);
}

#[test]
fn test_set_fee() {
    let mut staker = setup();
    let new_fee: u16 = 1000;
    let ev = staker.set_fee(&"owner".to_string(), new_fee).unwrap();
    assert_eq!(ev.old_fee, 0);
    assert_eq!(ev.new_fee, new_fee);
    assert_eq!(staker.get_staker_info().fee, new_fee);
}

#[test]
fn test_set_fee_entered_fee_above_precision() {
    let mut staker = setup();
    let err = staker.set_fee(&"owner".to_string(), 10500).unwrap_err();
    assert_eq!(err, ContractError::FeeTooLarge);
}

#[test]
fn test_set_fee_can_only_be_called_by_the_owner() {
    let mut staker = setup();
    let err = staker.set_fee(&"user".to_string(), 1000).unwrap_err();
    assert_eq!(err, ContractError::OnlyOwner);
}

#[test]
fn test_set_distribution_fee() {
    let mut staker = setup();
    let new_fee: u16 = 1000;
    let ev = staker.set_distribution_fee(&"owner".to_string(), new_fee).unwrap();
    assert_eq!(ev.old_distribution_fee, 0);
    assert_eq!(ev.new_distribution_fee, new_fee);
    assert_eq!(staker.get_staker_info().distribution_fee, new_fee);
}

#[test]
fn test_set_distribution_fee_entered_fee_above_precision() {
    let mut staker = setup();
    let err = staker.set_distribution_fee(&"owner".to_string(), 10500).unwrap_err();
    assert_eq!(err, ContractError::FeeTooLarge);
}

#[test]
fn test_set_distribution_fee_can_only_be_called_by_the_owner() {
    let mut staker = setup();
    let err = staker.set_distribution_fee(&"user".to_string(), 1000).unwrap_err();
    assert_eq!(err, ContractError::OnlyOwner);
}

#[test]
fn test_set_min_deposit() {
    let mut staker = setup();
    let new_min_deposit: u128 = 2 * ONE_INJ;
    let ev = staker.set_min_deposit(&"owner".to_string(), new_min_deposit).unwrap();
    assert_eq!(ev.old_min_deposit, ONE_INJ);
    assert_eq!(ev.new_min_deposit, new_min_deposit);
    assert_eq!(staker.get_staker_info().min_deposit, new_min_deposit);
}

#[test]
fn test_set_min_deposit_can_only_be_called_by_the_owner() {
    let mut staker = setup();
    let err = staker.set_min_deposit(&"user".to_string(), 2 * ONE_INJ).unwrap_err();
    assert_eq!(err, ContractError::OnlyOwner);
}

#[test]
fn set_min_deposit_rejects_below_one_unit() {
    let mut staker = setup();
    let err = staker.set_min_deposit(&"owner".to_string(), ONE_INJ - 1).unwrap_err();
    assert_eq!(err, ContractError::MinimumDepositTooSmall);
}

#[test]
fn test_set_treasury() {
    let mut staker = setup();
    let new_treasury_addr = "new_treasury_addr".to_string();
    let ev = staker.set_treasury(&"owner".to_string(), &new_treasury_addr).unwrap();
    assert_eq!(ev.old_treasury_addr, "treasury");
    assert_eq!(ev.new_treasury_addr, new_treasury_addr);
    assert_eq!(staker.get_staker_info().treasury, new_treasury_addr);
}

#[test]
fn test_set_treasury_not_called_by_owner_fails() {
    let mut staker = setup();
    let err = staker
        .set_treasury(&"user".to_string(), &"new_treasury_addr".to_string())
        .unwrap_err();
    assert_eq!(err, ContractError::OnlyOwner);
}

#[test]
fn set_default_validator_requires_enabled_validator() {
    let mut staker = setup();
    let owner = "owner".to_string();
    let err = staker
        .set_default_validator(&owner, &"unknown".to_string())
        .unwrap_err();
    assert_eq!(err, ContractError::ValidatorDoesNotExist);

    let validator_set = vec!["my-validator".to_string(), "other-validator".to_string()];
    staker
        .add_validator(&owner, &"other-validator".to_string(), &validator_set)
        .unwrap();
    staker
        .disable_validator(&owner, &"other-validator".to_string())
        .unwrap();
    let err = staker
        .set_default_validator(&owner, &"other-validator".to_string())
        .unwrap_err();
    assert_eq!(err, ContractError::ValidatorNotEnabled);

    staker
        .enable_validator(&owner, &"other-validator".to_string())
        .unwrap();
    let ev = staker
        .set_default_validator(&owner, &"other-validator".to_string())
        .unwrap();
    assert_eq!(ev.new_default_validator_addr, "other-validator");
    assert_eq!(ev.old_default_validator_addr, "my-validator");
}

#[test]
fn add_validator_rejects_duplicates_and_unknown() {
    let mut staker = setup();
    let owner = "owner".to_string();
    let validator_set = vec!["my-validator".to_string(), "other-validator".to_string()];
    let err = staker
        .add_validator(&owner, &"my-validator".to_string(), &validator_set)
        .unwrap_err();
    assert_eq!(err, ContractError::ValidatorAlreadyExists);
    let err = staker
        .add_validator(&owner, &"ghost".to_string(), &validator_set)
        .unwrap_err();
    assert_eq!(err, ContractError::NotInValidatorSet);
    let ev = staker
        .add_validator(&owner, &"other-validator".to_string(), &validator_set)
        .unwrap();
    assert_eq!(ev.validator_address, "other-validator");
}

#[test]
fn enable_and_disable_validator_toggle_state() {
    let mut staker = setup();
    let owner = "owner".to_string();
    let v = "my-validator".to_string();
    let err = staker.enable_validator(&owner, &v).unwrap_err();
    assert_eq!(err, ContractError::ValidatorAlreadyEnabled);
    staker.disable_validator(&owner, &v).unwrap();
    let err = staker.disable_validator(&owner, &v).unwrap_err();
    assert_eq!(err, ContractError::ValidatorAlreadyDisabled);
    staker.enable_validator(&owner, &v).unwrap();
    let err = staker
        .enable_validator(&owner, &"ghost".to_string())
        .unwrap_err();
    assert_eq!(err, ContractError::ValidatorDoesNotExist);
}

#[test]
fn pause_and_unpause_gate_operations() {
    let mut staker = setup();
    let owner = "owner".to_string();
    let err = staker.unpause(&owner).unwrap_err();
    assert_eq!(err, ContractError::NotPaused);
    staker.pause(&owner).unwrap();
    assert!(staker.get_staker_info().is_paused);
    let err = staker.pause(&owner).unwrap_err();
    assert_eq!(err, ContractError::ContractPaused);
    staker.unpause(&owner).unwrap();
    assert!(!staker.get_staker_info().is_paused);
}

#[test]
fn ownership_transfer_is_two_phase() {
    let mut staker = setup();
    let owner = "owner".to_string();
    let new_owner = "heir".to_string();
    let err = staker.claim_ownership(&new_owner).unwrap_err();
    assert_eq!(err, ContractError::NoPendingOwnerSet);

    staker.set_pending_owner(&owner, &new_owner).unwrap();
    // the pending owner has no privileges yet
    assert!(!staker.is_owner(&new_owner).is_owner);
    let err = staker.claim_ownership(&"mallory".to_string()).unwrap_err();
    assert_eq!(err, ContractError::NotPendingOwner);

    let ev = staker.claim_ownership(&new_owner).unwrap();
    assert_eq!(ev.new_owner, "heir");
    assert_eq!(ev.old_owner, "owner");
    assert!(staker.is_owner(&new_owner).is_owner);
}

#[test]
fn test_check_whitelisted_with_whitelisted_user() {
    let mut staker = setup();
    let user = "user".to_string();
    staker.add_user_to_whitelist(&"owner".to_string(), &user).unwrap();
    assert!(staker.check_whitelisted(&user).is_ok());
}

#[test]
fn test_check_whitelisted_with_non_whitelisted_user() {
    let staker = setup();
    let user = "user".to_string();
    let error = staker.check_whitelisted(&user);
    assert!(error.is_err());
    assert_eq!(error, Err(ContractError::UserNotWhitelisted));
}

#[test]
fn test_check_not_paused_when_not_paused() {
    let staker = setup();
    assert!(staker.check_not_paused().is_ok());
}

#[test]
fn test_check_not_paused_when_paused() {
    let mut staker = setup();
    staker.pause(&"owner".to_string()).unwrap();
    assert_eq!(staker.check_not_paused().err().unwrap(), ContractError::ContractPaused);
}

#[test]
fn agents_can_be_added_and_removed() {
    let mut staker = setup();
    let owner = "owner".to_string();
    let agent = "agent".to_string();

    // the owner is an agent by definition
    assert!(staker.is_agent(&owner));
    assert!(!staker.is_agent(&agent));

    let err = staker.add_agent(&agent, &agent).unwrap_err();
    assert_eq!(err, ContractError::CallerIsNotAgent);
    let err = staker.add_agent(&owner, &owner).unwrap_err();
    assert_eq!(err, ContractError::OwnerCannotBeAdded);

    let ev = staker.add_agent(&owner, &agent).unwrap();
    assert_eq!(ev.new_agent, "agent");
    assert!(staker.is_agent(&agent));
    let err = staker.add_agent(&owner, &agent).unwrap_err();
    assert_eq!(err, ContractError::AgentAlreadyExists);

    let err = staker.remove_agent(&agent, &owner).unwrap_err();
    assert_eq!(err, ContractError::OwnerCannotBeRemoved);
    let err = staker.remove_agent(&owner, &"ghost".to_string()).unwrap_err();
    assert_eq!(err, ContractError::AgentDoesNotExist);
    let ev = staker.remove_agent(&owner, &agent).unwrap();
    assert_eq!(ev.removed_agent, "agent");
    assert!(!staker.is_agent(&agent));
}

#[test]
fn whitelist_status_transitions() {
    let mut staker = setup();
    let owner = "owner".to_string();
    let user = "user".to_string();

    assert_eq!(staker.get_current_user_status(&user), UserStatus::NoStatus);
    let err = staker.clear_user_status(&owner, &user).unwrap_err();
    assert_eq!(err, ContractError::UserStatusAlreadyCleared);

    let ev = staker.add_user_to_whitelist(&owner, &user).unwrap();
    assert_eq!(ev.old_status, UserStatus::NoStatus);
    assert_eq!(ev.new_status, UserStatus::Whitelisted);
    assert!(staker.is_user_whitelisted(&user));
    let err = staker.add_user_to_whitelist(&owner, &user).unwrap_err();
    assert_eq!(err, ContractError::UserAlreadyWhitelisted);

    let ev = staker.add_user_to_blacklist(&owner, &user).unwrap();
    assert_eq!(ev.old_status, UserStatus::Whitelisted);
    assert_eq!(ev.new_status, UserStatus::Blacklisted);
    assert!(staker.is_user_blacklisted(&user));
    let err = staker.add_user_to_blacklist(&owner, &user).unwrap_err();
    assert_eq!(err, ContractError::UserAlreadyBlacklisted);

    let ev = staker.clear_user_status(&owner, &user).unwrap();
    assert_eq!(ev.new_status, UserStatus::NoStatus);
    assert_eq!(staker.get_current_user_status(&user), UserStatus::NoStatus);
}

#[test]
fn get_validators_reports_registry_and_delegations() {
    let mut staker = setup();
    let owner = "owner".to_string();
    let validator_set = vec!["my-validator".to_string(), "other-validator".to_string()];
    staker
        .add_validator(&owner, &"other-validator".to_string(), &validator_set)
        .unwrap();
    staker
        .disable_validator(&owner, &"other-validator".to_string())
        .unwrap();
    let dels = vec![
        injective_staker::state::Delegation {
            validator: "my-validator".to_string(),
            staked: 7,
            rewards: 1,
        },
        injective_staker::state::Delegation {
            validator: "other-validator".to_string(),
            staked: 9,
            rewards: 0,
        },
    ];
    let resp = staker.get_validators(&dels);
    assert_eq!(resp.validators.len(), 2);
    assert_eq!(resp.validators[0].addr, "my-validator");
    assert_eq!(resp.validators[0].total_staked, 7);
    assert_eq!(resp.validators[0].state, ValidatorState::Enabled);
    assert_eq!(resp.validators[1].addr, "other-validator");
    assert_eq!(resp.validators[1].total_staked, 9);
    assert_eq!(resp.validators[1].state, ValidatorState::Disabled);
}
