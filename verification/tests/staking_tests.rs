use injective_staker::constants::{
    ONE_INJ, SHARE_PRICE_SCALING_FACTOR, UNBONDING_PERIOD_SECONDS,
};
use injective_staker::contract::instantiate;
use injective_staker::error::ContractError;
use injective_staker::msg::{Command, InstantiateMsg};
use injective_staker::state::{BlockInfo, Delegation, Staker};

const VALIDATOR: &str = "my-validator";

fn setup_with_user(user: &str) -> Staker {
    let msg = InstantiateMsg {
        owner: "owner".to_string(),
        treasury: "treasury".to_string(),
        default_validator: VALIDATOR.to_string(),
    };
    let validator_set = vec![VALIDATOR.to_string(), "other-validator".to_string()];
    let (mut staker, _) = instantiate(&msg, &validator_set).unwrap();
    staker
        .add_user_to_whitelist(&"owner".to_string(), &user.to_string())
        .unwrap();
    staker
}

fn dels(entries: &[(&str, u128, u128)]) -> Vec<Delegation> {
    entries
        .iter()
        .map(|(v, staked, rewards)| Delegation {
            validator: v.to_string(),
            staked: *staked,
            rewards: *rewards,
        })
        .collect()
}

#[test]
fn first_stake_mints_shares_one_to_one() {
    // staking one unit into an empty pool: the share price is exactly
    // (SCALING_FACTOR, 1) and one share unit is minted per asset unit
    let user = "user".to_string();
    let mut staker = setup_with_user(&user);
    let snapshot = dels(&[(VALIDATOR, 0, 0)]);
    let (cmd, ev) = staker.stake(&user, ONE_INJ, &snapshot).unwrap();

    match cmd {
        Command::Delegate { validator, amount } => {
            assert_eq!(validator, VALIDATOR);
            assert_eq!(amount, ONE_INJ);
        },
        _ => panic!("expected a delegate command"),
    }
    assert_eq!(ev.user, "user");
    assert_eq!(ev.amount, ONE_INJ);
    assert_eq!(ev.user_shares_minted, ONE_INJ);
    assert_eq!(ev.treasury_shares_minted, 0);
    assert_eq!(ev.total_staked, ONE_INJ);
    assert_eq!(ev.total_supply, ONE_INJ);
    assert_eq!(ev.share_price_num.hi, 0);
    assert_eq!(ev.share_price_num.lo, SHARE_PRICE_SCALING_FACTOR);
    assert_eq!(ev.share_price_denom.hi, 0);
    assert_eq!(ev.share_price_denom.lo, 1);
    assert_eq!(ev.user_balance, ONE_INJ);
    assert_eq!(staker.ledger.balance_of(&user), ONE_INJ);
    assert_eq!(staker.get_total_supply().total_supply, ONE_INJ);
}

#[test]
fn stake_requires_minimum_deposit() {
    let user = "user".to_string();
    let mut staker = setup_with_user(&user);
    let snapshot = dels(&[(VALIDATOR, 0, 0)]);
    let err = staker.stake(&user, ONE_INJ - 1, &snapshot).unwrap_err();
    assert_eq!(err, ContractError::DepositBelowMinDeposit);
}

#[test]
fn stake_requires_whitelisting_and_not_paused() {
    let user = "user".to_string();
    let mut staker = setup_with_user(&user);
    let snapshot = dels(&[(VALIDATOR, 0, 0)]);
    let err = staker
        .stake(&"stranger".to_string(), ONE_INJ, &snapshot)
        .unwrap_err();
    assert_eq!(err, ContractError::UserNotWhitelisted);
    staker.pause(&"owner".to_string()).unwrap();
    let err = staker.stake(&user, ONE_INJ, &snapshot).unwrap_err();
    assert_eq!(err, ContractError::ContractPaused);
}

#[test]
fn stake_to_disabled_validator_fails() {
    let user = "user".to_string();
    let mut staker = setup_with_user(&user);
    staker
        .disable_validator(&"owner".to_string(), &VALIDATOR.to_string())
        .unwrap();
    let snapshot = dels(&[(VALIDATOR, 0, 0)]);
    let err = staker
        .stake_to_specific_validator(&user, ONE_INJ, &VALIDATOR.to_string(), &snapshot)
        .unwrap_err();
    assert_eq!(err, ContractError::ValidatorNotEnabled);
    let err = staker
        .stake_to_specific_validator(&user, ONE_INJ, &"ghost".to_string(), &snapshot)
        .unwrap_err();
    assert_eq!(err, ContractError::ValidatorDoesNotExist);
}

#[test]
fn stake_sweeps_idle_rewards_and_mints_treasury_fee() {
    // second stake while the validator holds liquid rewards: the event books
    // the old float, the new float is the validator's rewards, and the
    // treasury is minted its fee cut
    let user = "user".to_string();
    let mut staker = setup_with_user(&user);
    staker.set_fee(&"owner".to_string(), 1000).unwrap(); // 10%
    let snapshot = dels(&[(VALIDATOR, 0, 0)]);
    staker.stake(&user, 100 * ONE_INJ, &snapshot).unwrap();

    // rewards accrue: 10 units on the validator
    let snapshot = dels(&[(VALIDATOR, 100 * ONE_INJ, 10 * ONE_INJ)]);
    let (cmd, ev) = staker.stake(&user, 100 * ONE_INJ, &snapshot).unwrap();

    // price: (100 staked + 0 idle) + 10 rewards net of 10% fee = 109 per 100
    // fee on the validator's 10 liquid rewards = 1 unit, converted at 1.09
    let expected_fee_shares = ONE_INJ * 100 / 109;
    assert_eq!(ev.treasury_shares_minted, expected_fee_shares);
    assert_eq!(staker.ledger.balance_of(&"treasury".to_string()), expected_fee_shares);
    let expected_user_shares = 100 * ONE_INJ * 100 / 109;
    assert_eq!(ev.user_shares_minted, expected_user_shares);
    assert_eq!(staker.contract_rewards, 10 * ONE_INJ);
    match cmd {
        Command::Delegate { validator, amount } => {
            assert_eq!(validator, VALIDATOR);
            // the deposit sweeps the previous idle float (zero here)
            assert_eq!(amount, 100 * ONE_INJ);
        },
        _ => panic!("expected a delegate command"),
    }
}

#[test]
fn unstake_zero_amount_fails() {
    let user = "user".to_string();
    let mut staker = setup_with_user(&user);
    let snapshot = dels(&[(VALIDATOR, 0, 0)]);
    let block = BlockInfo { height: 1, time: 1_000 };
    let err = staker.unstake(&user, 0, &snapshot, &block).unwrap_err();
    assert_eq!(err, ContractError::UnstakeAmountTooLow);
}

#[test]
fn unstake_beyond_balance_fails() {
    let user = "user".to_string();
    let mut staker = setup_with_user(&user);
    let snapshot = dels(&[(VALIDATOR, 0, 0)]);
    staker.stake(&user, 100 * ONE_INJ, &snapshot).unwrap();
    let snapshot = dels(&[(VALIDATOR, 100 * ONE_INJ, 0)]);
    let block = BlockInfo { height: 1, time: 1_000 };
    let err = staker
        .unstake(&user, 101 * ONE_INJ, &snapshot, &block)
        .unwrap_err();
    assert_eq!(err, ContractError::InsufficientTruINJBalance);
}

#[test]
fn unstake_max_withdraw_burns_all_shares_and_claims_full_value() {
    // staking, accruing rewards, then unstaking exactly the maximum pays the
    // full value: all shares burned, one claim created, claimable after the
    // unbonding period
    let user = "user".to_string();
    let mut staker = setup_with_user(&user);
    let snapshot = dels(&[(VALIDATOR, 0, 0)]);
    staker.stake(&user, 100 * ONE_INJ, &snapshot).unwrap();

    let snapshot = dels(&[(VALIDATOR, 100 * ONE_INJ, 10 * ONE_INJ)]);
    let max_withdraw = staker.get_max_withdraw(&snapshot, &user).max_withdraw;
    assert_eq!(max_withdraw, 110 * ONE_INJ);

    let block = BlockInfo { height: 5, time: 1_000 };
    let (cmd, ev) = staker
        .unstake(&user, max_withdraw, &snapshot, &block)
        .unwrap();
    assert_eq!(ev.amount, max_withdraw);
    assert_eq!(ev.user_shares_burned, 100 * ONE_INJ);
    assert_eq!(ev.user_balance, 0);
    assert_eq!(ev.expires_at, 1_000 + UNBONDING_PERIOD_SECONDS);
    assert_eq!(staker.ledger.balance_of(&user), 0);
    match cmd {
        Some(Command::Undelegate { validator, amount }) => {
            assert_eq!(validator, VALIDATOR);
            // only the delegated principal is undelegated; the excess comes
            // out of the validator's liquid rewards
            assert_eq!(amount, 100 * ONE_INJ);
        },
        _ => panic!("expected an undelegate command"),
    }
    // the excess was earmarked for the user, so no idle float remains
    assert_eq!(staker.contract_rewards, 0);

    // before maturity there is nothing to claim
    let err = staker.claim(&user, &block, 200 * ONE_INJ).unwrap_err();
    assert_eq!(err, ContractError::NothingToClaim);

    // after the unbonding period the claim pays exactly the requested value
    let matured = BlockInfo { height: 6, time: 1_000 + UNBONDING_PERIOD_SECONDS };
    let (cmd, ev) = staker.claim(&user, &matured, 110 * ONE_INJ).unwrap();
    assert_eq!(ev.amount, 110 * ONE_INJ);
    match cmd {
        Command::Send { to_address, amount } => {
            assert_eq!(to_address, "user");
            assert_eq!(amount, 110 * ONE_INJ);
        },
        _ => panic!("expected a send command"),
    }
    let err = staker.claim(&user, &matured, 110 * ONE_INJ).unwrap_err();
    assert_eq!(err, ContractError::NothingToClaim);
}

#[test]
fn unstake_dust_sweep_takes_entire_position() {
    // requesting max_withdrawable - min_deposit + 1 leaves dust below the
    // minimum deposit, so the whole position is swept: all shares burned and
    // the claim is for the full maximum, not the requested amount
    let user = "user".to_string();
    let mut staker = setup_with_user(&user);
    let snapshot = dels(&[(VALIDATOR, 0, 0)]);
    staker.stake(&user, 100 * ONE_INJ, &snapshot).unwrap();

    let snapshot = dels(&[(VALIDATOR, 100 * ONE_INJ, 10 * ONE_INJ)]);
    let max_withdraw = staker.get_max_withdraw(&snapshot, &user).max_withdraw;
    let requested = max_withdraw - ONE_INJ + 1;

    let block = BlockInfo { height: 5, time: 1_000 };
    let (_, ev) = staker.unstake(&user, requested, &snapshot, &block).unwrap();
    assert_eq!(ev.amount, max_withdraw);
    assert_eq!(ev.user_shares_burned, 100 * ONE_INJ);
    assert_eq!(staker.ledger.balance_of(&user), 0);
    let claimable = staker
        .get_claimable_amount(&user, &BlockInfo { height: 9, time: 1_000 + UNBONDING_PERIOD_SECONDS })
        .claimable_amount;
    assert_eq!(claimable, max_withdraw);
}

#[test]
fn unstake_from_unknown_validator_fails() {
    let user = "user".to_string();
    let mut staker = setup_with_user(&user);
    let snapshot = dels(&[(VALIDATOR, 0, 0)]);
    staker.stake(&user, 100 * ONE_INJ, &snapshot).unwrap();
    let snapshot = dels(&[(VALIDATOR, 100 * ONE_INJ, 0)]);
    let block = BlockInfo { height: 1, time: 1_000 };
    let err = staker
        .unstake_from_specific_validator(&user, &"ghost".to_string(), ONE_INJ, &snapshot, &block)
        .unwrap_err();
    assert_eq!(err, ContractError::ValidatorDoesNotExist);
}

#[test]
fn unstake_needs_validator_funds_to_cover_request() {
    // the second validator holds nothing, so unstaking from it cannot be
    // covered by its principal, its rewards, or the idle float
    let user = "user".to_string();
    let mut staker = setup_with_user(&user);
    let owner = "owner".to_string();
    let validator_set = vec![VALIDATOR.to_string(), "other-validator".to_string()];
    staker
        .add_validator(&owner, &"other-validator".to_string(), &validator_set)
        .unwrap();
    let snapshot = dels(&[(VALIDATOR, 0, 0), ("other-validator", 0, 0)]);
    staker.stake(&user, 100 * ONE_INJ, &snapshot).unwrap();
    let snapshot = dels(&[(VALIDATOR, 100 * ONE_INJ, 0), ("other-validator", 0, 0)]);
    let block = BlockInfo { height: 1, time: 1_000 };
    let err = staker
        .unstake_from_specific_validator(
            &user,
            &"other-validator".to_string(),
            50 * ONE_INJ,
            &snapshot,
            &block,
        )
        .unwrap_err();
    assert_eq!(err, ContractError::InsufficientValidatorFunds);
}

#[test]
fn unstake_tiny_amount_at_high_price_burns_no_shares_and_fails() {
    let user = "user".to_string();
    let mut staker = setup_with_user(&user);
    let snapshot = dels(&[(VALIDATOR, 0, 0)]);
    staker.stake(&user, ONE_INJ, &snapshot).unwrap();
    // the pool doubles: one share unit is now worth two asset units
    let snapshot = dels(&[(VALIDATOR, ONE_INJ, ONE_INJ)]);
    let block = BlockInfo { height: 1, time: 1_000 };
    // one smallest asset unit converts to zero shares at this price
    let err = staker.unstake(&user, 1, &snapshot, &block).unwrap_err();
    assert_eq!(err, ContractError::SharesAmountTooLow);
}

#[test]
fn claim_is_capped_by_non_reward_liquidity() {
    // the contract never pays reward float out as principal: if the matured
    // claims exceed balance minus ContractRewards, the claim fails whole
    let user = "user".to_string();
    let mut staker = setup_with_user(&user);
    let snapshot = dels(&[(VALIDATOR, 0, 0)]);
    staker.stake(&user, 100 * ONE_INJ, &snapshot).unwrap();
    let snapshot = dels(&[(VALIDATOR, 100 * ONE_INJ, 0)]);
    let block = BlockInfo { height: 5, time: 1_000 };
    staker.unstake(&user, 50 * ONE_INJ, &snapshot, &block).unwrap();

    let matured = BlockInfo { height: 9, time: 1_000 + UNBONDING_PERIOD_SECONDS };
    // pretend some reward float arrived and sits on the books
    staker.contract_rewards = 10 * ONE_INJ;
    // balance 55: only 45 are free, claims total 50
    let err = staker.claim(&user, &matured, 55 * ONE_INJ).unwrap_err();
    assert_eq!(err, ContractError::InsufficientStakerFunds);
    // with 60 on the books, 50 are free and the claim succeeds
    let (_, ev) = staker.claim(&user, &matured, 60 * ONE_INJ).unwrap();
    assert_eq!(ev.amount, 50 * ONE_INJ);
}

#[test]
fn compound_rewards_sweeps_all_validators() {
    let user = "user".to_string();
    let mut staker = setup_with_user(&user);
    let owner = "owner".to_string();
    staker.set_fee(&owner, 1000).unwrap(); // 10%
    let validator_set = vec![VALIDATOR.to_string(), "other-validator".to_string()];
    staker
        .add_validator(&owner, &"other-validator".to_string(), &validator_set)
        .unwrap();
    let snapshot = dels(&[(VALIDATOR, 0, 0), ("other-validator", 0, 0)]);
    staker.stake(&user, 100 * ONE_INJ, &snapshot).unwrap();

    // no rewards anywhere: a no-op
    let snapshot = dels(&[(VALIDATOR, 100 * ONE_INJ, 0), ("other-validator", 0, 0)]);
    let (cmds, ev) = staker.compound_rewards(&snapshot).unwrap();
    assert!(cmds.is_empty());
    assert!(ev.is_none());

    // rewards on one validator: withdraw + restake commands and a fee mint
    let snapshot = dels(&[(VALIDATOR, 100 * ONE_INJ, 10 * ONE_INJ), ("other-validator", 0, 0)]);
    let treasury_before = staker.ledger.balance_of(&"treasury".to_string());
    let (cmds, ev) = staker.compound_rewards(&snapshot).unwrap();
    assert_eq!(cmds.len(), 2);
    match &cmds[0] {
        Command::WithdrawReward { validator } => assert_eq!(validator, VALIDATOR),
        _ => panic!("expected a withdraw command"),
    }
    match &cmds[1] {
        Command::Restake { validator, amount } => {
            assert_eq!(validator, VALIDATOR);
            assert_eq!(*amount, 10 * ONE_INJ);
        },
        _ => panic!("expected a restake command"),
    }
    let ev = ev.unwrap();
    assert_eq!(ev.amount, 10 * ONE_INJ);
    // 10% of 10 units converted at the pre-compounding price of 1.09
    assert_eq!(ev.treasury_shares_minted, ONE_INJ * 100 / 109);
    assert_eq!(
        staker.ledger.balance_of(&"treasury".to_string()),
        treasury_before + ONE_INJ * 100 / 109
    );
}

#[test]
fn restake_folds_idle_float_into_default_validator() {
    let user = "user".to_string();
    let mut staker = setup_with_user(&user);
    let contract = "staker-contract".to_string();
    staker.contract_rewards = 3 * ONE_INJ;

    let err = staker
        ._restake(&user, &contract, ONE_INJ, &VALIDATOR.to_string())
        .unwrap_err();
    assert_eq!(err, ContractError::Unauthorized);

    // restaking to a non-default validator leaves the float alone
    let cmd = staker
        ._restake(&contract, &contract, ONE_INJ, &"other-validator".to_string())
        .unwrap();
    match cmd {
        Command::Delegate { validator, amount } => {
            assert_eq!(validator, "other-validator");
            assert_eq!(amount, ONE_INJ);
        },
        _ => panic!("expected a delegate command"),
    }
    assert_eq!(staker.contract_rewards, 3 * ONE_INJ);

    // restaking to the default validator folds the float in and zeroes it
    let cmd = staker
        ._restake(&contract, &contract, ONE_INJ, &VALIDATOR.to_string())
        .unwrap();
    match cmd {
        Command::Delegate { validator, amount } => {
            assert_eq!(validator, VALIDATOR);
            assert_eq!(amount, 4 * ONE_INJ);
        },
        _ => panic!("expected a delegate command"),
    }
    assert_eq!(staker.contract_rewards, 0);
}
