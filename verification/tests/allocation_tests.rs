use injective_staker::constants::{ONE_INJ, SHARE_PRICE_SCALING_FACTOR};
use injective_staker::contract::instantiate;
use injective_staker::error::ContractError;
use injective_staker::msg::{Command, InstantiateMsg};
use injective_staker::state::{Delegation, Staker};

const VALIDATOR: &str = "my-validator";

fn setup_with_user(user: &str) -> Staker {
    let msg = InstantiateMsg {
        owner: "owner".to_string(),
        treasury: "treasury".to_string(),
        default_validator: VALIDATOR.to_string(),
    };
    let validator_set = vec![VALIDATOR.to_string()];
    let (mut staker, _) = instantiate(&msg, &validator_set).unwrap();
    staker
        .add_user_to_whitelist(&"owner".to_string(), &user.to_string())
        .unwrap();
    staker
}

fn dels(entries: &[(&str, u128, u128)]) -> Vec<Delegation> {
    entries
        .iter()
        .map(|(v, staked, rewards)| Delegation {
            validator: v.to_string(),
            staked: *staked,
            rewards: *rewards,
        })
        .collect()
}

/// Staker where "alice" staked 100 units at price one.
fn setup_staked() -> Staker {
    let mut staker = setup_with_user("alice");
    let snapshot = dels(&[(VALIDATOR, 0, 0)]);
    staker
        .stake(&"alice".to_string(), 100 * ONE_INJ, &snapshot)
        .unwrap();
    staker
}

#[test]
fn allocate_rejects_self_and_small_amounts() {
    let mut staker = setup_staked();
    let snapshot = dels(&[(VALIDATOR, 100 * ONE_INJ, 0)]);
    let err = staker
        .allocate("alice".to_string(), "alice".to_string(), 10 * ONE_INJ, &snapshot)
        .unwrap_err();
    assert_eq!(err, ContractError::InvalidRecipient);
    let err = staker
        .allocate("alice".to_string(), "bob".to_string(), ONE_INJ - 1, &snapshot)
        .unwrap_err();
    assert_eq!(err, ContractError::AllocationUnderOneInj);
}

#[test]
fn allocate_stamps_current_price() {
    let mut staker = setup_staked();
    let snapshot = dels(&[(VALIDATOR, 100 * ONE_INJ, 0)]);
    let ev = staker
        .allocate("alice".to_string(), "bob".to_string(), 10 * ONE_INJ, &snapshot)
        .unwrap();
    assert_eq!(ev.user, "alice");
    assert_eq!(ev.recipient, "bob");
    assert_eq!(ev.amount, 10 * ONE_INJ);
    assert_eq!(ev.total_amount, 10 * ONE_INJ);
    assert_eq!(ev.total_allocated_amount, 10 * ONE_INJ);
    let allocs = staker.get_allocations(&"alice".to_string()).allocations;
    assert_eq!(allocs.len(), 1);
    assert_eq!(allocs[0].recipient, "bob");
    assert_eq!(allocs[0].inj_amount, 10 * ONE_INJ);
}

#[test]
fn allocations_merge_keeps_combined_share_worth() {
    // allocating at price one and again at price two must behave, for
    // future distributions, as the two tranches would separately:
    // 10 units at 1.0 are worth 10 shares, 10 units at 2.0 are worth 5
    let mut staker = setup_staked();
    let snapshot_p1 = dels(&[(VALIDATOR, 100 * ONE_INJ, 0)]);
    staker
        .allocate("alice".to_string(), "bob".to_string(), 10 * ONE_INJ, &snapshot_p1)
        .unwrap();
    // rewards double the pool: price becomes 2.0
    let snapshot_p2 = dels(&[(VALIDATOR, 100 * ONE_INJ, 100 * ONE_INJ)]);
    let ev = staker
        .allocate("alice".to_string(), "bob".to_string(), 10 * ONE_INJ, &snapshot_p2)
        .unwrap();
    assert_eq!(ev.total_amount, 20 * ONE_INJ);

    // merged record: numerator 20 * scaling, denominator 10 + 5 shares
    let total = staker.get_total_allocated(&"alice".to_string());
    assert_eq!(total.total_allocated_amount, 20 * ONE_INJ);
    assert_eq!(total.total_allocated_share_price_denom.hi, 0);
    assert_eq!(total.total_allocated_share_price_denom.lo, 15 * ONE_INJ);
    // numerator = 20e18 * 1e18, which spills into wide limbs only above
    // 2^128; check the exact value through its limbs
    let expected_num = 20 * (ONE_INJ as u128) as u128;
    let expected = (expected_num as u128).checked_mul(SHARE_PRICE_SCALING_FACTOR).unwrap();
    assert_eq!(total.total_allocated_share_price_num.hi, 0);
    assert_eq!(total.total_allocated_share_price_num.lo, expected);
}

#[test]
fn deallocate_to_zero_deletes_record() {
    let mut staker = setup_staked();
    let snapshot = dels(&[(VALIDATOR, 100 * ONE_INJ, 0)]);
    staker
        .allocate("alice".to_string(), "bob".to_string(), 10 * ONE_INJ, &snapshot)
        .unwrap();
    staker
        .allocate("alice".to_string(), "carol".to_string(), 5 * ONE_INJ, &snapshot)
        .unwrap();

    let ev = staker
        .deallocate(&"alice".to_string(), &"bob".to_string(), 10 * ONE_INJ)
        .unwrap();
    assert_eq!(ev.total_amount, 0);
    let allocs = staker.get_allocations(&"alice".to_string()).allocations;
    assert_eq!(allocs.len(), 1);
    assert_eq!(allocs[0].recipient, "carol");

    // a subsequent distribute to the removed pair finds no allocation
    let err = staker
        .distribute_rewards(&"alice".to_string(), &"bob".to_string(), false, 0, &snapshot)
        .unwrap_err();
    assert_eq!(err, ContractError::NoAllocationToRecipient);
}

#[test]
fn deallocate_rejects_bad_amounts() {
    let mut staker = setup_staked();
    let snapshot = dels(&[(VALIDATOR, 100 * ONE_INJ, 0)]);
    let err = staker
        .deallocate(&"alice".to_string(), &"bob".to_string(), ONE_INJ)
        .unwrap_err();
    assert_eq!(err, ContractError::NoAllocationToRecipient);
    staker
        .allocate("alice".to_string(), "bob".to_string(), 2 * ONE_INJ, &snapshot)
        .unwrap();
    let err = staker
        .deallocate(&"alice".to_string(), &"bob".to_string(), 3 * ONE_INJ)
        .unwrap_err();
    assert_eq!(err, ContractError::ExcessiveDeallocation);
    // leaving a remainder below one whole unit is rejected
    let err = staker
        .deallocate(&"alice".to_string(), &"bob".to_string(), ONE_INJ + 1)
        .unwrap_err();
    assert_eq!(err, ContractError::AllocationUnderOneInj);
    // a partial deallocation keeps the record with the remainder
    staker
        .deallocate(&"alice".to_string(), &"bob".to_string(), ONE_INJ)
        .unwrap();
    let allocs = staker.get_allocations(&"alice".to_string()).allocations;
    assert_eq!(allocs[0].inj_amount, ONE_INJ);
}

#[test]
fn distribute_rewards_pays_shares_and_fee_then_second_call_is_noop() {
    // alice allocates 10 units to bob at price one; the pool doubles; the
    // distribution pays the owed share delta net of a 10% fee, and a second
    // immediate call distributes nothing
    let mut staker = setup_staked();
    staker.set_distribution_fee(&"owner".to_string(), 1000).unwrap();
    let snapshot_p1 = dels(&[(VALIDATOR, 100 * ONE_INJ, 0)]);
    staker
        .allocate("alice".to_string(), "bob".to_string(), 10 * ONE_INJ, &snapshot_p1)
        .unwrap();

    let snapshot_p2 = dels(&[(VALIDATOR, 100 * ONE_INJ, 100 * ONE_INJ)]);
    let (cmds, ev) = staker
        .distribute_rewards(&"alice".to_string(), &"bob".to_string(), false, 0, &snapshot_p2)
        .unwrap();
    let ev = ev.unwrap();
    // owed: 10 shares at the old price minus 5 at the new one
    assert_eq!(ev.fees, ONE_INJ / 2); // 10% of 5 shares
    assert_eq!(ev.shares, 5 * ONE_INJ - ONE_INJ / 2);
    assert_eq!(ev.inj_amount, 9 * ONE_INJ); // 4.5 shares at price 2.0
    assert!(!ev.in_inj);
    assert!(cmds.is_empty()); // nothing attached, nothing refunded
    assert_eq!(
        staker.ledger.balance_of(&"bob".to_string()),
        5 * ONE_INJ - ONE_INJ / 2
    );
    assert_eq!(staker.ledger.balance_of(&"treasury".to_string()), ONE_INJ / 2);
    assert_eq!(
        staker.ledger.balance_of(&"alice".to_string()),
        100 * ONE_INJ - 5 * ONE_INJ
    );

    // the allocation is reconciled: a second call distributes nothing
    let (cmds, ev) = staker
        .distribute_rewards(&"alice".to_string(), &"bob".to_string(), false, 0, &snapshot_p2)
        .unwrap();
    assert!(ev.is_none());
    assert!(cmds.is_empty());
}

#[test]
fn distribute_no_op_on_non_increasing_price_refunds_attached() {
    let mut staker = setup_staked();
    let snapshot = dels(&[(VALIDATOR, 100 * ONE_INJ, 0)]);
    staker
        .allocate("alice".to_string(), "bob".to_string(), 10 * ONE_INJ, &snapshot)
        .unwrap();
    let bob_before = staker.ledger.balance_of(&"bob".to_string());
    let (cmds, ev) = staker
        .distribute_rewards(&"alice".to_string(), &"bob".to_string(), true, 7 * ONE_INJ, &snapshot)
        .unwrap();
    assert!(ev.is_none());
    assert_eq!(cmds.len(), 1);
    match &cmds[0] {
        Command::Send { to_address, amount } => {
            assert_eq!(to_address, "alice");
            assert_eq!(*amount, 7 * ONE_INJ);
        },
        _ => panic!("expected a refund"),
    }
    assert_eq!(staker.ledger.balance_of(&"bob".to_string()), bob_before);
}

#[test]
fn distribute_rewards_in_base_asset_sends_to_recipient() {
    let mut staker = setup_staked();
    let snapshot_p1 = dels(&[(VALIDATOR, 100 * ONE_INJ, 0)]);
    staker
        .allocate("alice".to_string(), "bob".to_string(), 10 * ONE_INJ, &snapshot_p1)
        .unwrap();
    let snapshot_p2 = dels(&[(VALIDATOR, 100 * ONE_INJ, 100 * ONE_INJ)]);

    // not enough attached: rejected
    let err = staker
        .distribute_rewards(&"alice".to_string(), &"bob".to_string(), true, ONE_INJ, &snapshot_p2)
        .unwrap_err();
    assert_eq!(err, ContractError::InsufficientInjAttached);

    // owed 5 shares, worth 10 units at price 2.0; 12 attached, 2 refunded
    let (cmds, ev) = staker
        .distribute_rewards(
            &"alice".to_string(),
            &"bob".to_string(),
            true,
            12 * ONE_INJ,
            &snapshot_p2,
        )
        .unwrap();
    let ev = ev.unwrap();
    assert_eq!(ev.inj_amount, 10 * ONE_INJ);
    assert_eq!(ev.shares, 5 * ONE_INJ);
    assert_eq!(ev.fees, 0);
    assert_eq!(cmds.len(), 2);
    match &cmds[0] {
        Command::Send { to_address, amount } => {
            assert_eq!(to_address, "bob");
            assert_eq!(*amount, 10 * ONE_INJ);
        },
        _ => panic!("expected the payout"),
    }
    match &cmds[1] {
        Command::Send { to_address, amount } => {
            assert_eq!(to_address, "alice");
            assert_eq!(*amount, 2 * ONE_INJ);
        },
        _ => panic!("expected the refund"),
    }
    // shares are not moved in this mode
    assert_eq!(staker.ledger.balance_of(&"bob".to_string()), 0);
}

#[test]
fn distribute_rewards_requires_an_allocation() {
    let mut staker = setup_staked();
    let snapshot = dels(&[(VALIDATOR, 100 * ONE_INJ, 0)]);
    let err = staker
        .distribute_rewards(&"alice".to_string(), &"bob".to_string(), false, 0, &snapshot)
        .unwrap_err();
    assert_eq!(err, ContractError::NoAllocations);
    staker
        .allocate("alice".to_string(), "carol".to_string(), ONE_INJ, &snapshot)
        .unwrap();
    let err = staker
        .distribute_rewards(&"alice".to_string(), &"bob".to_string(), false, 0, &snapshot)
        .unwrap_err();
    assert_eq!(err, ContractError::NoAllocationToRecipient);
}

#[test]
fn distribute_all_sweeps_every_allocation() {
    let mut staker = setup_staked();
    let snapshot_p1 = dels(&[(VALIDATOR, 100 * ONE_INJ, 0)]);
    staker
        .allocate("alice".to_string(), "bob".to_string(), 10 * ONE_INJ, &snapshot_p1)
        .unwrap();
    staker
        .allocate("alice".to_string(), "carol".to_string(), 20 * ONE_INJ, &snapshot_p1)
        .unwrap();

    let snapshot_p2 = dels(&[(VALIDATOR, 100 * ONE_INJ, 100 * ONE_INJ)]);
    let (cmds, events, all_ev) = staker
        .distribute_all(&"alice".to_string(), false, 0, &snapshot_p2)
        .unwrap();
    assert_eq!(all_ev.user, "alice");
    assert_eq!(events.len(), 2);
    assert_eq!(events[0].recipient, "bob");
    assert_eq!(events[0].shares, 5 * ONE_INJ);
    assert_eq!(events[1].recipient, "carol");
    assert_eq!(events[1].shares, 10 * ONE_INJ);
    assert!(cmds.is_empty());
    assert_eq!(staker.ledger.balance_of(&"bob".to_string()), 5 * ONE_INJ);
    assert_eq!(staker.ledger.balance_of(&"carol".to_string()), 10 * ONE_INJ);

    // everything reconciled: another sweep distributes nothing
    let (cmds, events, _) = staker
        .distribute_all(&"alice".to_string(), false, 0, &snapshot_p2)
        .unwrap();
    assert!(events.is_empty());
    assert!(cmds.is_empty());
}

#[test]
fn distribute_all_in_base_asset_pays_each_recipient_and_refunds_rest() {
    let mut staker = setup_staked();
    let snapshot_p1 = dels(&[(VALIDATOR, 100 * ONE_INJ, 0)]);
    staker
        .allocate("alice".to_string(), "bob".to_string(), 10 * ONE_INJ, &snapshot_p1)
        .unwrap();
    staker
        .allocate("alice".to_string(), "carol".to_string(), 20 * ONE_INJ, &snapshot_p1)
        .unwrap();

    let snapshot_p2 = dels(&[(VALIDATOR, 100 * ONE_INJ, 100 * ONE_INJ)]);
    // owed at price 2.0: bob 5 shares worth 10 units, carol 10 shares worth 20
    let (cmds, events, _) = staker
        .distribute_all(&"alice".to_string(), true, 40 * ONE_INJ, &snapshot_p2)
        .unwrap();
    assert_eq!(events.len(), 2);
    assert_eq!(cmds.len(), 3);
    match &cmds[0] {
        Command::Send { to_address, amount } => {
            assert_eq!(to_address, "bob");
            assert_eq!(*amount, 10 * ONE_INJ);
        },
        _ => panic!("expected the first payout"),
    }
    match &cmds[1] {
        Command::Send { to_address, amount } => {
            assert_eq!(to_address, "carol");
            assert_eq!(*amount, 20 * ONE_INJ);
        },
        _ => panic!("expected the second payout"),
    }
    match &cmds[2] {
        Command::Send { to_address, amount } => {
            assert_eq!(to_address, "alice");
            assert_eq!(*amount, 10 * ONE_INJ);
        },
        _ => panic!("expected the refund"),
    }
    // base-asset mode moves no receipt shares and no fee was set
    assert_eq!(staker.ledger.balance_of(&"bob".to_string()), 0);
    assert_eq!(staker.ledger.balance_of(&"carol".to_string()), 0);
    assert_eq!(staker.ledger.balance_of(&"alice".to_string()), 100 * ONE_INJ);
}

#[test]
fn distribute_all_in_base_asset_fails_when_attached_runs_out() {
    let mut staker = setup_staked();
    let snapshot_p1 = dels(&[(VALIDATOR, 100 * ONE_INJ, 0)]);
    staker
        .allocate("alice".to_string(), "bob".to_string(), 10 * ONE_INJ, &snapshot_p1)
        .unwrap();
    let snapshot_p2 = dels(&[(VALIDATOR, 100 * ONE_INJ, 100 * ONE_INJ)]);
    // owed 10 units but only 5 attached
    let err = staker
        .distribute_all(&"alice".to_string(), true, 5 * ONE_INJ, &snapshot_p2)
        .unwrap_err();
    assert_eq!(err, ContractError::InsufficientInjAttached);
}

#[test]
fn get_distribution_amounts_previews_payouts() {
    let mut staker = setup_staked();
    staker.set_distribution_fee(&"owner".to_string(), 1000).unwrap();
    let snapshot_p1 = dels(&[(VALIDATOR, 100 * ONE_INJ, 0)]);
    staker
        .allocate("alice".to_string(), "bob".to_string(), 10 * ONE_INJ, &snapshot_p1)
        .unwrap();
    staker
        .allocate("alice".to_string(), "carol".to_string(), 10 * ONE_INJ, &snapshot_p1)
        .unwrap();

    let snapshot_p2 = dels(&[(VALIDATOR, 100 * ONE_INJ, 100 * ONE_INJ)]);
    let single = staker.get_distribution_amounts(
        &"alice".to_string(),
        Some(&"bob".to_string()),
        &snapshot_p2,
    );
    assert_eq!(single.truinj_amount, 5 * ONE_INJ - ONE_INJ / 2);
    assert_eq!(single.distribution_fee, ONE_INJ / 2);
    assert_eq!(single.inj_amount, 9 * ONE_INJ);

    let all = staker.get_distribution_amounts(&"alice".to_string(), None, &snapshot_p2);
    assert_eq!(all.truinj_amount, 2 * (5 * ONE_INJ - ONE_INJ / 2));
    assert_eq!(all.distribution_fee, 2 * (ONE_INJ / 2));
    assert_eq!(all.inj_amount, 2 * (9 * ONE_INJ));

    let none = staker.get_distribution_amounts(
        &"alice".to_string(),
        Some(&"nobody".to_string()),
        &snapshot_p2,
    );
    assert_eq!(none.inj_amount, 0);
    assert_eq!(none.truinj_amount, 0);
    assert_eq!(none.distribution_fee, 0);
}

#[test]
fn get_claimable_assets_lists_only_the_users_claims() {
    let mut staker = setup_staked();
    staker
        .add_user_to_whitelist(&"owner".to_string(), &"dave".to_string())
        .unwrap();
    let snapshot = dels(&[(VALIDATOR, 100 * ONE_INJ, 0)]);
    staker
        .stake(&"dave".to_string(), 50 * ONE_INJ, &snapshot)
        .unwrap();
    let snapshot = dels(&[(VALIDATOR, 150 * ONE_INJ, 0)]);
    let block = injective_staker::state::BlockInfo { height: 1, time: 500 };
    staker
        .unstake(&"alice".to_string(), 10 * ONE_INJ, &snapshot, &block)
        .unwrap();
    staker
        .unstake(&"dave".to_string(), 20 * ONE_INJ, &snapshot, &block)
        .unwrap();
    staker
        .unstake(&"alice".to_string(), 30 * ONE_INJ, &snapshot, &block)
        .unwrap();

    let claims = staker.get_claimable_assets(&"alice".to_string()).claims;
    assert_eq!(claims.len(), 2);
    assert_eq!(claims[0].amount, 10 * ONE_INJ);
    assert_eq!(claims[1].amount, 30 * ONE_INJ);
    assert!(claims.iter().all(|c| c.user == "alice"));
}
