//! The distribution engine: reconciles allocations against the current
//! share price and pays the accrued reward delta to the recipients, net of
//! a distribution fee that always goes to the treasury in receipt shares.
//!
//! An allocation whose snapshot price is at or above the current price is
//! skipped entirely: slashing can make shares dearer, and then nothing is
//! owed.

use vstd::prelude::*;

use crate::constants::{FEE_PRECISION, SHARE_PRICE_SCALING_FACTOR};
use crate::error::ContractError;
use crate::math::{
    convert_to_assets, spec_assets_for_shares_down, spec_shares_for_assets, u256_div, u256_ge,
    wide_ratio_diff, U256,
};
use crate::msg::{
    Command, DistributedAllEvent, DistributedRewardsEvent, DistributionInfo,
    GetDistributionAmountsResponse,
};
use crate::allocations::{spec_alloc_idx, spec_total_allocated_in, lemma_alloc_idx};
use crate::state::{
    spec_find_allocation, spec_total_rewards, spec_total_staked, unique_allocation_keys,
    Allocation, Delegation, Staker, UserStatus,
};

verus! {

/// Whether an allocation is owed anything at the current price: the
/// comparison is on the scaled integer quotients, exactly as stored prices
/// are compared to the global one.
pub open spec fn spec_distributable(n1: int, d1: int, gn: int, gd: int) -> bool {
    n1 / d1 < gn / gd
}

/// The reward delta owed on an allocation, in shares before fees: its share
/// equivalent at the snapshot price minus its share equivalent now.
pub open spec fn spec_shares_before_fees(a: int, n1: int, d1: int, gn: int, gd: int) -> int {
    spec_shares_for_assets(a, n1, d1) - spec_shares_for_assets(a, gn, gd)
}

/// The three amounts of one distribution: base asset to pay, shares to
/// move, and the fee in shares for the treasury.
pub open spec fn spec_dist_amounts(a: int, n1: int, d1: int, gn: int, gd: int, fee: int) -> (
    int,
    int,
    int,
) {
    let sbf = spec_shares_before_fees(a, n1, d1, gn, gd);
    let fees = sbf * fee / (FEE_PRECISION as int);
    let shares = sbf - fees;
    let assets = spec_assets_for_shares_down(shares, gn, gd);
    (assets, shares, fees)
}

/// Cross-multiplied order carries over to the integer quotients.
pub proof fn lemma_div_cross_order(x: int, y: int, p: int, q: int)
    requires
        p > 0,
        q > 0,
        x >= 0,
        y >= 0,
        x * q >= y * p,
    ensures
        x / p >= y / q,
{
    assert(x * q >= 0 && y * p >= 0) by (nonlinear_arith)
        requires
            x >= 0,
            y >= 0,
            p > 0,
            q > 0,
    ;
    assert(q * p > 0) by (nonlinear_arith)
        requires
            p > 0,
            q > 0,
    ;
    vstd::arithmetic::div_mod::lemma_div_is_ordered(y * p, x * q, q * p);
    assert((x * q) / (q * p) == x / p) by {
        vstd::arithmetic::div_mod::lemma_div_denominator(x * q, q, p);
        assert((x * q) / q == x) by {
            vstd::arithmetic::div_mod::lemma_div_multiples_vanish(x, q);
            assert(x * q == q * x) by (nonlinear_arith);
        }
    }
    assert((y * p) / (q * p) == y / q) by {
        assert(q * p == p * q) by (nonlinear_arith);
        vstd::arithmetic::div_mod::lemma_div_denominator(y * p, p, q);
        assert((y * p) / p == y) by {
            vstd::arithmetic::div_mod::lemma_div_multiples_vanish(y, p);
            assert(y * p == p * y) by (nonlinear_arith);
        }
    }
}

/// A strictly higher current price means the snapshot share equivalent is
/// at least the current one: the shares-owed subtraction cannot underflow.
pub proof fn lemma_distributable_mono(a: int, n1: int, d1: int, gn: int, gd: int)
    requires
        a >= 0,
        n1 > 0,
        gn > 0,
        d1 > 0,
        gd > 0,
        n1 / d1 < gn / gd,
    ensures
        spec_shares_for_assets(a, n1, d1) >= spec_shares_for_assets(a, gn, gd),
{
    let s = SHARE_PRICE_SCALING_FACTOR as int;
    if n1 * gd >= gn * d1 {
        lemma_div_cross_order(n1, gn, d1, gd);
        assert(false);
    }
    assert((d1 * a * s) * gn >= (gd * a * s) * n1) by (nonlinear_arith)
        requires
            d1 * gn >= gd * n1,
            a >= 0,
            s > 0,
            d1 > 0,
            gd > 0,
            n1 > 0,
            gn > 0,
    ;
    assert(d1 * a * s >= 0 && gd * a * s >= 0) by (nonlinear_arith)
        requires
            d1 > 0,
            gd > 0,
            a >= 0,
            s > 0,
    ;
    lemma_div_cross_order(d1 * a * s, gd * a * s, n1, gn);
}

/// The fee taken from the owed shares never exceeds them.
pub proof fn lemma_fee_le_shares(sbf: int, fee: int)
    requires
        sbf >= 0,
        0 <= fee < FEE_PRECISION,
    ensures
        0 <= sbf * fee / (FEE_PRECISION as int) <= sbf,
{
    let p = FEE_PRECISION as int;
    assert(0 <= sbf * fee <= sbf * p) by (nonlinear_arith)
        requires
            sbf >= 0,
            0 <= fee < p,
    ;
    vstd::arithmetic::div_mod::lemma_div_pos_is_pos(sbf * fee, p);
    vstd::arithmetic::div_mod::lemma_div_is_ordered(sbf * fee, sbf * p, p);
    assert((sbf * p) / p == sbf) by {
        vstd::arithmetic::div_mod::lemma_div_multiples_vanish(sbf, p);
        assert(sbf * p == p * sbf) by (nonlinear_arith);
    }
}

/// For a given allocation, computes the base-asset amount and the receipt
/// shares required for its distribution, and the fee in shares that goes to
/// the treasury.
pub fn calculate_distribution_amounts(
    allocation: &Allocation,
    global_price_num: &U256,
    global_price_denom: &U256,
    distribution_fee: u16,
) -> (r: Result<(u128, u128, u128), ContractError>)
    requires
        allocation.share_price_num.val() > 0,
        global_price_num.val() > 0,
        global_price_denom.val() > 0,
        distribution_fee < FEE_PRECISION,
        spec_shares_for_assets(
            allocation.inj_amount as int,
            allocation.share_price_num.val(),
            allocation.share_price_denom.val(),
        ) >= spec_shares_for_assets(
            allocation.inj_amount as int,
            global_price_num.val(),
            global_price_denom.val(),
        ),
        ({
            let sbf = spec_shares_before_fees(
                allocation.inj_amount as int,
                allocation.share_price_num.val(),
                allocation.share_price_denom.val(),
                global_price_num.val(),
                global_price_denom.val(),
            );
            sbf <= u128::MAX ==> sbf * distribution_fee <= u128::MAX
        }),
    ensures
        ({
            let t = spec_dist_amounts(
                allocation.inj_amount as int,
                allocation.share_price_num.val(),
                allocation.share_price_denom.val(),
                global_price_num.val(),
                global_price_denom.val(),
                distribution_fee as int,
            );
            let sbf = spec_shares_before_fees(
                allocation.inj_amount as int,
                allocation.share_price_num.val(),
                allocation.share_price_denom.val(),
                global_price_num.val(),
                global_price_denom.val(),
            );
            match r {
                Ok((assets, shares, fees)) => sbf <= u128::MAX && assets as int == t.0
                    && shares as int == t.1 && fees as int == t.2 && t.0 <= u128::MAX,
                Err(ContractError::Overflow) => sbf > u128::MAX || (sbf <= u128::MAX && t.0
                    > u128::MAX),
                Err(_) => false,
            }
        }),
{
    let shares_before_fees = match wide_ratio_diff(
        allocation.inj_amount,
        &allocation.share_price_denom,
        &allocation.share_price_num,
        global_price_denom,
        global_price_num,
        SHARE_PRICE_SCALING_FACTOR,
    ) {
        Ok(v) => v,
        Err(e) => {
            return Err(e);
        },
    };
    proof {
        lemma_fee_le_shares(shares_before_fees as int, distribution_fee as int);
    }
    let fees: u128 = shares_before_fees * (distribution_fee as u128) / (FEE_PRECISION as u128);
    let shares_to_distribute = shares_before_fees - fees;
    let assets_to_distribute = match convert_to_assets(
        shares_to_distribute,
        global_price_num,
        global_price_denom,
        false,
    ) {
        Ok(v) => v,
        Err(e) => {
            return Err(e);
        },
    };
    Ok((assets_to_distribute, shares_to_distribute, fees))
}

impl Staker {
    /// Whether an allocator holds any allocation at all.
    pub fn has_allocations(&self, allocator: &String) -> (r: bool)
        ensures
            r == exists|j: int|
                0 <= j < self.allocations@.len() && (#[trigger] self.allocations@[j]).allocator@
                    == allocator@,
    {
        let n = self.allocations.len();
        let mut i: usize = 0;
        while i < n
            invariant
                n == self.allocations@.len(),
                0 <= i <= n,
                forall|j: int|
                    0 <= j < i ==> (#[trigger] self.allocations@[j]).allocator@ != allocator@,
            decreases n - i,
        {
            if self.allocations[i].allocator == *allocator {
                return true;
            }
            i += 1;
        }
        false
    }

    /// Reconciles the allocation at one index against the current price:
    /// pays the owed reward delta (in the base asset or in shares), moves
    /// the fee to the treasury, and advances the snapshot price. Returns
    /// nothing when the price has not increased; the attached base asset is
    /// then left untouched.
    fn internal_distribute(
        &mut self,
        idx: usize,
        in_inj: bool,
        global_price_num: &U256,
        global_price_denom: &U256,
        attached_inj_amount: u128,
    ) -> (r: Result<Option<DistributionInfo>, ContractError>)
        requires
            old(self).wf(),
            idx < old(self).allocations@.len(),
            old(self).allocations@[idx as int].share_price_num.val() > 0,
            old(self).allocations@[idx as int].share_price_denom.val() > 0,
            global_price_denom.val() > 0,
            ({
                let a = old(self).allocations@[idx as int];
                let sbf = spec_shares_before_fees(
                    a.inj_amount as int,
                    a.share_price_num.val(),
                    a.share_price_denom.val(),
                    global_price_num.val(),
                    global_price_denom.val(),
                );
                (spec_distributable(
                    a.share_price_num.val(),
                    a.share_price_denom.val(),
                    global_price_num.val(),
                    global_price_denom.val(),
                ) && sbf <= u128::MAX) ==> sbf * old(self).staker_info.distribution_fee
                    <= u128::MAX
            }),
        ensures
            final(self).wf(),
            ({
                let a = old(self).allocations@[idx as int];
                let t = spec_dist_amounts(
                    a.inj_amount as int,
                    a.share_price_num.val(),
                    a.share_price_denom.val(),
                    global_price_num.val(),
                    global_price_denom.val(),
                    old(self).staker_info.distribution_fee as int,
                );
                let sbf = spec_shares_before_fees(
                    a.inj_amount as int,
                    a.share_price_num.val(),
                    a.share_price_denom.val(),
                    global_price_num.val(),
                    global_price_denom.val(),
                );
                let dist = spec_distributable(
                    a.share_price_num.val(),
                    a.share_price_denom.val(),
                    global_price_num.val(),
                    global_price_denom.val(),
                );
                let allocator = a.allocator@;
                let recipient = a.recipient@;
                let treasury = old(self).staker_info.treasury@;
                if !dist {
                    r == Ok::<Option<DistributionInfo>, ContractError>(None) && *final(self)
                        == *old(self)
                } else {
                    match r {
                        Ok(opt) => {
                            &&& opt matches Some(info)
                            &&& (opt matches Some(info) ==> {
                                &&& sbf <= u128::MAX
                                &&& t.0 <= u128::MAX
                                &&& (in_inj ==> attached_inj_amount >= t.0 && old(self).spec_balance(allocator) >= t.2)
                                &&& (!in_inj ==> old(self).spec_balance(allocator) >= t.1 + t.2)
                                &&& final(self).allocations@ == old(self).allocations@.update(
                                    idx as int,
                                    Allocation {
                                        share_price_num: *global_price_num,
                                        share_price_denom: *global_price_denom,
                                        ..a
                                    },
                                )
                                &&& *final(self) == (Staker {
                                    allocations: final(self).allocations,
                                    ledger: final(self).ledger,
                                    ..(*old(self))
                                })
                                &&& final(self).ledger.total_supply == old(self).ledger.total_supply
                                &&& final(self).spec_balance(allocator) == old(self).spec_balance(
                                    allocator,
                                ) - (if in_inj {
                                    0int
                                } else {
                                    t.1
                                }) - (if treasury == allocator {
                                    0int
                                } else {
                                    t.2
                                })
                                &&& final(self).spec_balance(recipient) == old(self).spec_balance(
                                    recipient,
                                ) + (if in_inj {
                                    0int
                                } else {
                                    t.1
                                }) + (if treasury == recipient {
                                    t.2
                                } else {
                                    0int
                                })
                                &&& (treasury != allocator && treasury != recipient ==> final(self).spec_balance(treasury) == old(self).spec_balance(treasury) + t.2)
                                &&& (forall|x: Seq<char>|
                                    x != allocator && x != recipient && x != treasury ==> final(self).spec_balance(x) == old(self).spec_balance(x))
                                &&& info.refund_amount as int == (if in_inj {
                                    attached_inj_amount - t.0
                                } else {
                                    attached_inj_amount as int
                                })
                                &&& (if in_inj {
                                    info.inj_transfer matches Some(c) && (c
                                        matches Command::Send { to_address, amount } && to_address@
                                        == recipient && amount as int == t.0)
                                } else {
                                    info.inj_transfer is None
                                })
                                &&& info.distribution_event.user@ == allocator
                                &&& info.distribution_event.recipient@ == recipient
                                &&& info.distribution_event.user_balance as int == final(self).spec_balance(allocator)
                                &&& info.distribution_event.recipient_balance as int == final(self).spec_balance(recipient)
                                &&& info.distribution_event.treasury_balance as int == final(self).spec_balance(treasury)
                                &&& info.distribution_event.fees as int == t.2
                                &&& info.distribution_event.shares as int == t.1
                                &&& info.distribution_event.inj_amount as int == t.0
                                &&& info.distribution_event.in_inj == in_inj
                                &&& info.distribution_event.share_price_num == *global_price_num
                                &&& info.distribution_event.share_price_denom
                                    == *global_price_denom
                            })
                        },
                        Err(e) => *final(self) == *old(self) && ((e == ContractError::Overflow && (
                        sbf > u128::MAX || (sbf <= u128::MAX && t.0 > u128::MAX))) || (sbf
                            <= u128::MAX && t.0 <= u128::MAX && ((in_inj && e
                            == ContractError::InsufficientInjAttached && attached_inj_amount < t.0)
                            || (in_inj && e == ContractError::InsufficientTruINJBalance
                            && attached_inj_amount >= t.0 && old(self).spec_balance(allocator)
                            < t.2) || (!in_inj && e == ContractError::InsufficientTruINJBalance
                            && old(self).spec_balance(allocator) < t.1 + t.2)))),
                    }
                }
            }),
    {
        let a_num = self.allocations[idx].share_price_num;
        let a_denom = self.allocations[idx].share_price_denom;
        let alloc_ratio = u256_div(&a_num, &a_denom);
        let global_ratio = u256_div(global_price_num, global_price_denom);
        if u256_ge(&alloc_ratio, &global_ratio) {
            return Ok(None);
        }
        proof {
            vstd::arithmetic::div_mod::lemma_div_pos_is_pos(
                a_num.val(),
                a_denom.val(),
            );
            if global_price_num.val() == 0 {
                vstd::arithmetic::div_mod::lemma_div_of0(global_price_denom.val());
                assert(false);
            }
            lemma_distributable_mono(
                self.allocations@[idx as int].inj_amount as int,
                a_num.val(),
                a_denom.val(),
                global_price_num.val(),
                global_price_denom.val(),
            );
        }
        let dist_fee = self.staker_info.distribution_fee;
        let allocation = &self.allocations[idx];
        let amounts = match calculate_distribution_amounts(
            allocation,
            global_price_num,
            global_price_denom,
            dist_fee,
        ) {
            Ok(v) => v,
            Err(e) => {
                return Err(e);
            },
        };
        let (assets_to_distribute, shares_to_distribute, fees) = amounts;
        let allocator = self.allocations[idx].allocator.clone();
        let recipient = self.allocations[idx].recipient.clone();
        let treasury = self.staker_info.treasury.clone();
        let inj_transfer: Option<Command>;
        if in_inj {
            if attached_inj_amount < assets_to_distribute {
                return Err(ContractError::InsufficientInjAttached);
            }
            if self.ledger.balance_of(&allocator) < fees {
                return Err(ContractError::InsufficientTruINJBalance);
            }
            inj_transfer = Some(
                Command::Send { to_address: recipient.clone(), amount: assets_to_distribute },
            );
        } else {
            let bal = self.ledger.balance_of(&allocator);
            if bal < shares_to_distribute + fees {
                return Err(ContractError::InsufficientTruINJBalance);
            }
            self.ledger.transfer(&allocator, &recipient, shares_to_distribute);
            inj_transfer = None;
        }
        if fees > 0 {
            self.ledger.transfer(&allocator, &treasury, fees);
        }
        let ghost a0 = self.allocations@;
        self.allocations[idx].share_price_num = *global_price_num;
        self.allocations[idx].share_price_denom = *global_price_denom;
        proof {
            assert(self.allocations@ =~= a0.update(
                idx as int,
                Allocation {
                    share_price_num: *global_price_num,
                    share_price_denom: *global_price_denom,
                    ..a0[idx as int]
                },
            ));
            assert forall|x: int, y: int|
                0 <= x < y < self.allocations@.len() implies !((
                #[trigger] self.allocations@[x]).allocator@ == (
                #[trigger] self.allocations@[y]).allocator@ && self.allocations@[x].recipient@
                == self.allocations@[y].recipient@) by {
                assert(self.allocations@[x].allocator@ == a0[x].allocator@
                    && self.allocations@[x].recipient@ == a0[x].recipient@);
                assert(self.allocations@[y].allocator@ == a0[y].allocator@
                    && self.allocations@[y].recipient@ == a0[y].recipient@);
            }
        }
        let refund_amount = if in_inj {
            attached_inj_amount - assets_to_distribute
        } else {
            attached_inj_amount
        };
        let user_balance = self.ledger.balance_of(&allocator);
        let recipient_balance = self.ledger.balance_of(&recipient);
        let treasury_balance = self.ledger.balance_of(&treasury);
        let distribution_event = DistributedRewardsEvent {
            user: allocator,
            recipient,
            user_balance,
            recipient_balance,
            treasury_balance,
            fees,
            shares: shares_to_distribute,
            inj_amount: assets_to_distribute,
            in_inj,
            share_price_num: *global_price_num,
            share_price_denom: *global_price_denom,
            total_allocated_amount: 0,
            total_allocated_share_price_num: crate::math::u256_from_u128(0),
            total_allocated_share_price_denom: crate::math::u256_from_u128(0),
        };
        Ok(Some(DistributionInfo { refund_amount, distribution_event, inj_transfer }))
    }
}

/// The allocation list with the record at `i` reconciled to the given price.
pub open spec fn spec_reconciled_allocs(s: Seq<Allocation>, i: int, gn: U256, gd: U256) -> Seq<
    Allocation,
> {
    s.update(i, Allocation { share_price_num: gn, share_price_denom: gd, ..s[i] })
}

/// The allocation list after a full sweep: every record of the distributor
/// whose snapshot price lies below the given price is reconciled to it, all
/// others stay as they were.
pub open spec fn spec_all_reconciled(s: Seq<Allocation>, u: Seq<char>, gn: U256, gd: U256) -> Seq<
    Allocation,
> {
    Seq::new(
        s.len(),
        |j: int|
            if s[j].allocator@ == u && spec_distributable(
                s[j].share_price_num.val(),
                s[j].share_price_denom.val(),
                gn.val(),
                gd.val(),
            ) {
                Allocation { share_price_num: gn, share_price_denom: gd, ..s[j] }
            } else {
                s[j]
            },
    )
}

impl Staker {
    /// Distributes the rewards accrued on the caller's allocation to one
    /// recipient, in the base asset or in receipt shares. When the share
    /// price has not increased since the last reconciliation nothing is
    /// owed: no transfer happens, no event is emitted, and any attached
    /// base asset is refunded whole.
    pub fn distribute_rewards(
        &mut self,
        distributor: &String,
        recipient: &String,
        in_inj: bool,
        attached: u128,
        dels: &Vec<Delegation>,
    ) -> (r: Result<(Vec<Command>, Option<DistributedRewardsEvent>), ContractError>)
        requires
            old(self).wf(),
            old(self).delegations_match(dels@),
            (!old(self).is_paused && old(self).spec_user_status(distributor@)
                == UserStatus::Whitelisted) ==> ({
                let num = old(self).spec_price_num(dels@);
                let denom = old(self).spec_price_denom();
                &&& spec_total_staked(dels@) <= u128::MAX
                &&& spec_total_rewards(dels@) <= u128::MAX
                &&& (old(self).ledger.total_supply != 0 ==> spec_total_staked(dels@) + old(
                    self,
                ).contract_rewards <= u128::MAX)
                &&& (match spec_find_allocation(old(self).allocations@, distributor@, recipient@) {
                    Some(ex) => {
                        let sbf = spec_shares_before_fees(
                            ex.inj_amount as int,
                            ex.share_price_num.val(),
                            ex.share_price_denom.val(),
                            num,
                            denom,
                        );
                        let t = spec_dist_amounts(
                            ex.inj_amount as int,
                            ex.share_price_num.val(),
                            ex.share_price_denom.val(),
                            num,
                            denom,
                            old(self).staker_info.distribution_fee as int,
                        );
                        let dist = spec_distributable(
                            ex.share_price_num.val(),
                            ex.share_price_denom.val(),
                            num,
                            denom,
                        );
                        &&& ex.share_price_num.val() > 0
                        &&& ex.share_price_denom.val() > 0
                        &&& ((dist && sbf <= u128::MAX) ==> sbf * old(
                            self,
                        ).staker_info.distribution_fee <= u128::MAX)
                        &&& ((dist && sbf <= u128::MAX && t.0 <= u128::MAX && (if in_inj {
                            attached >= t.0 && old(self).spec_balance(ex.allocator@) >= t.2
                        } else {
                            old(self).spec_balance(ex.allocator@) >= t.1 + t.2
                        })) ==> spec_total_allocated_in(
                            spec_reconciled_allocs(
                                old(self).allocations@,
                                spec_alloc_idx(old(self).allocations@, distributor@, recipient@),
                                crate::math::u256_of(num),
                                crate::math::u256_of(denom),
                            ),
                            distributor@,
                        ) is Some)
                    },
                    None => true,
                })
            }),
        ensures
            final(self).wf(),
            old(self).is_paused ==> r == Err::<
                (Vec<Command>, Option<DistributedRewardsEvent>),
                ContractError,
            >(ContractError::ContractPaused) && *final(self) == *old(self),
            (!old(self).is_paused && old(self).spec_user_status(distributor@)
                != UserStatus::Whitelisted) ==> r == Err::<
                (Vec<Command>, Option<DistributedRewardsEvent>),
                ContractError,
            >(ContractError::UserNotWhitelisted) && *final(self) == *old(self),
            (!old(self).is_paused && old(self).spec_user_status(distributor@)
                == UserStatus::Whitelisted && !(exists|j: int|
                0 <= j < old(self).allocations@.len() && (
                #[trigger] old(self).allocations@[j]).allocator@ == distributor@)) ==> r == Err::<
                (Vec<Command>, Option<DistributedRewardsEvent>),
                ContractError,
            >(ContractError::NoAllocations) && *final(self) == *old(self),
            (!old(self).is_paused && old(self).spec_user_status(distributor@)
                == UserStatus::Whitelisted && (exists|j: int|
                0 <= j < old(self).allocations@.len() && (
                #[trigger] old(self).allocations@[j]).allocator@ == distributor@)) ==> ({
                let num = old(self).spec_price_num(dels@);
                let denom = old(self).spec_price_denom();
                let idx = spec_alloc_idx(old(self).allocations@, distributor@, recipient@);
                match spec_find_allocation(old(self).allocations@, distributor@, recipient@) {
                    None => r == Err::<
                        (Vec<Command>, Option<DistributedRewardsEvent>),
                        ContractError,
                    >(ContractError::NoAllocationToRecipient) && *final(self) == *old(self),
                    Some(ex) => {
                        let dist = spec_distributable(
                            ex.share_price_num.val(),
                            ex.share_price_denom.val(),
                            num,
                            denom,
                        );
                        let t = spec_dist_amounts(
                            ex.inj_amount as int,
                            ex.share_price_num.val(),
                            ex.share_price_denom.val(),
                            num,
                            denom,
                            old(self).staker_info.distribution_fee as int,
                        );
                        if !dist {
                            match r {
                                Ok((cmds, ev)) => {
                                    &&& *final(self) == *old(self)
                                    &&& ev is None
                                    &&& (if attached > 0 {
                                        cmds@.len() == 1 && (cmds@[0]
                                            matches Command::Send { to_address, amount }
                                            && to_address@ == distributor@ && amount == attached)
                                    } else {
                                        cmds@.len() == 0
                                    })
                                },
                                Err(_) => false,
                            }
                        } else {
                            match r {
                                Ok((cmds, ev)) => {
                                    &&& final(self).allocations@ == spec_reconciled_allocs(
                                        old(self).allocations@,
                                        idx,
                                        crate::math::u256_of(num),
                                        crate::math::u256_of(denom),
                                    )
                                    &&& *final(self) == (Staker {
                                        allocations: final(self).allocations,
                                        ledger: final(self).ledger,
                                        ..(*old(self))
                                    })
                                    &&& final(self).ledger.total_supply == old(
                                        self,
                                    ).ledger.total_supply
                                    &&& ({
                                        let treasury = old(self).staker_info.treasury@;
                                        &&& final(self).spec_balance(distributor@) == old(
                                            self,
                                        ).spec_balance(distributor@) - (if in_inj {
                                            0int
                                        } else {
                                            t.1
                                        }) - (if treasury == distributor@ {
                                            0int
                                        } else {
                                            t.2
                                        })
                                        &&& final(self).spec_balance(recipient@) == old(
                                            self,
                                        ).spec_balance(recipient@) + (if in_inj {
                                            0int
                                        } else {
                                            t.1
                                        }) + (if treasury == recipient@ {
                                            t.2
                                        } else {
                                            0int
                                        })
                                        &&& (treasury != distributor@ && treasury != recipient@
                                            ==> final(self).spec_balance(treasury) == old(
                                            self,
                                        ).spec_balance(treasury) + t.2)
                                        &&& (forall|x: Seq<char>|
                                            x != distributor@ && x != recipient@ && x != treasury
                                                ==> final(self).spec_balance(x) == old(
                                                self,
                                            ).spec_balance(x))
                                    })
                                    &&& (ev matches Some(e2) && {
                                        &&& e2.user@ == distributor@
                                        &&& e2.recipient@ == recipient@
                                        &&& e2.user_balance as int == final(self).spec_balance(
                                            distributor@,
                                        )
                                        &&& e2.recipient_balance as int == final(self).spec_balance(
                                            recipient@,
                                        )
                                        &&& e2.treasury_balance as int == final(self).spec_balance(
                                            old(self).staker_info.treasury@,
                                        )
                                        &&& e2.fees as int == t.2
                                        &&& e2.shares as int == t.1
                                        &&& e2.inj_amount as int == t.0
                                        &&& e2.in_inj == in_inj
                                        &&& e2.share_price_num.val() == num
                                        &&& e2.share_price_denom.val() == denom
                                        &&& ({
                                            let ta = spec_total_allocated_in(
                                                final(self).allocations@,
                                                distributor@,
                                            ).unwrap();
                                            e2.total_allocated_amount as int == ta.0
                                                && e2.total_allocated_share_price_num.val() == ta.1
                                                && e2.total_allocated_share_price_denom.val()
                                                == ta.2
                                        })
                                    })
                                    &&& ({
                                        let refund: int = if in_inj {
                                            attached - t.0
                                        } else {
                                            attached as int
                                        };
                                        let sends: int = if in_inj {
                                            1int
                                        } else {
                                            0int
                                        };
                                        &&& cmds@.len() == sends + (if refund > 0 {
                                            1int
                                        } else {
                                            0int
                                        })
                                        &&& (in_inj ==> (cmds@[0]
                                            matches Command::Send { to_address, amount }
                                            && to_address@ == recipient@ && amount as int == t.0))
                                        &&& (refund > 0 ==> (cmds@[sends]
                                            matches Command::Send { to_address, amount }
                                            && to_address@ == distributor@ && amount as int
                                            == refund))
                                    })
                                },
                                Err(e) => ({
                                    let sbf = spec_shares_before_fees(
                                        ex.inj_amount as int,
                                        ex.share_price_num.val(),
                                        ex.share_price_denom.val(),
                                        num,
                                        denom,
                                    );
                                    *final(self) == *old(self) && ((e == ContractError::Overflow
                                        && (sbf > u128::MAX || (sbf <= u128::MAX && t.0
                                        > u128::MAX))) || (sbf <= u128::MAX && t.0 <= u128::MAX
                                        && ((in_inj && e == ContractError::InsufficientInjAttached
                                        && attached < t.0) || (in_inj && e
                                        == ContractError::InsufficientTruINJBalance && attached
                                        >= t.0 && old(self).spec_balance(distributor@) < t.2) || (
                                    !in_inj && e == ContractError::InsufficientTruINJBalance && old(
                                        self,
                                    ).spec_balance(distributor@) < t.1 + t.2))))
                                }),
                            }
                        }
                    },
                }
            }),
    {
        if let Err(e) = self.check_not_paused() {
            return Err(e);
        }
        if let Err(e) = self.check_whitelisted(distributor) {
            return Err(e);
        }
        if !self.has_allocations(distributor) {
            return Err(ContractError::NoAllocations);
        }
        let found = self.find_allocation_index(distributor, recipient);
        proof {
            lemma_alloc_idx(self.allocations@, distributor@, recipient@);
        }
        let idx = match found {
            None => {
                return Err(ContractError::NoAllocationToRecipient);
            },
            Some(i) => i,
        };
        let price = self.get_share_price(dels);
        let outcome = match self.internal_distribute(
            idx,
            in_inj,
            &price.numerator,
            &price.denominator,
            attached,
        ) {
            Ok(v) => v,
            Err(e) => {
                return Err(e);
            },
        };
        match outcome {
            None => {
                let mut cmds: Vec<Command> = Vec::new();
                if attached > 0 {
                    cmds.push(
                        Command::Send { to_address: distributor.clone(), amount: attached },
                    );
                }
                Ok((cmds, None))
            },
            Some(info) => {
                proof {
                    crate::math::lemma_u256_canonical(
                        price.numerator,
                        old(self).spec_price_num(dels@),
                    );
                    crate::math::lemma_u256_canonical(price.denominator, old(self).spec_price_denom());
                }
                let total = self.get_total_allocated(distributor);
                let mut ev = info.distribution_event;
                ev.total_allocated_amount = total.total_allocated_amount;
                ev.total_allocated_share_price_num = total.total_allocated_share_price_num;
                ev.total_allocated_share_price_denom = total.total_allocated_share_price_denom;
                let mut cmds: Vec<Command> = Vec::new();
                if let Some(c) = info.inj_transfer {
                    cmds.push(c);
                }
                if info.refund_amount > 0 {
                    cmds.push(
                        Command::Send {
                            to_address: distributor.clone(),
                            amount: info.refund_amount,
                        },
                    );
                }
                Ok((cmds, Some(ev)))
            },
        }
    }
}

/// The records of one allocator that are owed something at the given price,
/// in storage order.
pub open spec fn spec_dist_rows(s: Seq<Allocation>, u: Seq<char>, gnv: int, gdv: int) -> Seq<
    Allocation,
>
    decreases s.len(),
{
    if s.len() == 0 {
        Seq::empty()
    } else if s[0].allocator@ == u && spec_distributable(
        s[0].share_price_num.val(),
        s[0].share_price_denom.val(),
        gnv,
        gdv,
    ) {
        seq![s[0]] + spec_dist_rows(s.skip(1), u, gnv, gdv)
    } else {
        spec_dist_rows(s.skip(1), u, gnv, gdv)
    }
}

/// Whether every row of a sweep fits the 128-bit widths: its owed shares
/// and its base-asset amount.
pub open spec fn spec_rows_fit(rows: Seq<Allocation>, gn: int, gd: int, fee: int) -> bool {
    forall|k: int|
        0 <= k < rows.len() ==> ({
            let a = #[trigger] rows[k];
            let sbf = spec_shares_before_fees(
                a.inj_amount as int,
                a.share_price_num.val(),
                a.share_price_denom.val(),
                gn,
                gd,
            );
            let t = spec_dist_amounts(
                a.inj_amount as int,
                a.share_price_num.val(),
                a.share_price_denom.val(),
                gn,
                gd,
                fee,
            );
            sbf <= u128::MAX && t.0 <= u128::MAX
        })
}

/// Summed distribution amounts over the rows of a sweep, in order.
pub open spec fn spec_rows_sums(rows: Seq<Allocation>, gn: int, gd: int, fee: int) -> (
    int,
    int,
    int,
)
    decreases rows.len(),
{
    if rows.len() == 0 {
        (0, 0, 0)
    } else {
        let t = spec_dist_amounts(
            rows[0].inj_amount as int,
            rows[0].share_price_num.val(),
            rows[0].share_price_denom.val(),
            gn,
            gd,
            fee,
        );
        let rest = spec_rows_sums(rows.skip(1), gn, gd, fee);
        (t.0 + rest.0, t.1 + rest.1, t.2 + rest.2)
    }
}

/// Whether the attached base asset and the distributor's share balance cover
/// the whole sweep: in base-asset mode the attached amount must cover the
/// summed payouts and the balance the summed fees; in share mode the balance
/// must cover the summed shares plus fees.
pub open spec fn spec_sweep_funded(
    pre: Staker,
    rows: Seq<Allocation>,
    gn: int,
    gd: int,
    fee: int,
    in_inj: bool,
    attached: u128,
    distributor: Seq<char>,
) -> bool {
    let sums = spec_rows_sums(rows, gn, gd, fee);
    if in_inj {
        attached as int >= sums.0 && pre.spec_balance(distributor) >= sums.2
    } else {
        pre.spec_balance(distributor) >= sums.1 + sums.2
    }
}

/// A distributable record with positive prices owes nonnegative amounts, and
/// the current price numerator is positive.
pub proof fn lemma_row_amounts_bounds(a: Allocation, gn: int, gd: int, fee: int)
    requires
        gd > 0,
        0 <= fee < FEE_PRECISION,
        a.share_price_num.val() > 0,
        a.share_price_denom.val() > 0,
        spec_distributable(a.share_price_num.val(), a.share_price_denom.val(), gn, gd),
    ensures
        gn > 0,
        ({
            let sbf = spec_shares_before_fees(
                a.inj_amount as int,
                a.share_price_num.val(),
                a.share_price_denom.val(),
                gn,
                gd,
            );
            let t = spec_dist_amounts(
                a.inj_amount as int,
                a.share_price_num.val(),
                a.share_price_denom.val(),
                gn,
                gd,
                fee,
            );
            sbf >= 0 && 0 <= t.2 <= sbf && t.1 == sbf - t.2 && t.0 >= 0
        }),
{
    vstd::arithmetic::div_mod::lemma_div_pos_is_pos(
        a.share_price_num.val(),
        a.share_price_denom.val(),
    );
    if gn <= 0 {
        vstd::arithmetic::div_mod::lemma_div_is_ordered(gn, 0, gd);
        vstd::arithmetic::div_mod::lemma_div_of0(gd);
        assert(false);
    }
    lemma_distributable_mono(
        a.inj_amount as int,
        a.share_price_num.val(),
        a.share_price_denom.val(),
        gn,
        gd,
    );
    let sbf = spec_shares_before_fees(
        a.inj_amount as int,
        a.share_price_num.val(),
        a.share_price_denom.val(),
        gn,
        gd,
    );
    lemma_fee_le_shares(sbf, fee);
    let shares = sbf - sbf * fee / (FEE_PRECISION as int);
    assert(shares * gn >= 0 && gd * (SHARE_PRICE_SCALING_FACTOR as int) > 0) by (nonlinear_arith)
        requires
            shares >= 0,
            gn > 0,
            gd > 0,
            SHARE_PRICE_SCALING_FACTOR > 0,
    ;
    vstd::arithmetic::div_mod::lemma_div_pos_is_pos(
        shares * gn,
        gd * (SHARE_PRICE_SCALING_FACTOR as int),
    );
}

/// Every row of a sweep is one of the stored allocations, belongs to the
/// allocator, and is distributable at the given price.
pub proof fn lemma_dist_rows_elements(s: Seq<Allocation>, u: Seq<char>, gn: int, gd: int)
    ensures
        forall|k: int|
            0 <= k < spec_dist_rows(s, u, gn, gd).len() ==> ({
                let a = #[trigger] spec_dist_rows(s, u, gn, gd)[k];
                &&& a.allocator@ == u
                &&& spec_distributable(a.share_price_num.val(), a.share_price_denom.val(), gn, gd)
                &&& exists|j: int| 0 <= j < s.len() && s[j] == a
            }),
    decreases s.len(),
{
    if s.len() > 0 {
        lemma_dist_rows_elements(s.skip(1), u, gn, gd);
        let rows = spec_dist_rows(s, u, gn, gd);
        let rest = spec_dist_rows(s.skip(1), u, gn, gd);
        assert forall|k: int| 0 <= k < rows.len() implies ({
            let a = #[trigger] rows[k];
            &&& a.allocator@ == u
            &&& spec_distributable(a.share_price_num.val(), a.share_price_denom.val(), gn, gd)
            &&& exists|j: int| 0 <= j < s.len() && s[j] == a
        }) by {
            let head_row = s[0].allocator@ == u && spec_distributable(
                s[0].share_price_num.val(),
                s[0].share_price_denom.val(),
                gn,
                gd,
            );
            let off = if head_row {
                1int
            } else {
                0int
            };
            if head_row && k == 0 {
                assert(rows[0] == s[0]);
            } else {
                assert(rows[k] == rest[k - off]);
                let j = choose|j: int| 0 <= j < s.skip(1).len() && s.skip(1)[j] == rest[k - off];
                assert(s[j + 1] == s.skip(1)[j]);
            }
        }
    }
}

/// Rows of one allocator name pairwise distinct recipients: the stored
/// pairs are unique and every row carries the same allocator.
pub proof fn lemma_dist_rows_recipients(s: Seq<Allocation>, u: Seq<char>, gn: int, gd: int)
    requires
        unique_allocation_keys(s),
    ensures
        forall|k1: int, k2: int|
            0 <= k1 < k2 < spec_dist_rows(s, u, gn, gd).len() ==> (#[trigger] spec_dist_rows(
                s,
                u,
                gn,
                gd,
            )[k1]).recipient@ != (#[trigger] spec_dist_rows(s, u, gn, gd)[k2]).recipient@,
    decreases s.len(),
{
    if s.len() > 0 {
        assert forall|x: int, y: int|
            0 <= x < y < s.skip(1).len() implies !((#[trigger] s.skip(1)[x]).allocator@ == (
        #[trigger] s.skip(1)[y]).allocator@ && s.skip(1)[x].recipient@ == s.skip(
            1,
        )[y].recipient@) by {
            assert(s.skip(1)[x] == s[x + 1]);
            assert(s.skip(1)[y] == s[y + 1]);
        }
        lemma_dist_rows_recipients(s.skip(1), u, gn, gd);
        lemma_dist_rows_elements(s.skip(1), u, gn, gd);
        let rows = spec_dist_rows(s, u, gn, gd);
        let rest = spec_dist_rows(s.skip(1), u, gn, gd);
        let head_row = s[0].allocator@ == u && spec_distributable(
            s[0].share_price_num.val(),
            s[0].share_price_denom.val(),
            gn,
            gd,
        );
        assert forall|k1: int, k2: int|
            0 <= k1 < k2 < rows.len() implies (#[trigger] rows[k1]).recipient@ != (
        #[trigger] rows[k2]).recipient@ by {
            if head_row {
                if k1 == 0 {
                    assert(rows[k2] == rest[k2 - 1]);
                    let j = choose|j: int|
                        0 <= j < s.skip(1).len() && s.skip(1)[j] == rest[k2 - 1];
                    assert(s[j + 1] == s.skip(1)[j]);
                    assert(!(s[0].allocator@ == s[j + 1].allocator@ && s[0].recipient@ == s[j
                        + 1].recipient@));
                } else {
                    assert(rows[k1] == rest[k1 - 1]);
                    assert(rows[k2] == rest[k2 - 1]);
                }
            } else {
                assert(rows[k1] == rest[k1]);
                assert(rows[k2] == rest[k2]);
            }
        }
    }
}

/// Summed row amounts split over concatenation.
pub proof fn lemma_rows_sums_concat(x: Seq<Allocation>, y: Seq<Allocation>, gn: int, gd: int, fee: int)
    ensures
        ({
            let sx = spec_rows_sums(x, gn, gd, fee);
            let sy = spec_rows_sums(y, gn, gd, fee);
            let sxy = spec_rows_sums(x + y, gn, gd, fee);
            sxy.0 == sx.0 + sy.0 && sxy.1 == sx.1 + sy.1 && sxy.2 == sx.2 + sy.2
        }),
    decreases x.len(),
{
    if x.len() == 0 {
        assert(x + y =~= y);
    } else {
        assert((x + y)[0] == x[0]);
        assert((x + y).skip(1) =~= x.skip(1) + y);
        lemma_rows_sums_concat(x.skip(1), y, gn, gd, fee);
    }
}

/// Summed row amounts are nonnegative when every row is a distributable
/// record with positive prices.
pub proof fn lemma_rows_sums_nonneg(rows: Seq<Allocation>, gn: int, gd: int, fee: int)
    requires
        gd > 0,
        0 <= fee < FEE_PRECISION,
        forall|k: int|
            0 <= k < rows.len() ==> ({
                let a = #[trigger] rows[k];
                a.share_price_num.val() > 0 && a.share_price_denom.val() > 0
                    && spec_distributable(a.share_price_num.val(), a.share_price_denom.val(), gn, gd)
            }),
    ensures
        ({
            let sums = spec_rows_sums(rows, gn, gd, fee);
            sums.0 >= 0 && sums.1 >= 0 && sums.2 >= 0
        }),
    decreases rows.len(),
{
    if rows.len() > 0 {
        lemma_row_amounts_bounds(rows[0], gn, gd, fee);
        assert(forall|k: int| 0 <= k < rows.skip(1).len() ==> rows.skip(1)[k] == rows[k + 1]);
        lemma_rows_sums_nonneg(rows.skip(1), gn, gd, fee);
    }
}

impl Staker {
    /// Distributes the accrued rewards on every allocation of the caller in
    /// one sweep, against one price snapshot taken at the start. Attached
    /// base asset is consumed across the payouts in order and whatever is
    /// left is refunded at the end. A failing step aborts the whole message;
    /// the host then discards the state, and the sweep is guaranteed to
    /// succeed whenever every owed amount fits the balance width and the
    /// attached funds and the caller's share balance cover the summed
    /// payouts and fees.
    pub fn distribute_all(
        &mut self,
        distributor: &String,
        in_inj: bool,
        attached: u128,
        dels: &Vec<Delegation>,
    ) -> (r: Result<
        (Vec<Command>, Vec<DistributedRewardsEvent>, DistributedAllEvent),
        ContractError,
    >)
        requires
            old(self).wf(),
            old(self).delegations_match(dels@),
            (!old(self).is_paused && old(self).spec_user_status(distributor@)
                == UserStatus::Whitelisted) ==> ({
                let num = old(self).spec_price_num(dels@);
                let denom = old(self).spec_price_denom();
                &&& spec_total_staked(dels@) <= u128::MAX
                &&& spec_total_rewards(dels@) <= u128::MAX
                &&& (old(self).ledger.total_supply != 0 ==> spec_total_staked(dels@) + old(
                    self,
                ).contract_rewards <= u128::MAX)
                &&& (forall|j: int|
                    0 <= j < old(self).allocations@.len() && (
                    #[trigger] old(self).allocations@[j]).allocator@ == distributor@ ==> old(
                        self,
                    ).allocations@[j].share_price_num.val() > 0 && old(
                        self,
                    ).allocations@[j].share_price_denom.val() > 0)
                &&& (forall|j: int|
                    0 <= j < old(self).allocations@.len() && (
                    #[trigger] old(self).allocations@[j]).allocator@ == distributor@ ==> ({
                        let a = old(self).allocations@[j];
                        let sbf = spec_shares_before_fees(
                            a.inj_amount as int,
                            a.share_price_num.val(),
                            a.share_price_denom.val(),
                            num,
                            denom,
                        );
                        (spec_distributable(
                            a.share_price_num.val(),
                            a.share_price_denom.val(),
                            num,
                            denom,
                        ) && sbf <= u128::MAX) ==> sbf * old(self).staker_info.distribution_fee
                            <= u128::MAX
                    }))
                &&& spec_total_allocated_in(
                    spec_all_reconciled(
                        old(self).allocations@,
                        distributor@,
                        crate::math::u256_of(num),
                        crate::math::u256_of(denom),
                    ),
                    distributor@,
                ) is Some
            }),
        ensures
            final(self).wf(),
            old(self).is_paused ==> r == Err::<
                (Vec<Command>, Vec<DistributedRewardsEvent>, DistributedAllEvent),
                ContractError,
            >(ContractError::ContractPaused) && *final(self) == *old(self),
            (!old(self).is_paused && old(self).spec_user_status(distributor@)
                != UserStatus::Whitelisted) ==> r == Err::<
                (Vec<Command>, Vec<DistributedRewardsEvent>, DistributedAllEvent),
                ContractError,
            >(ContractError::UserNotWhitelisted) && *final(self) == *old(self),
            (!old(self).is_paused && old(self).spec_user_status(distributor@)
                == UserStatus::Whitelisted && !(exists|j: int|
                0 <= j < old(self).allocations@.len() && (
                #[trigger] old(self).allocations@[j]).allocator@ == distributor@)) ==> r == Err::<
                (Vec<Command>, Vec<DistributedRewardsEvent>, DistributedAllEvent),
                ContractError,
            >(ContractError::NoAllocations) && *final(self) == *old(self),
            (!old(self).is_paused && old(self).spec_user_status(distributor@)
                == UserStatus::Whitelisted && (exists|j: int|
                0 <= j < old(self).allocations@.len() && (
                #[trigger] old(self).allocations@[j]).allocator@ == distributor@)) ==> ({
                let num = old(self).spec_price_num(dels@);
                let denom = old(self).spec_price_denom();
                let fee = old(self).staker_info.distribution_fee as int;
                let rows = spec_dist_rows(old(self).allocations@, distributor@, num, denom);
                let sums = spec_rows_sums(rows, num, denom, fee);
                let treasury = old(self).staker_info.treasury@;
                match r {
                    Ok((cmds, evs, all_ev)) => {
                        &&& final(self).allocations@ == spec_all_reconciled(
                            old(self).allocations@,
                            distributor@,
                            crate::math::u256_of(num),
                            crate::math::u256_of(denom),
                        )
                        &&& *final(self) == (Staker {
                            allocations: final(self).allocations,
                            ledger: final(self).ledger,
                            ..(*old(self))
                        })
                        &&& final(self).ledger.total_supply == old(self).ledger.total_supply
                        &&& all_ev.user@ == distributor@
                        &&& evs@.len() == rows.len()
                        &&& (forall|k: int|
                            0 <= k < rows.len() ==> ({
                                let t = spec_dist_amounts(
                                    rows[k].inj_amount as int,
                                    rows[k].share_price_num.val(),
                                    rows[k].share_price_denom.val(),
                                    num,
                                    denom,
                                    fee,
                                );
                                &&& (#[trigger] evs@[k]).user@ == distributor@
                                &&& evs@[k].recipient@ == rows[k].recipient@
                                &&& evs@[k].fees as int == t.2
                                &&& evs@[k].shares as int == t.1
                                &&& evs@[k].inj_amount as int == t.0
                                &&& evs@[k].in_inj == in_inj
                                &&& evs@[k].share_price_num.val() == num
                                &&& evs@[k].share_price_denom.val() == denom
                                &&& ({
                                    let ta = spec_total_allocated_in(
                                        final(self).allocations@,
                                        distributor@,
                                    ).unwrap();
                                    evs@[k].total_allocated_amount as int == ta.0
                                        && evs@[k].total_allocated_share_price_num.val() == ta.1
                                        && evs@[k].total_allocated_share_price_denom.val() == ta.2
                                })
                            }))
                        &&& final(self).spec_balance(distributor@) == old(self).spec_balance(
                            distributor@,
                        ) - (if in_inj {
                            0int
                        } else {
                            sums.1
                        }) - (if treasury == distributor@ {
                            0int
                        } else {
                            sums.2
                        })
                        &&& (in_inj && treasury != distributor@ ==> final(self).spec_balance(
                            treasury,
                        ) == old(self).spec_balance(treasury) + sums.2)
                        &&& ((!in_inj && treasury != distributor@ && (forall|k: int|
                            0 <= k < rows.len() ==> (#[trigger] rows[k]).recipient@ != treasury))
                            ==> final(self).spec_balance(treasury) == old(self).spec_balance(
                            treasury,
                        ) + sums.2)
                        &&& (in_inj ==> (forall|x: Seq<char>|
                            x != distributor@ && x != treasury ==> final(self).spec_balance(x)
                                == old(self).spec_balance(x)))
                        &&& (!in_inj ==> (forall|x: Seq<char>|
                            x != distributor@ && x != treasury && !(exists|k: int|
                                0 <= k < rows.len() && (#[trigger] rows[k]).recipient@ == x)
                                ==> final(self).spec_balance(x) == old(self).spec_balance(x)))
                        &&& (!in_inj ==> (forall|k: int|
                            0 <= k < rows.len() && (#[trigger] rows[k]).recipient@ != treasury
                                ==> final(self).spec_balance(rows[k].recipient@) == old(
                                self,
                            ).spec_balance(rows[k].recipient@) + spec_dist_amounts(
                                rows[k].inj_amount as int,
                                rows[k].share_price_num.val(),
                                rows[k].share_price_denom.val(),
                                num,
                                denom,
                                fee,
                            ).1))
                        &&& (!in_inj ==> cmds@.len() == (if attached > 0 {
                            1int
                        } else {
                            0int
                        }) && (attached > 0 ==> (cmds@[0] matches Command::Send {
                            to_address,
                            amount,
                        } && to_address@ == distributor@ && amount == attached)))
                        &&& (in_inj ==> ({
                            let leftover = attached - sums.0;
                            &&& cmds@.len() == rows.len() + (if leftover > 0 {
                                1int
                            } else {
                                0int
                            })
                            &&& (forall|k: int|
                                0 <= k < rows.len() ==> ((#[trigger] cmds@[k])
                                    matches Command::Send { to_address, amount } && to_address@
                                    == rows[k].recipient@ && amount as int == spec_dist_amounts(
                                    rows[k].inj_amount as int,
                                    rows[k].share_price_num.val(),
                                    rows[k].share_price_denom.val(),
                                    num,
                                    denom,
                                    fee,
                                ).0))
                            &&& (leftover > 0 ==> ((cmds@[rows.len() as int])
                                matches Command::Send { to_address, amount } && to_address@
                                == distributor@ && amount as int == leftover))
                        }))
                    },
                    Err(e) => {
                        &&& (e == ContractError::Overflow || e
                            == ContractError::InsufficientInjAttached || e
                            == ContractError::InsufficientTruINJBalance)
                        &&& (e == ContractError::InsufficientInjAttached ==> in_inj)
                        &&& (e == ContractError::Overflow ==> !spec_rows_fit(rows, num, denom, fee))
                        &&& !(spec_rows_fit(rows, num, denom, fee) && spec_sweep_funded(
                            *old(self),
                            rows,
                            num,
                            denom,
                            fee,
                            in_inj,
                            attached,
                            distributor@,
                        ))
                    },
                }
            }),
    {
        if let Err(e) = self.check_not_paused() {
            return Err(e);
        }
        if let Err(e) = self.check_whitelisted(distributor) {
            return Err(e);
        }
        if !self.has_allocations(distributor) {
            return Err(ContractError::NoAllocations);
        }
        let price = self.get_share_price(dels);
        proof {
            crate::math::lemma_u256_canonical(price.numerator, old(self).spec_price_num(dels@));
            crate::math::lemma_u256_canonical(price.denominator, old(self).spec_price_denom());
        }
        let fee = self.staker_info.distribution_fee;
        let ghost a0 = self.allocations@;
        let ghost num = old(self).spec_price_num(dels@);
        let ghost denom = old(self).spec_price_denom();
        let ghost rows = spec_dist_rows(a0, distributor@, num, denom);
        let ghost treasury = old(self).staker_info.treasury@;
        let n = self.allocations.len();
        let mut inj_available = attached;
        let mut cmds: Vec<Command> = Vec::new();
        let mut events: Vec<DistributedRewardsEvent> = Vec::new();
        let mut i: usize = 0;
        proof {
            assert(a0.skip(0) =~= a0);
            assert(rows.take(0) =~= Seq::<Allocation>::empty());
            lemma_dist_rows_recipients(a0, distributor@, num, denom);
            lemma_dist_rows_elements(a0, distributor@, num, denom);
            assert forall|k2: int|
                0 <= k2 < rows.len() implies (#[trigger] rows[k2]).recipient@ != distributor@ by {
                let j = choose|j: int| 0 <= j < a0.len() && a0[j] == rows[k2];
                assert(old(self).allocations@[j] == a0[j]);
            }
        }
        while i < n
            invariant
                old(self).wf(),
                self.wf(),
                !old(self).is_paused,
                old(self).spec_user_status(distributor@) == UserStatus::Whitelisted,
                old(self).delegations_match(dels@),
                exists|j: int| 0 <= j < a0.len() && (#[trigger] a0[j]).allocator@ == distributor@,
                forall|j: int|
                    0 <= j < old(self).allocations@.len() && (
                    #[trigger] old(self).allocations@[j]).allocator@ == distributor@ ==> old(
                        self,
                    ).allocations@[j].share_price_num.val() > 0 && old(
                        self,
                    ).allocations@[j].share_price_denom.val() > 0,
                forall|j: int|
                    0 <= j < old(self).allocations@.len() && (
                    #[trigger] old(self).allocations@[j]).allocator@ == distributor@ ==> ({
                        let a = old(self).allocations@[j];
                        let sbf = spec_shares_before_fees(
                            a.inj_amount as int,
                            a.share_price_num.val(),
                            a.share_price_denom.val(),
                            num,
                            denom,
                        );
                        (spec_distributable(
                            a.share_price_num.val(),
                            a.share_price_denom.val(),
                            num,
                            denom,
                        ) && sbf <= u128::MAX) ==> sbf * old(self).staker_info.distribution_fee
                            <= u128::MAX
                    }),
                num == old(self).spec_price_num(dels@),
                denom == old(self).spec_price_denom(),
                price.numerator == crate::math::u256_of(num),
                price.denominator == crate::math::u256_of(denom),
                price.numerator.val() == num,
                price.denominator.val() == denom,
                denom > 0,
                fee == old(self).staker_info.distribution_fee,
                treasury == old(self).staker_info.treasury@,
                rows == spec_dist_rows(a0, distributor@, num, denom),
                a0 == old(self).allocations@,
                n == a0.len(),
                0 <= i <= n,
                self.allocations@.len() == n,
                forall|j: int| i <= j < n ==> (#[trigger] self.allocations@[j]) == a0[j],
                forall|j: int|
                    0 <= j < i ==> (#[trigger] self.allocations@[j]) == (
                    if a0[j].allocator@ == distributor@ && spec_distributable(
                        a0[j].share_price_num.val(),
                        a0[j].share_price_denom.val(),
                        num,
                        denom,
                    ) {
                        Allocation {
                            share_price_num: price.numerator,
                            share_price_denom: price.denominator,
                            ..a0[j]
                        }
                    } else {
                        a0[j]
                    }),
                *self == (Staker {
                    allocations: self.allocations,
                    ledger: self.ledger,
                    ..(*old(self))
                }),
                self.ledger.total_supply == old(self).ledger.total_supply,
                events@.len() <= rows.len(),
                rows =~= rows.take(events@.len() as int) + spec_dist_rows(
                    a0.skip(i as int),
                    distributor@,
                    num,
                    denom,
                ),
                forall|k: int|
                    0 <= k < events@.len() ==> ({
                        let t = spec_dist_amounts(
                            rows[k].inj_amount as int,
                            rows[k].share_price_num.val(),
                            rows[k].share_price_denom.val(),
                            num,
                            denom,
                            old(self).staker_info.distribution_fee as int,
                        );
                        &&& (#[trigger] events@[k]).user@ == distributor@
                        &&& events@[k].recipient@ == rows[k].recipient@
                        &&& events@[k].fees as int == t.2
                        &&& events@[k].shares as int == t.1
                        &&& events@[k].inj_amount as int == t.0
                        &&& events@[k].in_inj == in_inj
                        &&& events@[k].share_price_num.val() == num
                        &&& events@[k].share_price_denom.val() == denom
                    }),
                self.spec_balance(distributor@) == old(self).spec_balance(distributor@) - (
                if in_inj {
                    0int
                } else {
                    spec_rows_sums(rows.take(events@.len() as int), num, denom, fee as int).1
                }) - (if treasury == distributor@ {
                    0int
                } else {
                    spec_rows_sums(rows.take(events@.len() as int), num, denom, fee as int).2
                }),
                in_inj ==> inj_available as int == attached - spec_rows_sums(
                    rows.take(events@.len() as int),
                    num,
                    denom,
                    fee as int,
                ).0,
                !in_inj ==> inj_available == attached,
                in_inj && treasury != distributor@ ==> self.spec_balance(treasury) == old(
                    self,
                ).spec_balance(treasury) + spec_rows_sums(
                    rows.take(events@.len() as int),
                    num,
                    denom,
                    fee as int,
                ).2,
                (!in_inj && treasury != distributor@ && (forall|k2: int|
                    0 <= k2 < rows.len() ==> (#[trigger] rows[k2]).recipient@ != treasury))
                    ==> self.spec_balance(treasury) == old(self).spec_balance(treasury)
                    + spec_rows_sums(rows.take(events@.len() as int), num, denom, fee as int).2,
                in_inj ==> (forall|x: Seq<char>|
                    x != distributor@ && x != treasury ==> self.spec_balance(x) == old(
                        self,
                    ).spec_balance(x)),
                !in_inj ==> (forall|x: Seq<char>|
                    x != distributor@ && x != treasury && !(exists|k2: int|
                        0 <= k2 < rows.len() && (#[trigger] rows[k2]).recipient@ == x)
                        ==> self.spec_balance(x) == old(self).spec_balance(x)),
                forall|k1: int, k2: int|
                    0 <= k1 < k2 < rows.len() ==> (#[trigger] rows[k1]).recipient@ != (
                    #[trigger] rows[k2]).recipient@,
                forall|k2: int|
                    0 <= k2 < rows.len() ==> (#[trigger] rows[k2]).recipient@ != distributor@,
                !in_inj ==> (forall|k2: int|
                    0 <= k2 < events@.len() && (#[trigger] rows[k2]).recipient@ != treasury
                        ==> self.spec_balance(rows[k2].recipient@) == old(self).spec_balance(
                        rows[k2].recipient@,
                    ) + spec_dist_amounts(
                        rows[k2].inj_amount as int,
                        rows[k2].share_price_num.val(),
                        rows[k2].share_price_denom.val(),
                        num,
                        denom,
                        fee as int,
                    ).1),
                !in_inj ==> (forall|k2: int|
                    events@.len() <= k2 < rows.len() && (#[trigger] rows[k2]).recipient@
                        != treasury ==> self.spec_balance(rows[k2].recipient@) == old(
                        self,
                    ).spec_balance(rows[k2].recipient@)),
                in_inj ==> cmds@.len() == events@.len(),
                in_inj ==> (forall|k2: int|
                    0 <= k2 < events@.len() ==> ((#[trigger] cmds@[k2]) matches Command::Send {
                        to_address,
                        amount,
                    } && to_address@ == rows[k2].recipient@ && amount as int == spec_dist_amounts(
                        rows[k2].inj_amount as int,
                        rows[k2].share_price_num.val(),
                        rows[k2].share_price_denom.val(),
                        num,
                        denom,
                        fee as int,
                    ).0)),
                !in_inj ==> cmds@.len() == 0,
            decreases n - i,
        {
            proof {
                assert(a0.skip(i as int)[0] == a0[i as int]);
                assert(a0.skip(i as int).skip(1) =~= a0.skip(i as int + 1));
            }
            let ghost k = events@.len() as int;
            let ghost rest = spec_dist_rows(a0.skip(i as int), distributor@, num, denom);
            let ghost current_distributable = a0[i as int].allocator@ == distributor@
                && spec_distributable(
                a0[i as int].share_price_num.val(),
                a0[i as int].share_price_denom.val(),
                num,
                denom,
            );
            proof {
                if current_distributable {
                    assert(rest[0] == a0[i as int]);
                    assert(rows[k] == a0[i as int]) by {
                        assert(rows.take(k) + rest =~= rows);
                    }
                    assert(k < rows.len()) by {
                        assert(rows.take(k) + rest =~= rows);
                    }
                    assert(rows.take(k + 1) =~= rows.take(k) + seq![rows[k]]);
                    lemma_rows_sums_concat(rows.take(k), seq![rows[k]], num, denom, fee as int);
                    assert(seq![rows[k]].skip(1) =~= Seq::<Allocation>::empty());
                }
            }
            let is_users = self.allocations[i].allocator == *distributor;
            if is_users {
                proof {
                    assert(old(self).allocations@[i as int] == a0[i as int]);
                    assert(old(self).allocations@[i as int].allocator@ == distributor@);
                }
                let outcome = match self.internal_distribute(
                    i,
                    in_inj,
                    &price.numerator,
                    &price.denominator,
                    inj_available,
                ) {
                    Ok(v) => v,
                    Err(e) => {
                        proof {
                            assert(current_distributable);
                            let t_k = spec_dist_amounts(
                                a0[i as int].inj_amount as int,
                                a0[i as int].share_price_num.val(),
                                a0[i as int].share_price_denom.val(),
                                num,
                                denom,
                                fee as int,
                            );
                            let sbf_k = spec_shares_before_fees(
                                a0[i as int].inj_amount as int,
                                a0[i as int].share_price_num.val(),
                                a0[i as int].share_price_denom.val(),
                                num,
                                denom,
                            );
                            if e == ContractError::Overflow {
                                assert(!spec_rows_fit(rows, num, denom, fee as int));
                            }
                            if spec_rows_fit(rows, num, denom, fee as int) && spec_sweep_funded(
                                *old(self),
                                rows,
                                num,
                                denom,
                                fee as int,
                                in_inj,
                                attached,
                                distributor@,
                            ) {
                                lemma_dist_rows_elements(a0, distributor@, num, denom);
                                assert forall|k2: int| 0 <= k2 < rows.len() implies ((
                                #[trigger] rows[k2]).share_price_num.val() > 0
                                    && rows[k2].share_price_denom.val() > 0 && spec_distributable(
                                    rows[k2].share_price_num.val(),
                                    rows[k2].share_price_denom.val(),
                                    num,
                                    denom,
                                )) by {
                                    let j = choose|j: int|
                                        0 <= j < a0.len() && a0[j] == rows[k2];
                                    assert(old(self).allocations@[j] == a0[j]);
                                }
                                assert(forall|k2: int|
                                    0 <= k2 < rows.take(k).len() ==> #[trigger] rows.take(k)[k2]
                                        == rows[k2]);
                                lemma_rows_sums_nonneg(rows.take(k), num, denom, fee as int);
                                let rest2 = rest.skip(1);
                                assert(rest =~= seq![rows[k]] + rest2);
                                lemma_rows_sums_concat(seq![rows[k]], rest2, num, denom, fee as int);
                                assert(forall|k2: int|
                                    0 <= k2 < rest2.len() ==> #[trigger] rest2[k2] == rows[
                                    k + 1 + k2]) by {
                                    assert(rows.take(k) + rest =~= rows);
                                }
                                lemma_rows_sums_nonneg(rest2, num, denom, fee as int);
                                lemma_rows_sums_concat(rows.take(k), rest, num, denom, fee as int);
                                assert(rows.take(k) + rest =~= rows);
                                lemma_row_amounts_bounds(a0[i as int], num, denom, fee as int);
                                assert(false);
                            }
                        }
                        return Err(e);
                    },
                };
                match outcome {
                    None => {
                        proof {
                            assert(rows.take(k) + spec_dist_rows(
                                a0.skip(i as int + 1),
                                distributor@,
                                num,
                                denom,
                            ) =~= rows);
                        }
                    },
                    Some(info) => {
                        proof {
                            assert(current_distributable);
                            assert(rows[k] == a0[i as int]);
                            let t_k = spec_dist_amounts(
                                rows[k].inj_amount as int,
                                rows[k].share_price_num.val(),
                                rows[k].share_price_denom.val(),
                                num,
                                denom,
                                fee as int,
                            );
                            assert(spec_rows_sums(seq![rows[k]], num, denom, fee as int) == (t_k.0, t_k.1, t_k.2)) by {
                                assert(seq![rows[k]][0] == rows[k]);
                                assert(seq![rows[k]].skip(1) =~= Seq::<Allocation>::empty());
                                assert(spec_rows_sums(
                                    Seq::<Allocation>::empty(),
                                    num,
                                    denom,
                                    fee as int,
                                ) == (0int, 0int, 0int));
                            }
                            assert(spec_rows_sums(rows.take(k + 1), num, denom, fee as int).0
                                == spec_rows_sums(rows.take(k), num, denom, fee as int).0 + t_k.0
                                && spec_rows_sums(rows.take(k + 1), num, denom, fee as int).1
                                == spec_rows_sums(rows.take(k), num, denom, fee as int).1 + t_k.1
                                && spec_rows_sums(rows.take(k + 1), num, denom, fee as int).2
                                == spec_rows_sums(rows.take(k), num, denom, fee as int).2
                                + t_k.2);
                            assert(rows.take(k + 1) + spec_dist_rows(
                                a0.skip(i as int + 1),
                                distributor@,
                                num,
                                denom,
                            ) =~= rows);
                        }
                        if let Some(c) = info.inj_transfer {
                            cmds.push(c);
                        }
                        events.push(info.distribution_event);
                        inj_available = info.refund_amount;
                    },
                }
            } else {
                proof {
                    assert(rows.take(k) + spec_dist_rows(
                        a0.skip(i as int + 1),
                        distributor@,
                        num,
                        denom,
                    ) =~= rows);
                }
            }
            i += 1;
        }
        proof {
            assert(a0.skip(n as int) =~= Seq::<Allocation>::empty());
            assert(spec_dist_rows(a0.skip(n as int), distributor@, num, denom) =~= Seq::<
                Allocation,
            >::empty());
            assert(rows.take(events@.len() as int) + Seq::<Allocation>::empty() =~= rows.take(
                events@.len() as int,
            ));
            assert(rows.take(events@.len() as int) =~= rows);
            assert(events@.len() == rows.len());
            assert(rows.take(events@.len() as int) == rows.take(rows.len() as int));
            assert(rows.take(rows.len() as int) =~= rows);
            assert(self.allocations@ =~= spec_all_reconciled(
                a0,
                distributor@,
                crate::math::u256_of(num),
                crate::math::u256_of(denom),
            ));
        }
        if inj_available > 0 {
            cmds.push(Command::Send { to_address: distributor.clone(), amount: inj_available });
        }
        let total = self.get_total_allocated(distributor);
        let ghost evs0 = events@;
        let mut j: usize = 0;
        let m = events.len();
        while j < m
            invariant
                m == events@.len(),
                evs0.len() == m,
                0 <= j <= m,
                forall|k: int|
                    0 <= k < m ==> ({
                        &&& (#[trigger] events@[k]).user@ == evs0[k].user@
                        &&& events@[k].recipient@ == evs0[k].recipient@
                        &&& events@[k].fees == evs0[k].fees
                        &&& events@[k].shares == evs0[k].shares
                        &&& events@[k].inj_amount == evs0[k].inj_amount
                        &&& events@[k].in_inj == evs0[k].in_inj
                        &&& events@[k].share_price_num == evs0[k].share_price_num
                        &&& events@[k].share_price_denom == evs0[k].share_price_denom
                    }),
                forall|k: int|
                    0 <= k < j ==> ({
                        &&& (#[trigger] events@[k]).total_allocated_amount
                            == total.total_allocated_amount
                        &&& events@[k].total_allocated_share_price_num
                            == total.total_allocated_share_price_num
                        &&& events@[k].total_allocated_share_price_denom
                            == total.total_allocated_share_price_denom
                    }),
            decreases m - j,
        {
            events[j].total_allocated_amount = total.total_allocated_amount;
            events[j].total_allocated_share_price_num = total.total_allocated_share_price_num;
            events[j].total_allocated_share_price_denom = total.total_allocated_share_price_denom;
            j += 1;
        }
        Ok((cmds, events, DistributedAllEvent { user: distributor.clone() }))
    }
}

/// Summed distribution amounts over all records of one allocator.
pub open spec fn spec_dist_sums(s: Seq<Allocation>, u: Seq<char>, gn: int, gd: int, fee: int) -> (
    int,
    int,
    int,
)
    decreases s.len(),
{
    if s.len() == 0 {
        (0, 0, 0)
    } else {
        let rest = spec_dist_sums(s.skip(1), u, gn, gd, fee);
        if s[0].allocator@ == u {
            let t = spec_dist_amounts(
                s[0].inj_amount as int,
                s[0].share_price_num.val(),
                s[0].share_price_denom.val(),
                gn,
                gd,
                fee,
            );
            (t.0 + rest.0, t.1 + rest.1, t.2 + rest.2)
        } else {
            rest
        }
    }
}

/// What must hold for the distribution-amounts query to run: every record
/// of the allocator divides cleanly, owes a nonnegative delta, and all the
/// intermediate amounts fit in machine words.
pub open spec fn spec_dist_query_defined(
    s: Seq<Allocation>,
    u: Seq<char>,
    gn: int,
    gd: int,
    fee: int,
) -> bool {
    forall|j: int|
        0 <= j < s.len() && (#[trigger] s[j]).allocator@ == u ==> ({
            let dl = spec_shares_for_assets(
                s[j].inj_amount as int,
                s[j].share_price_num.val(),
                s[j].share_price_denom.val(),
            );
            let dg = spec_shares_for_assets(s[j].inj_amount as int, gn, gd);
            let t = spec_dist_amounts(
                s[j].inj_amount as int,
                s[j].share_price_num.val(),
                s[j].share_price_denom.val(),
                gn,
                gd,
                fee,
            );
            &&& s[j].share_price_num.val() > 0
            &&& dl >= dg
            &&& dl - dg <= u128::MAX
            &&& (dl - dg) * fee <= u128::MAX
            &&& t.0 <= u128::MAX
        })
}

/// Every summed component is nonnegative and bounded below by the sums of
/// any suffix.
pub proof fn lemma_dist_sums_nonneg(s: Seq<Allocation>, u: Seq<char>, gn: int, gd: int, fee: int)
    requires
        gn > 0,
        gd > 0,
        0 <= fee < FEE_PRECISION,
        spec_dist_query_defined(s, u, gn, gd, fee),
    ensures
        ({
            let r = spec_dist_sums(s, u, gn, gd, fee);
            r.0 >= 0 && r.1 >= 0 && r.2 >= 0
        }),
    decreases s.len(),
{
    if s.len() > 0 {
        assert(spec_dist_query_defined(s.skip(1), u, gn, gd, fee)) by {
            assert(forall|j: int| 0 <= j < s.skip(1).len() ==> s.skip(1)[j] == s[j + 1]);
        }
        lemma_dist_sums_nonneg(s.skip(1), u, gn, gd, fee);
        if s[0].allocator@ == u {
            let a = s[0];
            let dl = spec_shares_for_assets(
                a.inj_amount as int,
                a.share_price_num.val(),
                a.share_price_denom.val(),
            );
            let dg = spec_shares_for_assets(a.inj_amount as int, gn, gd);
            lemma_fee_le_shares(dl - dg, fee);
            let t = spec_dist_amounts(
                a.inj_amount as int,
                a.share_price_num.val(),
                a.share_price_denom.val(),
                gn,
                gd,
                fee,
            );
            assert(gd * (SHARE_PRICE_SCALING_FACTOR as int) > 0) by (nonlinear_arith)
                requires
                    gd > 0,
                    SHARE_PRICE_SCALING_FACTOR > 0,
            ;
            assert(t.1 * gn >= 0) by (nonlinear_arith)
                requires
                    t.1 >= 0,
                    gn > 0,
            ;
            vstd::arithmetic::div_mod::lemma_div_pos_is_pos(
                t.1 * gn,
                gd * (SHARE_PRICE_SCALING_FACTOR as int),
            );
        }
    }
}

impl Staker {
    /// Returns the base-asset and receipt-share amounts a distributor needs
    /// in order to distribute to one recipient, or to all of their
    /// recipients, together with the fee in shares the treasury will take.
    pub fn get_distribution_amounts(
        &self,
        distributor: &String,
        recipient: Option<&String>,
        dels: &Vec<Delegation>,
    ) -> (r: GetDistributionAmountsResponse)
        requires
            self.wf(),
            spec_total_staked(dels@) <= u128::MAX,
            spec_total_rewards(dels@) <= u128::MAX,
            self.ledger.total_supply != 0 ==> spec_total_staked(dels@) + self.contract_rewards
                <= u128::MAX,
            self.spec_price_num(dels@) > 0,
            match recipient {
                Some(rcpt) => (match spec_find_allocation(
                    self.allocations@,
                    distributor@,
                    rcpt@,
                ) {
                    Some(ex) => ({
                        let dl = spec_shares_for_assets(
                            ex.inj_amount as int,
                            ex.share_price_num.val(),
                            ex.share_price_denom.val(),
                        );
                        let dg = spec_shares_for_assets(
                            ex.inj_amount as int,
                            self.spec_price_num(dels@),
                            self.spec_price_denom(),
                        );
                        let t = spec_dist_amounts(
                            ex.inj_amount as int,
                            ex.share_price_num.val(),
                            ex.share_price_denom.val(),
                            self.spec_price_num(dels@),
                            self.spec_price_denom(),
                            self.staker_info.distribution_fee as int,
                        );
                        ex.share_price_num.val() > 0 && dl >= dg && dl - dg <= u128::MAX && (dl
                            - dg) * self.staker_info.distribution_fee <= u128::MAX && t.0
                            <= u128::MAX
                    }),
                    None => true,
                }),
                None => ({
                    let sums = spec_dist_sums(
                        self.allocations@,
                        distributor@,
                        self.spec_price_num(dels@),
                        self.spec_price_denom(),
                        self.staker_info.distribution_fee as int,
                    );
                    spec_dist_query_defined(
                        self.allocations@,
                        distributor@,
                        self.spec_price_num(dels@),
                        self.spec_price_denom(),
                        self.staker_info.distribution_fee as int,
                    ) && sums.0 <= u128::MAX && sums.1 <= u128::MAX && sums.2 <= u128::MAX
                }),
            },
        ensures
            ({
                let gn = self.spec_price_num(dels@);
                let gd = self.spec_price_denom();
                let fee = self.staker_info.distribution_fee as int;
                match recipient {
                    Some(rcpt) => match spec_find_allocation(
                        self.allocations@,
                        distributor@,
                        rcpt@,
                    ) {
                        Some(ex) => ({
                            let t = spec_dist_amounts(
                                ex.inj_amount as int,
                                ex.share_price_num.val(),
                                ex.share_price_denom.val(),
                                gn,
                                gd,
                                fee,
                            );
                            r.inj_amount as int == t.0 && r.truinj_amount as int == t.1
                                && r.distribution_fee as int == t.2
                        }),
                        None => r.inj_amount == 0 && r.truinj_amount == 0 && r.distribution_fee
                            == 0,
                    },
                    None => ({
                        let sums = spec_dist_sums(self.allocations@, distributor@, gn, gd, fee);
                        r.inj_amount as int == sums.0 && r.truinj_amount as int == sums.1
                            && r.distribution_fee as int == sums.2
                    }),
                }
            }),
    {
        let price = self.get_share_price(dels);
        let fee = self.staker_info.distribution_fee;
        match recipient {
            Some(rcpt) => {
                let found = self.find_allocation_index(distributor, rcpt);
                proof {
                    lemma_alloc_idx(self.allocations@, distributor@, rcpt@);
                }
                match found {
                    None => GetDistributionAmountsResponse {
                        inj_amount: 0,
                        truinj_amount: 0,
                        distribution_fee: 0,
                    },
                    Some(i) => {
                        let amounts = match calculate_distribution_amounts(
                            &self.allocations[i],
                            &price.numerator,
                            &price.denominator,
                            fee,
                        ) {
                            Ok(v) => v,
                            Err(_) => {
                                proof {
                                    assert(false);
                                }
                                return GetDistributionAmountsResponse {
                                    inj_amount: 0,
                                    truinj_amount: 0,
                                    distribution_fee: 0,
                                };
                            },
                        };
                        GetDistributionAmountsResponse {
                            inj_amount: amounts.0,
                            truinj_amount: amounts.1,
                            distribution_fee: amounts.2,
                        }
                    },
                }
            },
            None => {
                let ghost gn = self.spec_price_num(dels@);
                let ghost gd = self.spec_price_denom();
                let n = self.allocations.len();
                let mut total_inj: u128 = 0;
                let mut total_shares: u128 = 0;
                let mut total_fees: u128 = 0;
                let mut i: usize = 0;
                proof {
                    assert(self.allocations@.skip(0) =~= self.allocations@);
                }
                while i < n
                    invariant
                        self.wf(),
                        n == self.allocations@.len(),
                        0 <= i <= n,
                        gn == self.spec_price_num(dels@),
                        gd == self.spec_price_denom(),
                        gn > 0,
                        gd > 0,
                        price.numerator.val() == gn,
                        price.denominator.val() == gd,
                        fee == self.staker_info.distribution_fee,
                        spec_dist_query_defined(
                            self.allocations@,
                            distributor@,
                            gn,
                            gd,
                            fee as int,
                        ),
                        ({
                            let sums = spec_dist_sums(
                                self.allocations@,
                                distributor@,
                                gn,
                                gd,
                                fee as int,
                            );
                            let rest = spec_dist_sums(
                                self.allocations@.skip(i as int),
                                distributor@,
                                gn,
                                gd,
                                fee as int,
                            );
                            &&& sums.0 <= u128::MAX && sums.1 <= u128::MAX && sums.2 <= u128::MAX
                            &&& sums.0 == total_inj + rest.0
                            &&& sums.1 == total_shares + rest.1
                            &&& sums.2 == total_fees + rest.2
                        }),
                    decreases n - i,
                {
                    proof {
                        assert(self.allocations@.skip(i as int)[0] == self.allocations@[i as int]);
                        assert(self.allocations@.skip(i as int).skip(1) =~= self.allocations@.skip(
                            i as int + 1,
                        ));
                        assert(spec_dist_query_defined(
                            self.allocations@.skip(i as int + 1),
                            distributor@,
                            gn,
                            gd,
                            fee as int,
                        )) by {
                            assert(forall|j: int|
                                0 <= j < self.allocations@.skip(i as int + 1).len() ==> (
                                #[trigger] self.allocations@.skip(i as int + 1)[j])
                                    == self.allocations@[j + i + 1]);
                        }
                        lemma_dist_sums_nonneg(
                            self.allocations@.skip(i as int + 1),
                            distributor@,
                            gn,
                            gd,
                            fee as int,
                        );
                    }
                    if self.allocations[i].allocator == *distributor {
                        let amounts = match calculate_distribution_amounts(
                            &self.allocations[i],
                            &price.numerator,
                            &price.denominator,
                            fee,
                        ) {
                            Ok(v) => v,
                            Err(_) => {
                                proof {
                                    assert(false);
                                }
                                return GetDistributionAmountsResponse {
                                    inj_amount: 0,
                                    truinj_amount: 0,
                                    distribution_fee: 0,
                                };
                            },
                        };
                        total_inj = total_inj + amounts.0;
                        total_shares = total_shares + amounts.1;
                        total_fees = total_fees + amounts.2;
                    }
                    i += 1;
                }
                proof {
                    assert(self.allocations@.skip(n as int) =~= Seq::<Allocation>::empty());
                }
                GetDistributionAmountsResponse {
                    inj_amount: total_inj,
                    truinj_amount: total_shares,
                    distribution_fee: total_fees,
                }
            },
        }
    }
}

} // verus!
