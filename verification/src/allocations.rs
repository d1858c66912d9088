//! The allocation ledger: standing reward commitments from an allocator to
//! a recipient, each stamped with the share price at which it was last
//! reconciled.
//!
//! Topping an allocation up at a different price merges the two tranches
//! into one record whose snapshot price is chosen so that the merged record
//! is worth exactly as many shares as the two tranches were separately.

use vstd::prelude::*;

use crate::constants::{ONE_INJ, SHARE_PRICE_SCALING_FACTOR};
use crate::error::ContractError;
use crate::math::{
    lemma_u256_canonical, pow2_256, spec_shares_for_assets, u256_checked_add, u256_checked_mul,
    u256_from_u128, u256_of, wide_mul_div, U256,
};
use crate::msg::{AllocationEvent, GetAllocationsResponse, GetTotalAllocatedResponse};
use crate::state::{
    alloc_view, allocs_view, spec_find_allocation, spec_total_rewards, spec_total_staked,
    Allocation, Delegation, Staker, UserStatus,
};

verus! {

/// Whether merging a tranche into a record divides cleanly: neither price
/// numerator is zero and both share equivalents fit in 256 bits.
pub open spec fn spec_merge_defined(a1: int, n1: int, d1: int, a2: int, n2: int, d2: int) -> bool {
    &&& n1 != 0
    &&& n2 != 0
    &&& spec_shares_for_assets(a1, n1, d1) < pow2_256()
    &&& spec_shares_for_assets(a2, n2, d2) < pow2_256()
}

/// What must fit in machine words when a merge is otherwise defined: the
/// summed share equivalent and the summed amount.
pub open spec fn spec_merge_fits(a1: int, n1: int, d1: int, a2: int, n2: int, d2: int) -> bool {
    spec_merge_defined(a1, n1, d1, a2, n2, d2) ==> (spec_shares_for_assets(a1, n1, d1)
        + spec_shares_for_assets(a2, n2, d2) < pow2_256() && a1 + a2 <= u128::MAX)
}

/// The merged record's amount, price numerator and price denominator. The
/// denominator is the sum of the two tranches' share equivalents, each at
/// its own price, so the merged record keeps their combined worth.
pub open spec fn spec_merged(a1: int, n1: int, d1: int, a2: int, n2: int, d2: int) -> (
    int,
    int,
    int,
) {
    (
        a1 + a2,
        (a1 + a2) * (SHARE_PRICE_SCALING_FACTOR as int),
        spec_shares_for_assets(a1, n1, d1) + spec_shares_for_assets(a2, n2, d2),
    )
}

/// One fold step of merging allocation tuples `(amount, num, denom)`.
pub open spec fn spec_merge_step(acc: (int, int, int), x: (int, int, int)) -> Option<
    (int, int, int),
> {
    if spec_merge_defined(acc.0, acc.1, acc.2, x.0, x.1, x.2) && spec_shares_for_assets(
        acc.0,
        acc.1,
        acc.2,
    ) + spec_shares_for_assets(x.0, x.1, x.2) < pow2_256() && acc.0 + x.0 <= u128::MAX {
        Some(spec_merged(acc.0, acc.1, acc.2, x.0, x.1, x.2))
    } else {
        None
    }
}

/// Folds allocation tuples left to right, failing where a step is not
/// defined.
pub open spec fn spec_fold_allocs(acc: (int, int, int), rest: Seq<(int, int, int)>) -> Option<
    (int, int, int),
>
    decreases rest.len(),
{
    if rest.len() == 0 {
        Some(acc)
    } else {
        match spec_merge_step(acc, rest[0]) {
            None => None,
            Some(acc2) => spec_fold_allocs(acc2, rest.skip(1)),
        }
    }
}

/// The `(amount, num, denom)` tuples of one allocator's records, in order.
pub open spec fn spec_alloc_tuples(s: Seq<Allocation>, u: Seq<char>) -> Seq<(int, int, int)>
    decreases s.len(),
{
    if s.len() == 0 {
        Seq::empty()
    } else if s[0].allocator@ == u {
        seq![
            (s[0].inj_amount as int, s[0].share_price_num.val(), s[0].share_price_denom.val()),
        ] + spec_alloc_tuples(s.skip(1), u)
    } else {
        spec_alloc_tuples(s.skip(1), u)
    }
}

/// The running total of one allocator: all their records merged in order,
/// or zeroes when they have none.
pub open spec fn spec_total_allocated_in(s: Seq<Allocation>, u: Seq<char>) -> Option<
    (int, int, int),
> {
    let t = spec_alloc_tuples(s, u);
    if t.len() == 0 {
        Some((0, 0, 0))
    } else {
        spec_fold_allocs(t[0], t.skip(1))
    }
}

/// The view tuples of one allocator's records, in order.
pub open spec fn spec_user_allocs(s: Seq<Allocation>, u: Seq<char>) -> Seq<
    (Seq<char>, Seq<char>, u128, U256, U256),
>
    decreases s.len(),
{
    if s.len() == 0 {
        Seq::empty()
    } else if s[0].allocator@ == u {
        seq![alloc_view(s[0])] + spec_user_allocs(s.skip(1), u)
    } else {
        spec_user_allocs(s.skip(1), u)
    }
}

/// Index of the record an allocator holds towards a recipient, or -1.
pub open spec fn spec_alloc_idx(s: Seq<Allocation>, a: Seq<char>, r: Seq<char>) -> int
    decreases s.len(),
{
    if s.len() == 0 {
        -1
    } else if s[0].allocator@ == a && s[0].recipient@ == r {
        0
    } else {
        let t = spec_alloc_idx(s.skip(1), a, r);
        if t == -1 {
            -1
        } else {
            t + 1
        }
    }
}

/// The index and the lookup agree: -1 means no record, otherwise the first
/// matching position.
pub proof fn lemma_alloc_idx(s: Seq<Allocation>, a: Seq<char>, r: Seq<char>)
    ensures
        spec_alloc_idx(s, a, r) == -1 ==> spec_find_allocation(s, a, r) is None && (forall|j: int|
            0 <= j < s.len() ==> !((#[trigger] s[j]).allocator@ == a && s[j].recipient@ == r)),
        spec_alloc_idx(s, a, r) != -1 ==> {
            let i = spec_alloc_idx(s, a, r);
            &&& 0 <= i < s.len()
            &&& s[i].allocator@ == a
            &&& s[i].recipient@ == r
            &&& spec_find_allocation(s, a, r) == Some(s[i])
            &&& (forall|j: int|
                0 <= j < i ==> !((#[trigger] s[j]).allocator@ == a && s[j].recipient@ == r))
        },
    decreases s.len(),
{
    if s.len() > 0 {
        if s[0].allocator@ == a && s[0].recipient@ == r {
        } else {
            lemma_alloc_idx(s.skip(1), a, r);
            let t = spec_alloc_idx(s.skip(1), a, r);
            if t == -1 {
                assert forall|j: int|
                    0 <= j < s.len() implies !((#[trigger] s[j]).allocator@ == a
                    && s[j].recipient@ == r) by {
                    if j >= 1 {
                        assert(s[j] == s.skip(1)[j - 1]);
                    }
                }
            } else {
                assert(s[t + 1] == s.skip(1)[t]);
                assert forall|j: int|
                    0 <= j < t + 1 implies !((#[trigger] s[j]).allocator@ == a
                    && s[j].recipient@ == r) by {
                    if j >= 1 {
                        assert(s[j] == s.skip(1)[j - 1]);
                    }
                }
            }
        }
    }
}

/// The merged allocation record: the old record with its amount and price
/// snapshot replaced by the merge of the two tranches.
pub open spec fn spec_merged_allocation(ex: Allocation, amount: u128, num: int, denom: int) -> Allocation {
    let m = spec_merged(
        ex.inj_amount as int,
        ex.share_price_num.val(),
        ex.share_price_denom.val(),
        amount as int,
        num,
        denom,
    );
    Allocation {
        allocator: ex.allocator,
        recipient: ex.recipient,
        inj_amount: m.0 as u128,
        share_price_num: u256_of(m.1),
        share_price_denom: u256_of(m.2),
    }
}

/// The allocation list after a successful `allocate`: a new record stamped
/// with the current price, or the existing record merged with the tranche.
pub open spec fn spec_allocations_after(
    s: Seq<Allocation>,
    sender: String,
    recipient: String,
    amount: u128,
    num: int,
    denom: int,
) -> Seq<Allocation> {
    let i = spec_alloc_idx(s, sender@, recipient@);
    if i == -1 {
        s.push(
            Allocation {
                allocator: sender,
                recipient,
                inj_amount: amount,
                share_price_num: u256_of(num),
                share_price_denom: u256_of(denom),
            },
        )
    } else {
        s.update(i, spec_merged_allocation(s[i], amount, num, denom))
    }
}

/// The allocation list after a successful `deallocate`: the record shrunk,
/// or removed entirely when the full amount is taken back.
pub open spec fn spec_deallocations_after(
    s: Seq<Allocation>,
    a: Seq<char>,
    r: Seq<char>,
    amount: u128,
) -> Seq<Allocation> {
    let i = spec_alloc_idx(s, a, r);
    if s[i].inj_amount == amount {
        s.remove(i)
    } else {
        s.update(
            i,
            Allocation { inj_amount: (s[i].inj_amount - amount) as u128, ..s[i] },
        )
    }
}

/// Computes the merged amount and price of an existing tranche
/// `(a1, n1, d1)` and a new tranche `(a2, n2, d2)`.
fn merge_allocation_parts(a1: u128, n1: &U256, d1: &U256, a2: u128, n2: &U256, d2: &U256) -> (r:
    Result<(u128, U256, U256), ContractError>)
    requires
        spec_merge_fits(a1 as int, n1.val(), d1.val(), a2 as int, n2.val(), d2.val()),
    ensures
        ({
            let dl = spec_shares_for_assets(a1 as int, n1.val(), d1.val());
            let dr = spec_shares_for_assets(a2 as int, n2.val(), d2.val());
            match r {
                Ok((na, nn, nd)) => spec_merge_defined(
                    a1 as int,
                    n1.val(),
                    d1.val(),
                    a2 as int,
                    n2.val(),
                    d2.val(),
                ) && na as int == a1 + a2 && nn.val() == (a1 + a2) * (
                SHARE_PRICE_SCALING_FACTOR as int) && nd.val() == dl + dr,
                Err(ContractError::ZeroDiv) => n1.val() == 0 || (n1.val() != 0 && dl < pow2_256()
                    && n2.val() == 0),
                Err(ContractError::Overflow) => (n1.val() != 0 && dl >= pow2_256()) || (n1.val()
                    != 0 && dl < pow2_256() && n2.val() != 0 && dr >= pow2_256()),
                Err(_) => false,
            }
        }),
{
    let dl = match wide_mul_div(d1, a1, SHARE_PRICE_SCALING_FACTOR, n1) {
        Ok(v) => v,
        Err(e) => {
            return Err(e);
        },
    };
    let dr = match wide_mul_div(d2, a2, SHARE_PRICE_SCALING_FACTOR, n2) {
        Ok(v) => v,
        Err(e) => {
            return Err(e);
        },
    };
    let nd = u256_checked_add(&dl, &dr).unwrap();
    let total = a1 + a2;
    let nn = u256_checked_mul(&u256_from_u128(total), &u256_from_u128(SHARE_PRICE_SCALING_FACTOR));
    proof {
        assert(total as int * (SHARE_PRICE_SCALING_FACTOR as int) < pow2_256())
            by (nonlinear_arith)
            requires
                total as int <= u128::MAX as int,
        ;
    }
    Ok((total, nn.unwrap(), nd))
}

impl Staker {
    /// Finds the position of the record an allocator holds towards a
    /// recipient, or its absence.
    pub(crate) fn find_allocation_index(&self, a: &String, r: &String) -> (res: Option<usize>)
        ensures
            match res {
                Some(i) => i as int == spec_alloc_idx(self.allocations@, a@, r@) && i
                    < self.allocations@.len() && self.allocations@[i as int].allocator@ == a@
                    && self.allocations@[i as int].recipient@ == r@,
                None => spec_alloc_idx(self.allocations@, a@, r@) == -1,
            },
    {
        let n = self.allocations.len();
        let mut i: usize = 0;
        while i < n
            invariant
                n == self.allocations@.len(),
                0 <= i <= n,
                forall|j: int|
                    0 <= j < i ==> !((#[trigger] self.allocations@[j]).allocator@ == a@
                        && self.allocations@[j].recipient@ == r@),
            decreases n - i,
        {
            if self.allocations[i].allocator == *a && self.allocations[i].recipient == *r {
                proof {
                    lemma_alloc_idx_prefix(self.allocations@, a@, r@, i as int);
                }
                return Some(i);
            }
            i += 1;
        }
        proof {
            lemma_alloc_idx_none(self.allocations@, a@, r@);
        }
        None
    }

    /// Returns all allocations of one allocator, in order.
    pub fn get_allocations(&self, allocator: &String) -> (r: GetAllocationsResponse)
        ensures
            allocs_view(r.allocations@) == spec_user_allocs(self.allocations@, allocator@),
    {
        let n = self.allocations.len();
        let mut out: Vec<Allocation> = Vec::new();
        let mut i: usize = 0;
        proof {
            assert(self.allocations@.skip(0) =~= self.allocations@);
            assert(allocs_view(out@) =~= Seq::<(Seq<char>, Seq<char>, u128, U256, U256)>::empty());
        }
        while i < n
            invariant
                n == self.allocations@.len(),
                0 <= i <= n,
                spec_user_allocs(self.allocations@, allocator@) =~= allocs_view(out@)
                    + spec_user_allocs(self.allocations@.skip(i as int), allocator@),
            decreases n - i,
        {
            proof {
                assert(self.allocations@.skip(i as int)[0] == self.allocations@[i as int]);
                assert(self.allocations@.skip(i as int).skip(1) =~= self.allocations@.skip(
                    i as int + 1,
                ));
            }
            let ghost out0 = out@;
            if self.allocations[i].allocator == *allocator {
                out.push(self.allocations[i].clone());
                proof {
                    assert(allocs_view(out@) =~= allocs_view(out0) + seq![
                        alloc_view(self.allocations@[i as int]),
                    ]);
                    assert(allocs_view(out0) + (seq![alloc_view(self.allocations@[i as int])]
                        + spec_user_allocs(self.allocations@.skip(i as int + 1), allocator@))
                        =~= allocs_view(out@) + spec_user_allocs(
                        self.allocations@.skip(i as int + 1),
                        allocator@,
                    ));
                }
            }
            i += 1;
        }
        proof {
            assert(self.allocations@.skip(n as int) =~= Seq::<Allocation>::empty());
            assert(allocs_view(out@) + Seq::<(Seq<char>, Seq<char>, u128, U256, U256)>::empty()
                =~= allocs_view(out@));
        }
        GetAllocationsResponse { allocations: out }
    }

    /// Returns the total amount one allocator has allocated, together with
    /// the average snapshot price of the merged total.
    pub fn get_total_allocated(&self, user: &String) -> (r: GetTotalAllocatedResponse)
        requires
            spec_total_allocated_in(self.allocations@, user@) is Some,
        ensures
            ({
                let t = spec_total_allocated_in(self.allocations@, user@).unwrap();
                &&& r.total_allocated_amount as int == t.0
                &&& r.total_allocated_share_price_num.val() == t.1
                &&& r.total_allocated_share_price_denom.val() == t.2
            }),
    {
        let n = self.allocations.len();
        let mut found = false;
        let mut acc_amount: u128 = 0;
        let mut acc_num = u256_from_u128(0);
        let mut acc_denom = u256_from_u128(0);
        let mut i: usize = 0;
        proof {
            assert(self.allocations@.skip(0) =~= self.allocations@);
        }
        while i < n
            invariant
                n == self.allocations@.len(),
                0 <= i <= n,
                spec_total_allocated_in(self.allocations@, user@) is Some,
                !found ==> acc_amount == 0 && acc_num.val() == 0 && acc_denom.val() == 0,
                !found ==> spec_total_allocated_in(self.allocations@, user@)
                    == spec_total_allocated_of(
                    spec_alloc_tuples(self.allocations@.skip(i as int), user@),
                ),
                found ==> spec_total_allocated_in(self.allocations@, user@) == spec_fold_allocs(
                    (acc_amount as int, acc_num.val(), acc_denom.val()),
                    spec_alloc_tuples(self.allocations@.skip(i as int), user@),
                ),
            decreases n - i,
        {
            proof {
                assert(self.allocations@.skip(i as int)[0] == self.allocations@[i as int]);
                assert(self.allocations@.skip(i as int).skip(1) =~= self.allocations@.skip(
                    i as int + 1,
                ));
            }
            if self.allocations[i].allocator == *user {
                let a = &self.allocations[i];
                proof {
                    let rest = spec_alloc_tuples(self.allocations@.skip(i as int), user@);
                    assert(rest[0] == (a.inj_amount as int, a.share_price_num.val(),
                    a.share_price_denom.val()));
                    assert(rest.skip(1) =~= spec_alloc_tuples(
                        self.allocations@.skip(i as int + 1),
                        user@,
                    ));
                }
                if !found {
                    acc_amount = a.inj_amount;
                    acc_num = a.share_price_num;
                    acc_denom = a.share_price_denom;
                    found = true;
                } else {
                    let merged = match merge_allocation_parts(
                        acc_amount,
                        &acc_num,
                        &acc_denom,
                        a.inj_amount,
                        &a.share_price_num,
                        &a.share_price_denom,
                    ) {
                        Ok(v) => v,
                        Err(e) => {
                            proof {
                                assert(false);
                            }
                            return GetTotalAllocatedResponse {
                                total_allocated_amount: 0,
                                total_allocated_share_price_num: u256_from_u128(0),
                                total_allocated_share_price_denom: u256_from_u128(0),
                            };
                        },
                    };
                    acc_amount = merged.0;
                    acc_num = merged.1;
                    acc_denom = merged.2;
                }
            }
            i += 1;
        }
        proof {
            assert(self.allocations@.skip(n as int) =~= Seq::<Allocation>::empty());
            assert(spec_alloc_tuples(self.allocations@.skip(n as int), user@) =~= Seq::<
                (int, int, int),
            >::empty());
        }
        GetTotalAllocatedResponse {
            total_allocated_amount: acc_amount,
            total_allocated_share_price_num: acc_num,
            total_allocated_share_price_denom: acc_denom,
        }
    }
}

/// The running total of a tuple list, starting from zeroes when empty.
pub open spec fn spec_total_allocated_of(t: Seq<(int, int, int)>) -> Option<(int, int, int)> {
    if t.len() == 0 {
        Some((0, 0, 0))
    } else {
        spec_fold_allocs(t[0], t.skip(1))
    }
}

/// Merge commutativity of value: a merged record is worth exactly as many
/// shares as its two tranches were separately, each at its own historical
/// price. Future distribution math therefore treats the single merged record
/// exactly as if both tranches were still stored.
pub proof fn lemma_merge_preserves_owed_shares(
    a1: int,
    n1: int,
    d1: int,
    a2: int,
    n2: int,
    d2: int,
)
    requires
        a1 >= 0,
        a2 >= 0,
        a1 + a2 > 0,
        n1 > 0,
        n2 > 0,
        d1 >= 0,
        d2 >= 0,
    ensures
        ({
            let m = spec_merged(a1, n1, d1, a2, n2, d2);
            spec_shares_for_assets(m.0, m.1, m.2) == spec_shares_for_assets(a1, n1, d1)
                + spec_shares_for_assets(a2, n2, d2)
        }),
{
    let s = SHARE_PRICE_SCALING_FACTOR as int;
    let total = a1 + a2;
    let dl = spec_shares_for_assets(a1, n1, d1);
    let dr = spec_shares_for_assets(a2, n2, d2);
    assert(d1 * a1 * s >= 0 && d2 * a2 * s >= 0) by (nonlinear_arith)
        requires
            a1 >= 0,
            a2 >= 0,
            d1 >= 0,
            d2 >= 0,
            s > 0,
    ;
    vstd::arithmetic::div_mod::lemma_div_pos_is_pos(d1 * a1 * s, n1);
    vstd::arithmetic::div_mod::lemma_div_pos_is_pos(d2 * a2 * s, n2);
    let m = total * s;
    assert(m > 0) by (nonlinear_arith)
        requires
            m == total * s,
            total > 0,
            s > 0,
    ;
    assert((dl + dr) * total * s == m * (dl + dr)) by (nonlinear_arith)
        requires
            m == total * s,
    ;
    vstd::arithmetic::div_mod::lemma_div_multiples_vanish(dl + dr, m);
}

impl Staker {
    /// Allocates base-asset rewards from the sender to a recipient: a first
    /// allocation is stamped with the current share price, a top-up merges
    /// the new tranche into the record so that its combined share worth is
    /// kept. Self-allocation and amounts below one whole unit are rejected.
    pub fn allocate(
        &mut self,
        sender: String,
        recipient: String,
        amount: u128,
        dels: &Vec<Delegation>,
    ) -> (r: Result<AllocationEvent, ContractError>)
        requires
            old(self).wf(),
            old(self).delegations_match(dels@),
            (!old(self).is_paused && old(self).spec_user_status(sender@)
                == UserStatus::Whitelisted && recipient@ != sender@ && amount >= ONE_INJ) ==> ({
                let num = old(self).spec_price_num(dels@);
                let denom = old(self).spec_price_denom();
                &&& spec_total_staked(dels@) <= u128::MAX
                &&& spec_total_rewards(dels@) <= u128::MAX
                &&& (old(self).ledger.total_supply != 0 ==> spec_total_staked(dels@) + old(
                    self,
                ).contract_rewards <= u128::MAX)
                &&& (match spec_find_allocation(old(self).allocations@, sender@, recipient@) {
                    Some(ex) => spec_merge_fits(
                        ex.inj_amount as int,
                        ex.share_price_num.val(),
                        ex.share_price_denom.val(),
                        amount as int,
                        num,
                        denom,
                    ),
                    None => true,
                })
                &&& ((match spec_find_allocation(old(self).allocations@, sender@, recipient@) {
                    Some(ex) => spec_merge_defined(
                        ex.inj_amount as int,
                        ex.share_price_num.val(),
                        ex.share_price_denom.val(),
                        amount as int,
                        num,
                        denom,
                    ),
                    None => true,
                }) ==> spec_total_allocated_in(
                    spec_allocations_after(
                        old(self).allocations@,
                        sender,
                        recipient,
                        amount,
                        num,
                        denom,
                    ),
                    sender@,
                ) is Some)
            }),
        ensures
            final(self).wf(),
            old(self).is_paused ==> r == Err::<AllocationEvent, ContractError>(
                ContractError::ContractPaused,
            ) && *final(self) == *old(self),
            (!old(self).is_paused && old(self).spec_user_status(sender@)
                != UserStatus::Whitelisted) ==> r == Err::<AllocationEvent, ContractError>(
                ContractError::UserNotWhitelisted,
            ) && *final(self) == *old(self),
            (!old(self).is_paused && old(self).spec_user_status(sender@)
                == UserStatus::Whitelisted && recipient@ == sender@) ==> r == Err::<
                AllocationEvent,
                ContractError,
            >(ContractError::InvalidRecipient) && *final(self) == *old(self),
            (!old(self).is_paused && old(self).spec_user_status(sender@)
                == UserStatus::Whitelisted && recipient@ != sender@ && amount < ONE_INJ) ==> r
                == Err::<AllocationEvent, ContractError>(ContractError::AllocationUnderOneInj)
                && *final(self) == *old(self),
            (!old(self).is_paused && old(self).spec_user_status(sender@)
                == UserStatus::Whitelisted && recipient@ != sender@ && amount >= ONE_INJ) ==> ({
                let num = old(self).spec_price_num(dels@);
                let denom = old(self).spec_price_denom();
                let found = spec_find_allocation(old(self).allocations@, sender@, recipient@);
                match r {
                    Ok(ev) => {
                        &&& final(self).allocations@ == spec_allocations_after(
                            old(self).allocations@,
                            sender,
                            recipient,
                            amount,
                            num,
                            denom,
                        )
                        &&& *final(self) == (Staker {
                            allocations: final(self).allocations,
                            ..(*old(self))
                        })
                        &&& ev.user@ == sender@
                        &&& ev.recipient@ == recipient@
                        &&& ev.amount == amount
                        &&& (match found {
                            None => ev.total_amount == amount && ev.share_price_num.val() == num
                                && ev.share_price_denom.val() == denom,
                            Some(ex) => {
                                let m = spec_merged(
                                    ex.inj_amount as int,
                                    ex.share_price_num.val(),
                                    ex.share_price_denom.val(),
                                    amount as int,
                                    num,
                                    denom,
                                );
                                ev.total_amount as int == m.0 && ev.share_price_num.val() == m.1
                                    && ev.share_price_denom.val() == m.2
                            },
                        })
                        &&& ({
                            let t = spec_total_allocated_in(
                                final(self).allocations@,
                                sender@,
                            ).unwrap();
                            ev.total_allocated_amount as int == t.0
                                && ev.total_allocated_share_price_num.val() == t.1
                                && ev.total_allocated_share_price_denom.val() == t.2
                        })
                    },
                    Err(e) => *final(self) == *old(self) && (match found {
                        Some(ex) => {
                            let dl = spec_shares_for_assets(
                                ex.inj_amount as int,
                                ex.share_price_num.val(),
                                ex.share_price_denom.val(),
                            );
                            let dr = spec_shares_for_assets(amount as int, num, denom);
                            (e == ContractError::ZeroDiv && (ex.share_price_num.val() == 0 || (
                            ex.share_price_num.val() != 0 && dl < pow2_256() && num == 0))) || (e
                                == ContractError::Overflow && ((ex.share_price_num.val() != 0 && dl
                                >= pow2_256()) || (ex.share_price_num.val() != 0 && dl
                                < pow2_256() && num != 0 && dr >= pow2_256())))
                        },
                        None => false,
                    }),
                }
            }),
    {
        if let Err(e) = self.check_not_paused() {
            return Err(e);
        }
        if let Err(e) = self.check_whitelisted(&sender) {
            return Err(e);
        }
        if recipient == sender {
            return Err(ContractError::InvalidRecipient);
        }
        if amount < ONE_INJ {
            return Err(ContractError::AllocationUnderOneInj);
        }
        let price = self.get_share_price(dels);
        let found = self.find_allocation_index(&sender, &recipient);
        let ev_user = sender.clone();
        let ev_recipient = recipient.clone();
        let ghost a0 = self.allocations@;
        let total_amount: u128;
        let rec_num: U256;
        let rec_denom: U256;
        proof {
            lemma_alloc_idx(a0, sender@, recipient@);
        }
        match found {
            None => {
                total_amount = amount;
                rec_num = price.numerator;
                rec_denom = price.denominator;
                let record = Allocation {
                    allocator: sender,
                    recipient,
                    inj_amount: amount,
                    share_price_num: price.numerator,
                    share_price_denom: price.denominator,
                };
                let ghost rec_g = record;
                self.allocations.push(record);
                proof {
                    lemma_u256_canonical(price.numerator, old(self).spec_price_num(dels@));
                    lemma_u256_canonical(price.denominator, old(self).spec_price_denom());
                    assert(self.allocations@ == spec_allocations_after(
                        a0,
                        rec_g.allocator,
                        rec_g.recipient,
                        amount,
                        old(self).spec_price_num(dels@),
                        old(self).spec_price_denom(),
                    ));
                    assert forall|x: int, y: int|
                        0 <= x < y < self.allocations@.len() implies !((
                        #[trigger] self.allocations@[x]).allocator@ == (
                        #[trigger] self.allocations@[y]).allocator@
                        && self.allocations@[x].recipient@ == self.allocations@[y].recipient@) by {
                        if y < a0.len() {
                            assert(self.allocations@[x] == a0[x]);
                            assert(self.allocations@[y] == a0[y]);
                        } else {
                            assert(self.allocations@[y] == rec_g);
                            assert(self.allocations@[x] == a0[x]);
                        }
                    }
                }
            },
            Some(i) => {
                let a1 = self.allocations[i].inj_amount;
                let n1 = self.allocations[i].share_price_num;
                let d1 = self.allocations[i].share_price_denom;
                let merged = match merge_allocation_parts(
                    a1,
                    &n1,
                    &d1,
                    amount,
                    &price.numerator,
                    &price.denominator,
                ) {
                    Ok(v) => v,
                    Err(e) => {
                        return Err(e);
                    },
                };
                total_amount = merged.0;
                rec_num = merged.1;
                rec_denom = merged.2;
                self.allocations[i].inj_amount = merged.0;
                self.allocations[i].share_price_num = merged.1;
                self.allocations[i].share_price_denom = merged.2;
                proof {
                    let num = old(self).spec_price_num(dels@);
                    let denom = old(self).spec_price_denom();
                    lemma_u256_canonical(
                        merged.1,
                        (a1 + amount) * (SHARE_PRICE_SCALING_FACTOR as int),
                    );
                    lemma_u256_canonical(
                        merged.2,
                        spec_shares_for_assets(a1 as int, n1.val(), d1.val())
                            + spec_shares_for_assets(amount as int, num, denom),
                    );
                    assert(self.allocations@ =~= a0.update(
                        i as int,
                        spec_merged_allocation(a0[i as int], amount, num, denom),
                    ));
                    assert forall|x: int, y: int|
                        0 <= x < y < self.allocations@.len() implies !((
                        #[trigger] self.allocations@[x]).allocator@ == (
                        #[trigger] self.allocations@[y]).allocator@
                        && self.allocations@[x].recipient@ == self.allocations@[y].recipient@) by {
                        assert(self.allocations@[x].allocator@ == a0[x].allocator@
                            && self.allocations@[x].recipient@ == a0[x].recipient@);
                        assert(self.allocations@[y].allocator@ == a0[y].allocator@
                            && self.allocations@[y].recipient@ == a0[y].recipient@);
                    }
                }
            },
        }
        let total = self.get_total_allocated(&ev_user);
        Ok(
            AllocationEvent {
                user: ev_user,
                recipient: ev_recipient,
                amount,
                total_amount,
                share_price_num: rec_num,
                share_price_denom: rec_denom,
                total_allocated_amount: total.total_allocated_amount,
                total_allocated_share_price_num: total.total_allocated_share_price_num,
                total_allocated_share_price_denom: total.total_allocated_share_price_denom,
            },
        )
    }

    /// Deallocates part or all of an allocation. Taking the amount to
    /// exactly zero deletes the record; a nonzero remainder below one whole
    /// unit is rejected; the price snapshot is deliberately left unchanged.
    pub fn deallocate(&mut self, sender: &String, recipient: &String, amount: u128) -> (r: Result<
        AllocationEvent,
        ContractError,
    >)
        requires
            old(self).wf(),
            (!old(self).is_paused && old(self).spec_user_status(sender@)
                == UserStatus::Whitelisted && (match spec_find_allocation(
                old(self).allocations@,
                sender@,
                recipient@,
            ) {
                Some(ex) => amount <= ex.inj_amount && (ex.inj_amount - amount == 0 || ex.inj_amount
                    - amount >= ONE_INJ),
                None => false,
            })) ==> spec_total_allocated_in(
                spec_deallocations_after(old(self).allocations@, sender@, recipient@, amount),
                sender@,
            ) is Some,
        ensures
            final(self).wf(),
            old(self).is_paused ==> r == Err::<AllocationEvent, ContractError>(
                ContractError::ContractPaused,
            ) && *final(self) == *old(self),
            (!old(self).is_paused && old(self).spec_user_status(sender@)
                != UserStatus::Whitelisted) ==> r == Err::<AllocationEvent, ContractError>(
                ContractError::UserNotWhitelisted,
            ) && *final(self) == *old(self),
            (!old(self).is_paused && old(self).spec_user_status(sender@)
                == UserStatus::Whitelisted) ==> (match spec_find_allocation(
                old(self).allocations@,
                sender@,
                recipient@,
            ) {
                None => r == Err::<AllocationEvent, ContractError>(
                    ContractError::NoAllocationToRecipient,
                ) && *final(self) == *old(self),
                Some(ex) => {
                    if amount > ex.inj_amount {
                        r == Err::<AllocationEvent, ContractError>(
                            ContractError::ExcessiveDeallocation,
                        ) && *final(self) == *old(self)
                    } else if ex.inj_amount - amount > 0 && ex.inj_amount - amount < ONE_INJ {
                        r == Err::<AllocationEvent, ContractError>(
                            ContractError::AllocationUnderOneInj,
                        ) && *final(self) == *old(self)
                    } else {
                        match r {
                            Ok(ev) => {
                                &&& final(self).allocations@ == spec_deallocations_after(
                                    old(self).allocations@,
                                    sender@,
                                    recipient@,
                                    amount,
                                )
                                &&& *final(self) == (Staker {
                                    allocations: final(self).allocations,
                                    ..(*old(self))
                                })
                                &&& ev.user@ == sender@
                                &&& ev.recipient@ == recipient@
                                &&& ev.amount == amount
                                &&& ev.total_amount == ex.inj_amount - amount
                                &&& ev.share_price_num == ex.share_price_num
                                &&& ev.share_price_denom == ex.share_price_denom
                                &&& ({
                                    let t = spec_total_allocated_in(
                                        final(self).allocations@,
                                        sender@,
                                    ).unwrap();
                                    ev.total_allocated_amount as int == t.0
                                        && ev.total_allocated_share_price_num.val() == t.1
                                        && ev.total_allocated_share_price_denom.val() == t.2
                                })
                            },
                            Err(_) => false,
                        }
                    }
                },
            }),
    {
        if let Err(e) = self.check_not_paused() {
            return Err(e);
        }
        if let Err(e) = self.check_whitelisted(sender) {
            return Err(e);
        }
        let found = self.find_allocation_index(sender, recipient);
        let ghost a0 = self.allocations@;
        proof {
            lemma_alloc_idx(a0, sender@, recipient@);
        }
        let i = match found {
            None => {
                return Err(ContractError::NoAllocationToRecipient);
            },
            Some(i) => i,
        };
        let ex_amount = self.allocations[i].inj_amount;
        let ex_num = self.allocations[i].share_price_num;
        let ex_denom = self.allocations[i].share_price_denom;
        if amount > ex_amount {
            return Err(ContractError::ExcessiveDeallocation);
        }
        let remaining_amount = ex_amount - amount;
        if remaining_amount == 0 {
            let ghost idx = i as int;
            self.allocations.remove(i);
            proof {
                a0.remove_ensures(idx);
                assert(self.allocations@ =~= spec_deallocations_after(
                    a0,
                    sender@,
                    recipient@,
                    amount,
                ));
                assert forall|x: int, y: int|
                    0 <= x < y < self.allocations@.len() implies !((
                    #[trigger] self.allocations@[x]).allocator@ == (
                    #[trigger] self.allocations@[y]).allocator@
                    && self.allocations@[x].recipient@ == self.allocations@[y].recipient@) by {
                    let xo = if x < idx {
                        x
                    } else {
                        x + 1
                    };
                    let yo = if y < idx {
                        y
                    } else {
                        y + 1
                    };
                    assert(self.allocations@[x] == a0[xo]);
                    assert(self.allocations@[y] == a0[yo]);
                }
                assert forall|k: int| 0 <= k < self.allocations@.len() implies (
                #[trigger] self.allocations@[k]).inj_amount >= ONE_INJ
                    && self.allocations@[k].allocator@ != self.allocations@[k].recipient@ by {
                    let ko = if k < idx {
                        k
                    } else {
                        k + 1
                    };
                    assert(self.allocations@[k] == a0[ko]);
                }
            }
        } else {
            if remaining_amount < ONE_INJ {
                return Err(ContractError::AllocationUnderOneInj);
            }
            self.allocations[i].inj_amount = remaining_amount;
            proof {
                assert(self.allocations@ =~= spec_deallocations_after(
                    a0,
                    sender@,
                    recipient@,
                    amount,
                ));
                assert forall|x: int, y: int|
                    0 <= x < y < self.allocations@.len() implies !((
                    #[trigger] self.allocations@[x]).allocator@ == (
                    #[trigger] self.allocations@[y]).allocator@
                    && self.allocations@[x].recipient@ == self.allocations@[y].recipient@) by {
                    assert(self.allocations@[x].allocator@ == a0[x].allocator@
                        && self.allocations@[x].recipient@ == a0[x].recipient@);
                    assert(self.allocations@[y].allocator@ == a0[y].allocator@
                        && self.allocations@[y].recipient@ == a0[y].recipient@);
                }
            }
        }
        let total = self.get_total_allocated(sender);
        Ok(
            AllocationEvent {
                user: sender.clone(),
                recipient: recipient.clone(),
                amount,
                total_amount: remaining_amount,
                share_price_num: ex_num,
                share_price_denom: ex_denom,
                total_allocated_amount: total.total_allocated_amount,
                total_allocated_share_price_num: total.total_allocated_share_price_num,
                total_allocated_share_price_denom: total.total_allocated_share_price_denom,
            },
        )
    }
}

/// A scan that saw no matching pair up to `i` pins the index to the rest.
pub proof fn lemma_alloc_idx_prefix(s: Seq<Allocation>, a: Seq<char>, r: Seq<char>, i: int)
    requires
        0 <= i < s.len(),
        s[i].allocator@ == a && s[i].recipient@ == r,
        forall|j: int| 0 <= j < i ==> !((#[trigger] s[j]).allocator@ == a && s[j].recipient@ == r),
    ensures
        spec_alloc_idx(s, a, r) == i,
    decreases i,
{
    if i > 0 {
        lemma_alloc_idx_prefix(s.skip(1), a, r, i - 1);
        assert(forall|j: int| 0 <= j < s.skip(1).len() ==> s.skip(1)[j] == s[j + 1]);
    } else {
        assert(s[0].allocator@ == a && s[0].recipient@ == r);
    }
}

/// A scan that saw no matching pair anywhere means there is no index.
pub proof fn lemma_alloc_idx_none(s: Seq<Allocation>, a: Seq<char>, r: Seq<char>)
    requires
        forall|j: int|
            0 <= j < s.len() ==> !((#[trigger] s[j]).allocator@ == a && s[j].recipient@ == r),
    ensures
        spec_alloc_idx(s, a, r) == -1,
    decreases s.len(),
{
    if s.len() > 0 {
        lemma_alloc_idx_none(s.skip(1), a, r);
        assert(forall|j: int| 0 <= j < s.skip(1).len() ==> s.skip(1)[j] == s[j + 1]);
    }
}

} // verus!
