//! The durable contract state, modelled as one explicit struct.
//!
//! The host keeps this state in its store; every operation of the library
//! takes it by reference, mutates it in place and returns the commands and
//! events for the host to emit. Maps of the store become vectors with unique
//! keys, in insertion order.

use vstd::prelude::*;

use crate::constants::{FEE_PRECISION, ONE_INJ};
use crate::ledger::TokenLedger;
use crate::math::U256;

verus! {

/// Global settings of the staker, mutated only by owner-gated setters.
#[derive(Clone, Debug)]
pub struct StakerInfo {
    pub treasury: String,
    pub fee: u16,
    pub min_deposit: u128,
    pub distribution_fee: u16,
}

/// Whether a registered validator currently accepts new stake.
#[derive(Clone, Copy, Debug, PartialEq, Eq, Structural)]
pub enum ValidatorState {
    NoState,
    Enabled,
    Disabled,
}

/// One row of the validator view returned to callers.
#[derive(Clone, Debug)]
pub struct ValidatorInfo {
    pub total_staked: u128,
    pub state: ValidatorState,
    pub addr: String,
}

/// Whitelist standing of a user.
#[derive(Clone, Copy, Debug, PartialEq, Eq, Structural)]
pub enum UserStatus {
    NoStatus,
    Whitelisted,
    Blacklisted,
}

/// A standing commitment of rewards from an allocator to a recipient,
/// stamped with the share price at which it was last reconciled.
#[derive(Debug)]
pub struct Allocation {
    pub allocator: String,
    pub recipient: String,
    pub inj_amount: u128,
    pub share_price_num: U256,
    pub share_price_denom: U256,
}

/// The mathematical content of an allocation: allocator, recipient, amount
/// and price snapshot.
pub open spec fn alloc_view(a: Allocation) -> (Seq<char>, Seq<char>, u128, U256, U256) {
    (a.allocator@, a.recipient@, a.inj_amount, a.share_price_num, a.share_price_denom)
}

/// The mathematical content of an allocation list.
pub open spec fn allocs_view(s: Seq<Allocation>) -> Seq<
    (Seq<char>, Seq<char>, u128, U256, U256),
> {
    s.map_values(|a: Allocation| alloc_view(a))
}

impl Clone for Allocation {
    fn clone(&self) -> (r: Self)
        ensures
            alloc_view(r) == alloc_view(*self),
    {
        Allocation {
            allocator: self.allocator.clone(),
            recipient: self.recipient.clone(),
            inj_amount: self.inj_amount,
            share_price_num: self.share_price_num,
            share_price_denom: self.share_price_denom,
        }
    }
}

/// When a pending claim matures.
#[derive(Clone, Copy, Debug, PartialEq, Eq, Structural)]
pub enum Expiration {
    AtHeight(u64),
    AtTime(u64),
    Never,
}

/// The point in time at which claims are tested for maturity.
#[derive(Clone, Copy, Debug, PartialEq, Eq, Structural)]
pub struct BlockInfo {
    pub height: u64,
    pub time: u64,
}

impl Expiration {
    /// Whether this expiration has been reached at the given block.
    pub open spec fn spec_is_expired(self, block: BlockInfo) -> bool {
        match self {
            Expiration::AtHeight(h) => block.height >= h,
            Expiration::AtTime(t) => block.time >= t,
            Expiration::Never => false,
        }
    }

    /// Whether this expiration has been reached at the given block.
    pub fn is_expired(&self, block: &BlockInfo) -> (r: bool)
        ensures
            r == self.spec_is_expired(*block),
    {
        match self {
            Expiration::AtHeight(h) => block.height >= *h,
            Expiration::AtTime(t) => block.time >= *t,
            Expiration::Never => false,
        }
    }
}

/// A single scalar carried by an expiration: the height, the timestamp in
/// seconds, or zero when it never expires.
pub trait GetValueTrait {
    /// The scalar `get_value` returns.
    spec fn spec_get_value(&self) -> u64;

    /// Returns the scalar of this value.
    fn get_value(&self) -> (v: u64)
        ensures
            v == self.spec_get_value(),
    ;
}

impl GetValueTrait for Expiration {
    open spec fn spec_get_value(&self) -> u64 {
        match *self {
            Expiration::AtHeight(height) => height,
            Expiration::AtTime(time) => time,
            Expiration::Never => 0,
        }
    }

    fn get_value(&self) -> (v: u64) {
        match self {
            Expiration::AtHeight(height) => *height,
            Expiration::AtTime(time) => *time,
            Expiration::Never => 0,
        }
    }
}

/// A pending withdrawal: the user is owed `amount` once `release_at` expires.
#[derive(Debug)]
pub struct ClaimRecord {
    pub user: String,
    pub amount: u128,
    pub release_at: Expiration,
}

/// The mathematical content of a claim record: user, amount, maturity.
pub open spec fn claim_view(c: ClaimRecord) -> (Seq<char>, u128, Expiration) {
    (c.user@, c.amount, c.release_at)
}

/// The mathematical content of a claim list.
pub open spec fn claims_view(s: Seq<ClaimRecord>) -> Seq<(Seq<char>, u128, Expiration)> {
    s.map_values(|c: ClaimRecord| claim_view(c))
}

impl Clone for ClaimRecord {
    fn clone(&self) -> (r: Self)
        ensures
            claim_view(r) == claim_view(*self),
    {
        ClaimRecord { user: self.user.clone(), amount: self.amount, release_at: self.release_at }
    }
}

/// What the staking backend reports for one registered validator: the
/// delegated principal and the accrued, not yet withdrawn rewards.
#[derive(Clone, Debug)]
pub struct Delegation {
    pub validator: String,
    pub staked: u128,
    pub rewards: u128,
}

/// First value stored under a string key, scanning from the front.
pub open spec fn spec_assoc<T>(s: Seq<(String, T)>, k: Seq<char>) -> Option<T>
    decreases s.len(),
{
    if s.len() == 0 {
        None
    } else if s[0].0@ == k {
        Some(s[0].1)
    } else {
        spec_assoc(s.skip(1), k)
    }
}

/// When no key in the first `i` entries matches, the lookup result is
/// decided by the rest of the sequence.
pub proof fn lemma_assoc_skip<T>(s: Seq<(String, T)>, k: Seq<char>, i: int)
    requires
        0 <= i <= s.len(),
        forall|j: int| 0 <= j < i ==> s[j].0@ != k,
    ensures
        spec_assoc(s, k) == spec_assoc(s.skip(i), k),
    decreases i,
{
    if i == 0 {
        assert(s.skip(0) =~= s);
    } else {
        assert(s.len() > 0 && s[0].0@ != k);
        lemma_assoc_skip(s.skip(1), k, i - 1);
        assert(s.skip(1).skip(i - 1) =~= s.skip(i));
    }
}

/// Keys are pairwise distinct.
pub open spec fn unique_keys<T>(s: Seq<(String, T)>) -> bool {
    forall|i: int, j: int| 0 <= i < j < s.len() ==> s[i].0@ != s[j].0@
}

/// Overwriting the entry at `i` with one that keeps its key changes the
/// lookup of exactly that key.
pub proof fn lemma_assoc_update<T>(s: Seq<(String, T)>, i: int, v: (String, T), k: Seq<char>)
    requires
        0 <= i < s.len(),
        s[i].0@ == v.0@,
        unique_keys(s),
    ensures
        spec_assoc(s.update(i, v), k) == (if k == v.0@ {
            Some(v.1)
        } else {
            spec_assoc(s, k)
        }),
    decreases i,
{
    let su = s.update(i, v);
    if i == 0 {
        if k != v.0@ {
            assert(su.skip(1) =~= s.skip(1));
        }
    } else {
        assert(su[0] == s[0]);
        if s[0].0@ == k {
            assert(k != v.0@);
        } else {
            assert(su.skip(1) =~= s.skip(1).update(i - 1, v));
            assert(unique_keys(s.skip(1))) by {
                assert(forall|x: int, y: int|
                    0 <= x < y < s.skip(1).len() ==> s.skip(1)[x].0@ == s[x + 1].0@ && s.skip(
                        1,
                    )[y].0@ == s[y + 1].0@);
            }
            lemma_assoc_update(s.skip(1), i - 1, v, k);
        }
    }
}

/// Appending an entry changes the lookup only of a key that was absent.
pub proof fn lemma_assoc_push<T>(s: Seq<(String, T)>, v: (String, T), k: Seq<char>)
    ensures
        spec_assoc(s.push(v), k) == (if spec_assoc(s, k) is Some {
            spec_assoc(s, k)
        } else if k == v.0@ {
            Some(v.1)
        } else {
            None::<T>
        }),
    decreases s.len(),
{
    let sp = s.push(v);
    if s.len() == 0 {
        assert(sp[0] == v);
        assert(sp.skip(1) =~= Seq::<(String, T)>::empty());
        assert(spec_assoc(sp.skip(1), k) is None);
        assert(spec_assoc(s, k) is None);
    } else {
        assert(sp[0] == s[0]);
        assert(sp.skip(1) =~= s.skip(1).push(v));
        lemma_assoc_push(s.skip(1), v, k);
    }
}

/// Removing the entry at `i` clears the lookup of exactly its key.
pub proof fn lemma_assoc_remove<T>(s: Seq<(String, T)>, i: int, k: Seq<char>)
    requires
        0 <= i < s.len(),
        unique_keys(s),
    ensures
        spec_assoc(s.remove(i), k) == (if k == s[i].0@ {
            None::<T>
        } else {
            spec_assoc(s, k)
        }),
    decreases i,
{
    let sr = s.remove(i);
    if i == 0 {
        assert(sr =~= s.skip(1));
        if k == s[0].0@ {
            if spec_assoc(s.skip(1), k) is Some {
                lemma_assoc_index(s.skip(1), k);
                let j = choose|j: int|
                    0 <= j < s.skip(1).len() && s.skip(1)[j].0@ == k && spec_assoc(s.skip(1), k)
                        == Some(#[trigger] s.skip(1)[j].1);
                assert(s[j + 1].0@ == k);
                assert(false);
            }
        }
    } else {
        assert(sr[0] == s[0]);
        if s[0].0@ == k {
        } else {
            assert(sr.skip(1) =~= s.skip(1).remove(i - 1));
            assert(unique_keys(s.skip(1))) by {
                assert(forall|x: int, y: int|
                    0 <= x < y < s.skip(1).len() ==> s.skip(1)[x].0@ == s[x + 1].0@ && s.skip(
                        1,
                    )[y].0@ == s[y + 1].0@);
            }
            assert(s.skip(1)[i - 1] == s[i]);
            lemma_assoc_remove(s.skip(1), i - 1, k);
        }
    }
}

/// A lookup that finds a value finds it at some index.
pub proof fn lemma_assoc_index<T>(s: Seq<(String, T)>, k: Seq<char>)
    requires
        spec_assoc(s, k) is Some,
    ensures
        exists|j: int|
            0 <= j < s.len() && s[j].0@ == k && spec_assoc(s, k) == Some(#[trigger] s[j].1),
    decreases s.len(),
{
    if s.len() > 0 {
        if s[0].0@ == k {
        } else {
            lemma_assoc_index(s.skip(1), k);
            let j = choose|j: int|
                0 <= j < s.skip(1).len() && s.skip(1)[j].0@ == k && spec_assoc(s.skip(1), k)
                    == Some(#[trigger] s.skip(1)[j].1);
            assert(s[j + 1] == s.skip(1)[j]);
        }
    }
}

/// A lookup that finds nothing means no entry carries the key.
pub proof fn lemma_assoc_none<T>(s: Seq<(String, T)>, k: Seq<char>)
    requires
        spec_assoc(s, k) is None,
    ensures
        forall|j: int| 0 <= j < s.len() ==> s[j].0@ != k,
    decreases s.len(),
{
    if s.len() > 0 {
        lemma_assoc_none(s.skip(1), k);
        assert(forall|j: int| 1 <= j < s.len() ==> s[j].0@ == s.skip(1)[j - 1].0@);
    }
}

/// The allocation an allocator holds towards a recipient, if any.
pub open spec fn spec_find_allocation(s: Seq<Allocation>, a: Seq<char>, r: Seq<char>) -> Option<
    Allocation,
>
    decreases s.len(),
{
    if s.len() == 0 {
        None
    } else if s[0].allocator@ == a && s[0].recipient@ == r {
        Some(s[0])
    } else {
        spec_find_allocation(s.skip(1), a, r)
    }
}

/// Allocation (allocator, recipient) pairs are pairwise distinct.
pub open spec fn unique_allocation_keys(s: Seq<Allocation>) -> bool {
    forall|i: int, j: int|
        0 <= i < j < s.len() ==> !(s[i].allocator@ == s[j].allocator@ && s[i].recipient@
            == s[j].recipient@)
}

/// Total principal the backend reports as delegated, over all validators.
pub open spec fn spec_total_staked(dels: Seq<Delegation>) -> int
    decreases dels.len(),
{
    if dels.len() == 0 {
        0
    } else {
        spec_total_staked(dels.skip(1)) + dels[0].staked as int
    }
}

/// Total accrued rewards the backend reports, over all validators.
pub open spec fn spec_total_rewards(dels: Seq<Delegation>) -> int
    decreases dels.len(),
{
    if dels.len() == 0 {
        0
    } else {
        spec_total_rewards(dels.skip(1)) + dels[0].rewards as int
    }
}

/// The whole durable state of the staking contract.
#[derive(Debug)]
pub struct Staker {
    pub staker_info: StakerInfo,
    pub owner: String,
    pub pending_owner: Option<String>,
    pub default_validator: String,
    pub validators: Vec<(String, ValidatorState)>,
    pub is_paused: bool,
    pub contract_rewards: u128,
    pub claims: Vec<ClaimRecord>,
    pub allocations: Vec<Allocation>,
    pub ledger: TokenLedger,
    pub agents: Vec<String>,
    pub whitelist_users: Vec<(String, UserStatus)>,
}

impl Staker {
    /// Well-formedness held by every reachable state: unique keys in every
    /// map, fees below the precision denominator, the minimum deposit at or
    /// above one whole unit, a registered default validator, allocations at
    /// or above the floor and never to the allocator itself, and a receipt
    /// ledger whose balances sum to its total supply.
    pub open spec fn wf(self) -> bool {
        &&& self.ledger.wf()
        &&& unique_keys(self.validators@)
        &&& unique_keys(self.whitelist_users@)
        &&& unique_allocation_keys(self.allocations@)
        &&& (forall|i: int, j: int|
            0 <= i < j < self.agents@.len() ==> self.agents@[i]@ != self.agents@[j]@)
        &&& self.staker_info.fee < FEE_PRECISION
        &&& self.staker_info.distribution_fee < FEE_PRECISION
        &&& self.staker_info.min_deposit >= ONE_INJ
        &&& self.spec_validator_state(self.default_validator@) is Some
        &&& (forall|i: int|
            0 <= i < self.allocations@.len() ==> (#[trigger] self.allocations@[i]).inj_amount
                >= ONE_INJ && self.allocations@[i].allocator@ != self.allocations@[i].recipient@)
    }

    /// Registry state of a validator, if registered.
    pub open spec fn spec_validator_state(self, v: Seq<char>) -> Option<ValidatorState> {
        spec_assoc(self.validators@, v)
    }

    /// Whitelist standing of a user; no entry means no standing.
    pub open spec fn spec_user_status(self, u: Seq<char>) -> UserStatus {
        match spec_assoc(self.whitelist_users@, u) {
            Some(st) => st,
            None => UserStatus::NoStatus,
        }
    }

    /// Whether an address is the owner or a whitelist agent.
    pub open spec fn spec_is_agent(self, a: Seq<char>) -> bool {
        self.owner@ == a || exists|i: int| 0 <= i < self.agents@.len() && self.agents@[i]@ == a
    }

    /// The allocation from `a` to `r`, if one exists.
    pub open spec fn spec_allocation(self, a: Seq<char>, r: Seq<char>) -> Option<Allocation> {
        spec_find_allocation(self.allocations@, a, r)
    }

    /// Whether the host-supplied delegation snapshot lists exactly the
    /// registered validators, in registry order.
    pub open spec fn delegations_match(self, dels: Seq<Delegation>) -> bool {
        &&& dels.len() == self.validators@.len()
        &&& (forall|i: int|
            0 <= i < dels.len() ==> (#[trigger] dels[i]).validator@ == self.validators@[i].0@)
    }

    /// Receipt-share balance of an account.
    pub open spec fn spec_balance(self, a: Seq<char>) -> int {
        self.ledger.spec_balance(a)
    }
}

} // verus!
