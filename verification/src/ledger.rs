//! The receipt-token ledger: per-account balances and a total supply.
//!
//! The staker is the sole minter. The ledger's invariant is that the
//! balances always sum to the total supply; every operation preserves it.

use vstd::prelude::*;

use crate::error::ContractError;
use crate::state::{
    lemma_assoc_index, lemma_assoc_none, lemma_assoc_push, lemma_assoc_skip, lemma_assoc_update,
    spec_assoc, unique_keys,
};

verus! {

/// Sum of all stored balances.
pub open spec fn spec_sum(s: Seq<(String, u128)>) -> int
    decreases s.len(),
{
    if s.len() == 0 {
        0
    } else {
        s[0].1 as int + spec_sum(s.skip(1))
    }
}

/// The sum of balances is never negative.
pub proof fn lemma_sum_nonneg(s: Seq<(String, u128)>)
    ensures
        spec_sum(s) >= 0,
    decreases s.len(),
{
    if s.len() > 0 {
        lemma_sum_nonneg(s.skip(1));
    }
}

/// Overwriting one entry moves the sum by the difference of that entry.
pub proof fn lemma_sum_update(s: Seq<(String, u128)>, i: int, v: (String, u128))
    requires
        0 <= i < s.len(),
    ensures
        spec_sum(s.update(i, v)) == spec_sum(s) - s[i].1 + v.1,
    decreases i,
{
    let su = s.update(i, v);
    if i == 0 {
        assert(su.skip(1) =~= s.skip(1));
    } else {
        assert(su[0] == s[0]);
        assert(su.skip(1) =~= s.skip(1).update(i - 1, v));
        lemma_sum_update(s.skip(1), i - 1, v);
    }
}

/// Appending an entry adds its balance to the sum.
pub proof fn lemma_sum_push(s: Seq<(String, u128)>, v: (String, u128))
    ensures
        spec_sum(s.push(v)) == spec_sum(s) + v.1,
    decreases s.len(),
{
    let sp = s.push(v);
    if s.len() == 0 {
        assert(sp[0] == v);
        assert(sp.skip(1) =~= Seq::<(String, u128)>::empty());
        assert(spec_sum(sp.skip(1)) == 0);
        assert(spec_sum(s) == 0);
    } else {
        assert(sp[0] == s[0]);
        assert(sp.skip(1) =~= s.skip(1).push(v));
        lemma_sum_push(s.skip(1), v);
    }
}

/// No single entry exceeds the sum of all entries.
pub proof fn lemma_entry_le_sum(s: Seq<(String, u128)>, i: int)
    requires
        0 <= i < s.len(),
    ensures
        s[i].1 as int <= spec_sum(s),
    decreases i,
{
    lemma_sum_nonneg(s.skip(1));
    if i == 0 {
    } else {
        lemma_entry_le_sum(s.skip(1), i - 1);
        assert(s.skip(1)[i - 1] == s[i]);
    }
}

/// The balance looked up for any account is at most the sum of balances.
pub proof fn lemma_balance_le_sum(s: Seq<(String, u128)>, k: Seq<char>)
    ensures
        spec_balance_in(s, k) <= spec_sum(s),
{
    lemma_sum_nonneg(s);
    if spec_assoc(s, k) is Some {
        lemma_assoc_index(s, k);
        let j = choose|j: int|
            0 <= j < s.len() && s[j].0@ == k && spec_assoc(s, k) == Some(#[trigger] s[j].1);
        lemma_entry_le_sum(s, j);
    }
}

/// Balance stored for an account; absent accounts hold zero.
pub open spec fn spec_balance_in(s: Seq<(String, u128)>, k: Seq<char>) -> int {
    match spec_assoc(s, k) {
        Some(v) => v as int,
        None => 0,
    }
}

/// The receipt-token ledger.
#[derive(Debug)]
pub struct TokenLedger {
    pub balances: Vec<(String, u128)>,
    pub total_supply: u128,
}

impl TokenLedger {
    /// Accounts are unique and the balances sum to the total supply.
    pub open spec fn wf(self) -> bool {
        &&& unique_keys(self.balances@)
        &&& spec_sum(self.balances@) == self.total_supply as int
    }

    /// Receipt-share balance of an account.
    pub open spec fn spec_balance(self, a: Seq<char>) -> int {
        spec_balance_in(self.balances@, a)
    }

    /// An empty ledger: no accounts, no supply.
    pub fn new() -> (r: TokenLedger)
        ensures
            r.wf(),
            r.total_supply == 0,
            forall|a: Seq<char>| r.spec_balance(a) == 0,
    {
        TokenLedger { balances: Vec::new(), total_supply: 0 }
    }

    /// Returns the balance of the given account, zero when it has none.
    pub fn balance_of(&self, addr: &String) -> (r: u128)
        ensures
            r as int == self.spec_balance(addr@),
    {
        let n = self.balances.len();
        let mut i: usize = 0;
        while i < n
            invariant
                n == self.balances@.len(),
                0 <= i <= n,
                forall|j: int| 0 <= j < i ==> self.balances@[j].0@ != addr@,
            decreases n - i,
        {
            if self.balances[i].0 == *addr {
                proof {
                    lemma_assoc_skip(self.balances@, addr@, i as int);
                    assert(self.balances@.skip(i as int)[0] == self.balances@[i as int]);
                }
                return self.balances[i].1;
            }
            i += 1;
        }
        proof {
            lemma_assoc_skip(self.balances@, addr@, n as int);
        }
        0
    }

    /// Finds the index of an account, or its absence.
    fn find(&self, addr: &String) -> (r: Option<usize>)
        ensures
            match r {
                Some(i) => i < self.balances@.len() && self.balances@[i as int].0@ == addr@
                    && spec_assoc(self.balances@, addr@) == Some(self.balances@[i as int].1),
                None => spec_assoc(self.balances@, addr@) is None,
            },
    {
        let n = self.balances.len();
        let mut i: usize = 0;
        while i < n
            invariant
                n == self.balances@.len(),
                0 <= i <= n,
                forall|j: int| 0 <= j < i ==> self.balances@[j].0@ != addr@,
            decreases n - i,
        {
            if self.balances[i].0 == *addr {
                proof {
                    lemma_assoc_skip(self.balances@, addr@, i as int);
                    assert(self.balances@.skip(i as int)[0] == self.balances@[i as int]);
                }
                return Some(i);
            }
            i += 1;
        }
        proof {
            lemma_assoc_skip(self.balances@, addr@, n as int);
        }
        None
    }

    /// Credits an account, creating it when absent.
    fn credit(&mut self, to: &String, amount: u128)
        requires
            unique_keys(old(self).balances@),
            old(self).spec_balance(to@) + amount <= u128::MAX,
        ensures
            unique_keys(final(self).balances@),
            spec_sum(final(self).balances@) == spec_sum(old(self).balances@) + amount,
            final(self).spec_balance(to@) == old(self).spec_balance(to@) + amount,
            forall|a: Seq<char>|
                a != to@ ==> final(self).spec_balance(a) == old(self).spec_balance(a),
            final(self).total_supply == old(self).total_supply,
    {
        let found = self.find(to);
        match found {
            Some(i) => {
                let ghost s0 = self.balances@;
                let cur = self.balances[i].1;
                let key = self.balances[i].0.clone();
                self.balances[i] = (key, cur + amount);
                proof {
                    let v = self.balances@[i as int];
                    assert(self.balances@ =~= s0.update(i as int, v));
                    assert(v.0@ == to@ && v.1 == cur + amount);
                    lemma_sum_update(s0, i as int, v);
                    lemma_assoc_update(s0, i as int, v, to@);
                    assert forall|a: Seq<char>| a != to@ implies spec_assoc(self.balances@, a)
                        == spec_assoc(s0, a) by {
                        lemma_assoc_update(s0, i as int, v, a);
                    }
                    assert forall|x: int, y: int|
                        0 <= x < y < self.balances@.len() implies self.balances@[x].0@
                        != self.balances@[y].0@ by {
                        assert(self.balances@[x].0@ == s0[x].0@);
                        assert(self.balances@[y].0@ == s0[y].0@);
                    }
                }
            },
            None => {
                let ghost s0 = self.balances@;
                let entry = (to.clone(), amount);
                let ghost v = entry;
                self.balances.push(entry);
                proof {
                    assert(self.balances@ =~= s0.push(v));
                    assert(v.0@ == to@ && v.1 == amount);
                    lemma_assoc_none(s0, to@);
                    lemma_sum_push(s0, v);
                    lemma_assoc_push(s0, v, to@);
                    assert forall|a: Seq<char>| a != to@ implies spec_assoc(self.balances@, a)
                        == spec_assoc(s0, a) by {
                        lemma_assoc_push(s0, v, a);
                    }
                    assert forall|x: int, y: int|
                        0 <= x < y < self.balances@.len() implies self.balances@[x].0@
                        != self.balances@[y].0@ by {
                        if y < s0.len() {
                        } else {
                            assert(self.balances@[y].0@ == to@);
                        }
                    }
                }
            },
        }
    }

    /// Debits an account that holds at least the amount.
    fn debit(&mut self, from: &String, amount: u128)
        requires
            unique_keys(old(self).balances@),
            old(self).spec_balance(from@) >= amount,
        ensures
            unique_keys(final(self).balances@),
            spec_sum(final(self).balances@) == spec_sum(old(self).balances@) - amount,
            final(self).spec_balance(from@) == old(self).spec_balance(from@) - amount,
            forall|a: Seq<char>|
                a != from@ ==> final(self).spec_balance(a) == old(self).spec_balance(a),
            final(self).total_supply == old(self).total_supply,
    {
        let found = self.find(from);
        match found {
            Some(i) => {
                let ghost s0 = self.balances@;
                let cur = self.balances[i].1;
                let key = self.balances[i].0.clone();
                self.balances[i] = (key, cur - amount);
                proof {
                    let v = self.balances@[i as int];
                    assert(self.balances@ =~= s0.update(i as int, v));
                    assert(v.0@ == from@ && v.1 == cur - amount);
                    lemma_sum_update(s0, i as int, v);
                    lemma_assoc_update(s0, i as int, v, from@);
                    assert forall|a: Seq<char>| a != from@ implies spec_assoc(self.balances@, a)
                        == spec_assoc(s0, a) by {
                        lemma_assoc_update(s0, i as int, v, a);
                    }
                    assert forall|x: int, y: int|
                        0 <= x < y < self.balances@.len() implies self.balances@[x].0@
                        != self.balances@[y].0@ by {
                        assert(self.balances@[x].0@ == s0[x].0@);
                        assert(self.balances@[y].0@ == s0[y].0@);
                    }
                }
            },
            None => {
                proof {
                    assert(amount == 0);
                }
            },
        }
    }

    /// Creates new shares on an account and grows the total supply with them.
    pub fn mint(&mut self, to: &String, amount: u128)
        requires
            old(self).wf(),
            old(self).total_supply + amount <= u128::MAX,
        ensures
            final(self).wf(),
            final(self).total_supply == old(self).total_supply + amount,
            final(self).spec_balance(to@) == old(self).spec_balance(to@) + amount,
            forall|a: Seq<char>|
                a != to@ ==> final(self).spec_balance(a) == old(self).spec_balance(a),
    {
        proof {
            lemma_balance_le_sum(self.balances@, to@);
        }
        self.credit(to, amount);
        self.total_supply = self.total_supply + amount;
    }

    /// Destroys shares held by an account and shrinks the total supply.
    pub fn burn(&mut self, from: &String, amount: u128)
        requires
            old(self).wf(),
            old(self).spec_balance(from@) >= amount,
        ensures
            final(self).wf(),
            final(self).total_supply == old(self).total_supply - amount,
            final(self).spec_balance(from@) == old(self).spec_balance(from@) - amount,
            forall|a: Seq<char>|
                a != from@ ==> final(self).spec_balance(a) == old(self).spec_balance(a),
    {
        proof {
            lemma_balance_le_sum(self.balances@, from@);
        }
        self.debit(from, amount);
        self.total_supply = self.total_supply - amount;
    }

    /// Moves shares between two accounts; the total supply is unchanged.
    /// A transfer to the sending account itself changes nothing.
    pub fn transfer(&mut self, from: &String, to: &String, amount: u128)
        requires
            old(self).wf(),
            old(self).spec_balance(from@) >= amount,
        ensures
            final(self).wf(),
            final(self).total_supply == old(self).total_supply,
            from@ != to@ ==> final(self).spec_balance(from@) == old(self).spec_balance(from@)
                - amount,
            from@ != to@ ==> final(self).spec_balance(to@) == old(self).spec_balance(to@) + amount,
            from@ == to@ ==> final(self).spec_balance(to@) == old(self).spec_balance(to@),
            forall|a: Seq<char>|
                a != from@ && a != to@ ==> final(self).spec_balance(a) == old(self).spec_balance(a),
    {
        self.debit(from, amount);
        proof {
            lemma_balance_le_sum(self.balances@, to@);
            lemma_sum_nonneg(self.balances@);
        }
        self.credit(to, amount);
    }
}

} // verus!
