//! Access control: whitelist agents and user whitelist / blacklist standing.
//!
//! Agents (and the owner) manage which users may stake, unstake, allocate
//! and distribute. These gates are preconditions the staking engine
//! consumes; they carry no share accounting of their own.

use vstd::prelude::*;

use crate::error::ContractError;
use crate::msg::{AgentAddedEvent, AgentRemovedEvent, WhitelistStatusChangedEvent};
use crate::state::{
    lemma_assoc_none, lemma_assoc_push, lemma_assoc_remove, lemma_assoc_skip, lemma_assoc_update,
    spec_assoc, Staker, UserStatus,
};

verus! {

impl Staker {
    /// Returns whether an address is an agent or the owner.
    pub fn is_agent(&self, agent: &String) -> (r: bool)
        ensures
            r == self.spec_is_agent(agent@),
    {
        if self.owner == *agent {
            return true;
        }
        let n = self.agents.len();
        let mut i: usize = 0;
        while i < n
            invariant
                n == self.agents@.len(),
                0 <= i <= n,
                forall|j: int| 0 <= j < i ==> self.agents@[j]@ != agent@,
            decreases n - i,
        {
            if self.agents[i] == *agent {
                return true;
            }
            i += 1;
        }
        false
    }

    /// Checks that an address is an agent or the owner.
    pub fn check_agent(&self, agent: &String) -> (r: Result<(), ContractError>)
        ensures
            match r {
                Ok(()) => self.spec_is_agent(agent@),
                Err(e) => e == ContractError::CallerIsNotAgent && !self.spec_is_agent(agent@),
            },
    {
        if self.is_agent(agent) {
            Ok(())
        } else {
            Err(ContractError::CallerIsNotAgent)
        }
    }

    /// Returns the current whitelist standing of a user.
    pub fn get_current_user_status(&self, user: &String) -> (r: UserStatus)
        ensures
            r == self.spec_user_status(user@),
    {
        let n = self.whitelist_users.len();
        let mut i: usize = 0;
        while i < n
            invariant
                n == self.whitelist_users@.len(),
                0 <= i <= n,
                forall|j: int| 0 <= j < i ==> self.whitelist_users@[j].0@ != user@,
            decreases n - i,
        {
            if self.whitelist_users[i].0 == *user {
                proof {
                    lemma_assoc_skip(self.whitelist_users@, user@, i as int);
                    assert(self.whitelist_users@.skip(i as int)[0] == self.whitelist_users@[
                    i as int]);
                }
                return self.whitelist_users[i].1;
            }
            i += 1;
        }
        proof {
            lemma_assoc_skip(self.whitelist_users@, user@, n as int);
        }
        UserStatus::NoStatus
    }

    /// Returns whether a user is whitelisted.
    pub fn is_user_whitelisted(&self, user: &String) -> (r: bool)
        ensures
            r == (self.spec_user_status(user@) == UserStatus::Whitelisted),
    {
        let status = self.get_current_user_status(user);
        status == UserStatus::Whitelisted
    }

    /// Returns whether a user is blacklisted.
    pub fn is_user_blacklisted(&self, user: &String) -> (r: bool)
        ensures
            r == (self.spec_user_status(user@) == UserStatus::Blacklisted),
    {
        let status = self.get_current_user_status(user);
        status == UserStatus::Blacklisted
    }

    /// Checks that a user is whitelisted.
    pub fn check_whitelisted(&self, user: &String) -> (r: Result<(), ContractError>)
        ensures
            match r {
                Ok(()) => self.spec_user_status(user@) == UserStatus::Whitelisted,
                Err(e) => e == ContractError::UserNotWhitelisted && self.spec_user_status(user@)
                    != UserStatus::Whitelisted,
            },
    {
        if self.is_user_whitelisted(user) {
            Ok(())
        } else {
            Err(ContractError::UserNotWhitelisted)
        }
    }

    /// Finds the position of an agent entry, or its absence.
    fn find_agent_index(&self, agent: &String) -> (r: Option<usize>)
        ensures
            match r {
                Some(i) => i < self.agents@.len() && self.agents@[i as int]@ == agent@,
                None => forall|j: int| 0 <= j < self.agents@.len() ==> self.agents@[j]@ != agent@,
            },
    {
        let n = self.agents.len();
        let mut i: usize = 0;
        while i < n
            invariant
                n == self.agents@.len(),
                0 <= i <= n,
                forall|j: int| 0 <= j < i ==> self.agents@[j]@ != agent@,
            decreases n - i,
        {
            if self.agents[i] == *agent {
                return Some(i);
            }
            i += 1;
        }
        None
    }

    /// Finds the position of a user's whitelist entry, or its absence.
    fn find_user_index(&self, user: &String) -> (r: Option<usize>)
        ensures
            match r {
                Some(i) => i < self.whitelist_users@.len() && self.whitelist_users@[i as int].0@
                    == user@ && spec_assoc(self.whitelist_users@, user@) == Some(
                    self.whitelist_users@[i as int].1,
                ),
                None => spec_assoc(self.whitelist_users@, user@) is None,
            },
    {
        let n = self.whitelist_users.len();
        let mut i: usize = 0;
        while i < n
            invariant
                n == self.whitelist_users@.len(),
                0 <= i <= n,
                forall|j: int| 0 <= j < i ==> self.whitelist_users@[j].0@ != user@,
            decreases n - i,
        {
            if self.whitelist_users[i].0 == *user {
                proof {
                    lemma_assoc_skip(self.whitelist_users@, user@, i as int);
                    assert(self.whitelist_users@.skip(i as int)[0] == self.whitelist_users@[
                    i as int]);
                }
                return Some(i);
            }
            i += 1;
        }
        proof {
            lemma_assoc_skip(self.whitelist_users@, user@, n as int);
        }
        None
    }

    /// Adds an agent to the whitelist. Only an agent (or the owner) may do
    /// so; the owner cannot be added; an existing agent cannot be added
    /// again.
    pub fn add_agent(&mut self, caller: &String, new_agent: &String) -> (r: Result<
        AgentAddedEvent,
        ContractError,
    >)
        requires
            old(self).wf(),
        ensures
            final(self).wf(),
            match r {
                Ok(ev) => old(self).spec_is_agent(caller@) && new_agent@ != old(self).owner@ && !(
                exists|i: int|
                    0 <= i < old(self).agents@.len() && old(self).agents@[i]@ == new_agent@)
                    && final(self).agents@.len() == old(self).agents@.len() + 1 && final(self).agents@.last()@ == new_agent@ && final(self).agents@.take(
                    old(self).agents@.len() as int,
                ) == old(self).agents@ && (*final(self) == (Staker {
                    agents: final(self).agents,
                    ..(*old(self))
                })) && ev.new_agent@ == new_agent@,
                Err(e) => *final(self) == *old(self) && ((e == ContractError::CallerIsNotAgent
                    && !old(self).spec_is_agent(caller@)) || (e == ContractError::OwnerCannotBeAdded
                    && old(self).spec_is_agent(caller@) && new_agent@ == old(self).owner@) || (e
                    == ContractError::AgentAlreadyExists && old(self).spec_is_agent(caller@)
                    && new_agent@ != old(self).owner@ && exists|i: int|
                    0 <= i < old(self).agents@.len() && old(self).agents@[i]@ == new_agent@)),
            },
    {
        if let Err(e) = self.check_agent(caller) {
            return Err(e);
        }
        if *new_agent == self.owner {
            return Err(ContractError::OwnerCannotBeAdded);
        }
        if let Some(i) = self.find_agent_index(new_agent) {
            proof {
                assert(self.agents@[i as int]@ == new_agent@);
            }
            return Err(ContractError::AgentAlreadyExists);
        }
        let ghost a0 = self.agents@;
        self.agents.push(new_agent.clone());
        proof {
            assert(self.agents@.take(a0.len() as int) =~= a0);
            assert forall|x: int, y: int|
                0 <= x < y < self.agents@.len() implies self.agents@[x]@ != self.agents@[y]@ by {
                if y < a0.len() {
                } else {
                    assert(self.agents@[y]@ == new_agent@);
                    assert(self.agents@[x]@ == a0[x]@);
                }
            }
        }
        Ok(AgentAddedEvent { new_agent: new_agent.clone() })
    }

    /// Removes an agent. Only an agent may do so; the owner cannot be
    /// removed; the address must currently be an agent.
    pub fn remove_agent(&mut self, caller: &String, agent_to_remove: &String) -> (r: Result<
        AgentRemovedEvent,
        ContractError,
    >)
        requires
            old(self).wf(),
        ensures
            final(self).wf(),
            match r {
                Ok(ev) => old(self).spec_is_agent(caller@) && agent_to_remove@ != old(self).owner@
                    && (exists|i: int|
                    0 <= i < old(self).agents@.len() && old(self).agents@[i]@ == agent_to_remove@)
                    && (forall|a: Seq<char>|
                    final(self).spec_is_agent(a) <==> (a == old(self).owner@ || (old(self).spec_is_agent(a) && a != agent_to_remove@))) && (*final(self) == (Staker {
                    agents: final(self).agents,
                    ..(*old(self))
                })) && ev.removed_agent@ == agent_to_remove@,
                Err(e) => *final(self) == *old(self) && ((e == ContractError::CallerIsNotAgent
                    && !old(self).spec_is_agent(caller@)) || (e
                    == ContractError::OwnerCannotBeRemoved && old(self).spec_is_agent(caller@)
                    && agent_to_remove@ == old(self).owner@) || (e
                    == ContractError::AgentDoesNotExist && old(self).spec_is_agent(caller@)
                    && agent_to_remove@ != old(self).owner@ && !(exists|i: int|
                    0 <= i < old(self).agents@.len() && old(self).agents@[i]@
                        == agent_to_remove@))),
            },
    {
        if let Err(e) = self.check_agent(caller) {
            return Err(e);
        }
        if *agent_to_remove == self.owner {
            return Err(ContractError::OwnerCannotBeRemoved);
        }
        let found = self.find_agent_index(agent_to_remove);
        match found {
            None => Err(ContractError::AgentDoesNotExist),
            Some(i) => {
                let ghost a0 = self.agents@;
                let ghost idx = i as int;
                self.agents.remove(i);
                proof {
                    a0.remove_ensures(idx);
                    assert(a0[idx]@ == agent_to_remove@);
                    assert forall|x: int, y: int|
                        0 <= x < y < self.agents@.len() implies self.agents@[x]@
                        != self.agents@[y]@ by {
                        let xo = if x < idx {
                            x
                        } else {
                            x + 1
                        };
                        let yo = if y < idx {
                            y
                        } else {
                            y + 1
                        };
                        assert(self.agents@[x]@ == a0[xo]@);
                        assert(self.agents@[y]@ == a0[yo]@);
                    }
                    assert forall|a: Seq<char>|
                        final(self).spec_is_agent(a) <==> (a == old(self).owner@ || (old(self).spec_is_agent(a) && a != agent_to_remove@)) by {
                        if a != old(self).owner@ {
                            if exists|j: int|
                                0 <= j < self.agents@.len() && self.agents@[j]@ == a {
                                let j = choose|j: int|
                                    0 <= j < self.agents@.len() && self.agents@[j]@ == a;
                                let jo = if j < idx {
                                    j
                                } else {
                                    j + 1
                                };
                                assert(a0[jo]@ == a);
                            }
                            if a != agent_to_remove@ && exists|j: int|
                                0 <= j < a0.len() && a0[j]@ == a {
                                let j = choose|j: int| 0 <= j < a0.len() && a0[j]@ == a;
                                if j < idx {
                                    assert(self.agents@[j]@ == a);
                                } else {
                                    assert(j != idx);
                                    assert(self.agents@[j - 1]@ == a);
                                }
                            }
                        }
                    }
                }
                Ok(AgentRemovedEvent { removed_agent: agent_to_remove.clone() })
            },
        }
    }

    /// Stores a whitelist standing for a user, overwriting any previous one.
    fn set_user_status(&mut self, user: &String, status: UserStatus)
        requires
            old(self).wf(),
        ensures
            final(self).wf(),
            final(self).spec_user_status(user@) == status,
            forall|a: Seq<char>|
                a != user@ ==> final(self).spec_user_status(a) == old(self).spec_user_status(a),
            *final(self) == (Staker { whitelist_users: final(self).whitelist_users, ..(*old(self)) }),
    {
        let found = self.find_user_index(user);
        match found {
            Some(i) => {
                let ghost s0 = self.whitelist_users@;
                let key = self.whitelist_users[i].0.clone();
                self.whitelist_users[i] = (key, status);
                proof {
                    let v = self.whitelist_users@[i as int];
                    assert(self.whitelist_users@ =~= s0.update(i as int, v));
                    assert(v.0@ == user@ && v.1 == status);
                    lemma_assoc_update(s0, i as int, v, user@);
                    assert forall|a: Seq<char>| a != user@ implies spec_assoc(
                        self.whitelist_users@,
                        a,
                    ) == spec_assoc(s0, a) by {
                        lemma_assoc_update(s0, i as int, v, a);
                    }
                    assert forall|x: int, y: int|
                        0 <= x < y < self.whitelist_users@.len() implies self.whitelist_users@[x].0@
                        != self.whitelist_users@[y].0@ by {
                        assert(self.whitelist_users@[x].0@ == s0[x].0@);
                        assert(self.whitelist_users@[y].0@ == s0[y].0@);
                    }
                }
            },
            None => {
                let ghost s0 = self.whitelist_users@;
                let entry = (user.clone(), status);
                let ghost v = entry;
                self.whitelist_users.push(entry);
                proof {
                    lemma_assoc_push(s0, v, user@);
                    assert forall|a: Seq<char>| a != user@ implies spec_assoc(
                        self.whitelist_users@,
                        a,
                    ) == spec_assoc(s0, a) by {
                        lemma_assoc_push(s0, v, a);
                    }
                    lemma_assoc_none(s0, user@);
                    assert forall|x: int, y: int|
                        0 <= x < y < self.whitelist_users@.len() implies self.whitelist_users@[x].0@
                        != self.whitelist_users@[y].0@ by {
                        if y < s0.len() {
                        } else {
                            assert(self.whitelist_users@[y].0@ == user@);
                            assert(self.whitelist_users@[x].0@ == s0[x].0@);
                        }
                    }
                }
            },
        }
    }

    /// Removes the stored whitelist standing of a user, if any.
    fn clear_stored_user_status(&mut self, user: &String)
        requires
            old(self).wf(),
        ensures
            final(self).wf(),
            final(self).spec_user_status(user@) == UserStatus::NoStatus,
            forall|a: Seq<char>|
                a != user@ ==> final(self).spec_user_status(a) == old(self).spec_user_status(a),
            *final(self) == (Staker { whitelist_users: final(self).whitelist_users, ..(*old(self)) }),
    {
        let found = self.find_user_index(user);
        match found {
            Some(i) => {
                let ghost s0 = self.whitelist_users@;
                let ghost idx = i as int;
                self.whitelist_users.remove(i);
                proof {
                    s0.remove_ensures(idx);
                    lemma_assoc_remove(s0, idx, user@);
                    assert forall|a: Seq<char>| a != user@ implies spec_assoc(
                        self.whitelist_users@,
                        a,
                    ) == spec_assoc(s0, a) by {
                        lemma_assoc_remove(s0, idx, a);
                    }
                    assert forall|x: int, y: int|
                        0 <= x < y < self.whitelist_users@.len() implies self.whitelist_users@[x].0@
                        != self.whitelist_users@[y].0@ by {
                        let xo = if x < idx {
                            x
                        } else {
                            x + 1
                        };
                        let yo = if y < idx {
                            y
                        } else {
                            y + 1
                        };
                        assert(self.whitelist_users@[x].0@ == s0[xo].0@);
                        assert(self.whitelist_users@[y].0@ == s0[yo].0@);
                    }
                }
            },
            None => {
            },
        }
    }

    /// Adds a user to the whitelist. Only an agent may do so, and the user
    /// must not already be whitelisted.
    pub fn add_user_to_whitelist(&mut self, caller: &String, user: &String) -> (r: Result<
        WhitelistStatusChangedEvent,
        ContractError,
    >)
        requires
            old(self).wf(),
        ensures
            final(self).wf(),
            match r {
                Ok(ev) => old(self).spec_is_agent(caller@) && old(self).spec_user_status(user@)
                    != UserStatus::Whitelisted && final(self).spec_user_status(user@)
                    == UserStatus::Whitelisted && (forall|a: Seq<char>|
                    a != user@ ==> final(self).spec_user_status(a) == old(self).spec_user_status(
                        a,
                    )) && (*final(self) == (Staker {
                    whitelist_users: final(self).whitelist_users,
                    ..(*old(self))
                })) && ev.user@ == user@ && ev.old_status == old(self).spec_user_status(user@)
                    && ev.new_status == UserStatus::Whitelisted,
                Err(e) => *final(self) == *old(self) && ((e == ContractError::CallerIsNotAgent
                    && !old(self).spec_is_agent(caller@)) || (e
                    == ContractError::UserAlreadyWhitelisted && old(self).spec_is_agent(caller@)
                    && old(self).spec_user_status(user@) == UserStatus::Whitelisted)),
            },
    {
        if let Err(e) = self.check_agent(caller) {
            return Err(e);
        }
        let current = self.get_current_user_status(user);
        if current == UserStatus::Whitelisted {
            return Err(ContractError::UserAlreadyWhitelisted);
        }
        self.set_user_status(user, UserStatus::Whitelisted);
        Ok(
            WhitelistStatusChangedEvent {
                user: user.clone(),
                old_status: current,
                new_status: UserStatus::Whitelisted,
            },
        )
    }

    /// Adds a user to the blacklist. Only an agent may do so, and the user
    /// must not already be blacklisted.
    pub fn add_user_to_blacklist(&mut self, caller: &String, user: &String) -> (r: Result<
        WhitelistStatusChangedEvent,
        ContractError,
    >)
        requires
            old(self).wf(),
        ensures
            final(self).wf(),
            match r {
                Ok(ev) => old(self).spec_is_agent(caller@) && old(self).spec_user_status(user@)
                    != UserStatus::Blacklisted && final(self).spec_user_status(user@)
                    == UserStatus::Blacklisted && (forall|a: Seq<char>|
                    a != user@ ==> final(self).spec_user_status(a) == old(self).spec_user_status(
                        a,
                    )) && (*final(self) == (Staker {
                    whitelist_users: final(self).whitelist_users,
                    ..(*old(self))
                })) && ev.user@ == user@ && ev.old_status == old(self).spec_user_status(user@)
                    && ev.new_status == UserStatus::Blacklisted,
                Err(e) => *final(self) == *old(self) && ((e == ContractError::CallerIsNotAgent
                    && !old(self).spec_is_agent(caller@)) || (e
                    == ContractError::UserAlreadyBlacklisted && old(self).spec_is_agent(caller@)
                    && old(self).spec_user_status(user@) == UserStatus::Blacklisted)),
            },
    {
        if let Err(e) = self.check_agent(caller) {
            return Err(e);
        }
        let current = self.get_current_user_status(user);
        if current == UserStatus::Blacklisted {
            return Err(ContractError::UserAlreadyBlacklisted);
        }
        self.set_user_status(user, UserStatus::Blacklisted);
        Ok(
            WhitelistStatusChangedEvent {
                user: user.clone(),
                old_status: current,
                new_status: UserStatus::Blacklisted,
            },
        )
    }

    /// Clears a user's whitelist standing. Only an agent may do so, and the
    /// user must currently have one.
    pub fn clear_user_status(&mut self, caller: &String, user: &String) -> (r: Result<
        WhitelistStatusChangedEvent,
        ContractError,
    >)
        requires
            old(self).wf(),
        ensures
            final(self).wf(),
            match r {
                Ok(ev) => old(self).spec_is_agent(caller@) && old(self).spec_user_status(user@)
                    != UserStatus::NoStatus && final(self).spec_user_status(user@)
                    == UserStatus::NoStatus && (forall|a: Seq<char>|
                    a != user@ ==> final(self).spec_user_status(a) == old(self).spec_user_status(
                        a,
                    )) && (*final(self) == (Staker {
                    whitelist_users: final(self).whitelist_users,
                    ..(*old(self))
                })) && ev.user@ == user@ && ev.old_status == old(self).spec_user_status(user@)
                    && ev.new_status == UserStatus::NoStatus,
                Err(e) => *final(self) == *old(self) && ((e == ContractError::CallerIsNotAgent
                    && !old(self).spec_is_agent(caller@)) || (e
                    == ContractError::UserStatusAlreadyCleared && old(self).spec_is_agent(caller@)
                    && old(self).spec_user_status(user@) == UserStatus::NoStatus)),
            },
    {
        if let Err(e) = self.check_agent(caller) {
            return Err(e);
        }
        let current = self.get_current_user_status(user);
        if current == UserStatus::NoStatus {
            return Err(ContractError::UserStatusAlreadyCleared);
        }
        self.clear_stored_user_status(user);
        Ok(
            WhitelistStatusChangedEvent {
                user: user.clone(),
                old_status: current,
                new_status: UserStatus::NoStatus,
            },
        )
    }
}

} // verus!
