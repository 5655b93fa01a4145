//! Agents and the registry that keeps them by account.
//!
//! An agent is the record of one account's membership in one organization.
//! The library never looks inside an account: it compares accounts and
//! copies them, and that is all.

use crate::assoc::{
    assoc_map, distinct_keys, lemma_assoc_absent, lemma_assoc_index, lemma_assoc_push,
    lemma_assoc_update,
};
use crate::bytes::bytes_to_vec;
use crate::error::Error;
use crate::organizations::{check_org_id, validate_org_id, OrgId};
use vstd::laws_eq::obeys_concrete_eq;
use vstd::prelude::*;

verus! {

/// An account's membership in an organization.
#[derive(Debug, PartialEq, Eq)]
pub struct Agent<AccountId> {
    pub org_id: OrgId,
    pub account: AccountId,
    pub active: bool,
    pub role_ids: Vec<u32>,
}

/// An agent in specifications.
pub struct AgentView<AccountId> {
    pub org_id: Seq<u8>,
    pub account: AccountId,
    pub active: bool,
    pub role_ids: Seq<u32>,
}

impl<AccountId> View for Agent<AccountId> {
    type V = AgentView<AccountId>;

    open spec fn view(&self) -> AgentView<AccountId> {
        AgentView {
            org_id: self.org_id@,
            account: self.account,
            active: self.active,
            role_ids: self.role_ids@,
        }
    }
}

impl<AccountId: Copy> Clone for Agent<AccountId> {
    fn clone(&self) -> (copy: Self)
        ensures
            copy@ == self@,
    {
        Agent {
            org_id: bytes_to_vec(self.org_id.as_slice()),
            account: self.account,
            active: self.active,
            role_ids: self.role_ids.clone(),
        }
    }
}

impl<AccountId: Default> Default for Agent<AccountId> {
    fn default() -> (agent: Self)
        ensures
            agent@.org_id == Seq::<u8>::empty(),
            !agent@.active,
            agent@.role_ids == Seq::<u32>::empty(),
    {
        Agent {
            org_id: Vec::new(),
            account: AccountId::default(),
            active: false,
            role_ids: Vec::new(),
        }
    }
}

impl<AccountId> Agent<AccountId> {
    /// Whether the agent holds the role with the id `role_id`.
    pub fn has_role(&self, role_id: u32) -> (held: bool)
        ensures
            held == self@.role_ids.contains(role_id),
    {
        let mut i: usize = 0;
        while i < self.role_ids.len()
            invariant
                i <= self.role_ids@.len(),
                forall|j: int| 0 <= j < i ==> self.role_ids@[j] != role_id,
            decreases self.role_ids@.len() - i,
        {
            if self.role_ids[i] == role_id {
                return true;
            }
            i += 1;
        }
        false
    }
}

/// Collects the fields of an agent and checks them when it is built. The
/// roles are not among them: an agent is built without roles.
pub struct AgentBuilder<AccountId> {
    org_id: OrgId,
    account: AccountId,
    active: bool,
    role_ids: Vec<u32>,
}

impl<AccountId> View for AgentBuilder<AccountId> {
    type V = AgentView<AccountId>;

    /// The agent that the builder holds so far.
    closed spec fn view(&self) -> AgentView<AccountId> {
        AgentView {
            org_id: self.org_id@,
            account: self.account,
            active: self.active,
            role_ids: self.role_ids@,
        }
    }
}

impl<AccountId: Default> Default for AgentBuilder<AccountId> {
    fn default() -> (builder: Self)
        ensures
            builder@.org_id == Seq::<u8>::empty(),
            !builder@.active,
            builder@.role_ids == Seq::<u32>::empty(),
    {
        AgentBuilder {
            org_id: Vec::new(),
            account: AccountId::default(),
            active: false,
            role_ids: Vec::new(),
        }
    }
}

impl<AccountId: Default> AgentBuilder<AccountId> {
    /// Sets the id of the organization.
    pub fn with_org(self, org_id: OrgId) -> (builder: Self)
        ensures
            builder@ == (AgentView { org_id: org_id@, ..self@ }),
    {
        let mut builder = self;
        builder.org_id = org_id;
        builder
    }

    /// Sets the account.
    pub fn with_account(self, account: AccountId) -> (builder: Self)
        ensures
            builder@ == (AgentView { account: account, ..self@ }),
    {
        let mut builder = self;
        builder.account = account;
        builder
    }

    /// Sets whether the agent is active.
    pub fn is_active(self, active: bool) -> (builder: Self)
        ensures
            builder@ == (AgentView { active: active, ..self@ }),
    {
        let mut builder = self;
        builder.active = active;
        builder
    }

    /// The agent, if the id of its organization is as it must be; else
    /// what is wrong with that id.
    pub fn build(self) -> (result: Result<Agent<AccountId>, Error>)
        ensures
            match result {
                Ok(agent) => check_org_id(self@.org_id) == Ok::<(), Error>(()) && agent@
                    == self@,
                Err(e) => check_org_id(self@.org_id) == Err::<(), Error>(e),
            },
    {
        validate_org_id(self.org_id.as_slice())?;
        let mut agent = Agent::<AccountId>::default();
        agent.org_id = self.org_id;
        agent.account = self.account;
        agent.active = self.active;
        agent.role_ids = self.role_ids;
        Ok(agent)
    }
}

/// Compares two accounts.
fn same_account<AccountId: PartialEq>(a: &AccountId, b: &AccountId) -> (same: bool)
    requires
        obeys_concrete_eq::<AccountId>(),
    ensures
        same == (*a == *b),
{
    proof {
        reveal(obeys_concrete_eq);
    }
    *a == *b
}

/// The pairs of account and agent that a vector of agents holds.
pub open spec fn agent_pairs<AccountId>(entries: Seq<Agent<AccountId>>) -> Seq<
    (AccountId, AgentView<AccountId>),
> {
    Seq::new(entries.len(), |i: int| (entries[i].account, entries[i]@))
}

/// The position of the agent with the account `account`, if there is one.
fn find_agent<AccountId: PartialEq>(entries: &Vec<Agent<AccountId>>, account: &AccountId) -> (found:
    Option<usize>)
    requires
        obeys_concrete_eq::<AccountId>(),
    ensures
        match found {
            Some(i) => i < entries@.len() && entries@[i as int].account == *account,
            None => forall|j: int| 0 <= j < entries@.len() ==> entries@[j].account != *account,
        },
{
    let mut i: usize = 0;
    while i < entries.len()
        invariant
            obeys_concrete_eq::<AccountId>(),
            i <= entries@.len(),
            forall|j: int| 0 <= j < i ==> entries@[j].account != *account,
        decreases entries@.len() - i,
    {
        if same_account(&entries[i].account, account) {
            return Some(i);
        }
        i += 1;
    }
    None
}

/// The agents, each under its account. An account occurs once.
#[derive(Debug, PartialEq, Eq)]
pub struct AgentRegistry<AccountId: Copy + PartialEq> {
    entries: Vec<Agent<AccountId>>,
}

impl<AccountId: Copy + PartialEq> View for AgentRegistry<AccountId> {
    type V = Map<AccountId, AgentView<AccountId>>;

    /// The agents by account.
    closed spec fn view(&self) -> Map<AccountId, AgentView<AccountId>> {
        assoc_map(agent_pairs(self.entries@))
    }
}

impl<AccountId: Copy + PartialEq> Clone for AgentRegistry<AccountId> {
    fn clone(&self) -> (copy: Self)
        ensures
            copy@ == self@,
    {
        proof {
            use_type_invariant(self);
        }
        let mut entries: Vec<Agent<AccountId>> = Vec::new();
        let mut i: usize = 0;
        while i < self.entries.len()
            invariant
                i <= self.entries@.len(),
                entries@.len() == i,
                forall|j: int| 0 <= j < i ==> entries@[j]@ == self.entries@[j]@,
            decreases self.entries@.len() - i,
        {
            entries.push(self.entries[i].clone());
            i += 1;
        }
        assert(agent_pairs(entries@) =~= agent_pairs(self.entries@));
        AgentRegistry { entries }
    }
}

impl<AccountId: Copy + PartialEq> AgentRegistry<AccountId> {
    /// No account occurs twice, and `==` on accounts is equality.
    #[verifier::type_invariant]
    spec fn inv(self) -> bool {
        &&& obeys_concrete_eq::<AccountId>()
        &&& distinct_keys(agent_pairs(self.entries@))
    }

    /// A registry without agents. It is for accounts whose `==` tells
    /// whether two accounts are the same.
    pub fn new() -> (registry: Self)
        requires
            obeys_concrete_eq::<AccountId>(),
        ensures
            registry@ == Map::<AccountId, AgentView<AccountId>>::empty(),
    {
        AgentRegistry { entries: Vec::new() }
    }

    /// Whether the account `account` has an agent.
    pub fn contains(&self, account: &AccountId) -> (found: bool)
        ensures
            found == self@.contains_key(*account),
    {
        self.get(account).is_some()
    }

    /// The agent of the account `account`, if it has one.
    pub fn get(&self, account: &AccountId) -> (found: Option<&Agent<AccountId>>)
        ensures
            match found {
                Some(agent) => self@.contains_key(*account) && agent@ == self@[*account]
                    && agent@.account == *account,
                None => !self@.contains_key(*account),
            },
    {
        proof {
            use_type_invariant(self);
        }
        let ghost pairs = agent_pairs(self.entries@);
        match find_agent(&self.entries, account) {
            Some(i) => {
                proof {
                    lemma_assoc_index(pairs, i as int);
                }
                Some(&self.entries[i])
            },
            None => {
                proof {
                    lemma_assoc_absent(pairs, *account);
                }
                None
            },
        }
    }

    /// Stores `agent` under its account, in place of the agent that the
    /// account had, if it had one.
    pub fn insert(&mut self, agent: Agent<AccountId>)
        ensures
            final(self)@ == old(self)@.insert(agent@.account, agent@),
    {
        proof {
            use_type_invariant(&*self);
        }
        let ghost pairs = agent_pairs(self.entries@);
        let found = find_agent(&self.entries, &agent.account);
        let mut entries: Vec<Agent<AccountId>> = Vec::new();
        std::mem::swap(&mut entries, &mut self.entries);
        match found {
            Some(i) => {
                proof {
                    lemma_assoc_update(pairs, i as int, agent@);
                }
                entries.set(i, agent);
                assert(agent_pairs(entries@) =~= pairs.update(
                    i as int,
                    (agent@.account, agent@),
                ));
            },
            None => {
                proof {
                    lemma_assoc_push(pairs, agent@.account, agent@);
                }
                entries.push(agent);
                assert(agent_pairs(entries@) =~= pairs.push((agent@.account, agent@)));
            },
        }
        self.entries = entries;
    }
}

} // verus!
