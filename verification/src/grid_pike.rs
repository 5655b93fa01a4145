//! Organizations, their agents and their roles: the commands that create
//! them and the rules on who may.
//!
//! A command takes the account that sent it, checks everything first and
//! writes afterwards: a command that is rejected changes nothing. The state
//! is read as a [`ModuleView`]; each command's contract gives its result and
//! the state that it leaves as functions of the state that it found.

use crate::agents::{Agent, AgentBuilder, AgentRegistry, AgentView};
use crate::bytes::{bytes_eq, bytes_to_vec};
use crate::error::Error;
use crate::organizations::{
    check_org_id, check_organization, Organization, OrganizationBuilder, OrganizationRegistry,
    OrganizationView, OrgId, OrgName,
};
use crate::roles::{
    admin_role, intern, intern_all, intern_all_result, intern_result, lemma_intern, names_of,
    role_id, role_ids, role_index, role_name, well_formed, Role, RoleInterner, ROLE_ADMIN,
};
use vstd::laws_eq::obeys_concrete_eq;
use vstd::prelude::*;

verus! {

/// What a command that succeeded leaves in the log.
#[derive(Debug, PartialEq, Eq)]
pub enum Event<AccountId> {
    OrganizationCreated(OrgId, OrgName),
    AgentCreated(OrgId, AccountId),
}

/// An event in specifications.
pub enum EventView<AccountId> {
    OrganizationCreated(Seq<u8>, Seq<u8>),
    AgentCreated(Seq<u8>, AccountId),
}

impl<AccountId> View for Event<AccountId> {
    type V = EventView<AccountId>;

    open spec fn view(&self) -> EventView<AccountId> {
        match self {
            Event::OrganizationCreated(id, name) => EventView::OrganizationCreated(id@, name@),
            Event::AgentCreated(org_id, account) => EventView::AgentCreated(org_id@, *account),
        }
    }
}

impl<AccountId: Copy> Clone for Event<AccountId> {
    fn clone(&self) -> (copy: Self)
        ensures
            copy@ == self@,
    {
        match self {
            Event::OrganizationCreated(id, name) => Event::OrganizationCreated(
                bytes_to_vec(id.as_slice()),
                bytes_to_vec(name.as_slice()),
            ),
            Event::AgentCreated(org_id, account) => Event::AgentCreated(
                bytes_to_vec(org_id.as_slice()),
                *account,
            ),
        }
    }
}

/// The events in a vector of events.
pub open spec fn event_views<AccountId>(events: Seq<Event<AccountId>>) -> Seq<
    EventView<AccountId>,
> {
    Seq::new(events.len(), |i: int| events[i]@)
}

/// The state in specifications: the organizations by id, the agents by
/// account, the role names in the order of their ids, and the log.
#[verifier::reject_recursive_types(AccountId)]
pub struct ModuleView<AccountId> {
    pub organizations: Map<Seq<u8>, OrganizationView>,
    pub agents: Map<AccountId, AgentView<AccountId>>,
    pub roles: Seq<Seq<u8>>,
    pub events: Seq<EventView<AccountId>>,
}

impl<AccountId> ModuleView<AccountId> {
    /// An id is free for a new organization.
    pub open spec fn validate_new_org(self, id: Seq<u8>) -> Result<(), Error> {
        if self.organizations.contains_key(id) {
            Err(Error::OrganizationAlreadyExists)
        } else {
            Ok(())
        }
    }

    /// An id belongs to an organization.
    pub open spec fn validate_existing_org(self, id: Seq<u8>) -> Result<(), Error> {
        if self.organizations.contains_key(id) {
            Ok(())
        } else {
            Err(Error::OrganizationDoesNotExist)
        }
    }

    /// An account is free for a new agent.
    pub open spec fn validate_new_agent(self, account: AccountId) -> Result<(), Error> {
        if self.agents.contains_key(account) {
            Err(Error::AgentAlreadyExists)
        } else {
            Ok(())
        }
    }

    /// An account has an agent, the agent belongs to the organization, and
    /// it is active: asked in this order.
    pub open spec fn validate_is_org_active_agent(
        self,
        account: AccountId,
        org_id: Seq<u8>,
    ) -> Result<(), Error> {
        if !self.agents.contains_key(account) {
            Err(Error::SenderIsNotAnAgent)
        } else if self.agents[account].org_id != org_id {
            Err(Error::SenderMustBeOrgAgent)
        } else if !self.agents[account].active {
            Err(Error::SenderMustBeActiveAdmin)
        } else {
            Ok(())
        }
    }

    /// The admin role has an id and the account's agent holds it.
    pub open spec fn holds_admin_role(self, account: AccountId) -> bool {
        match role_id(self.roles, admin_role()) {
            Some(id) => self.agents[account].role_ids.contains(id),
            None => false,
        }
    }

    /// An account has an agent and the agent holds the admin role.
    pub open spec fn validate_is_agent_admin(self, account: AccountId) -> Result<(), Error> {
        if !self.agents.contains_key(account) {
            Err(Error::SenderIsNotAnAgent)
        } else if !self.holds_admin_role(account) {
            Err(Error::SenderMustBeOrgAdmin)
        } else {
            Ok(())
        }
    }

    /// An account is an active admin of an organization: it has an agent,
    /// the agent belongs to the organization, is active and holds the admin
    /// role.
    pub open spec fn is_admin(self, account: AccountId, org_id: Seq<u8>) -> bool {
        &&& self.agents.contains_key(account)
        &&& self.agents[account].org_id == org_id
        &&& self.agents[account].active
        &&& self.holds_admin_role(account)
    }

    /// The result of the command that creates an organization. The checks
    /// come in this order: the id, the name, that the id is free, that the
    /// sender has no agent yet, that the admin role has or can get an id.
    pub open spec fn create_org_check(
        self,
        sender: AccountId,
        id: Seq<u8>,
        name: Seq<u8>,
    ) -> Result<(), Error> {
        if let Err(e) = check_organization(OrganizationView { id, name }) {
            Err(e)
        } else if let Err(e) = self.validate_new_org(id) {
            Err(e)
        } else if let Err(e) = self.validate_new_agent(sender) {
            Err(e)
        } else if let Err(e) = intern_result(self.roles, admin_role()) {
            Err(e)
        } else {
            Ok(())
        }
    }

    /// The state after an organization was created: the organization is
    /// there, the admin role has an id, the sender is the organization's
    /// active agent with that one role, and the log holds both creations.
    pub open spec fn create_org(self, sender: AccountId, id: Seq<u8>, name: Seq<u8>) -> Self {
        let roles = intern(self.roles, admin_role());
        ModuleView {
            organizations: self.organizations.insert(id, OrganizationView { id, name }),
            agents: self.agents.insert(
                sender,
                AgentView {
                    org_id: id,
                    account: sender,
                    active: true,
                    role_ids: seq![role_index(roles, admin_role())],
                },
            ),
            roles,
            events: self.events.push(EventView::OrganizationCreated(id, name)).push(
                EventView::AgentCreated(id, sender),
            ),
        }
    }

    /// The result of the command that creates an agent. The checks come in
    /// this order: the organization's id, that the account has no agent yet,
    /// that the organization is there, that the sender is an agent, of this
    /// organization, active, and admin, that the ids suffice for the roles.
    pub open spec fn create_agent_check(
        self,
        sender: AccountId,
        org_id: Seq<u8>,
        account: AccountId,
        roles: Seq<Seq<u8>>,
    ) -> Result<(), Error> {
        if let Err(e) = check_org_id(org_id) {
            Err(e)
        } else if let Err(e) = self.validate_new_agent(account) {
            Err(e)
        } else if let Err(e) = self.validate_existing_org(org_id) {
            Err(e)
        } else if let Err(e) = self.validate_is_org_active_agent(sender, org_id) {
            Err(e)
        } else if let Err(e) = self.validate_is_agent_admin(sender) {
            Err(e)
        } else if let Err(e) = intern_all_result(self.roles, roles) {
            Err(e)
        } else {
            Ok(())
        }
    }

    /// The state after an agent was created: the roles have their ids, the
    /// account has its agent with those ids, and the log holds the creation.
    pub open spec fn create_agent(
        self,
        org_id: Seq<u8>,
        account: AccountId,
        active: bool,
        roles: Seq<Seq<u8>>,
    ) -> Self {
        let interned = intern_all(self.roles, roles);
        ModuleView {
            organizations: self.organizations,
            agents: self.agents.insert(
                account,
                AgentView { org_id, account, active, role_ids: role_ids(interned, roles) },
            ),
            roles: interned,
            events: self.events.push(EventView::AgentCreated(org_id, account)),
        }
    }
}

/// The registries of organizations, agents and roles, and the log of what
/// was created.
#[derive(Debug, PartialEq, Eq)]
pub struct Module<AccountId: Copy + PartialEq> {
    pub organizations: OrganizationRegistry,
    pub agents: AgentRegistry<AccountId>,
    pub roles: RoleInterner,
    pub events: Vec<Event<AccountId>>,
}

impl<AccountId: Copy + PartialEq> View for Module<AccountId> {
    type V = ModuleView<AccountId>;

    open spec fn view(&self) -> ModuleView<AccountId> {
        ModuleView {
            organizations: self.organizations@,
            agents: self.agents@,
            roles: self.roles@,
            events: event_views(self.events@),
        }
    }
}

impl<AccountId: Copy + PartialEq> Clone for Module<AccountId> {
    fn clone(&self) -> (copy: Self)
        ensures
            copy@ == self@,
    {
        let mut events: Vec<Event<AccountId>> = Vec::new();
        let mut i: usize = 0;
        while i < self.events.len()
            invariant
                i <= self.events@.len(),
                events@.len() == i,
                forall|j: int| 0 <= j < i ==> events@[j]@ == self.events@[j]@,
            decreases self.events@.len() - i,
        {
            events.push(self.events[i].clone());
            i += 1;
        }
        assert(event_views(events@) =~= event_views(self.events@));
        Module {
            organizations: self.organizations.clone(),
            agents: self.agents.clone(),
            roles: self.roles.clone(),
            events,
        }
    }
}

impl<AccountId: Copy + PartialEq + Default> Module<AccountId> {
    /// A state without organizations, agents, roles or events. It is for
    /// accounts whose `==` tells whether two accounts are the same.
    pub fn new() -> (module: Self)
        requires
            obeys_concrete_eq::<AccountId>(),
        ensures
            module@ == (ModuleView::<AccountId> {
                organizations: Map::empty(),
                agents: Map::empty(),
                roles: Seq::empty(),
                events: Seq::empty(),
            }),
    {
        let module = Module {
            organizations: OrganizationRegistry::new(),
            agents: AgentRegistry::new(),
            roles: RoleInterner::new(),
            events: Vec::new(),
        };
        assert(event_views(module.events@) =~= Seq::<EventView<AccountId>>::empty());
        module
    }

    /// The organization with the id `id`, if there is one.
    pub fn org_by_id(&self, id: &[u8]) -> (found: Option<Organization>)
        ensures
            match found {
                Some(org) => self@.organizations.contains_key(id@) && org@
                    == self@.organizations[id@],
                None => !self@.organizations.contains_key(id@),
            },
    {
        match self.organizations.get(id) {
            Some(org) => Some(org.clone()),
            None => None,
        }
    }

    /// The agent of the account `account`, if it has one.
    pub fn agent_by_account(&self, account: &AccountId) -> (found: Option<Agent<AccountId>>)
        ensures
            match found {
                Some(agent) => self@.agents.contains_key(*account) && agent@
                    == self@.agents[*account],
                None => !self@.agents.contains_key(*account),
            },
    {
        match self.agents.get(account) {
            Some(agent) => Some(agent.clone()),
            None => None,
        }
    }

    /// The name of the role with the id `index`; the empty name where no
    /// role has that id.
    pub fn role_by_index(&self, index: u32) -> (name: Role)
        ensures
            name@ == role_name(self@.roles, index),
    {
        self.roles.name_of(index)
    }

    /// The number of roles, which is also the id given out last.
    pub fn roles_count(&self) -> (count: u32)
        ensures
            count == self@.roles.len(),
    {
        self.roles.count()
    }

    /// The id of the role with the name `role`; 0 where no role has that
    /// name.
    pub fn role_index(&self, role: &[u8]) -> (index: u32)
        ensures
            index == role_index(self@.roles, role@),
    {
        match self.roles.id_of(role) {
            Some(id) => id,
            None => 0,
        }
    }

    /// Checks whether an account has the 'Admin' role for the specified
    /// organization: whether it has an agent that belongs to the
    /// organization, is active and holds the admin role.
    pub fn is_admin(&self, account: &AccountId, org_id: OrgId) -> (admin: bool)
        ensures
            admin == self@.is_admin(*account, org_id@),
    {
        match self.validate_is_org_active_agent(account, org_id) {
            Ok(_) => match self.validate_is_agent_admin(account) {
                Ok(_) => true,
                Err(_) => false,
            },
            Err(_) => false,
        }
    }

    /// Says whether `id` is free for a new organization.
    pub fn validate_new_org(&self, id: &[u8]) -> (result: Result<(), Error>)
        ensures
            result == self@.validate_new_org(id@),
    {
        if self.organizations.contains(id) {
            return Err(Error::OrganizationAlreadyExists);
        }
        Ok(())
    }

    /// Says whether an organization has the id `id`.
    pub fn validate_existing_org(&self, id: &[u8]) -> (result: Result<(), Error>)
        ensures
            result == self@.validate_existing_org(id@),
    {
        if !self.organizations.contains(id) {
            return Err(Error::OrganizationDoesNotExist);
        }
        Ok(())
    }

    /// Says whether the account `agent` is free for a new agent.
    pub fn validate_new_agent(&self, agent: &AccountId) -> (result: Result<(), Error>)
        ensures
            result == self@.validate_new_agent(*agent),
    {
        if self.agents.contains(agent) {
            return Err(Error::AgentAlreadyExists);
        }
        Ok(())
    }

    /// Says whether `account` has an agent that belongs to the organization
    /// `org_id` and is active; if not, which of the three is wanting first.
    pub fn validate_is_org_active_agent(&self, account: &AccountId, org_id: OrgId) -> (result:
        Result<(), Error>)
        ensures
            result == self@.validate_is_org_active_agent(*account, org_id@),
    {
        match self.agents.get(account) {
            Some(agent) => {
                if !bytes_eq(agent.org_id.as_slice(), org_id.as_slice()) {
                    return Err(Error::SenderMustBeOrgAgent);
                }
                if !agent.active {
                    return Err(Error::SenderMustBeActiveAdmin);
                }
                Ok(())
            },
            None => Err(Error::SenderIsNotAnAgent),
        }
    }

    /// Says whether `account` has an agent that holds the admin role.
    pub fn validate_is_agent_admin(&self, account: &AccountId) -> (result: Result<(), Error>)
        ensures
            result == self@.validate_is_agent_admin(*account),
    {
        let admin_role_id = self.roles.id_of(ROLE_ADMIN.as_slice());
        match self.agents.get(account) {
            Some(agent) => {
                match admin_role_id {
                    Some(id) => {
                        if !agent.has_role(id) {
                            return Err(Error::SenderMustBeOrgAdmin);
                        }
                        Ok(())
                    },
                    None => Err(Error::SenderMustBeOrgAdmin),
                }
            },
            None => Err(Error::SenderIsNotAnAgent),
        }
    }

    /// Gives the ids of `roles`, one for one, adding those names that are
    /// not yet known. Where the ids do not suffice, nothing is added.
    pub fn get_or_add_roles(&mut self, roles: Vec<Role>) -> (result: Result<Vec<u32>, Error>)
        ensures
            match result {
                Ok(ids) => intern_all_result(old(self)@.roles, names_of(roles@)) == Ok::<
                    Seq<u32>,
                    Error,
                >(ids@) && final(self)@ == (ModuleView {
                    roles: intern_all(old(self)@.roles, names_of(roles@)),
                    ..old(self)@
                }),
                Err(e) => intern_all_result(old(self)@.roles, names_of(roles@)) == Err::<
                    Seq<u32>,
                    Error,
                >(e) && final(self)@ == old(self)@,
            },
            well_formed(old(self)@.roles),
            well_formed(final(self)@.roles),
    {
        self.roles.intern_all(&roles)
    }

    /// Gives the id of `role`. A name that is not yet known is added and
    /// gets the next id; where no id is left, nothing is added.
    pub fn get_or_add_role_id(&mut self, role: Role) -> (result: Result<u32, Error>)
        ensures
            result == intern_result(old(self)@.roles, role@),
            final(self)@ == (if result is Ok {
                ModuleView { roles: intern(old(self)@.roles, role@), ..old(self)@ }
            } else {
                old(self)@
            }),
            well_formed(old(self)@.roles),
            well_formed(final(self)@.roles),
    {
        self.roles.intern(role.as_slice())
    }

    /// Creates an organization with the sender as its admin.
    pub fn create_org(&mut self, sender: AccountId, id: OrgId, name: OrgName) -> (result: Result<
        (),
        Error,
    >)
        ensures
            result == old(self)@.create_org_check(sender, id@, name@),
            final(self)@ == (if result is Ok {
                old(self)@.create_org(sender, id@, name@)
            } else {
                old(self)@
            }),
    {
        let org = OrganizationBuilder::default().with_id(
            bytes_to_vec(id.as_slice()),
        ).with_name(bytes_to_vec(name.as_slice())).build()?;
        self.validate_new_org(id.as_slice())?;
        let mut agent = AgentBuilder::<AccountId>::default().with_org(
            bytes_to_vec(id.as_slice()),
        ).with_account(sender).is_active(true).build()?;
        self.validate_new_agent(&sender)?;
        // Only now, all checks done, may the state change.
        let admin_role_id = self.get_or_add_role_id(bytes_to_vec(ROLE_ADMIN.as_slice()))?;
        proof {
            lemma_intern(old(self)@.roles, admin_role());
        }
        agent.role_ids = vec![admin_role_id];
        assert(agent@.role_ids =~= seq![admin_role_id]);

        self.organizations.insert(org);
        self.agents.insert(agent);
        self.events.push(Event::OrganizationCreated(bytes_to_vec(id.as_slice()), name));
        self.events.push(Event::AgentCreated(id, sender));
        assert(event_views(self.events@) =~= old(self)@.events.push(
            EventView::OrganizationCreated(id@, name@),
        ).push(EventView::AgentCreated(id@, sender)));
        Ok(())
    }

    /// Creates an agent of an organization for an account, on behalf of an
    /// active admin of that organization.
    pub fn create_agent(
        &mut self,
        sender: AccountId,
        org_id: OrgId,
        account: AccountId,
        active: bool,
        roles: Vec<Role>,
    ) -> (result: Result<(), Error>)
        ensures
            result == old(self)@.create_agent_check(sender, org_id@, account, names_of(roles@)),
            final(self)@ == (if result is Ok {
                old(self)@.create_agent(org_id@, account, active, names_of(roles@))
            } else {
                old(self)@
            }),
    {
        let mut agent = AgentBuilder::<AccountId>::default().with_org(
            bytes_to_vec(org_id.as_slice()),
        ).with_account(account).is_active(active).build()?;
        self.validate_new_agent(&account)?;
        self.validate_existing_org(org_id.as_slice())?;
        // The sender must be allowed to create agents of this organization.
        self.validate_is_org_active_agent(&sender, bytes_to_vec(org_id.as_slice()))?;
        self.validate_is_agent_admin(&sender)?;
        // Only now, all checks done, may the state change.
        agent.role_ids = self.get_or_add_roles(roles)?;
        self.agents.insert(agent);
        self.events.push(Event::AgentCreated(org_id, account));
        assert(event_views(self.events@) =~= old(self)@.events.push(
            EventView::AgentCreated(org_id@, account),
        ));
        Ok(())
    }
}

} // verus!
