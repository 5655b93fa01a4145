//! What holds of the commands, whatever the state and the arguments.
//!
//! The contracts of the commands give each result and each new state as a
//! function of the old state. The laws here are stated over those functions
//! and proved from them.

use crate::agents::AgentView;
use crate::bytes::within_limit;
use crate::error::{Error, ErrorKind};
use crate::grid_pike::ModuleView;
use crate::grid_schema::{PropertyDefinitionView, SchemaView};
use crate::organizations::OrganizationView;
use crate::roles::{
    admin_role, intern, intern_all, intern_all_result, intern_result, lemma_intern,
    lemma_intern_all, lemma_role_id_at, lemma_role_id_known, lemma_role_id_stable, role_id,
    role_ids, role_index, role_name, well_formed,
};
use vstd::prelude::*;

verus! {

/// The ids of the roles stand for names that the state knows.
pub open spec fn roles_issued(roles: Seq<Seq<u8>>, ids: Seq<u32>) -> bool {
    forall|i: int| 0 <= i < ids.len() ==> 1 <= #[trigger] ids[i] <= roles.len()
}

/// What the records promise of each other: no role name has two ids; each
/// organization stands under its own id, and its id and name have between
/// 1 and 100 bytes; each agent stands under its own account, belongs to an
/// organization that is there, and holds only ids that were given out.
pub open spec fn consistent<AccountId>(state: ModuleView<AccountId>) -> bool {
    &&& well_formed(state.roles)
    &&& forall|id: Seq<u8>| #[trigger]
        state.organizations.contains_key(id) ==> {
            &&& state.organizations[id].id == id
            &&& within_limit(id)
            &&& within_limit(state.organizations[id].name)
        }
    &&& forall|account: AccountId| #[trigger]
        state.agents.contains_key(account) ==> {
            &&& state.agents[account].account == account
            &&& state.organizations.contains_key(state.agents[account].org_id)
            &&& roles_issued(state.roles, state.agents[account].role_ids)
        }
}

/// What the schemas promise: each schema stands under its own name, the
/// name has between 1 and 100 bytes, and the owner is an organization that
/// is there.
pub open spec fn schemas_consistent<AccountId>(
    schemas: crate::grid_schema::ModuleView,
    pike: ModuleView<AccountId>,
) -> bool {
    forall|name: Seq<u8>| #[trigger]
        schemas.schemas.contains_key(name) ==> {
            &&& schemas.schemas[name].name == name
            &&& within_limit(name)
            &&& pike.organizations.contains_key(schemas.schemas[name].owner)
        }
}

/// Nothing that was there has gone or changed: the organizations and the
/// agents are as they were, each role name has the id that it had, and the
/// log has only grown.
pub open spec fn extends<AccountId>(
    before: ModuleView<AccountId>,
    after: ModuleView<AccountId>,
) -> bool {
    &&& before.organizations.submap_of(after.organizations)
    &&& before.agents.submap_of(after.agents)
    &&& before.roles.len() <= after.roles.len()
    &&& after.roles.subrange(0, before.roles.len() as int) == before.roles
    &&& before.events.len() <= after.events.len()
    &&& after.events.subrange(0, before.events.len() as int) == before.events
}

/// An organization with a well-shaped id and name is created where the id
/// is new, the sender has no agent yet and the admin role has or can get an
/// id. Once it is there, the same id is refused with a conflict, whoever
/// sends the command and whatever the name.
pub proof fn law_create_org_once<AccountId>(
    state: ModuleView<AccountId>,
    sender: AccountId,
    id: Seq<u8>,
    name: Seq<u8>,
    later_sender: AccountId,
    later_name: Seq<u8>,
)
    requires
        within_limit(id),
        within_limit(name),
        within_limit(later_name),
        !state.organizations.contains_key(id),
        !state.agents.contains_key(sender),
        intern_result(state.roles, admin_role()) is Ok,
    ensures
        state.create_org_check(sender, id, name) == Ok::<(), Error>(()),
        state.create_org(sender, id, name).create_org_check(later_sender, id, later_name)
            == Err::<(), Error>(Error::OrganizationAlreadyExists),
        Error::OrganizationAlreadyExists.kind_of() == ErrorKind::Conflict,
{
}

/// An id that is taken stays taken: after any further organization or
/// agent was created, the id is still refused with a conflict.
pub proof fn law_org_id_stays_taken<AccountId>(
    before: ModuleView<AccountId>,
    after: ModuleView<AccountId>,
    sender: AccountId,
    id: Seq<u8>,
    name: Seq<u8>,
)
    requires
        extends(before, after),
        before.organizations.contains_key(id),
        within_limit(id),
        within_limit(name),
    ensures
        after.create_org_check(sender, id, name) == Err::<(), Error>(
            Error::OrganizationAlreadyExists,
        ),
{
    assert(after.organizations.contains_key(id));
}

/// Who creates an organization is its admin afterwards. In a state without
/// roles the admin role gets the id 1, and that is the founder's one role.
pub proof fn law_founder_is_admin<AccountId>(
    state: ModuleView<AccountId>,
    sender: AccountId,
    id: Seq<u8>,
    name: Seq<u8>,
)
    requires
        well_formed(state.roles),
        state.create_org_check(sender, id, name) is Ok,
    ensures
        state.create_org(sender, id, name).is_admin(sender, id),
        state.roles.len() == 0 ==> {
            &&& role_id(state.create_org(sender, id, name).roles, admin_role()) == Some(1u32)
            &&& state.create_org(sender, id, name).agents[sender].role_ids == seq![1u32]
        },
{
    let after = state.create_org(sender, id, name);
    lemma_intern(state.roles, admin_role());
    lemma_role_id_known(after.roles, admin_role());
    let admin_id = role_index(after.roles, admin_role());
    assert(after.agents[sender].role_ids[0] == admin_id);
    if state.roles.len() == 0 {
        assert(after.roles[0] == admin_role());
        lemma_role_id_at(after.roles, 0);
    }
}

/// A name that was interned gets the same id when it is interned again,
/// and the second time adds nothing.
pub proof fn law_intern_twice(roles: Seq<Seq<u8>>, name: Seq<u8>)
    requires
        well_formed(roles),
        intern_result(roles, name) is Ok,
    ensures
        intern_result(intern(roles, name), name) == intern_result(roles, name),
        intern(intern(roles, name), name) == intern(roles, name),
{
    lemma_intern(roles, name);
    lemma_role_id_known(intern(roles, name), name);
}

/// A name keeps its id whatever is interned after it.
pub proof fn law_intern_keeps_ids(roles: Seq<Seq<u8>>, name: Seq<u8>, later: Seq<Seq<u8>>)
    requires
        well_formed(roles),
        roles.contains(name),
        intern_all_result(roles, later) is Ok,
    ensures
        role_id(intern_all(roles, later), name) == role_id(roles, name),
        intern_result(intern_all(roles, later), name) == intern_result(roles, name),
{
    lemma_intern_all(roles, later);
    lemma_role_id_stable(roles, intern_all(roles, later), name);
}

/// Names that differ from each other and from the names already known are
/// added in their order and get the next ids, one after the other.
pub proof fn law_new_names_get_next_ids(roles: Seq<Seq<u8>>, names: Seq<Seq<u8>>)
    requires
        well_formed(roles),
        names.no_duplicates(),
        forall|i: int| 0 <= i < names.len() ==> !roles.contains(#[trigger] names[i]),
        roles.len() + names.len() <= u32::MAX,
    ensures
        intern_all(roles, names) == roles + names,
        intern_all_result(roles, names) == Ok::<Seq<u32>, Error>(
            Seq::new(names.len(), |i: int| (roles.len() + i + 1) as u32),
        ),
    decreases names.len(),
{
    let after = intern_all(roles, names);
    if names.len() > 0 {
        let front = names.drop_last();
        // The names before the last are new as well, and so they were added.
        assert forall|i: int| 0 <= i < front.len() implies !roles.contains(
            #[trigger] front[i],
        ) by {
            assert(front[i] == names[i]);
        }
        law_new_names_get_next_ids(roles, front);
        // The last name is none of the names before it, so it is added behind them.
        let mid = roles + front;
        assert(!mid.contains(names.last())) by {
            if mid.contains(names.last()) {
                let k = choose|k: int| 0 <= k < mid.len() && mid[k] == names.last();
                if k < roles.len() {
                    assert(roles.contains(names[names.len() - 1]));
                } else {
                    assert(names[k - roles.len()] == names[names.len() - 1]);
                }
            }
        }
    }
    assert(after =~= roles + names);
    // The name at each place has the id that goes with the place.
    lemma_intern_all(roles, names);
    let ids = Seq::new(names.len(), |i: int| (roles.len() + i + 1) as u32);
    assert(role_ids(after, names) =~= ids) by {
        assert forall|i: int| 0 <= i < names.len() implies role_index(after, names[i])
            == ids[i] by {
            assert(after[roles.len() + i] == names[i]);
            lemma_role_id_at(after, roles.len() + i);
        }
    }
}

/// In a state without roles, interning names that differ from each other
/// gives them the ids 1, 2, 3 and so on, in their order.
pub proof fn law_fresh_ids_start_at_one(names: Seq<Seq<u8>>)
    requires
        names.no_duplicates(),
        names.len() <= u32::MAX,
    ensures
        intern_all(Seq::empty(), names) == names,
        intern_all_result(Seq::empty(), names) == Ok::<Seq<u32>, Error>(
            Seq::new(names.len(), |i: int| (i + 1) as u32),
        ),
{
    let none = Seq::<Seq<u8>>::empty();
    law_new_names_get_next_ids(none, names);
    assert(none + names =~= names);
    assert(Seq::new(names.len(), |i: int| (none.len() + i + 1) as u32) =~= Seq::new(
        names.len(),
        |i: int| (i + 1) as u32,
    ));
}

/// Names and ids stand one for one: a name's id leads back to the name,
/// names that differ have ids that differ, and each id from 1 to the number
/// of names is the id of the name that it leads to.
pub proof fn law_ids_and_names_agree(roles: Seq<Seq<u8>>, a: Seq<u8>, b: Seq<u8>, id: u32)
    requires
        well_formed(roles),
        roles.contains(a),
        roles.contains(b),
        1 <= id <= roles.len(),
    ensures
        1 <= role_index(roles, a) <= roles.len(),
        role_name(roles, role_index(roles, a)) == a,
        (role_id(roles, a) == role_id(roles, b)) <==> a == b,
        roles.contains(role_name(roles, id)),
        role_id(roles, role_name(roles, id)) == Some(id),
{
    lemma_role_id_known(roles, a);
    lemma_role_id_known(roles, b);
    lemma_role_id_at(roles, id - 1);
}

/// Where the organization's id is well shaped, the account is free and the
/// organization is there, the command that creates an agent is refused for
/// a sender that is no agent, that is an agent of another organization,
/// that is not active, or that is active and lacks the admin role: each
/// with its own failure, all of the authorization kind. It goes past these
/// checks only for an active admin of the organization.
pub proof fn law_create_agent_needs_admin<AccountId>(
    state: ModuleView<AccountId>,
    sender: AccountId,
    org_id: Seq<u8>,
    account: AccountId,
    roles: Seq<Seq<u8>>,
)
    requires
        within_limit(org_id),
        !state.agents.contains_key(account),
        state.organizations.contains_key(org_id),
    ensures
        !state.agents.contains_key(sender) ==> state.create_agent_check(
            sender,
            org_id,
            account,
            roles,
        ) == Err::<(), Error>(Error::SenderIsNotAnAgent),
        state.agents.contains_key(sender) && state.agents[sender].org_id != org_id
            ==> state.create_agent_check(sender, org_id, account, roles) == Err::<(), Error>(
            Error::SenderMustBeOrgAgent,
        ),
        state.agents.contains_key(sender) && state.agents[sender].org_id == org_id
            && !state.agents[sender].active ==> state.create_agent_check(
            sender,
            org_id,
            account,
            roles,
        ) == Err::<(), Error>(Error::SenderMustBeActiveAdmin),
        state.agents.contains_key(sender) && state.agents[sender].org_id == org_id
            && state.agents[sender].active && !state.holds_admin_role(sender)
            ==> state.create_agent_check(sender, org_id, account, roles) == Err::<(), Error>(
            Error::SenderMustBeOrgAdmin,
        ),
        state.is_admin(sender, org_id) ==> state.create_agent_check(
            sender,
            org_id,
            account,
            roles,
        ) == (match intern_all_result(state.roles, roles) {
            Ok(_) => Ok::<(), Error>(()),
            Err(e) => Err::<(), Error>(e),
        }),
        Error::SenderIsNotAnAgent.kind_of() == ErrorKind::Authorization,
        Error::SenderMustBeOrgAgent.kind_of() == ErrorKind::Authorization,
        Error::SenderMustBeActiveAdmin.kind_of() == ErrorKind::Authorization,
        Error::SenderMustBeOrgAdmin.kind_of() == ErrorKind::Authorization,
{
}

/// An agent is created only for an active admin of the organization: where
/// the command succeeds, the sender is one.
pub proof fn law_create_agent_only_by_admin<AccountId>(
    state: ModuleView<AccountId>,
    sender: AccountId,
    org_id: Seq<u8>,
    account: AccountId,
    roles: Seq<Seq<u8>>,
)
    requires
        state.create_agent_check(sender, org_id, account, roles) is Ok,
    ensures
        state.is_admin(sender, org_id),
{
}

/// An account is no admin of an organization where it has no agent, where
/// its agent is not active, where its agent lacks the admin role, or where
/// its agent belongs to another organization.
pub proof fn law_is_admin_false<AccountId>(
    state: ModuleView<AccountId>,
    account: AccountId,
    org_id: Seq<u8>,
)
    ensures
        !state.agents.contains_key(account) ==> !state.is_admin(account, org_id),
        state.agents.contains_key(account) && !state.agents[account].active
            ==> !state.is_admin(account, org_id),
        state.agents.contains_key(account) && !state.holds_admin_role(account)
            ==> !state.is_admin(account, org_id),
        state.agents.contains_key(account) && state.agents[account].org_id != org_id
            ==> !state.is_admin(account, org_id),
{
}

/// An account is an admin of an organization exactly where both checks on
/// it pass: that it is an active agent of the organization, and that its
/// agent holds the admin role.
pub proof fn law_is_admin_by_checks<AccountId>(
    state: ModuleView<AccountId>,
    account: AccountId,
    org_id: Seq<u8>,
)
    ensures
        state.is_admin(account, org_id) <==> state.validate_is_org_active_agent(account, org_id)
            is Ok && state.validate_is_agent_admin(account) is Ok,
{
}

/// The organization and the agent that a command created are found under
/// their keys, with the fields that the command was given.
pub proof fn law_created_org_is_found<AccountId>(
    state: ModuleView<AccountId>,
    sender: AccountId,
    id: Seq<u8>,
    name: Seq<u8>,
)
    ensures
        state.create_org(sender, id, name).organizations.contains_key(id),
        state.create_org(sender, id, name).organizations[id] == (OrganizationView { id, name }),
        state.create_org(sender, id, name).agents.contains_key(sender),
        state.create_org(sender, id, name).agents[sender].org_id == id,
        state.create_org(sender, id, name).agents[sender].account == sender,
        state.create_org(sender, id, name).agents[sender].active,
{
}

/// The agent that a command created is found under its account, with the
/// fields that the command was given and with the ids of its roles.
pub proof fn law_created_agent_is_found<AccountId>(
    state: ModuleView<AccountId>,
    org_id: Seq<u8>,
    account: AccountId,
    active: bool,
    roles: Seq<Seq<u8>>,
)
    requires
        well_formed(state.roles),
        intern_all_result(state.roles, roles) is Ok,
    ensures
        state.create_agent(org_id, account, active, roles).agents.contains_key(account),
        state.create_agent(org_id, account, active, roles).agents[account] == (AgentView {
            org_id,
            account,
            active,
            role_ids: role_ids(intern_all(state.roles, roles), roles),
        }),
        forall|i: int|
            0 <= i < roles.len() ==> role_name(
                state.create_agent(org_id, account, active, roles).roles,
                #[trigger] state.create_agent(
                    org_id,
                    account,
                    active,
                    roles,
                ).agents[account].role_ids[i],
            ) == roles[i],
{
    let after = state.create_agent(org_id, account, active, roles);
    lemma_intern_all(state.roles, roles);
    assert forall|i: int| 0 <= i < roles.len() implies role_name(
        after.roles,
        #[trigger] after.agents[account].role_ids[i],
    ) == roles[i] by {
        lemma_role_id_known(after.roles, roles[i]);
    }
}

/// The schema that a command created is found under its name, with the
/// fields that the command was given.
pub proof fn law_created_schema_is_found(
    state: crate::grid_schema::ModuleView,
    name: Seq<u8>,
    owner: Seq<u8>,
    properties: Seq<PropertyDefinitionView>,
)
    ensures
        state.create_schema(name, owner, properties).schemas.contains_key(name),
        state.create_schema(name, owner, properties).schemas[name] == (SchemaView {
            name,
            owner,
            properties,
        }),
{
}

/// Creating an organization takes nothing away and changes no record, and
/// it keeps the promises that the records make of each other.
pub proof fn law_create_org_preserves<AccountId>(
    state: ModuleView<AccountId>,
    sender: AccountId,
    id: Seq<u8>,
    name: Seq<u8>,
)
    requires
        well_formed(state.roles),
        state.create_org_check(sender, id, name) is Ok,
    ensures
        extends(state, state.create_org(sender, id, name)),
        consistent(state) ==> consistent(state.create_org(sender, id, name)),
{
    let after = state.create_org(sender, id, name);
    lemma_intern(state.roles, admin_role());
    assert(after.events.subrange(0, state.events.len() as int) =~= state.events);
    if consistent(state) {
        lemma_role_id_known(after.roles, admin_role());
        assert forall|account: AccountId| #[trigger]
            after.agents.contains_key(account) implies {
            &&& after.agents[account].account == account
            &&& after.organizations.contains_key(after.agents[account].org_id)
            &&& roles_issued(after.roles, after.agents[account].role_ids)
        } by {
            if account != sender {
                assert(state.agents.contains_key(account));
                assert(roles_issued(state.roles, state.agents[account].role_ids));
            }
        }
    }
}

/// Creating an agent takes nothing away and changes no record, and it keeps
/// the promises that the records make of each other.
pub proof fn law_create_agent_preserves<AccountId>(
    state: ModuleView<AccountId>,
    sender: AccountId,
    org_id: Seq<u8>,
    account: AccountId,
    active: bool,
    roles: Seq<Seq<u8>>,
)
    requires
        well_formed(state.roles),
        state.create_agent_check(sender, org_id, account, roles) is Ok,
    ensures
        extends(state, state.create_agent(org_id, account, active, roles)),
        consistent(state) ==> consistent(state.create_agent(org_id, account, active, roles)),
{
    let after = state.create_agent(org_id, account, active, roles);
    lemma_intern_all(state.roles, roles);
    assert(after.events.subrange(0, state.events.len() as int) =~= state.events);
    if consistent(state) {
        assert forall|other: AccountId| #[trigger]
            after.agents.contains_key(other) implies {
            &&& after.agents[other].account == other
            &&& after.organizations.contains_key(after.agents[other].org_id)
            &&& roles_issued(after.roles, after.agents[other].role_ids)
        } by {
            if other != account {
                assert(state.agents.contains_key(other));
                assert(roles_issued(state.roles, state.agents[other].role_ids));
            } else {
                assert forall|i: int| 0 <= i < roles.len() implies 1 <= #[trigger] role_ids(
                    after.roles,
                    roles,
                )[i] <= after.roles.len() by {
                    lemma_role_id_known(after.roles, roles[i]);
                }
            }
        }
    }
}

/// Creating a schema takes no schema away and changes none, and it keeps
/// the promises that the schemas make; so do the commands that create
/// organizations and agents, which take no organization away.
pub proof fn law_create_schema_preserves<AccountId>(
    schemas: crate::grid_schema::ModuleView,
    pike: ModuleView<AccountId>,
    later_pike: ModuleView<AccountId>,
    sender: AccountId,
    name: Seq<u8>,
    owner: Seq<u8>,
    properties: Seq<PropertyDefinitionView>,
)
    requires
        schemas.create_schema_check(pike, sender, name, owner) is Ok,
        extends(pike, later_pike),
    ensures
        schemas.schemas.submap_of(schemas.create_schema(name, owner, properties).schemas),
        schemas_consistent(schemas, pike) ==> schemas_consistent(
            schemas.create_schema(name, owner, properties),
            pike,
        ),
        schemas_consistent(schemas, pike) ==> schemas_consistent(schemas, later_pike),
{
    let after = schemas.create_schema(name, owner, properties);
    if schemas_consistent(schemas, pike) {
        assert forall|n: Seq<u8>| #[trigger] schemas.schemas.contains_key(n) implies {
            &&& schemas.schemas[n].name == n
            &&& within_limit(n)
            &&& later_pike.organizations.contains_key(schemas.schemas[n].owner)
        } by {
            assert(pike.organizations.contains_key(schemas.schemas[n].owner));
        }
    }
}

/// A schema is created only for an active agent of its owner; the admin
/// role is not asked for.
pub proof fn law_create_schema_by_active_agent<AccountId>(
    schemas: crate::grid_schema::ModuleView,
    pike: ModuleView<AccountId>,
    sender: AccountId,
    name: Seq<u8>,
    owner: Seq<u8>,
)
    requires
        within_limit(name),
        within_limit(owner),
        !schemas.schemas.contains_key(name),
        pike.organizations.contains_key(owner),
    ensures
        schemas.create_schema_check(pike, sender, name, owner) is Ok <==> {
            &&& pike.agents.contains_key(sender)
            &&& pike.agents[sender].org_id == owner
            &&& pike.agents[sender].active
        },
{
}

/// The state without records keeps the promises that records make of each
/// other.
pub proof fn law_empty_is_consistent<AccountId>()
    ensures
        consistent(
            ModuleView::<AccountId> {
                organizations: Map::empty(),
                agents: Map::empty(),
                roles: Seq::empty(),
                events: Seq::empty(),
            },
        ),
{
}

/// Whether an organization is created depends on three things only: on
/// whether its id is taken, on whether the sender has an agent, and on the
/// role names.
pub proof fn law_create_org_reads<AccountId>(
    a: ModuleView<AccountId>,
    b: ModuleView<AccountId>,
    sender: AccountId,
    id: Seq<u8>,
    name: Seq<u8>,
)
    requires
        a.organizations.contains_key(id) == b.organizations.contains_key(id),
        a.agents.contains_key(sender) == b.agents.contains_key(sender),
        a.roles == b.roles,
    ensures
        a.create_org_check(sender, id, name) == b.create_org_check(sender, id, name),
{
}

/// Whether an agent is created depends on four things only: on whether the
/// account has an agent, on whether the organization is there, on the
/// sender's agent, and on the role names.
pub proof fn law_create_agent_reads<AccountId>(
    a: ModuleView<AccountId>,
    b: ModuleView<AccountId>,
    sender: AccountId,
    org_id: Seq<u8>,
    account: AccountId,
    roles: Seq<Seq<u8>>,
)
    requires
        a.agents.contains_key(account) == b.agents.contains_key(account),
        a.organizations.contains_key(org_id) == b.organizations.contains_key(org_id),
        a.agents.contains_key(sender) == b.agents.contains_key(sender),
        a.agents.contains_key(sender) ==> a.agents[sender] == b.agents[sender],
        a.roles == b.roles,
    ensures
        a.create_agent_check(sender, org_id, account, roles) == b.create_agent_check(
            sender,
            org_id,
            account,
            roles,
        ),
        a.is_admin(sender, org_id) == b.is_admin(sender, org_id),
{
}

/// Whether a schema is created depends on three things only: on whether
/// its name is taken, on whether the owner is there, and on the sender's
/// agent.
pub proof fn law_create_schema_reads<AccountId>(
    a: crate::grid_schema::ModuleView,
    b: crate::grid_schema::ModuleView,
    pike_a: ModuleView<AccountId>,
    pike_b: ModuleView<AccountId>,
    sender: AccountId,
    name: Seq<u8>,
    owner: Seq<u8>,
)
    requires
        a.schemas.contains_key(name) == b.schemas.contains_key(name),
        pike_a.organizations.contains_key(owner) == pike_b.organizations.contains_key(owner),
        pike_a.agents.contains_key(sender) == pike_b.agents.contains_key(sender),
        pike_a.agents.contains_key(sender) ==> pike_a.agents[sender] == pike_b.agents[sender],
    ensures
        a.create_schema_check(pike_a, sender, name, owner) == b.create_schema_check(
            pike_b,
            sender,
            name,
            owner,
        ),
{
}

} // verus!
