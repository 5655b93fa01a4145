use grid_registry::agents::Agent;
use grid_registry::error::Error;
use grid_registry::grid_pike::Module;
use grid_registry::grid_schema::Module as SchemaModule;
use grid_registry::organizations::Organization;

/// The state after a few commands.
fn whole() -> Module<u64> {
    let mut pike = Module::<u64>::new();
    assert_eq!(pike.create_org(1, b"O1".to_vec(), b"One".to_vec()), Ok(()));
    assert_eq!(pike.create_org(2, b"O2".to_vec(), b"Two".to_vec()), Ok(()));
    assert_eq!(pike.create_agent(1, b"O1".to_vec(), 3, false, vec![b"operator".to_vec()]), Ok(()));
    assert_eq!(pike.create_agent(2, b"O2".to_vec(), 4, true, vec![b"auditor".to_vec()]), Ok(()));
    pike
}

/// Of the whole state the role names, these organizations and the agents
/// of these accounts.
fn part(whole: &Module<u64>, org_ids: &[&[u8]], accounts: &[u64]) -> Module<u64> {
    let mut pike = Module::<u64>::new();
    for index in 1..=whole.roles_count() {
        assert_eq!(pike.get_or_add_role_id(whole.role_by_index(index)), Ok(index));
    }
    for org_id in org_ids {
        if let Some(org) = whole.org_by_id(org_id) {
            pike.organizations.insert(org);
        }
    }
    for account in accounts {
        if let Some(agent) = whole.agent_by_account(account) {
            pike.agents.insert(agent);
        }
    }
    pike
}

#[test]
fn create_org_reads_the_id_the_sender_and_the_roles() {
    let whole = whole();
    let cases: [(u64, &[u8]); 4] = [(9, b"O9"), (9, b"O1"), (1, b"O9"), (3, b"O2")];
    for (sender, id) in cases {
        let mut all = whole.clone();
        let mut some = part(&whole, &[id], &[sender]);
        let expected = all.create_org(sender, id.to_vec(), b"Name".to_vec());
        assert_eq!(some.create_org(sender, id.to_vec(), b"Name".to_vec()), expected);
        assert_eq!(some.org_by_id(id), all.org_by_id(id));
        assert_eq!(some.agent_by_account(&sender), all.agent_by_account(&sender));
        assert_eq!(some.roles, all.roles);
    }
}

#[test]
fn create_agent_reads_the_organization_both_accounts_and_the_roles() {
    let whole = whole();
    let cases: [(u64, &[u8], u64); 7] = [
        (1, b"O1", 9),
        (1, b"O2", 9),
        (2, b"O2", 9),
        (3, b"O1", 9),
        (4, b"O2", 9),
        (8, b"O1", 9),
        (1, b"O1", 3),
    ];
    for (sender, org_id, account) in cases {
        let mut all = whole.clone();
        let mut some = part(&whole, &[org_id], &[sender, account]);
        let roles = vec![b"auditor".to_vec(), b"clerk".to_vec()];
        let expected = all.create_agent(sender, org_id.to_vec(), account, true, roles.clone());
        assert_eq!(some.create_agent(sender, org_id.to_vec(), account, true, roles), expected);
        assert_eq!(some.agent_by_account(&account), all.agent_by_account(&account));
        assert_eq!(some.roles, all.roles);
        assert_eq!(
            some.is_admin(&sender, org_id.to_vec()),
            all.is_admin(&sender, org_id.to_vec())
        );
    }
}

#[test]
fn create_schema_reads_the_owner_and_the_sender() {
    let whole = whole();
    let cases: [(u64, &[u8], Result<(), Error>); 5] = [
        (1, b"O1", Ok(())),
        (4, b"O2", Ok(())),
        (3, b"O1", Err(Error::SenderMustBeActiveAdmin)),
        (1, b"O2", Err(Error::SenderMustBeOrgAgent)),
        (1, b"O9", Err(Error::OrganizationDoesNotExist)),
    ];
    for (sender, owner, expected) in cases {
        let some = part(&whole, &[owner], &[sender]);
        let mut with_all = SchemaModule::new();
        let mut with_some = SchemaModule::new();
        assert_eq!(
            with_all.create_schema(&whole, sender, b"asset".to_vec(), owner.to_vec(), vec![]),
            expected
        );
        assert_eq!(
            with_some.create_schema(&some, sender, b"asset".to_vec(), owner.to_vec(), vec![]),
            expected
        );
        assert_eq!(with_some, with_all);
    }
}

#[test]
fn records_put_in_place_directly_are_read_by_the_commands() {
    let mut pike = Module::<u64>::new();
    pike.organizations.insert(Organization { id: b"O1".to_vec(), name: b"One".to_vec() });
    assert_eq!(pike.get_or_add_role_id(b"admin".to_vec()), Ok(1));
    pike.agents.insert(Agent { org_id: b"O1".to_vec(), account: 1, active: true, role_ids: vec![1] });
    assert!(pike.is_admin(&1, b"O1".to_vec()));
    assert_eq!(pike.create_agent(1, b"O1".to_vec(), 2, true, vec![]), Ok(()));
    assert_eq!(pike.events.len(), 1);
}
