use grid_registry::agents::Agent;
use grid_registry::error::{
    Error, ERR_AGENT_ALREADY_EXISTS, ERR_ORG_ALREADY_EXISTS, ERR_ORG_DOES_NOT_EXIST,
    ERR_ORG_ID_REQUIRED, ERR_ORG_ID_TOO_LONG, ERR_ORG_NAME_REQUIRED, ERR_ORG_NAME_TOO_LONG,
    ERR_SENDER_IS_NOT_AN_AGENT, ERR_SENDER_MUST_BE_ACTIVE_ADMIN, ERR_SENDER_MUST_BE_ORG_ADMIN,
    ERR_SENDER_MUST_BE_ORG_AGENT,
};
use grid_registry::grid_pike::Module;
use grid_registry::organizations::{OrgId, OrgName, Organization};
use grid_registry::roles::ROLE_ADMIN;

type GridPike = Module<u64>;

const TEST_ORG_ID: &str = "did:example:123456789abcdefghijk";
const TEST_ORG_NAME: &str = "Parity Tech";
const TEST_EXISTING_ORG: &str = "did:example:azertyuiop";
const LONG_VALUE: &str = "Lorem ipsum dolor sit amet, consectetur adipiscing elit. Donec aliquam ut tortor nec congue. Pellente";

fn store_test_org(pike: &mut GridPike, id: OrgId, name: OrgName) {
    pike.organizations.insert(Organization { id: id, name: name });
}

fn store_test_agent(
    pike: &mut GridPike,
    account: u64,
    org_id: OrgId,
    active: bool,
    role_ids: Vec<u32>,
) {
    pike.agents.insert(Agent {
        org_id: org_id,
        account: account,
        active: active,
        role_ids: role_ids,
    });
}

fn store_admin_role(pike: &mut GridPike) -> u32 {
    pike.get_or_add_role_id(ROLE_ADMIN.to_vec())
        .expect("Overflow adding a new role")
}

/// The command was refused with `message`, and left the state as it was.
fn assert_noop(pike: &GridPike, before: &GridPike, result: Result<(), Error>, message: &str) {
    assert_eq!(result.map_err(|e| e.message()), Err(message));
    assert_eq!(pike, before);
}

// create_org tests
#[test]
fn create_org_with_valid_args() {
    let mut pike = GridPike::new();
    // Arrange
    const ADMIN_ROLE_ID: u32 = 1;
    let sender = 1;
    let id = String::from(TEST_ORG_ID).into_bytes();
    let name = String::from(TEST_ORG_NAME).into_bytes();

    // Act
    let result = pike.create_org(sender, id.clone(), name.clone());

    // Assert
    assert_eq!(result, Ok(()));

    assert_eq!(
        pike.org_by_id(&id),
        Some(Organization {
            id: id.clone(),
            name: name
        })
    );

    assert_eq!(pike.role_by_index(1), ROLE_ADMIN.to_vec());

    assert_eq!(pike.roles_count(), 1);

    assert_eq!(pike.role_index(&ROLE_ADMIN.to_vec()), 1);

    assert_eq!(
        pike.agent_by_account(&sender),
        Some(Agent {
            org_id: id.clone(),
            account: sender,
            active: true,
            role_ids: vec![ADMIN_ROLE_ID]
        })
    );
}

#[test]
fn create_org_with_missing_id() {
    let mut pike = GridPike::new();
    let before = pike.clone();
    let result = pike.create_org(1, vec![], String::from(TEST_ORG_NAME).into_bytes());
    assert_noop(&pike, &before, result, ERR_ORG_ID_REQUIRED);
}

#[test]
fn create_org_with_long_id() {
    let mut pike = GridPike::new();
    let before = pike.clone();
    let result = pike.create_org(
        1,
        String::from(LONG_VALUE).into_bytes(),
        String::from(TEST_ORG_NAME).into_bytes(),
    );
    assert_noop(&pike, &before, result, ERR_ORG_ID_TOO_LONG);
}

#[test]
fn create_org_with_missing_name() {
    let mut pike = GridPike::new();
    let before = pike.clone();
    let result = pike.create_org(1, String::from(TEST_ORG_ID).into_bytes(), vec![]);
    assert_noop(&pike, &before, result, ERR_ORG_NAME_REQUIRED);
}

#[test]
fn create_org_with_long_name() {
    let mut pike = GridPike::new();
    let before = pike.clone();
    let result = pike.create_org(
        1,
        String::from(TEST_ORG_ID).into_bytes(),
        String::from(LONG_VALUE).into_bytes(),
    );
    assert_noop(&pike, &before, result, ERR_ORG_NAME_TOO_LONG);
}

#[test]
fn create_org_with_existing_id() {
    let mut pike = GridPike::new();
    let existing_org = String::from(TEST_EXISTING_ORG).into_bytes();
    let name = String::from(TEST_ORG_NAME).into_bytes();

    store_test_org(&mut pike, existing_org.clone(), name.clone());

    let before = pike.clone();
    let result = pike.create_org(1, existing_org, name);
    assert_noop(&pike, &before, result, ERR_ORG_ALREADY_EXISTS);
}

#[test]
fn create_org_with_existing_agent() {
    let mut pike = GridPike::new();
    // Arrange
    let sender = 1;
    let id = String::from(TEST_ORG_ID).into_bytes();
    let name = String::from(TEST_ORG_NAME).into_bytes();

    store_test_agent(
        &mut pike,
        sender.clone(),
        String::from(TEST_EXISTING_ORG).into_bytes(),
        true,
        vec![],
    );

    let before = pike.clone();
    let result = pike.create_org(sender, id, name);
    assert_noop(&pike, &before, result, ERR_AGENT_ALREADY_EXISTS);
}

// create_agent tests
#[test]
fn create_agent_with_valid_args() {
    let mut pike = GridPike::new();
    const ROLE_OPERATOR: &[u8] = b"operator";
    let admin = 1;
    let agent = 2;
    let id = String::from(TEST_ORG_ID).into_bytes();

    // Create org & admin agent
    let _admin_role_id = store_admin_role(&mut pike);
    store_test_org(&mut pike, id.clone(), String::from(TEST_ORG_NAME).into_bytes());
    store_test_agent(&mut pike, admin.clone(), id.clone(), true, vec![1]);

    // Send tx to create non-admin agent for org
    let result = pike.create_agent(admin, id.clone(), agent, true, vec![ROLE_OPERATOR.to_vec()]);

    assert_eq!(result, Ok(()));

    assert_eq!(
        pike.agent_by_account(&agent),
        Some(Agent {
            org_id: id.clone(),
            account: agent,
            active: true,
            role_ids: vec![2]
        })
    );

    assert_eq!(pike.role_by_index(2), ROLE_OPERATOR.to_vec());

    assert_eq!(pike.roles_count(), 2);

    assert_eq!(pike.role_index(&ROLE_OPERATOR.to_vec()), 2);
}

#[test]
fn create_agent_with_missing_org_id() {
    let mut pike = GridPike::new();
    let before = pike.clone();
    let result = pike.create_agent(1, vec![], 2, true, vec![]);
    assert_noop(&pike, &before, result, ERR_ORG_ID_REQUIRED);
}

#[test]
fn create_agent_with_long_org_id() {
    let mut pike = GridPike::new();
    let before = pike.clone();
    let result = pike.create_agent(1, String::from(LONG_VALUE).into_bytes(), 2, true, vec![]);
    assert_noop(&pike, &before, result, ERR_ORG_ID_TOO_LONG);
}

#[test]
fn create_agent_with_unknown_sender() {
    let mut pike = GridPike::new();
    let id = String::from(TEST_ORG_ID).into_bytes();

    store_test_org(&mut pike, id.clone(), String::from(TEST_ORG_NAME).into_bytes());

    let before = pike.clone();
    let result = pike.create_agent(1, id, 2, true, vec![]);
    assert_noop(&pike, &before, result, ERR_SENDER_IS_NOT_AN_AGENT);
}

#[test]
fn create_agent_with_unknown_org() {
    let mut pike = GridPike::new();
    let before = pike.clone();
    let result = pike.create_agent(1, String::from(TEST_ORG_ID).into_bytes(), 2, true, vec![]);
    assert_noop(&pike, &before, result, ERR_ORG_DOES_NOT_EXIST);
}

#[test]
fn create_agent_with_existing_account() {
    let mut pike = GridPike::new();
    let agent = 2;
    let id = String::from(TEST_ORG_ID).into_bytes();

    store_test_org(&mut pike, id.clone(), String::from(TEST_ORG_NAME).into_bytes());
    store_test_agent(&mut pike, agent.clone(), id.clone(), true, vec![]);

    let before = pike.clone();
    let result = pike.create_agent(1, id, agent, true, vec![]);
    assert_noop(&pike, &before, result, ERR_AGENT_ALREADY_EXISTS);
}

#[test]
fn create_agent_with_invalid_sender() {
    let mut pike = GridPike::new();
    let admin = 1;
    let agent = 2;
    let id = String::from(TEST_ORG_ID).into_bytes();
    let other_org = String::from(TEST_EXISTING_ORG).into_bytes();
    let org_name = String::from(TEST_ORG_NAME).into_bytes();

    store_test_org(&mut pike, id.clone(), org_name.clone());
    store_test_org(&mut pike, other_org.clone(), org_name.clone());
    store_test_agent(&mut pike, admin.clone(), other_org.clone(), true, vec![]);

    let before = pike.clone();
    let result = pike.create_agent(admin, id, agent, true, vec![]);
    assert_noop(&pike, &before, result, ERR_SENDER_MUST_BE_ORG_AGENT);
}

#[test]
fn create_agent_with_non_admin_account() {
    let mut pike = GridPike::new();
    let non_admin = 1;
    let agent = 2;
    let id = String::from(TEST_ORG_ID).into_bytes();

    store_test_org(&mut pike, id.clone(), String::from(TEST_ORG_NAME).into_bytes());
    store_test_agent(&mut pike, non_admin.clone(), id.clone(), true, vec![]);

    let before = pike.clone();
    let result = pike.create_agent(non_admin.clone(), id, agent, true, vec![]);
    assert_noop(&pike, &before, result, ERR_SENDER_MUST_BE_ORG_ADMIN);
}

#[test]
fn create_agent_with_inactive_admin_account() {
    let mut pike = GridPike::new();
    let admin = 1;
    let agent = 2;
    let id = String::from(TEST_ORG_ID).into_bytes();

    let admin_role_id = store_admin_role(&mut pike);
    store_test_org(&mut pike, id.clone(), String::from(TEST_ORG_NAME).into_bytes());
    store_test_agent(&mut pike, admin.clone(), id.clone(), false, vec![admin_role_id]);

    let before = pike.clone();
    let result = pike.create_agent(admin.clone(), id, agent, true, vec![]);
    assert_noop(&pike, &before, result, ERR_SENDER_MUST_BE_ACTIVE_ADMIN);
}

// is_admin tests
#[test]
fn is_admin_for_actual_org_admin() {
    let mut pike = GridPike::new();
    let agent = 1;
    let org_id = String::from(TEST_ORG_ID).into_bytes();

    // Put the records in place directly, to test the query on its own
    let admin_role_id = store_admin_role(&mut pike);
    store_test_org(&mut pike, org_id.clone(), String::from(TEST_ORG_NAME).into_bytes());
    store_test_agent(&mut pike, agent, org_id.clone(), true, vec![admin_role_id]);

    // Test is_admin method
    assert_eq!(pike.is_admin(&agent, org_id), true);
}

#[test]
fn is_admin_for_unknown_agent() {
    let pike = GridPike::new();
    let agent = 1;
    let org_id = String::from(TEST_ORG_ID).into_bytes();

    assert_eq!(pike.is_admin(&agent, org_id), false);
}

#[test]
fn is_admin_for_inactive_org_agent() {
    let mut pike = GridPike::new();
    let agent = 1;
    let org_id = String::from(TEST_ORG_ID).into_bytes();

    // Put the records in place directly, to test the query on its own
    let admin_role_id = store_admin_role(&mut pike);
    store_test_org(&mut pike, org_id.clone(), String::from(TEST_ORG_NAME).into_bytes());
    store_test_agent(&mut pike, agent, org_id.clone(), false, vec![admin_role_id]); // <-- /!\ Agent is inactive

    assert_eq!(pike.is_admin(&agent, org_id), false);
}

#[test]
fn is_admin_for_non_admin_org_agent() {
    let mut pike = GridPike::new();
    let agent = 1;
    let org_id = String::from(TEST_ORG_ID).into_bytes();

    // Put the records in place directly, to test the query on its own
    store_test_org(&mut pike, org_id.clone(), String::from(TEST_ORG_NAME).into_bytes());
    store_test_agent(&mut pike, agent, org_id.clone(), true, vec![]); // <-- /!\ Agent is not admin

    assert_eq!(pike.is_admin(&agent, org_id), false);
}

#[test]
fn is_admin_for_agent_org_mismatch() {
    let mut pike = GridPike::new();
    let agent = 1;
    let id = String::from(TEST_ORG_ID).into_bytes();
    let other_org = String::from(TEST_EXISTING_ORG).into_bytes();

    // Put the records in place directly, to test the query on its own
    let admin_role_id = store_admin_role(&mut pike);
    store_test_org(&mut pike, id.clone(), String::from(TEST_ORG_NAME).into_bytes());
    store_test_agent(&mut pike, agent, id.clone(), true, vec![admin_role_id]);

    assert_eq!(
        pike.is_admin(&agent, other_org), // <-- /!\ Agent is admin for another org
        false
    );
}
