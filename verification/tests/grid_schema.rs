use grid_registry::agents::Agent;
use grid_registry::error::{
    Error, ERR_ORG_DOES_NOT_EXIST, ERR_SCHEMA_ALREADY_EXISTS, ERR_SCHEMA_NAME_REQUIRED,
    ERR_SCHEMA_NAME_TOO_LONG, ERR_SENDER_IS_NOT_AN_AGENT, ERR_SENDER_MUST_BE_ACTIVE_ADMIN,
    ERR_SENDER_MUST_BE_ORG_AGENT,
};
use grid_registry::grid_pike::Module as PikeModule;
use grid_registry::grid_schema::{DataType, Module, Name, PropertyDefinition, Schema};
use grid_registry::organizations::{OrgId, OrgName, Organization};
use grid_registry::roles::ROLE_ADMIN;

type GridPike = PikeModule<u64>;
type GridSchema = Module;

const TEST_ORG_ID: &str = "did:example:123456789abcdefghijk";
const TEST_SCHEMA_NAME: &str = "asset";
const TEST_ORG_NAME: &str = "Parity Tech";
const TEST_EXISTING_ORG: &str = "did:example:azertyuiop";
const LONG_VALUE: &str = "Lorem ipsum dolor sit amet, consectetur adipiscing elit. Donec aliquam ut tortor nec congue. Pellente";

const TYPE_PROP: &[u8] = b"type";
const WEIGHT_PROP: &[u8] = b"weight";
const TEMP_PROP: &[u8] = b"temperature";
const LOCATION_PROP: &[u8] = b"location";

fn store_test_org(pike: &mut GridPike, id: OrgId, name: OrgName) {
    pike.organizations.insert(Organization { id: id, name: name });
}

fn store_test_agent(
    pike: &mut GridPike,
    account: u64,
    org_id: OrgId,
    active: bool,
    role_ids: Vec<u32>,
) {
    pike.agents.insert(Agent {
        org_id: org_id,
        account: account,
        active: active,
        role_ids: role_ids,
    });
}

fn store_admin_role(pike: &mut GridPike) -> u32 {
    pike.get_or_add_role_id(ROLE_ADMIN.to_vec())
        .expect("Overflow adding a new role")
}

fn store_test_schema(schemas: &mut GridSchema, name: Name, owner: OrgId) {
    schemas.schemas.insert(Schema {
        name,
        owner,
        properties: vec![],
    });
}

/// The command was refused with `message`, and left the state as it was.
fn assert_noop(
    schemas: &GridSchema,
    before: &GridSchema,
    result: Result<(), Error>,
    message: &str,
) {
    assert_eq!(result.map_err(|e| e.message()), Err(message));
    assert_eq!(schemas, before);
}

// create_schema tests
#[test]
fn create_schema_with_valid_args() {
    let mut pike = GridPike::new();
    let mut schemas = GridSchema::new();
    // Arrange
    let sender = 1;
    let schema = String::from(TEST_SCHEMA_NAME).into_bytes();
    let owner = String::from(TEST_ORG_ID).into_bytes();

    let properties = vec![
        PropertyDefinition { name: TYPE_PROP.to_vec(), data_type: DataType::String, required: true },
        PropertyDefinition { name: WEIGHT_PROP.to_vec(), data_type: DataType::Number, required: false },
        PropertyDefinition { name: TEMP_PROP.to_vec(), data_type: DataType::Number, required: false },
        PropertyDefinition { name: LOCATION_PROP.to_vec(), data_type: DataType::LatLong, required: false },
    ];

    // Store org & agent
    let admin_role_id = store_admin_role(&mut pike);
    store_test_org(&mut pike, owner.clone(), String::from(TEST_ORG_NAME).into_bytes());
    store_test_agent(&mut pike, sender, owner.clone(), true, vec![admin_role_id]);

    // Act
    let result =
        schemas.create_schema(&pike, sender, schema.clone(), owner.clone(), properties.clone());

    // Assert
    assert_eq!(result, Ok(()));

    assert_eq!(
        schemas.schema_by_name(&schema),
        Some(Schema {
            name: schema,
            owner: owner,
            properties: properties
        })
    );
}

#[test]
fn create_schema_with_missing_name() {
    let pike = GridPike::new();
    let mut schemas = GridSchema::new();
    let before = schemas.clone();
    let result =
        schemas.create_schema(&pike, 1, vec![], String::from(TEST_ORG_ID).into_bytes(), vec![]);
    assert_noop(&schemas, &before, result, ERR_SCHEMA_NAME_REQUIRED);
}

#[test]
fn create_schema_with_long_name() {
    let pike = GridPike::new();
    let mut schemas = GridSchema::new();
    let before = schemas.clone();
    let result = schemas.create_schema(
        &pike,
        1,
        String::from(LONG_VALUE).into_bytes(),
        String::from(TEST_ORG_ID).into_bytes(),
        vec![],
    );
    assert_noop(&schemas, &before, result, ERR_SCHEMA_NAME_TOO_LONG);
}

#[test]
fn create_schema_with_existing_name() {
    let pike = GridPike::new();
    let mut schemas = GridSchema::new();
    let existing = String::from(TEST_SCHEMA_NAME).into_bytes();
    let owner = String::from(TEST_ORG_NAME).into_bytes();

    store_test_schema(&mut schemas, existing.clone(), owner.clone());

    let before = schemas.clone();
    let result = schemas.create_schema(&pike, 1, existing, owner, vec![]);
    assert_noop(&schemas, &before, result, ERR_SCHEMA_ALREADY_EXISTS);
}

#[test]
fn create_schema_with_unknown_org() {
    let pike = GridPike::new();
    let mut schemas = GridSchema::new();
    let sender = 1;
    let schema = String::from(TEST_SCHEMA_NAME).into_bytes();
    let owner = String::from(TEST_ORG_NAME).into_bytes();

    let before = schemas.clone();
    let result = schemas.create_schema(&pike, sender, schema, owner, vec![]);
    assert_noop(&schemas, &before, result, ERR_ORG_DOES_NOT_EXIST);
}

#[test]
fn create_schema_with_unknown_sender() {
    let mut pike = GridPike::new();
    let mut schemas = GridSchema::new();
    let sender = 1;
    let schema = String::from(TEST_SCHEMA_NAME).into_bytes();
    let owner = String::from(TEST_ORG_NAME).into_bytes();

    let _admin_role_id = store_admin_role(&mut pike);
    store_test_org(&mut pike, owner.clone(), String::from(TEST_ORG_NAME).into_bytes());

    let before = schemas.clone();
    let result = schemas.create_schema(&pike, sender, schema, owner, vec![]);
    assert_noop(&schemas, &before, result, ERR_SENDER_IS_NOT_AN_AGENT);
}

#[test]
fn create_schema_with_invalid_sender() {
    let mut pike = GridPike::new();
    let mut schemas = GridSchema::new();
    let admin = 1;
    let owner = String::from(TEST_ORG_ID).into_bytes();
    let other_org = String::from(TEST_EXISTING_ORG).into_bytes();
    let org_name = String::from(TEST_ORG_NAME).into_bytes();
    let schema = String::from(TEST_SCHEMA_NAME).into_bytes();

    store_test_org(&mut pike, owner.clone(), org_name.clone());
    store_test_org(&mut pike, other_org.clone(), org_name.clone());
    store_test_agent(&mut pike, admin.clone(), other_org.clone(), true, vec![]);

    let before = schemas.clone();
    let result = schemas.create_schema(&pike, admin, schema, owner, vec![]);
    assert_noop(&schemas, &before, result, ERR_SENDER_MUST_BE_ORG_AGENT);
}

#[test]
fn create_schema_with_inactive_agent() {
    let mut pike = GridPike::new();
    let mut schemas = GridSchema::new();
    let admin = 1;
    let owner = String::from(TEST_ORG_ID).into_bytes();
    let org_name = String::from(TEST_ORG_NAME).into_bytes();
    let schema = String::from(TEST_SCHEMA_NAME).into_bytes();

    store_test_org(&mut pike, owner.clone(), org_name.clone());
    store_test_agent(&mut pike, admin.clone(), owner.clone(), false, vec![]);

    let before = schemas.clone();
    let result = schemas.create_schema(&pike, admin, schema, owner, vec![]);
    assert_noop(&schemas, &before, result, ERR_SENDER_MUST_BE_ACTIVE_ADMIN);
}
