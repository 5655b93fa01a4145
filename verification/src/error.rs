//! The failures that a command can end in, each with its kind and its message.

use vstd::prelude::*;

verus! {

// The messages, one for each failure.
pub const ERR_ORG_ID_REQUIRED: &'static str = "Organization ID required";

pub const ERR_ORG_ID_TOO_LONG: &'static str = "Organization ID too long";

pub const ERR_ORG_NAME_REQUIRED: &'static str = "Organization name required";

pub const ERR_ORG_NAME_TOO_LONG: &'static str = "Organization name too long";

pub const ERR_ORG_ALREADY_EXISTS: &'static str = "Organization already exists";

pub const ERR_ORG_DOES_NOT_EXIST: &'static str = "Organization does not exist";

pub const ERR_AGENT_ALREADY_EXISTS: &'static str = "Agent already exists";

pub const ERR_SENDER_IS_NOT_AN_AGENT: &'static str = "Sender must be a known organization agent";

pub const ERR_SENDER_MUST_BE_ORG_AGENT: &'static str =
    "Sender must be agent of the specified organization";

pub const ERR_SENDER_MUST_BE_ORG_ADMIN: &'static str = "Sender must be organization admin";

pub const ERR_SENDER_MUST_BE_ACTIVE_ADMIN: &'static str =
    "Sender must be an active organization admin";

pub const ERR_ROLE_OVERFLOW: &'static str = "Overflow adding a new role";

pub const ERR_SCHEMA_NAME_REQUIRED: &'static str = "Schema name required";

pub const ERR_SCHEMA_NAME_TOO_LONG: &'static str = "Schema name too long";

pub const ERR_SCHEMA_ALREADY_EXISTS: &'static str = "Schema already exists";

/// What went wrong, in broad terms.
#[derive(Clone, Copy, Debug, PartialEq, Eq, Structural)]
pub enum ErrorKind {
    /// A field is missing or longer than the limit.
    Validation,
    /// The entity to create is already there.
    Conflict,
    /// An organization that the command refers to is not there.
    NotFound,
    /// The sender may not do what the command asks.
    Authorization,
    /// No role id is left to give out.
    AllocationOverflow,
}

/// Why a command was rejected.
#[derive(Clone, Copy, Debug, PartialEq, Eq, Structural)]
pub enum Error {
    OrgIdRequired,
    OrgIdTooLong,
    OrgNameRequired,
    OrgNameTooLong,
    SchemaNameRequired,
    SchemaNameTooLong,
    OrganizationAlreadyExists,
    AgentAlreadyExists,
    SchemaAlreadyExists,
    OrganizationDoesNotExist,
    SenderIsNotAnAgent,
    SenderMustBeOrgAgent,
    SenderMustBeActiveAdmin,
    SenderMustBeOrgAdmin,
    AllocationOverflow,
}

impl Error {
    /// The kind that each failure belongs to.
    pub open spec fn kind_of(self) -> ErrorKind {
        match self {
            Error::OrgIdRequired
            | Error::OrgIdTooLong
            | Error::OrgNameRequired
            | Error::OrgNameTooLong
            | Error::SchemaNameRequired
            | Error::SchemaNameTooLong => ErrorKind::Validation,
            Error::OrganizationAlreadyExists
            | Error::AgentAlreadyExists
            | Error::SchemaAlreadyExists => ErrorKind::Conflict,
            Error::OrganizationDoesNotExist => ErrorKind::NotFound,
            Error::SenderIsNotAnAgent
            | Error::SenderMustBeOrgAgent
            | Error::SenderMustBeActiveAdmin
            | Error::SenderMustBeOrgAdmin => ErrorKind::Authorization,
            Error::AllocationOverflow => ErrorKind::AllocationOverflow,
        }
    }

    /// The message that each failure carries.
    pub open spec fn text(self) -> &'static str {
        match self {
            Error::OrgIdRequired => ERR_ORG_ID_REQUIRED,
            Error::OrgIdTooLong => ERR_ORG_ID_TOO_LONG,
            Error::OrgNameRequired => ERR_ORG_NAME_REQUIRED,
            Error::OrgNameTooLong => ERR_ORG_NAME_TOO_LONG,
            Error::SchemaNameRequired => ERR_SCHEMA_NAME_REQUIRED,
            Error::SchemaNameTooLong => ERR_SCHEMA_NAME_TOO_LONG,
            Error::OrganizationAlreadyExists => ERR_ORG_ALREADY_EXISTS,
            Error::AgentAlreadyExists => ERR_AGENT_ALREADY_EXISTS,
            Error::SchemaAlreadyExists => ERR_SCHEMA_ALREADY_EXISTS,
            Error::OrganizationDoesNotExist => ERR_ORG_DOES_NOT_EXIST,
            Error::SenderIsNotAnAgent => ERR_SENDER_IS_NOT_AN_AGENT,
            Error::SenderMustBeOrgAgent => ERR_SENDER_MUST_BE_ORG_AGENT,
            Error::SenderMustBeActiveAdmin => ERR_SENDER_MUST_BE_ACTIVE_ADMIN,
            Error::SenderMustBeOrgAdmin => ERR_SENDER_MUST_BE_ORG_ADMIN,
            Error::AllocationOverflow => ERR_ROLE_OVERFLOW,
        }
    }

    /// The kind that the failure belongs to.
    pub fn kind(&self) -> (kind: ErrorKind)
        ensures
            kind == self.kind_of(),
    {
        match self {
            Error::OrgIdRequired
            | Error::OrgIdTooLong
            | Error::OrgNameRequired
            | Error::OrgNameTooLong
            | Error::SchemaNameRequired
            | Error::SchemaNameTooLong => ErrorKind::Validation,
            Error::OrganizationAlreadyExists
            | Error::AgentAlreadyExists
            | Error::SchemaAlreadyExists => ErrorKind::Conflict,
            Error::OrganizationDoesNotExist => ErrorKind::NotFound,
            Error::SenderIsNotAnAgent
            | Error::SenderMustBeOrgAgent
            | Error::SenderMustBeActiveAdmin
            | Error::SenderMustBeOrgAdmin => ErrorKind::Authorization,
            Error::AllocationOverflow => ErrorKind::AllocationOverflow,
        }
    }

    /// The message that the failure carries.
    pub fn message(&self) -> (message: &'static str)
        ensures
            message == self.text(),
    {
        match self {
            Error::OrgIdRequired => ERR_ORG_ID_REQUIRED,
            Error::OrgIdTooLong => ERR_ORG_ID_TOO_LONG,
            Error::OrgNameRequired => ERR_ORG_NAME_REQUIRED,
            Error::OrgNameTooLong => ERR_ORG_NAME_TOO_LONG,
            Error::SchemaNameRequired => ERR_SCHEMA_NAME_REQUIRED,
            Error::SchemaNameTooLong => ERR_SCHEMA_NAME_TOO_LONG,
            Error::OrganizationAlreadyExists => ERR_ORG_ALREADY_EXISTS,
            Error::AgentAlreadyExists => ERR_AGENT_ALREADY_EXISTS,
            Error::SchemaAlreadyExists => ERR_SCHEMA_ALREADY_EXISTS,
            Error::OrganizationDoesNotExist => ERR_ORG_DOES_NOT_EXIST,
            Error::SenderIsNotAnAgent => ERR_SENDER_IS_NOT_AN_AGENT,
            Error::SenderMustBeOrgAgent => ERR_SENDER_MUST_BE_ORG_AGENT,
            Error::SenderMustBeActiveAdmin => ERR_SENDER_MUST_BE_ACTIVE_ADMIN,
            Error::SenderMustBeOrgAdmin => ERR_SENDER_MUST_BE_ORG_ADMIN,
            Error::AllocationOverflow => ERR_ROLE_OVERFLOW,
        }
    }
}

} // verus!
