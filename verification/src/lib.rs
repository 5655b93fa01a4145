//! Registries of organizations, of the agents that act for them and of the
//! schemas that they own, with the rules on who may add to them.

pub mod agents;
pub mod assoc;
pub mod bytes;
pub mod error;
pub mod grid_pike;
pub mod grid_schema;
pub mod laws;
pub mod organizations;
pub mod roles;
