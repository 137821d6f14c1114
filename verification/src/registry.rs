//! Installed tool servers: what is known of one, where it is kept, and which ones start at boot.

pub mod boot;
pub mod database;
pub mod env;
pub mod rows;
pub mod schema;
pub mod store;
pub mod types;
