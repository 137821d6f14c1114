//! The installed servers, their environment and the answers of the registries: what each
//! operation of the store reads and changes. An operation that ends in `_conn` works on the schema
//! as it is; the others bring the schema up to date first.

pub mod cache;
pub mod custom;
pub mod edit;
pub mod insert;
pub mod query;
pub mod values;
