//! Databases: connections, transactions, statements and rows.

pub mod bind;
pub mod connection;
pub mod extension;
pub mod failure;
pub mod global;
pub mod open;
pub mod pattern_laws;
pub mod query_laws;
pub mod row;
pub mod rows;
pub mod run_laws;
pub mod statement;
pub mod step_laws;
pub mod unpack;
pub mod vfs;
