//! The server registry: the data model of configured servers and the
//! manager that keeps them.

pub mod config;
pub mod types;
