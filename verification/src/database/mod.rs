//! The settings store and everything that decides what is handed to it.

pub mod backend;
pub mod cleanup;
pub mod composer;
pub mod migration;
pub mod sql;
pub mod sql_schema;
pub mod statements;
